# person_service

Person registration for a multi-tenant service, as a Verus library with a thin
HTTP/PostgreSQL program around it.

- `src/value_objects`: CPF, CNPJ and postal codes, read from text with every
  rule of validity stated and proved (check digits included).
- `src/entities`: people, addresses (one main address at most, exactly one when
  there are any) and outbox events.
- `src/application`: what registration decides around the store's answers.
- `src/http`, `src/persistence`: conversion of client and stored data.
- `app/`: the axum server, the PostgreSQL stores and the JSON shapes.
