//! What the stores decide on plain values: how a stored person's kind and
//! documents are read back, and how a stored postal code is checked.
use vstd::prelude::*;
use crate::entities::person::PersonData;
use crate::ports::person_repository::PersonError;
use crate::text;
use crate::value_objects::cnpj::{self, Cnpj};
use crate::value_objects::cpf::{self, Cpf};
use crate::value_objects::zip_code::{self, ZipCode};

verus! {

/// The outbox store backed by PostgreSQL; it writes within the caller's
/// transaction and holds nothing of its own.
#[derive(Debug, Clone, Copy, PartialEq, Eq, Structural)]
pub struct PostgresOutboxRepository;

impl PostgresOutboxRepository {
    /// The outbox store.
    pub fn new() -> (r: Self)
        ensures
            r == PostgresOutboxRepository,
    {
        Self
    }
}

/// What a stored person row reads back as: an `individual` needs a valid CPF,
/// a `legal_entity` a valid CNPJ (its trade name is taken as stored); a
/// missing document, an invalid one or any other kind is a database error.
pub open spec fn stored_person_data_is(
    person_type: Seq<char>,
    individual_tax_id: Option<String>,
    legal_business_tax_id: Option<String>,
    legal_trade_name: Option<String>,
    r: Result<PersonData, PersonError>,
) -> bool {
    if person_type == "individual"@ {
        match individual_tax_id {
            None => r matches Err(PersonError::DatabaseError(m)) && m@ == "Missing individual data"@,
            Some(t) => match cpf::cpf_parse(t@) {
                Ok(d) => r matches Ok(PersonData::Individual { tax_id: c }) && c@ == d,
                Err(e) => r matches Err(PersonError::DatabaseError(m)) && m@ == "Invalid CPF in database: "@
                    + cpf::cpf_error_message(e),
            },
        }
    } else if person_type == "legal_entity"@ {
        match legal_business_tax_id {
            None => r matches Err(PersonError::DatabaseError(m)) && m@ == "Missing legal entity data"@,
            Some(t) => match cnpj::cnpj_parse(t@) {
                Ok(d) => r matches Ok(PersonData::LegalEntity { business_tax_id: c, trade_name: n }) && c@ == d
                    && n == legal_trade_name,
                Err(e) => r matches Err(PersonError::DatabaseError(m)) && m@ == "Invalid CNPJ in database: "@
                    + cnpj::cnpj_error_message(e),
            },
        }
    } else {
        r matches Err(PersonError::DatabaseError(m)) && m@ == "Unknown person type"@
    }
}

/// Reads back the kind and document of a stored person (see `stored_person_data_is`).
pub fn stored_person_data(
    person_type: &str,
    individual_tax_id: Option<String>,
    legal_business_tax_id: Option<String>,
    legal_trade_name: Option<String>,
) -> (r: Result<PersonData, PersonError>)
    ensures
        stored_person_data_is(person_type@, individual_tax_id, legal_business_tax_id, legal_trade_name, r),
{
    if text::str_equals(person_type, "individual") {
        match individual_tax_id {
            None => Err(PersonError::DatabaseError("Missing individual data".to_owned())),
            Some(t) => match Cpf::new(t.as_str()) {
                Ok(c) => Ok(PersonData::Individual { tax_id: c }),
                Err(e) => {
                    let mut m = "Invalid CPF in database: ".to_owned();
                    m.append(e.message().as_str());
                    Err(PersonError::DatabaseError(m))
                },
            },
        }
    } else if text::str_equals(person_type, "legal_entity") {
        match legal_business_tax_id {
            None => Err(PersonError::DatabaseError("Missing legal entity data".to_owned())),
            Some(t) => match Cnpj::new(t.as_str()) {
                Ok(c) => Ok(PersonData::LegalEntity { business_tax_id: c, trade_name: legal_trade_name }),
                Err(e) => {
                    let mut m = "Invalid CNPJ in database: ".to_owned();
                    m.append(e.message().as_str());
                    Err(PersonError::DatabaseError(m))
                },
            },
        }
    } else {
        Err(PersonError::DatabaseError("Unknown person type".to_owned()))
    }
}

/// Reads back a stored postal code for `country`: one that is not valid is a
/// database error carrying the description of its error.
pub fn stored_zip_code(code: &str, country: &str) -> (r: Result<ZipCode, PersonError>)
    ensures
        match zip_code::zip_code_parse(code@, country@) {
            Ok(z) => r matches Ok(zc) && zc@ == z,
            Err(e) => r matches Err(PersonError::DatabaseError(m)) && m@ == zip_code::zip_code_error_message(e),
        },
{
    match ZipCode::new(code, country) {
        Ok(z) => Ok(z),
        Err(e) => Err(PersonError::DatabaseError(e.message())),
    }
}

} // verus!
