use person_service::entities::person::PersonData;
use person_service::persistence::{stored_person_data, stored_zip_code, PostgresOutboxRepository};
use person_service::ports::person_repository::PersonError;

fn db_error(msg: &str) -> PersonError {
    PersonError::DatabaseError(msg.to_string())
}

#[test]
fn stored_individual_reads_back() {
    let data = stored_person_data("individual", Some("52998224725".to_string()), None, None).unwrap();
    assert_eq!(data.tax_id(), "52998224725");
    assert_eq!(data.person_type(), "individual");
}

#[test]
fn stored_legal_entity_reads_back_with_trade_name() {
    let data = stored_person_data(
        "legal_entity",
        None,
        Some("12345678000195".to_string()),
        Some("Acme".to_string()),
    )
    .unwrap();
    match data {
        PersonData::LegalEntity { business_tax_id, trade_name } => {
            assert_eq!(business_tax_id.as_str(), "12345678000195");
            assert_eq!(trade_name, Some("Acme".to_string()));
        }
        other => panic!("unexpected {:?}", other),
    }
}

#[test]
fn broken_stored_rows_are_database_errors() {
    assert_eq!(
        stored_person_data("individual", None, None, None).unwrap_err(),
        db_error("Missing individual data")
    );
    assert_eq!(
        stored_person_data("individual", Some("12345678900".to_string()), None, None).unwrap_err(),
        db_error("Invalid CPF in database: Invalid CPF checksum")
    );
    assert_eq!(
        stored_person_data("legal_entity", None, None, None).unwrap_err(),
        db_error("Missing legal entity data")
    );
    assert_eq!(
        stored_person_data("legal_entity", None, Some("123".to_string()), None).unwrap_err(),
        db_error("Invalid CNPJ in database: Invalid CNPJ length: expected 14 digits")
    );
    assert_eq!(
        stored_person_data("foreign", None, None, None).unwrap_err(),
        db_error("Unknown person type")
    );
}

#[test]
fn stored_zip_codes_are_checked() {
    assert_eq!(stored_zip_code("01310100", "BR").unwrap().value(), "01310100");
    assert_eq!(
        stored_zip_code("0131", "BR").unwrap_err(),
        db_error("Invalid Brazilian ZipCode: must be 8 digits")
    );
}

#[test]
fn outbox_repository_is_a_plain_value() {
    assert_eq!(PostgresOutboxRepository::new(), PostgresOutboxRepository);
}
