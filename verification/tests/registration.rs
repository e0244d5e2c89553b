use person_service::application::create_person::{registration_outcome, CreatePersonCommand};
use person_service::entities::address::Address;
use person_service::entities::person::PersonData;
use person_service::ports::outbox_repository::OutboxError;
use person_service::ports::person_repository::PersonError;
use person_service::value_objects::cnpj::Cnpj;
use person_service::value_objects::zip_code::ZipCode;
use uuid::Uuid;

fn address(street: &str, is_main: bool) -> Address {
    Address::new(
        street.to_string(),
        None,
        None,
        None,
        ZipCode::new("01310-100", "BR").unwrap(),
        None,
        "Sao Paulo".to_string(),
        "SP".to_string(),
        "Sao Paulo".to_string(),
        "BR".to_string(),
        is_main,
        Uuid::new_v4(),
        Uuid::new_v4(),
    )
}

fn command(addresses: Vec<Address>) -> CreatePersonCommand {
    CreatePersonCommand {
        tenant_id: Uuid::new_v4(),
        name: "Acme".to_string(),
        created_by: Uuid::new_v4(),
        data: PersonData::LegalEntity {
            business_tax_id: Cnpj::new("12.345.678/0001-95").unwrap(),
            trade_name: Some("Acme Corp".to_string()),
        },
        addresses,
    }
}

#[test]
fn command_checks_the_document() {
    let cmd = command(vec![]);
    assert_eq!(cmd.tax_id(), "12345678000195");
}

#[test]
fn existing_document_is_refused_with_a_conflict() {
    let cmd = command(vec![address("Street 1", false)]);
    let result = cmd.register(Ok(true), Uuid::new_v4());
    assert_eq!(
        result.unwrap_err(),
        PersonError::Conflict("Tax ID 12345678000195 already exists for this tenant".to_string())
    );
}

#[test]
fn failed_existence_check_is_passed_on() {
    let cmd = command(vec![]);
    let result = cmd.register(Err(PersonError::DatabaseError("down".to_string())), Uuid::new_v4());
    assert_eq!(result.unwrap_err(), PersonError::DatabaseError("down".to_string()));
}

#[test]
fn new_document_registers_the_person_with_its_addresses() {
    let cmd = command(vec![address("Street 1", false), address("Street 2", true), address("Street 3", false)]);
    let tenant = cmd.tenant_id;
    let author = cmd.created_by;
    let data = cmd.data.clone();
    let id = Uuid::new_v4();
    let person = cmd.register(Ok(false), id).unwrap();
    assert_eq!(person.id, id);
    assert_eq!(person.name, "Acme");
    assert_eq!(person.tenant_id, tenant);
    assert_eq!(person.created_by, author);
    assert_eq!(person.data, data);
    let marks: Vec<bool> = person.addresses.iter().map(|a| a.is_main).collect();
    assert_eq!(marks, vec![false, true, false]);
}

#[test]
fn registered_person_takes_the_given_identifier_and_is_created_now() {
    let (first, second) = (Uuid::new_v4(), Uuid::new_v4());
    let a = command(vec![]).register(Ok(false), first).unwrap();
    let b = command(vec![]).register(Ok(false), second).unwrap();
    assert_eq!(a.id, first);
    assert_eq!(b.id, second);
    assert!(a.created_at.secs > 0 && a.created_at.nanos < 1_000_000_000);
}

#[test]
fn save_outcome_is_the_person_or_the_failure() {
    let person = command(vec![]).register(Ok(false), Uuid::new_v4()).unwrap();
    let id = person.id;
    assert_eq!(registration_outcome(person.clone(), Ok(())).unwrap().id, id);
    assert_eq!(
        registration_outcome(person, Err(PersonError::NotFound)).unwrap_err(),
        PersonError::NotFound
    );
}

#[test]
fn error_messages() {
    assert_eq!(PersonError::DatabaseError("x".to_string()).message(), "Database Error: x");
    assert_eq!(PersonError::Conflict("y".to_string()).message(), "Conflict Error: y");
    assert_eq!(PersonError::NotFound.message(), "Person Not Found");
    assert_eq!(OutboxError::DatabaseError("z".to_string()).message(), "Database Error: z");
}

#[test]
fn registering_with_new_ids_gives_different_identifiers() {
    let a = command(vec![address("Street 1", true)]).register_with_new_id(Ok(false)).unwrap();
    let b = command(vec![]).register_with_new_id(Ok(false)).unwrap();
    assert_ne!(a.id, b.id);
    assert_eq!(a.name, "Acme");
    assert!(a.addresses[0].is_main);
    assert_eq!(
        command(vec![]).register_with_new_id(Ok(true)).unwrap_err(),
        PersonError::Conflict("Tax ID 12345678000195 already exists for this tenant".to_string())
    );
    assert_eq!(
        command(vec![]).register_with_new_id(Err(PersonError::NotFound)).unwrap_err(),
        PersonError::NotFound
    );
}
