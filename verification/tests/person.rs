use person_service::clock::Timestamp;
use person_service::entities::address::Address;
use person_service::entities::outbox::{AggregateType, EventType, Outbox};
use person_service::entities::person::{Person, PersonData};
use person_service::value_objects::cpf::Cpf;
use person_service::value_objects::zip_code::ZipCode;
use uuid::Uuid;

fn create_test_person() -> Person {
    Person::new(
        Uuid::new_v4(),
        "John Doe".to_string(),
        Uuid::new_v4(),
        Uuid::new_v4(),
        PersonData::Individual {
            tax_id: Cpf::new("12345678909").unwrap(),
        },
    )
}

fn create_test_address(street: &str, is_main: bool) -> Address {
    Address::new(
        street.to_string(),
        Some("123".to_string()),
        None,
        None,
        ZipCode::new("12345678", "BR").unwrap(),
        None,
        "SP".to_string(),
        "SP".to_string(),
        "Sao Paulo".to_string(),
        "BR".to_string(),
        is_main,
        Uuid::new_v4(),
        Uuid::new_v4(),
    )
}

fn main_count(person: &Person) -> usize {
    person.addresses.iter().filter(|a| a.is_main).count()
}

#[test]
fn should_add_address_and_set_as_main_if_first() {
    let mut person = create_test_person();
    let address = create_test_address("Street 1", false);

    person.add_address(address);

    assert_eq!(person.addresses.len(), 1);
    assert!(person.addresses[0].is_main);
}

#[test]
fn should_toggle_main_address_when_adding_new_main() {
    let mut person = create_test_person();
    let addr1 = create_test_address("Street 1", true);
    let addr2 = create_test_address("Street 2", true);

    person.add_address(addr1);
    person.add_address(addr2);

    assert_eq!(person.addresses.len(), 2);
    assert!(!person.addresses[0].is_main);
    assert!(person.addresses[1].is_main);
}

#[test]
fn later_non_main_addresses_keep_the_first_as_main() {
    let mut person = create_test_person();
    person.add_address(create_test_address("Street 1", false));
    person.add_address(create_test_address("Street 2", false));
    person.add_address(create_test_address("Street 3", false));
    assert_eq!(person.addresses.len(), 3);
    assert!(person.addresses[0].is_main);
    assert!(!person.addresses[1].is_main);
    assert!(!person.addresses[2].is_main);
    assert_eq!(main_count(&person), 1);
}

#[test]
fn a_new_main_address_takes_the_mark_from_all_others() {
    let mut person = create_test_person();
    person.add_address(create_test_address("Street 1", false));
    person.add_address(create_test_address("Street 2", false));
    person.add_address(create_test_address("Street 3", true));
    person.add_address(create_test_address("Street 4", false));
    assert_eq!(main_count(&person), 1);
    assert!(person.addresses[2].is_main);
    let streets: Vec<&str> = person.addresses.iter().map(|a| a.street.as_str()).collect();
    assert_eq!(streets, vec!["Street 1", "Street 2", "Street 3", "Street 4"]);
}

#[test]
fn adding_addresses_leaves_the_person_unchanged() {
    let mut person = create_test_person();
    let before = person.clone();
    person.add_address(create_test_address("Street 1", true));
    assert_eq!(person.id, before.id);
    assert_eq!(person.name, before.name);
    assert_eq!(person.tenant_id, before.tenant_id);
    assert_eq!(person.created_at, before.created_at);
    assert_eq!(person.data, before.data);
}

#[test]
fn new_person_has_no_addresses_and_keeps_its_parts() {
    let id = Uuid::new_v4();
    let tenant = Uuid::new_v4();
    let author = Uuid::new_v4();
    let person = Person::new(
        id,
        "Ana".to_string(),
        tenant,
        author,
        PersonData::Foreign {
            passport_number: "X123".to_string(),
            country_code: "PT".to_string(),
        },
    );
    assert_eq!(person.id, id);
    assert_eq!(person.tenant_id, tenant);
    assert_eq!(person.created_by, author);
    assert!(person.addresses.is_empty());
    assert!(person.created_at.secs > 0);
    assert!(person.created_at.nanos < 1_000_000_000);
}

#[test]
fn person_data_tax_id_and_type() {
    let individual = PersonData::Individual { tax_id: Cpf::new("529.982.247-25").unwrap() };
    assert_eq!(individual.tax_id(), "52998224725");
    assert_eq!(individual.person_type(), "individual");
    let foreign = PersonData::Foreign {
        passport_number: "AB123".to_string(),
        country_code: "US".to_string(),
    };
    assert_eq!(foreign.tax_id(), "AB123");
    assert_eq!(foreign.person_type(), "foreign");
}

#[test]
fn addresses_get_fresh_identifiers() {
    let a = create_test_address("Street 1", false);
    let b = create_test_address("Street 1", false);
    assert_ne!(a.id, b.id);
    assert!(a.created_at.secs > 0);
}

#[test]
fn outbox_event_describes_the_person() {
    let person = create_test_person();
    let payload = serde_json::Value::String("payload".to_string());
    let outbox = person.to_outbox(EventType::PersonCreated, payload.clone());
    assert_eq!(outbox.tenant_id, person.tenant_id);
    assert_eq!(outbox.aggregate_id, person.id);
    assert_eq!(outbox.aggregate_type, AggregateType::Person);
    assert_eq!(outbox.event_type, EventType::PersonCreated);
    assert_eq!(outbox.payload, payload);
    assert_eq!(outbox.created_by, person.created_by);
    assert!(outbox.processed_at.is_none());
    assert_ne!(outbox.id, person.id);
}

#[test]
fn identity_helpers_keep_the_given_identifier_and_time() {
    let id = Uuid::new_v4();
    let at = Timestamp { secs: 1_700_000_000, nanos: 5 };
    let person = Person::with_identity(
        id,
        "Bia".to_string(),
        Uuid::new_v4(),
        Uuid::new_v4(),
        at,
        PersonData::Foreign { passport_number: "Z9".to_string(), country_code: "CL".to_string() },
    );
    assert_eq!(person.id, id);
    assert_eq!(person.created_at, at);
    assert!(person.addresses.is_empty());

    let address = Address::with_identity(
        id,
        at,
        "Street 9".to_string(),
        None,
        None,
        None,
        ZipCode::new("12345678", "BR").unwrap(),
        None,
        "SP".to_string(),
        "SP".to_string(),
        "Sao Paulo".to_string(),
        "BR".to_string(),
        true,
        person.tenant_id,
        person.created_by,
    );
    assert_eq!(address.id, id);
    assert_eq!(address.created_at, at);
    assert_eq!(address.street, "Street 9");

    let outbox = Outbox::with_identity(
        id,
        at,
        person.tenant_id,
        person.id,
        AggregateType::Person,
        EventType::PersonUpdated,
        serde_json::Value::Null,
        person.created_by,
    );
    assert_eq!(outbox.id, id);
    assert_eq!(outbox.created_at, at);
    assert_eq!(outbox.event_type, EventType::PersonUpdated);
    assert!(outbox.processed_at.is_none());
}
