use person_service::entities::person::PersonData;
use person_service::http::person_dto::{AddressDTO, CreatePersonRequest, DtoError, PersonDataDTO};
use uuid::Uuid;

fn address_dto(zip: &str, country: &str, is_main: bool) -> AddressDTO {
    AddressDTO {
        street: "Rua A".to_string(),
        number: Some("10".to_string()),
        complement: None,
        neighborhood: Some("Centro".to_string()),
        zip_code: zip.to_string(),
        ibge_code: None,
        state: "Sao Paulo".to_string(),
        state_uf: "SP".to_string(),
        city: "Sao Paulo".to_string(),
        country: country.to_string(),
        is_main,
    }
}

#[test]
fn individual_with_valid_cpf_converts() {
    let dto = PersonDataDTO::Individual { tax_id: "529.982.247-25".to_string() };
    match dto.try_into().unwrap() {
        PersonData::Individual { tax_id } => assert_eq!(tax_id.as_str(), "52998224725"),
        other => panic!("unexpected {:?}", other),
    }
}

#[test]
fn individual_with_invalid_cpf_is_refused() {
    let dto = PersonDataDTO::Individual { tax_id: "123".to_string() };
    assert_eq!(
        dto.try_into().unwrap_err(),
        DtoError::ValidationError("Invalid CPF length: expected 11 digits".to_string())
    );
}

#[test]
fn legal_entity_keeps_trade_name() {
    let dto = PersonDataDTO::LegalEntity {
        business_tax_id: "12345678000195".to_string(),
        trade_name: Some("Acme".to_string()),
    };
    match dto.try_into().unwrap() {
        PersonData::LegalEntity { business_tax_id, trade_name } => {
            assert_eq!(business_tax_id.formatted_correctly(), "12.345.678/0001-95");
            assert_eq!(trade_name, Some("Acme".to_string()));
        }
        other => panic!("unexpected {:?}", other),
    }
    let bad = PersonDataDTO::LegalEntity { business_tax_id: "12345678000196".to_string(), trade_name: None };
    assert_eq!(
        bad.try_into().unwrap_err(),
        DtoError::ValidationError("Invalid CNPJ checksum".to_string())
    );
}

#[test]
fn foreign_is_taken_as_sent() {
    let dto = PersonDataDTO::Foreign { passport_number: "P1".to_string(), country_code: "AR".to_string() };
    assert_eq!(
        dto.try_into().unwrap(),
        PersonData::Foreign { passport_number: "P1".to_string(), country_code: "AR".to_string() }
    );
}

#[test]
fn address_dto_converts_with_its_zip_code() {
    let tenant = Uuid::new_v4();
    let author = Uuid::new_v4();
    let address = address_dto("01310-100", "BR", true).to_entity(tenant, author).unwrap();
    assert_eq!(address.zip_code.value(), "01310100");
    assert_eq!(address.street, "Rua A");
    assert_eq!(address.number, Some("10".to_string()));
    assert_eq!(address.neighborhood, Some("Centro".to_string()));
    assert!(address.is_main);
    assert_eq!(address.tenant_id, tenant);
    assert_eq!(address.created_by, author);
    let err = address_dto("0131", "BR", false).to_entity(tenant, author).unwrap_err();
    assert_eq!(err, DtoError::ValidationError("Invalid Brazilian ZipCode: must be 8 digits".to_string()));
    assert_eq!(err.message(), "Invalid data: Invalid Brazilian ZipCode: must be 8 digits");
}

#[test]
fn request_becomes_a_command() {
    let tenant = Uuid::new_v4();
    let author = Uuid::new_v4();
    let request = CreatePersonRequest {
        name: "Maria".to_string(),
        data: PersonDataDTO::Individual { tax_id: "111.444.777-35".to_string() },
        addresses: Some(vec![address_dto("01310-100", "BR", false), address_dto("10001", "US", true)]),
    };
    let cmd = request.into_command(tenant, author).unwrap();
    assert_eq!(cmd.name, "Maria");
    assert_eq!(cmd.tenant_id, tenant);
    assert_eq!(cmd.created_by, author);
    assert_eq!(cmd.tax_id(), "11144477735");
    assert_eq!(cmd.addresses.len(), 2);
    assert_eq!(cmd.addresses[1].zip_code.value(), "10001");
}

#[test]
fn request_without_addresses_has_none() {
    let request = CreatePersonRequest {
        name: "Maria".to_string(),
        data: PersonDataDTO::Foreign { passport_number: "P".to_string(), country_code: "UY".to_string() },
        addresses: None,
    };
    let cmd = request.into_command(Uuid::new_v4(), Uuid::new_v4()).unwrap();
    assert!(cmd.addresses.is_empty());
}

#[test]
fn request_refusals_come_in_order() {
    let bad_data = CreatePersonRequest {
        name: "Maria".to_string(),
        data: PersonDataDTO::Individual { tax_id: "11111111111".to_string() },
        addresses: Some(vec![address_dto("1", "BR", false)]),
    };
    assert_eq!(
        bad_data.into_command(Uuid::new_v4(), Uuid::new_v4()).err().unwrap(),
        DtoError::ValidationError("CPF cannot consist of identical digits".to_string())
    );
    let bad_address = CreatePersonRequest {
        name: "Maria".to_string(),
        data: PersonDataDTO::Individual { tax_id: "11144477735".to_string() },
        addresses: Some(vec![address_dto("01310100", "BR", false), address_dto("1", "BR", false)]),
    };
    assert_eq!(
        bad_address.into_command(Uuid::new_v4(), Uuid::new_v4()).err().unwrap(),
        DtoError::ValidationError("Invalid Brazilian ZipCode: must be 8 digits".to_string())
    );
}
