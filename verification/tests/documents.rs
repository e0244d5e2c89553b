use person_service::value_objects::cnpj::{Cnpj, CnpjError};
use person_service::value_objects::cpf::{Cpf, CpfError};
use person_service::value_objects::zip_code::{ZipCode, ZipCodeError};

#[test]
fn cpf_formatted_reads_back_as_the_same_cpf() {
    for digits in ["52998224725", "12345678909", "11144477735", "39053344705"] {
        let cpf = Cpf::new(digits).unwrap();
        let again = Cpf::new(&cpf.formatted()).unwrap();
        assert_eq!(again, cpf);
        assert_eq!(again.as_str(), digits);
    }
}

#[test]
fn cpf_stored_digits_read_as_themselves() {
    let cpf = Cpf::new("390.533.447-05").unwrap();
    assert_eq!(Cpf::new(cpf.as_str()).unwrap().as_str(), "39053344705");
}

#[test]
fn cpf_second_check_digit_is_checked() {
    assert_eq!(Cpf::new("52998224726").unwrap_err(), CpfError::InvalidChecksum);
    assert_eq!(Cpf::new("52998224715").unwrap_err(), CpfError::InvalidChecksum);
}

#[test]
fn cpf_empty_and_separator_only_texts_have_no_digits() {
    assert_eq!(Cpf::new("").unwrap_err(), CpfError::InvalidLength);
    assert_eq!(Cpf::new("...-/").unwrap_err(), CpfError::InvalidLength);
}

#[test]
fn cpf_from_str_reads_like_new() {
    let cpf: Cpf = "529.982.247-25".parse().unwrap();
    assert_eq!(cpf.as_str(), "52998224725");
    let err = "1234".parse::<Cpf>().unwrap_err();
    assert_eq!(err, CpfError::InvalidLength);
}

#[test]
fn cpf_error_messages() {
    assert_eq!(CpfError::InvalidLength.message(), "Invalid CPF length: expected 11 digits");
    assert_eq!(CpfError::IdenticalDigits.message(), "CPF cannot consist of identical digits");
    assert_eq!(CpfError::InvalidChecksum.message(), "Invalid CPF checksum");
    assert_eq!(
        CpfError::InvalidFormat.message(),
        "CPF must contain only digits or valid separators"
    );
}

#[test]
fn cpf_clone_keeps_the_digits() {
    let cpf = Cpf::new("11144477735").unwrap();
    assert_eq!(cpf.clone().as_str(), "11144477735");
}

#[test]
fn cnpj_formatted_reads_back_as_the_same_cnpj() {
    for digits in ["12345678000195", "11222333000181"] {
        let cnpj = Cnpj::new(digits).unwrap();
        let again = Cnpj::new(&cnpj.formatted_correctly()).unwrap();
        assert_eq!(again.as_str(), digits);
    }
}

#[test]
fn cnpj_checks_both_check_digits() {
    assert_eq!(Cnpj::new("11222333000180").unwrap_err(), CnpjError::InvalidChecksum);
    assert_eq!(Cnpj::new("11222333000191").unwrap_err(), CnpjError::InvalidChecksum);
    assert_eq!(Cnpj::new("00000000000000").unwrap_err(), CnpjError::IdenticalDigits);
    assert_eq!(Cnpj::new("11.222.333/0001-81").unwrap().formatted_correctly(), "11.222.333/0001-81");
}

#[test]
fn cnpj_from_str_and_messages() {
    let cnpj: Cnpj = "12.345.678/0001-95".parse().unwrap();
    assert_eq!(cnpj.as_str(), "12345678000195");
    assert_eq!(CnpjError::InvalidLength.message(), "Invalid CNPJ length: expected 14 digits");
    assert_eq!(CnpjError::IdenticalDigits.message(), "CNPJ cannot consist of identical digits");
    assert_eq!(CnpjError::InvalidChecksum.message(), "Invalid CNPJ checksum");
    assert_eq!(
        CnpjError::InvalidFormat.message(),
        "CNPJ must contain only digits or valid separators"
    );
}

#[test]
fn brazilian_zip_code_reads_back_unchanged() {
    let zip = ZipCode::new("01310-100", "BR").unwrap();
    assert_eq!(zip.value(), "01310100");
    assert_eq!(ZipCode::new(zip.value(), "BR").unwrap().value(), "01310100");
    assert_eq!(zip.clone().value(), "01310100");
}

#[test]
fn brazilian_zip_code_needs_exactly_eight_digits() {
    assert_eq!(ZipCode::new("123456789", "BR").unwrap_err(), ZipCodeError::InvalidBrazilianZipCode);
    assert_eq!(ZipCode::new("", "BR").unwrap_err(), ZipCodeError::InvalidBrazilianZipCode);
    assert_eq!(ZipCode::new("", "PT").unwrap().value(), "");
    assert_eq!(ZipCode::new("12345", "br").unwrap().value(), "12345");
    assert_eq!(
        ZipCodeError::InvalidBrazilianZipCode.message(),
        "Invalid Brazilian ZipCode: must be 8 digits"
    );
}

#[test]
fn try_from_string_reads_like_new() {
    let cpf = Cpf::try_from("529.982.247-25".to_string()).unwrap();
    assert_eq!(cpf.as_str(), "52998224725");
    assert_eq!(Cpf::try_from("11111111111".to_string()).unwrap_err(), CpfError::IdenticalDigits);
    let cnpj = Cnpj::try_from("12.345.678/0001-95".to_string()).unwrap();
    assert_eq!(cnpj.as_str(), "12345678000195");
    assert_eq!(Cnpj::try_from("12345678000196".to_string()).unwrap_err(), CnpjError::InvalidChecksum);
}
