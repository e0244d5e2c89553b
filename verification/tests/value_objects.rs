use person_service::value_objects::cnpj::{Cnpj, CnpjError};
use person_service::value_objects::cpf::{Cpf, CpfError};
use person_service::value_objects::zip_code::{ZipCode, ZipCodeError};

#[test]
fn test_cpf_validation() {
    let cases = vec![
        ("52998224725", Ok("52998224725")),     // Valid unformatted
        ("529.982.247-25", Ok("52998224725")),   // Valid formatted
        ("12345678909", Ok("12345678909")),     // Valid unformatted
        ("123.456.789-09", Ok("12345678909")),   // Valid formatted
        ("11111111111", Err(CpfError::IdenticalDigits)),
        ("222.222.222-22", Err(CpfError::IdenticalDigits)),
        ("1234567890", Err(CpfError::InvalidLength)),
        ("123456789012", Err(CpfError::InvalidLength)),
        ("12345678900", Err(CpfError::InvalidChecksum)),
        ("abc12345678909", Ok("12345678909")), // Cleaning should work
    ];

    for (input, expected) in cases {
        let result = Cpf::new(input);
        match expected {
            Ok(val) => {
                assert!(result.is_ok(), "Expected Ok for {}, got {:?}", input, result);
                assert_eq!(result.unwrap().as_str(), val);
            }
            Err(err) => {
                assert!(result.is_err(), "Expected Err for {}, got {:?}", input, result);
                assert_eq!(result.unwrap_err(), err);
            }
        }
    }
}

#[test]
fn test_cpf_formatting() {
    let cpf = Cpf::new("52998224725").unwrap();
    assert_eq!(cpf.formatted(), "529.982.247-25");
}

#[test]
fn test_cnpj_validation() {
    let cases = vec![
        ("12.345.678/0001-95", Ok("12345678000195")), // Valid formatted
        ("12345678000195", Ok("12345678000195")),     // Valid unformatted
        ("11111111111111", Err(CnpjError::IdenticalDigits)),
        ("12345678000196", Err(CnpjError::InvalidChecksum)),
        ("1234567800019", Err(CnpjError::InvalidLength)),
        ("123456780001955", Err(CnpjError::InvalidLength)),
        ("ab12.345.678/0001-95", Ok("12345678000195")), // Cleaning
    ];

    for (input, expected) in cases {
        let result = Cnpj::new(input);
        match expected {
            Ok(val) => {
                assert!(
                    result.is_ok(),
                    "Expected Ok for {}, got {:?}",
                    input,
                    result
                );
                assert_eq!(result.unwrap().as_str(), val);
            }
            Err(err) => {
                assert!(
                    result.is_err(),
                    "Expected Err for {}, got {:?}",
                    input,
                    result
                );
                assert_eq!(result.unwrap_err(), err);
            }
        }
    }
}

#[test]
fn test_cnpj_formatting() {
    let cnpj = Cnpj::new("12345678000195").unwrap();
    assert_eq!(cnpj.formatted_correctly(), "12.345.678/0001-95");
}

#[test]
fn should_create_valid_brazilian_zipcode() {
    let zip = ZipCode::new("12345678", "BR");
    assert!(zip.is_ok());
    assert_eq!(zip.unwrap().value(), "12345678");
}

#[test]
fn should_create_valid_brazilian_zipcode_with_formatting() {
    let zip = ZipCode::new("12345-678", "BR");
    assert!(zip.is_ok());
    assert_eq!(zip.unwrap().value(), "12345678");
}

#[test]
fn should_fail_invalid_brazilian_zipcode() {
    let zip = ZipCode::new("12345", "BR");
    assert_eq!(zip.err().unwrap(), ZipCodeError::InvalidBrazilianZipCode);
}

#[test]
fn should_accept_any_zipcode_for_other_countries() {
    let zip = ZipCode::new("ABC-123", "US");
    assert!(zip.is_ok());
    assert_eq!(zip.unwrap().value(), "ABC-123");
}
