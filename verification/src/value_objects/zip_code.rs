//! Postal codes: Brazilian ones are exactly eight digits; others are kept as given.
use vstd::prelude::*;
use crate::text;

verus! {

/// Why a text is not a valid postal code.
#[derive(Debug, Clone, Copy, PartialEq, Eq, Structural)]
pub enum ZipCodeError {
    InvalidBrazilianZipCode,
}

/// The human-readable description of each postal code error.
pub open spec fn zip_code_error_message(e: ZipCodeError) -> Seq<char> {
    match e {
        ZipCodeError::InvalidBrazilianZipCode => "Invalid Brazilian ZipCode: must be 8 digits"@,
    }
}

impl ZipCodeError {
    /// The description of this error.
    pub fn message(&self) -> (r: String)
        ensures
            r@ == zip_code_error_message(*self),
    {
        match self {
            ZipCodeError::InvalidBrazilianZipCode => "Invalid Brazilian ZipCode: must be 8 digits".to_owned(),
        }
    }
}

/// What reading `code` as a postal code of `country` gives: for Brazil (`BR`)
/// its digits, which must be eight once every other character has been
/// dropped; for any other country the code as given.
pub open spec fn zip_code_parse(code: Seq<char>, country: Seq<char>) -> Result<Seq<char>, ZipCodeError> {
    if country == "BR"@ {
        let d = text::only_digits(code);
        if d.len() != 8 {
            Err(ZipCodeError::InvalidBrazilianZipCode)
        } else {
            Ok(d)
        }
    } else {
        Ok(code)
    }
}

/// A postal code.
#[derive(Debug, PartialEq, Eq)]
pub struct ZipCode(String);

impl View for ZipCode {
    type V = Seq<char>;

    closed spec fn view(&self) -> Seq<char> {
        self.0@
    }
}

impl Clone for ZipCode {
    fn clone(&self) -> (r: Self)
        ensures
            r@ == self@,
    {
        ZipCode(self.0.clone())
    }
}

impl ZipCode {
    /// Reads `code` as a postal code of `country` (see `zip_code_parse`).
    pub fn new(code: &str, country: &str) -> (r: Result<ZipCode, ZipCodeError>)
        ensures
            match r {
                Ok(z) => zip_code_parse(code@, country@) == Ok::<Seq<char>, ZipCodeError>(z@),
                Err(e) => zip_code_parse(code@, country@) == Err::<Seq<char>, ZipCodeError>(e),
            },
    {
        if text::str_equals(country, "BR") {
            let digits = text::digits_only(code);
            if digits.as_str().unicode_len() != 8 {
                return Err(ZipCodeError::InvalidBrazilianZipCode);
            }
            Ok(ZipCode(digits))
        } else {
            Ok(ZipCode(code.to_owned()))
        }
    }

    /// The code.
    pub fn value(&self) -> (r: &str)
        ensures
            r@ == self@,
    {
        self.0.as_str()
    }
}

/// A Brazilian postal code that was accepted reads back unchanged, and is
/// made of eight digits.
pub proof fn lemma_brazilian_zip_code_reads_back(code: Seq<char>)
    ensures
        zip_code_parse(code, "BR"@) matches Ok(d) ==> {
            &&& d.len() == 8
            &&& text::all_digits(d)
            &&& zip_code_parse(d, "BR"@) == Ok::<Seq<char>, ZipCodeError>(d)
        },
{
    text::lemma_only_digits_are_digits(code);
    text::lemma_only_digits_of_digits(text::only_digits(code));
}

} // verus!
