//! The shapes in which people arrive from clients, and their conversion into
//! the domain.
use vstd::prelude::*;
use crate::application::create_person::CreatePersonCommand;
use crate::entities::address::Address;
use crate::entities::person::PersonData;
use crate::value_objects::cnpj::{self, Cnpj};
use crate::value_objects::cpf::{self, Cpf};
use crate::value_objects::zip_code::{self, ZipCode};

verus! {

/// Why data from a client was refused.
#[derive(Debug, Clone, PartialEq, Eq)]
pub enum DtoError {
    ValidationError(String),
}

/// The human-readable description of a refusal.
pub open spec fn dto_error_message(e: DtoError) -> Seq<char> {
    match e {
        DtoError::ValidationError(msg) => "Invalid data: "@ + msg@,
    }
}

impl DtoError {
    /// The description of this refusal.
    pub fn message(&self) -> (r: String)
        ensures
            r@ == dto_error_message(*self),
    {
        match self {
            DtoError::ValidationError(msg) => {
                let mut r = "Invalid data: ".to_owned();
                r.append(msg.as_str());
                r
            },
        }
    }
}

/// The kind of person and the document, as sent by a client.
#[derive(Debug, Clone, PartialEq, Eq)]
pub enum PersonDataDTO {
    Individual { tax_id: String },
    LegalEntity { business_tax_id: String, trade_name: Option<String> },
    Foreign { passport_number: String, country_code: String },
}

/// An address, as sent by a client.
#[derive(Debug, Clone, PartialEq, Eq)]
pub struct AddressDTO {
    pub street: String,
    pub number: Option<String>,
    pub complement: Option<String>,
    pub neighborhood: Option<String>,
    pub zip_code: String,
    pub ibge_code: Option<String>,
    pub state: String,
    pub state_uf: String,
    pub city: String,
    pub country: String,
    pub is_main: bool,
}

/// A request to register a person, as sent by a client.
#[derive(Debug, Clone, PartialEq, Eq)]
pub struct CreatePersonRequest {
    pub name: String,
    pub data: PersonDataDTO,
    pub addresses: Option<Vec<AddressDTO>>,
}

/// Why `dto` is refused, if it is: the description of the document's error.
pub open spec fn person_data_error(dto: PersonDataDTO) -> Option<Seq<char>> {
    match dto {
        PersonDataDTO::Individual { tax_id } => match cpf::cpf_parse(tax_id@) {
            Ok(_) => None,
            Err(e) => Some(cpf::cpf_error_message(e)),
        },
        PersonDataDTO::LegalEntity { business_tax_id, .. } => match cnpj::cnpj_parse(business_tax_id@) {
            Ok(_) => None,
            Err(e) => Some(cnpj::cnpj_error_message(e)),
        },
        PersonDataDTO::Foreign { .. } => None,
    }
}

/// `data` is what `dto` converts to: the same kind of person, with the
/// document read as a CPF or a CNPJ where it is one, and the rest unchanged.
pub open spec fn person_data_from(dto: PersonDataDTO, data: PersonData) -> bool {
    match dto {
        PersonDataDTO::Individual { tax_id } => data matches PersonData::Individual { tax_id: c }
            && cpf::cpf_parse(tax_id@) == Ok::<Seq<char>, cpf::CpfError>(c@),
        PersonDataDTO::LegalEntity { business_tax_id, trade_name } => data matches PersonData::LegalEntity {
            business_tax_id: c,
            trade_name: t,
        } && cnpj::cnpj_parse(business_tax_id@) == Ok::<Seq<char>, cnpj::CnpjError>(c@) && t == trade_name,
        PersonDataDTO::Foreign { passport_number, country_code } => data == PersonData::Foreign {
            passport_number,
            country_code,
        },
    }
}

/// Why `dto` is refused, if it is: the description of its postal code's error.
pub open spec fn address_error(dto: AddressDTO) -> Option<Seq<char>> {
    match zip_code::zip_code_parse(dto.zip_code@, dto.country@) {
        Ok(_) => None,
        Err(e) => Some(zip_code::zip_code_error_message(e)),
    }
}

/// `a` is what `dto` converts to for the given tenant and author: the same
/// parts, with the postal code read for the address's country.
pub open spec fn address_from(dto: AddressDTO, a: Address, tenant_id: uuid::Uuid, created_by: uuid::Uuid) -> bool {
    &&& zip_code::zip_code_parse(dto.zip_code@, dto.country@) == Ok::<Seq<char>, zip_code::ZipCodeError>(
        a.zip_code@,
    )
    &&& a.street == dto.street
    &&& a.number == dto.number
    &&& a.complement == dto.complement
    &&& a.neighborhood == dto.neighborhood
    &&& a.ibge_code == dto.ibge_code
    &&& a.state == dto.state
    &&& a.state_uf == dto.state_uf
    &&& a.city == dto.city
    &&& a.country == dto.country
    &&& a.is_main == dto.is_main
    &&& a.tenant_id == tenant_id
    &&& a.created_by == created_by
}

/// An address converted from what a client sent keeps every part the client
/// sent as it was, and holds the postal code as read for its country.
pub proof fn lemma_converted_address_keeps_parts(
    dto: AddressDTO,
    a: Address,
    tenant_id: uuid::Uuid,
    created_by: uuid::Uuid,
)
    requires
        address_from(dto, a, tenant_id, created_by),
    ensures
        a.street == dto.street,
        a.number == dto.number,
        a.complement == dto.complement,
        a.neighborhood == dto.neighborhood,
        a.ibge_code == dto.ibge_code,
        a.state == dto.state,
        a.state_uf == dto.state_uf,
        a.city == dto.city,
        a.country == dto.country,
        a.is_main == dto.is_main,
        a.tenant_id == tenant_id,
        a.created_by == created_by,
        zip_code::zip_code_parse(dto.zip_code@, dto.country@) == Ok::<Seq<char>, zip_code::ZipCodeError>(
            a.zip_code@,
        ),
{
}

/// The addresses sent with a request; none sent is none at all.
pub open spec fn sent_addresses(addresses: Option<Vec<AddressDTO>>) -> Seq<AddressDTO> {
    match addresses {
        Some(v) => v@,
        None => Seq::empty(),
    }
}

impl PersonDataDTO {
    /// Converts into the domain: a CPF or CNPJ that is not valid is refused
    /// with the description of its error.
    pub fn try_into(self) -> (r: Result<PersonData, DtoError>)
        ensures
            match person_data_error(self) {
                Some(msg) => r matches Err(DtoError::ValidationError(m)) && m@ == msg,
                None => r matches Ok(d) && person_data_from(self, d),
            },
    {
        match self {
            PersonDataDTO::Individual { tax_id } => {
                match Cpf::new(tax_id.as_str()) {
                    Ok(cpf) => Ok(PersonData::Individual { tax_id: cpf }),
                    Err(e) => Err(DtoError::ValidationError(e.message())),
                }
            },
            PersonDataDTO::LegalEntity { business_tax_id, trade_name } => {
                match Cnpj::new(business_tax_id.as_str()) {
                    Ok(cnpj) => Ok(PersonData::LegalEntity { business_tax_id: cnpj, trade_name }),
                    Err(e) => Err(DtoError::ValidationError(e.message())),
                }
            },
            PersonDataDTO::Foreign { passport_number, country_code } => Ok(
                PersonData::Foreign { passport_number, country_code },
            ),
        }
    }
}

impl AddressDTO {
    /// Converts into an address of `tenant_id` recorded by `created_by`: a
    /// postal code that is not valid for the country is refused with the
    /// description of its error.
    pub fn to_entity(self, tenant_id: uuid::Uuid, created_by: uuid::Uuid) -> (r: Result<Address, DtoError>)
        ensures
            match address_error(self) {
                Some(msg) => r matches Err(DtoError::ValidationError(m)) && m@ == msg,
                None => r matches Ok(a) && {
                    &&& address_from(self, a, tenant_id, created_by)
                    &&& zip_code::zip_code_parse(self.zip_code@, self.country@) == Ok::<
                        Seq<char>,
                        zip_code::ZipCodeError,
                    >(a.zip_code@)
                    &&& a.street == self.street
                    &&& a.number == self.number
                    &&& a.complement == self.complement
                    &&& a.neighborhood == self.neighborhood
                    &&& a.ibge_code == self.ibge_code
                    &&& a.state == self.state
                    &&& a.state_uf == self.state_uf
                    &&& a.city == self.city
                    &&& a.country == self.country
                    &&& a.is_main == self.is_main
                    &&& a.tenant_id == tenant_id
                    &&& a.created_by == created_by
                },
            },
    {
        let zip = match ZipCode::new(self.zip_code.as_str(), self.country.as_str()) {
            Ok(z) => z,
            Err(e) => return Err(DtoError::ValidationError(e.message())),
        };
        Ok(
            Address::new(
                self.street,
                self.number,
                self.complement,
                self.neighborhood,
                zip,
                self.ibge_code,
                self.state,
                self.state_uf,
                self.city,
                self.country,
                self.is_main,
                tenant_id,
                created_by,
            ),
        )
    }
}

impl CreatePersonRequest {
    /// The command to register the requested person with `tenant_id`, on
    /// behalf of `created_by`. The person's data is converted first, then the
    /// addresses in order; the first refusal is the answer.
    pub fn into_command(self, tenant_id: uuid::Uuid, created_by: uuid::Uuid) -> (r: Result<CreatePersonCommand, DtoError>)
        ensures
            person_data_error(self.data) matches Some(msg) ==> (r matches Err(DtoError::ValidationError(m)) && m@ == msg),
            person_data_error(self.data) is None ==> {
                let sent = sent_addresses(self.addresses);
                &&& forall|k: int|
                    0 <= k < sent.len() && #[trigger] address_error(sent[k]) is Some && (forall|j: int|
                        0 <= j < k ==> #[trigger] address_error(sent[j]) is None) ==> (r matches Err(
                        DtoError::ValidationError(m),
                    ) && m@ == address_error(sent[k])->0)
                &&& (forall|k: int| 0 <= k < sent.len() ==> #[trigger] address_error(sent[k]) is None) ==> (
                r matches Ok(c) && {
                    &&& c.tenant_id == tenant_id
                    &&& c.name == self.name
                    &&& c.created_by == created_by
                    &&& person_data_from(self.data, c.data)
                    &&& c.addresses@.len() == sent.len()
                    &&& forall|k: int|
                        0 <= k < sent.len() ==> address_from(
                            #[trigger] sent[k],
                            c.addresses@[k],
                            tenant_id,
                            created_by,
                        )
                    &&& forall|k: int|
                        0 <= k < sent.len() ==> {
                            &&& (#[trigger] c.addresses@[k]).street == sent[k].street
                            &&& c.addresses@[k].number == sent[k].number
                            &&& c.addresses@[k].complement == sent[k].complement
                            &&& c.addresses@[k].neighborhood == sent[k].neighborhood
                            &&& c.addresses@[k].ibge_code == sent[k].ibge_code
                            &&& c.addresses@[k].state == sent[k].state
                            &&& c.addresses@[k].state_uf == sent[k].state_uf
                            &&& c.addresses@[k].city == sent[k].city
                            &&& c.addresses@[k].country == sent[k].country
                            &&& c.addresses@[k].is_main == sent[k].is_main
                        }
                })
            },
    {
        let ghost sent = sent_addresses(self.addresses);
        let data = match self.data.try_into() {
            Ok(d) => d,
            Err(e) => return Err(e),
        };
        let list = match self.addresses {
            Some(v) => v,
            None => Vec::new(),
        };
        let mut addresses: Vec<Address> = Vec::new();
        for dto in it: list
            invariant
                it.seq() == sent,
                sent == sent_addresses(self.addresses),
                person_data_error(self.data) is None,
                person_data_from(self.data, data),
                addresses@.len() == it.index(),
                forall|j: int| 0 <= j < it.index() ==> #[trigger] address_error(sent[j]) is None,
                forall|j: int|
                    0 <= j < it.index() ==> address_from(#[trigger] sent[j], addresses@[j], tenant_id, created_by),
        {
            match dto.to_entity(tenant_id, created_by) {
                Ok(a) => addresses.push(a),
                Err(e) => {
                    return Err(e);
                },
            }
        }
        Ok(CreatePersonCommand { tenant_id, name: self.name, created_by, data, addresses })
    }
}

} // verus!
