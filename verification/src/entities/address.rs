//! A postal address of a person.
use vstd::prelude::*;
use crate::clock::{utc_now, Timestamp};
use crate::ids::new_uuid_v4;
use crate::value_objects::zip_code::ZipCode;

verus! {

/// A postal address of a person; `is_main` marks the one used by default.
#[derive(Debug, Clone, PartialEq, Eq)]
pub struct Address {
    pub id: uuid::Uuid,
    pub street: String,
    pub number: Option<String>,
    pub complement: Option<String>,
    pub neighborhood: Option<String>,
    pub zip_code: ZipCode,
    pub ibge_code: Option<String>,
    pub state: String,
    pub state_uf: String,
    pub city: String,
    pub country: String,
    pub is_main: bool,
    pub tenant_id: uuid::Uuid,
    pub created_by: uuid::Uuid,
    pub created_at: Timestamp,
}

impl Address {
    /// A new address with the given parts, a fresh identifier and the current
    /// time (see `with_identity`).
    #[allow(clippy::too_many_arguments)]
    pub fn new(
        street: String,
        number: Option<String>,
        complement: Option<String>,
        neighborhood: Option<String>,
        zip_code: ZipCode,
        ibge_code: Option<String>,
        state: String,
        state_uf: String,
        city: String,
        country: String,
        is_main: bool,
        tenant_id: uuid::Uuid,
        created_by: uuid::Uuid,
    ) -> (r: Self)
        ensures
            r.street == street,
            r.number == number,
            r.complement == complement,
            r.neighborhood == neighborhood,
            r.zip_code == zip_code,
            r.ibge_code == ibge_code,
            r.state == state,
            r.state_uf == state_uf,
            r.city == city,
            r.country == country,
            r.is_main == is_main,
            r.tenant_id == tenant_id,
            r.created_by == created_by,
            r.created_at.nanos < 1_000_000_000,
    {
        Self::with_identity(
            new_uuid_v4(),
            utc_now(),
            street,
            number,
            complement,
            neighborhood,
            zip_code,
            ibge_code,
            state,
            state_uf,
            city,
            country,
            is_main,
            tenant_id,
            created_by,
        )
    }

    /// The address with identifier `id`, recorded at `created_at`, and the
    /// given parts.
    #[allow(clippy::too_many_arguments)]
    pub fn with_identity(
        id: uuid::Uuid,
        created_at: Timestamp,
        street: String,
        number: Option<String>,
        complement: Option<String>,
        neighborhood: Option<String>,
        zip_code: ZipCode,
        ibge_code: Option<String>,
        state: String,
        state_uf: String,
        city: String,
        country: String,
        is_main: bool,
        tenant_id: uuid::Uuid,
        created_by: uuid::Uuid,
    ) -> (r: Self)
        ensures
            r.id == id,
            r.created_at == created_at,
            r.street == street,
            r.number == number,
            r.complement == complement,
            r.neighborhood == neighborhood,
            r.zip_code == zip_code,
            r.ibge_code == ibge_code,
            r.state == state,
            r.state_uf == state_uf,
            r.city == city,
            r.country == country,
            r.is_main == is_main,
            r.tenant_id == tenant_id,
            r.created_by == created_by,
    {
        Self {
            id,
            street,
            number,
            complement,
            neighborhood,
            zip_code,
            ibge_code,
            state,
            state_uf,
            city,
            country,
            is_main,
            tenant_id,
            created_by,
            created_at,
        }
    }
}

} // verus!
