//! Registering a person: the decisions taken around the two calls to the
//! person store (does the document exist already? save the person).
use vstd::prelude::*;
use crate::entities::address::Address;
use crate::entities::person::{self, Person, PersonData};
use crate::ids::new_uuid_v4;
use crate::ports::person_repository::PersonError;

verus! {

/// A request to register a person with a tenant.
pub struct CreatePersonCommand {
    pub tenant_id: uuid::Uuid,
    pub name: String,
    pub created_by: uuid::Uuid,
    pub data: PersonData,
    pub addresses: Vec<Address>,
}

/// The message of the conflict raised when the document `tax_id` is taken.
pub open spec fn conflict_message(tax_id: Seq<char>) -> Seq<char> {
    "Tax ID "@ + tax_id + " already exists for this tenant"@
}

impl CreatePersonCommand {
    /// The document that must not be registered yet with the tenant.
    pub fn tax_id(&self) -> (r: &str)
        ensures
            r@ == person::document_of(self.data),
    {
        self.data.tax_id()
    }

    /// What follows the store's answer to whether the document is already
    /// registered with the tenant: its failure is passed on; a document that
    /// exists is refused with a conflict; otherwise the person is built, with
    /// the identifier `id`, created now, and the addresses added in order,
    /// ready to be saved.
    pub fn register(self, existing: Result<bool, PersonError>, id: uuid::Uuid) -> (r: Result<Person, PersonError>)
        ensures
            existing matches Err(e) ==> r == Err::<Person, PersonError>(e),
            existing == Ok::<bool, PersonError>(true) ==> (r matches Err(PersonError::Conflict(msg))
                && msg@ == conflict_message(person::document_of(self.data))),
            existing == Ok::<bool, PersonError>(false) ==> (r matches Ok(p) && {
                &&& p.id == id
                &&& p.name == self.name
                &&& p.tenant_id == self.tenant_id
                &&& p.created_by == self.created_by
                &&& p.data == self.data
                &&& p.addresses@ == person::addresses_after_adding_all(Seq::empty(), self.addresses@)
                &&& person::has_one_main_address(p.addresses@)
                &&& p.addresses@.len() == self.addresses@.len()
                &&& forall|k: int|
                    0 <= k < self.addresses@.len() ==> #[trigger] p.addresses@[k] == person::with_main(
                        self.addresses@[k],
                        p.addresses@[k].is_main,
                    )
                &&& (self.addresses@.len() > 0 && forall|j: int|
                    0 <= j < self.addresses@.len() ==> !(#[trigger] self.addresses@[j].is_main)) ==> forall|i: int|
                    0 <= i < p.addresses@.len() ==> (#[trigger] p.addresses@[i].is_main <==> i == 0)
                &&& forall|k: int|
                    0 <= k < self.addresses@.len() && #[trigger] self.addresses@[k].is_main && (forall|j: int|
                        k < j < self.addresses@.len() ==> !(#[trigger] self.addresses@[j].is_main)) ==> forall|i: int|
                        0 <= i < p.addresses@.len() ==> (#[trigger] p.addresses@[i].is_main <==> i == k)
                &&& p.created_at.nanos < 1_000_000_000
            }),
    {
        match existing {
            Err(e) => Err(e),
            Ok(true) => {
                let mut msg = "Tax ID ".to_owned();
                msg.append(self.data.tax_id());
                msg.append(" already exists for this tenant");
                Err(PersonError::Conflict(msg))
            },
            Ok(false) => {
                let ghost added = self.addresses@;
                let mut p = Person::new(id, self.name, self.tenant_id, self.created_by, self.data);
                for a in it: self.addresses
                    invariant
                        it.seq() == added,
                        p.id == id,
                        p.created_at.nanos < 1_000_000_000,
                        p.name == self.name,
                        p.tenant_id == self.tenant_id,
                        p.created_by == self.created_by,
                        p.data == self.data,
                        p.addresses@ == person::addresses_after_adding_all(Seq::empty(), added.take(it.index() as int)),
                {
                    assert(added.take(it.index() + 1).drop_last() == added.take(it.index() as int));
                    p.add_address(a);
                }
                assert(added.take(added.len() as int) == added);
                proof {
                    person::lemma_adding_addresses_keeps_one_main(Seq::empty(), added);
                    person::lemma_adding_addresses_in_order(added);
                }
                Ok(p)
            },
        }
    }

    /// As `register`, with a fresh identifier drawn for the new person. Which
    /// identifier, is not stated: it comes from the random number generator.
    pub fn register_with_new_id(self, existing: Result<bool, PersonError>) -> (r: Result<Person, PersonError>)
        ensures
            existing matches Err(e) ==> r == Err::<Person, PersonError>(e),
            existing == Ok::<bool, PersonError>(true) ==> (r matches Err(PersonError::Conflict(msg))
                && msg@ == conflict_message(person::document_of(self.data))),
            existing == Ok::<bool, PersonError>(false) ==> (r matches Ok(p) && {
                &&& p.name == self.name
                &&& p.tenant_id == self.tenant_id
                &&& p.created_by == self.created_by
                &&& p.data == self.data
                &&& p.addresses@ == person::addresses_after_adding_all(Seq::empty(), self.addresses@)
                &&& person::has_one_main_address(p.addresses@)
                &&& p.addresses@.len() == self.addresses@.len()
                &&& forall|k: int|
                    0 <= k < self.addresses@.len() ==> #[trigger] p.addresses@[k] == person::with_main(
                        self.addresses@[k],
                        p.addresses@[k].is_main,
                    )
                &&& (self.addresses@.len() > 0 && forall|j: int|
                    0 <= j < self.addresses@.len() ==> !(#[trigger] self.addresses@[j].is_main)) ==> forall|i: int|
                    0 <= i < p.addresses@.len() ==> (#[trigger] p.addresses@[i].is_main <==> i == 0)
                &&& forall|k: int|
                    0 <= k < self.addresses@.len() && #[trigger] self.addresses@[k].is_main && (forall|j: int|
                        k < j < self.addresses@.len() ==> !(#[trigger] self.addresses@[j].is_main)) ==> forall|i: int|
                        0 <= i < p.addresses@.len() ==> (#[trigger] p.addresses@[i].is_main <==> i == k)
                &&& p.created_at.nanos < 1_000_000_000
            }),
    {
        self.register(existing, new_uuid_v4())
    }
}

/// What follows the store's answer to saving `person`: the person, once saved,
/// or the store's failure.
pub fn registration_outcome(person: Person, saved: Result<(), PersonError>) -> (r: Result<Person, PersonError>)
    ensures
        saved matches Err(e) ==> r == Err::<Person, PersonError>(e),
        saved is Ok ==> r == Ok::<Person, PersonError>(person),
{
    match saved {
        Ok(()) => Ok(person),
        Err(e) => Err(e),
    }
}

} // verus!
