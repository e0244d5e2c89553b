//! A person registered with a tenant, with the person's addresses.
use vstd::prelude::*;
use crate::clock::{utc_now, Timestamp};
use crate::entities::address::Address;
use crate::entities::outbox::{AggregateType, EventType, Outbox};
use crate::value_objects::cnpj::Cnpj;
use crate::value_objects::cpf::Cpf;

verus! {

/// What kind of person this is, with the document that identifies it.
#[derive(Debug, Clone, PartialEq, Eq)]
pub enum PersonData {
    Individual { tax_id: Cpf },
    LegalEntity { business_tax_id: Cnpj, trade_name: Option<String> },
    Foreign { passport_number: String, country_code: String },
}

/// The document number of a person: the CPF of an individual, the CNPJ of a
/// legal entity, the passport number of a foreigner.
pub open spec fn document_of(data: PersonData) -> Seq<char> {
    match data {
        PersonData::Individual { tax_id } => tax_id@,
        PersonData::LegalEntity { business_tax_id, .. } => business_tax_id@,
        PersonData::Foreign { passport_number, .. } => passport_number@,
    }
}

/// The name under which each kind of person is stored.
pub open spec fn person_type_of(data: PersonData) -> Seq<char> {
    match data {
        PersonData::Individual { .. } => "individual"@,
        PersonData::LegalEntity { .. } => "legal_entity"@,
        PersonData::Foreign { .. } => "foreign"@,
    }
}

impl PersonData {
    /// The document number (see `document_of`).
    pub fn tax_id(&self) -> (r: &str)
        ensures
            r@ == document_of(*self),
    {
        match self {
            PersonData::Individual { tax_id } => tax_id.as_str(),
            PersonData::LegalEntity { business_tax_id, .. } => business_tax_id.as_str(),
            PersonData::Foreign { passport_number, .. } => passport_number.as_str(),
        }
    }

    /// The name under which this kind of person is stored (see `person_type_of`).
    pub fn person_type(&self) -> (r: &'static str)
        ensures
            r@ == person_type_of(*self),
    {
        match self {
            PersonData::Individual { .. } => "individual",
            PersonData::LegalEntity { .. } => "legal_entity",
            PersonData::Foreign { .. } => "foreign",
        }
    }
}

/// A person registered with a tenant.
#[derive(Debug, Clone, PartialEq, Eq)]
pub struct Person {
    pub id: uuid::Uuid,
    pub name: String,
    pub tenant_id: uuid::Uuid,
    pub created_by: uuid::Uuid,
    pub created_at: Timestamp,
    pub data: PersonData,
    pub addresses: Vec<Address>,
}

/// `a` with its main mark set to `is_main`.
pub open spec fn with_main(a: Address, is_main: bool) -> Address {
    Address { is_main: is_main, ..a }
}

/// The addresses of a person after `a` is added to `addrs`: a main address
/// takes the mark from every other; the first address becomes main whatever
/// its mark; any other address is appended as it is.
pub open spec fn addresses_after_adding(addrs: Seq<Address>, a: Address) -> Seq<Address> {
    if a.is_main {
        addrs.map_values(|x: Address| with_main(x, false)).push(a)
    } else if addrs.len() == 0 {
        seq![with_main(a, true)]
    } else {
        addrs.push(a)
    }
}

/// The addresses after each of `added` is added in turn to `addrs`.
pub open spec fn addresses_after_adding_all(addrs: Seq<Address>, added: Seq<Address>) -> Seq<Address>
    decreases added.len(),
{
    if added.len() == 0 {
        addrs
    } else {
        addresses_after_adding(addresses_after_adding_all(addrs, added.drop_last()), added.last())
    }
}

/// A person with addresses has exactly one main address; one without has none.
pub open spec fn has_one_main_address(addrs: Seq<Address>) -> bool {
    &&& addrs.len() > 0 ==> exists|i: int| 0 <= i < addrs.len() && #[trigger] addrs[i].is_main
    &&& forall|i: int, j: int|
        0 <= i < addrs.len() && 0 <= j < addrs.len() && #[trigger] addrs[i].is_main
            && #[trigger] addrs[j].is_main ==> i == j
}

/// Adding an address keeps a person with exactly one main address (or none,
/// when there are no addresses) in that state.
pub proof fn lemma_adding_address_keeps_one_main(addrs: Seq<Address>, a: Address)
    requires
        has_one_main_address(addrs),
    ensures
        has_one_main_address(addresses_after_adding(addrs, a)),
{
    let r = addresses_after_adding(addrs, a);
    if a.is_main {
        assert(r[r.len() - 1].is_main);
        assert forall|i: int, j: int|
            0 <= i < r.len() && 0 <= j < r.len() && #[trigger] r[i].is_main && #[trigger] r[j].is_main
            implies i == j by {
            if i < addrs.len() {
                assert(r[i] == with_main(addrs[i], false));
            }
            if j < addrs.len() {
                assert(r[j] == with_main(addrs[j], false));
            }
        }
    } else if addrs.len() == 0 {
        assert(r[0].is_main);
    } else {
        let k = choose|k: int| 0 <= k < addrs.len() && #[trigger] addrs[k].is_main;
        assert(r[k].is_main);
        assert forall|i: int, j: int|
            0 <= i < r.len() && 0 <= j < r.len() && #[trigger] r[i].is_main && #[trigger] r[j].is_main
            implies i == j by {
            assert(i < addrs.len() ==> r[i] == addrs[i]);
            assert(j < addrs.len() ==> r[j] == addrs[j]);
        }
    }
}

/// Adding an address keeps every address there was, in order, changing at
/// most their main marks, and puts the new one last, changing at most its
/// main mark. An address added as main is the only main address afterwards;
/// one added as not main to a person with addresses changes nothing there
/// was and is appended as it is; the first address is always main.
pub proof fn lemma_adding_address_keeps_addresses(addrs: Seq<Address>, a: Address)
    ensures
        ({
            let r = addresses_after_adding(addrs, a);
            &&& r.len() == addrs.len() + 1
            &&& forall|i: int| 0 <= i < addrs.len() ==> #[trigger] r[i] == with_main(addrs[i], r[i].is_main)
            &&& r[addrs.len() as int] == with_main(a, r[addrs.len() as int].is_main)
            &&& a.is_main ==> forall|i: int| 0 <= i < r.len() ==> (#[trigger] r[i].is_main <==> i == addrs.len())
            &&& !a.is_main && addrs.len() > 0 ==> {
                &&& forall|i: int| 0 <= i < addrs.len() ==> #[trigger] r[i] == addrs[i]
                &&& r[addrs.len() as int] == a
            }
            &&& addrs.len() == 0 ==> r[0].is_main
        }),
{
    let r = addresses_after_adding(addrs, a);
    assert forall|i: int| 0 <= i < addrs.len() implies #[trigger] r[i] == with_main(addrs[i], r[i].is_main) by {
        if !a.is_main {
            assert(r[i] == addrs[i]);
            assert(with_main(addrs[i], addrs[i].is_main) =~= addrs[i]);
        }
    }
    if !a.is_main && addrs.len() > 0 {
        assert(with_main(a, a.is_main) =~= a);
    }
    if a.is_main {
        assert(with_main(a, true) =~= a);
    }
}

/// An address that is not main, added to a person who has addresses, is
/// appended as it is and leaves every address there was unchanged.
pub proof fn lemma_adding_address_not_main_appends(addrs: Seq<Address>, a: Address)
    requires
        !a.is_main,
        addrs.len() > 0,
    ensures
        addresses_after_adding(addrs, a) == addrs.push(a),
{
    lemma_adding_address_keeps_addresses(addrs, a);
    assert(addresses_after_adding(addrs, a) =~= addrs.push(a));
}

/// Adding one more address after a sequence of them is adding it to what
/// the sequence left: addresses are added in the order sent.
pub proof fn lemma_adding_addresses_one_more(addrs: Seq<Address>, added: Seq<Address>, x: Address)
    ensures
        addresses_after_adding_all(addrs, added.push(x)) == addresses_after_adding(
            addresses_after_adding_all(addrs, added),
            x,
        ),
{
    assert(added.push(x).drop_last() =~= added);
    assert(added.push(x).last() == x);
}

/// Adding addresses one after another to a person with exactly one main
/// address (or none) leaves exactly one main address (or none).
pub proof fn lemma_adding_addresses_keeps_one_main(addrs: Seq<Address>, added: Seq<Address>)
    requires
        has_one_main_address(addrs),
    ensures
        has_one_main_address(addresses_after_adding_all(addrs, added)),
    decreases added.len(),
{
    if added.len() > 0 {
        lemma_adding_addresses_keeps_one_main(addrs, added.drop_last());
        lemma_adding_address_keeps_one_main(addresses_after_adding_all(addrs, added.drop_last()), added.last());
    }
}

/// Adding addresses one after another to a person without addresses keeps
/// them in the order sent, changing at most their main marks. The main
/// address is the last one sent as main or, when none was sent as main, the
/// first one sent.
pub proof fn lemma_adding_addresses_in_order(added: Seq<Address>)
    ensures
        ({
            let r = addresses_after_adding_all(Seq::empty(), added);
            &&& r.len() == added.len()
            &&& forall|k: int| 0 <= k < added.len() ==> #[trigger] r[k] == with_main(added[k], r[k].is_main)
            &&& (added.len() > 0 && forall|j: int| 0 <= j < added.len() ==> !(#[trigger] added[j].is_main))
                ==> forall|i: int| 0 <= i < r.len() ==> (#[trigger] r[i].is_main <==> i == 0)
            &&& forall|k: int|
                0 <= k < added.len() && #[trigger] added[k].is_main && (forall|j: int|
                    k < j < added.len() ==> !(#[trigger] added[j].is_main)) ==> forall|i: int|
                    0 <= i < r.len() ==> (#[trigger] r[i].is_main <==> i == k)
        }),
    decreases added.len(),
{
    let r = addresses_after_adding_all(Seq::empty(), added);
    if added.len() > 0 {
        let p = added.drop_last();
        let x = added.last();
        let n = p.len() as int;
        let q = addresses_after_adding_all(Seq::empty(), p);
        lemma_adding_addresses_in_order(p);
        lemma_adding_address_keeps_addresses(q, x);
        assert(r == addresses_after_adding(q, x));
        assert forall|k: int| 0 <= k < added.len() implies #[trigger] r[k] == with_main(added[k], r[k].is_main) by {
            if k < n {
                assert(added[k] == p[k]);
                assert(q[k] == with_main(p[k], q[k].is_main));
                assert(r[k] == with_main(q[k], r[k].is_main));
            }
        }
        if x.is_main {
            assert forall|k: int|
                0 <= k < added.len() && #[trigger] added[k].is_main && (forall|j: int|
                    k < j < added.len() ==> !(#[trigger] added[j].is_main)) implies forall|i: int|
                0 <= i < r.len() ==> (#[trigger] r[i].is_main <==> i == k) by {
                if k < n {
                    assert(added[n].is_main);
                }
            }
        } else if n == 0 {
            assert forall|i: int| 0 <= i < r.len() implies (#[trigger] r[i].is_main <==> i == 0) by {}
            assert forall|k: int|
                0 <= k < added.len() && #[trigger] added[k].is_main && (forall|j: int|
                    k < j < added.len() ==> !(#[trigger] added[j].is_main)) implies forall|i: int|
                0 <= i < r.len() ==> (#[trigger] r[i].is_main <==> i == k) by {}
        } else {
            assert forall|i: int| 0 <= i < n implies #[trigger] r[i].is_main == q[i].is_main by {
                assert(r[i] == q[i]);
            }
            assert(!r[n].is_main);
            if added.len() > 0 && forall|j: int| 0 <= j < added.len() ==> !(#[trigger] added[j].is_main) {
                assert forall|j: int| 0 <= j < p.len() implies !(#[trigger] p[j].is_main) by {
                    assert(p[j] == added[j]);
                }
                assert forall|i: int| 0 <= i < r.len() implies (#[trigger] r[i].is_main <==> i == 0) by {
                    if i < n {
                        assert(r[i].is_main == q[i].is_main);
                    }
                }
            }
            assert forall|k: int|
                0 <= k < added.len() && #[trigger] added[k].is_main && (forall|j: int|
                    k < j < added.len() ==> !(#[trigger] added[j].is_main)) implies forall|i: int|
                0 <= i < r.len() ==> (#[trigger] r[i].is_main <==> i == k) by {
                assert(k < n);
                assert(p[k].is_main);
                assert forall|j: int| k < j < p.len() implies !(#[trigger] p[j].is_main) by {
                    assert(p[j] == added[j]);
                    assert(!added[j].is_main);
                }
                assert forall|i: int| 0 <= i < r.len() implies (#[trigger] r[i].is_main <==> i == k) by {
                    if i < n {
                        assert(r[i].is_main == q[i].is_main);
                    }
                }
            }
        }
    }
}

impl Person {
    /// A new person with no addresses, created now (see `with_identity`).
    pub fn new(id: uuid::Uuid, name: String, tenant_id: uuid::Uuid, created_by: uuid::Uuid, data: PersonData) -> (r: Self)
        ensures
            r.id == id,
            r.name == name,
            r.tenant_id == tenant_id,
            r.created_by == created_by,
            r.data == data,
            r.addresses@ == Seq::<Address>::empty(),
            r.created_at.nanos < 1_000_000_000,
    {
        Self::with_identity(id, name, tenant_id, created_by, utc_now(), data)
    }

    /// The person `id` with no addresses, created at `created_at`.
    pub fn with_identity(
        id: uuid::Uuid,
        name: String,
        tenant_id: uuid::Uuid,
        created_by: uuid::Uuid,
        created_at: Timestamp,
        data: PersonData,
    ) -> (r: Self)
        ensures
            r.id == id,
            r.name == name,
            r.tenant_id == tenant_id,
            r.created_by == created_by,
            r.created_at == created_at,
            r.data == data,
            r.addresses@ == Seq::<Address>::empty(),
    {
        Self { id, name, tenant_id, created_by, created_at, data, addresses: Vec::new() }
    }

    /// Adds `address` (see `addresses_after_adding`); nothing else changes.
    pub fn add_address(&mut self, address: Address)
        ensures
            final(self).addresses@ == addresses_after_adding(old(self).addresses@, address),
            final(self).addresses@.len() == old(self).addresses@.len() + 1,
            forall|i: int|
                0 <= i < old(self).addresses@.len() ==> #[trigger] final(self).addresses@[i] == with_main(
                    old(self).addresses@[i],
                    final(self).addresses@[i].is_main,
                ),
            final(self).addresses@[old(self).addresses@.len() as int] == with_main(
                address,
                final(self).addresses@[old(self).addresses@.len() as int].is_main,
            ),
            address.is_main ==> forall|i: int|
                0 <= i < final(self).addresses@.len() ==> (#[trigger] final(self).addresses@[i].is_main <==> i
                    == old(self).addresses@.len()),
            !address.is_main && old(self).addresses@.len() > 0 ==> {
                &&& forall|i: int|
                    0 <= i < old(self).addresses@.len() ==> #[trigger] final(self).addresses@[i] == old(
                        self,
                    ).addresses@[i]
                &&& final(self).addresses@[old(self).addresses@.len() as int] == address
            },
            old(self).addresses@.len() == 0 ==> final(self).addresses@[0].is_main,
            final(self).id == old(self).id,
            final(self).name == old(self).name,
            final(self).tenant_id == old(self).tenant_id,
            final(self).created_by == old(self).created_by,
            final(self).created_at == old(self).created_at,
            final(self).data == old(self).data,
    {
        let ghost old_address = address;
        let mut address = address;
        if address.is_main {
            let n = self.addresses.len();
            let ghost before = self.addresses@;
            for i in 0..n
                invariant
                    n == before.len(),
                    before == old(self).addresses@,
                    self.id == old(self).id,
                    self.name == old(self).name,
                    self.tenant_id == old(self).tenant_id,
                    self.created_by == old(self).created_by,
                    self.created_at == old(self).created_at,
                    self.data == old(self).data,
                    self.addresses@.len() == n,
                    forall|j: int| 0 <= j < i ==> #[trigger] self.addresses@[j] == with_main(before[j], false),
                    forall|j: int| i <= j < n ==> #[trigger] self.addresses@[j] == before[j],
            {
                self.addresses[i].is_main = false;
            }
            assert(self.addresses@ =~= before.map_values(|x: Address| with_main(x, false)));
        } else if self.addresses.len() == 0 {
            address.is_main = true;
        }
        self.addresses.push(address);
        proof {
            lemma_adding_address_keeps_addresses(old(self).addresses@, old_address);
        }
    }

    /// The outbox event `event_type` about this person, carrying `payload`
    /// (the person written as JSON).
    pub fn to_outbox(&self, event_type: EventType, payload: serde_json::Value) -> (r: Outbox)
        ensures
            r.tenant_id == self.tenant_id,
            r.aggregate_id == self.id,
            r.aggregate_type == AggregateType::Person,
            r.event_type == event_type,
            r.payload == payload,
            r.created_by == self.created_by,
            r.processed_at == None::<Timestamp>,
    {
        Outbox::new(self.tenant_id, self.id, AggregateType::Person, event_type, payload, self.created_by)
    }
}

} // verus!
