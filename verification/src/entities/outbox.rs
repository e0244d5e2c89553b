//! Outbox records: events about people, stored with them, to be published later.
use vstd::prelude::*;
use crate::clock::{utc_now, Timestamp};
use crate::ids::new_uuid_v4;

verus! {

/// `serde_json::Value`: the JSON payload of an event, carried and never read.
#[verifier::external_type_specification]
#[verifier::external_body]
pub struct ExJsonValue(serde_json::Value);

/// What an event is about.
#[derive(Debug, Clone, Copy, PartialEq, Eq, Structural)]
pub enum AggregateType {
    Person,
}

/// What happened.
#[derive(Debug, Clone, Copy, PartialEq, Eq, Structural)]
pub enum EventType {
    PersonCreated,
    PersonUpdated,
}

/// An event waiting in the outbox.
#[derive(Debug)]
pub struct Outbox {
    pub id: uuid::Uuid,
    pub tenant_id: uuid::Uuid,
    pub aggregate_id: uuid::Uuid,
    pub aggregate_type: AggregateType,
    pub event_type: EventType,
    pub payload: serde_json::Value,
    pub created_by: uuid::Uuid,
    pub created_at: Timestamp,
    pub processed_at: Option<Timestamp>,
}

impl Outbox {
    /// A new, unprocessed event with a fresh identifier, created now (see `with_identity`).
    pub fn new(
        tenant_id: uuid::Uuid,
        aggregate_id: uuid::Uuid,
        aggregate_type: AggregateType,
        event_type: EventType,
        payload: serde_json::Value,
        created_by: uuid::Uuid,
    ) -> (r: Self)
        ensures
            r.tenant_id == tenant_id,
            r.aggregate_id == aggregate_id,
            r.aggregate_type == aggregate_type,
            r.event_type == event_type,
            r.payload == payload,
            r.created_by == created_by,
            r.processed_at == None::<Timestamp>,
            r.created_at.nanos < 1_000_000_000,
    {
        Self::with_identity(
            new_uuid_v4(),
            utc_now(),
            tenant_id,
            aggregate_id,
            aggregate_type,
            event_type,
            payload,
            created_by,
        )
    }

    /// The unprocessed event with identifier `id`, created at `created_at`.
    pub fn with_identity(
        id: uuid::Uuid,
        created_at: Timestamp,
        tenant_id: uuid::Uuid,
        aggregate_id: uuid::Uuid,
        aggregate_type: AggregateType,
        event_type: EventType,
        payload: serde_json::Value,
        created_by: uuid::Uuid,
    ) -> (r: Self)
        ensures
            r.id == id,
            r.created_at == created_at,
            r.tenant_id == tenant_id,
            r.aggregate_id == aggregate_id,
            r.aggregate_type == aggregate_type,
            r.event_type == event_type,
            r.payload == payload,
            r.created_by == created_by,
            r.processed_at == None::<Timestamp>,
    {
        Self {
            id,
            tenant_id,
            aggregate_id,
            aggregate_type,
            event_type,
            payload,
            created_by,
            created_at,
            processed_at: None,
        }
    }
}

} // verus!
