pub mod address;
pub mod outbox;
pub mod person;
