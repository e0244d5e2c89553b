pub mod outbox_repository;
pub mod person_repository;
