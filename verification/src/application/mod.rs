pub mod create_person;
