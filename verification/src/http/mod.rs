pub mod person_dto;
