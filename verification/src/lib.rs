//! Person registration for a multi-tenant service: Brazilian documents (CPF,
//! CNPJ) and postal codes, people and their addresses, and the decisions taken
//! when a person is registered.
pub mod application;
pub mod clock;
pub mod entities;
pub mod http;
pub mod ids;
pub mod persistence;
pub mod ports;
pub mod text;
pub mod value_objects;
