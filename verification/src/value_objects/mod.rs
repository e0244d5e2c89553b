pub mod cpf;
pub mod cnpj;
pub mod zip_code;
