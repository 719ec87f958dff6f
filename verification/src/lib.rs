//! Verified core of the garment-production service: the token that carries a
//! signed-in user, the access rules of each operation, the validation of
//! what the clients send, and the errors the service answers with.

pub mod json;
pub mod erros;
pub mod jwt;
pub mod modelos;
pub mod autorizacao;
pub mod acesso;
pub mod regras;
