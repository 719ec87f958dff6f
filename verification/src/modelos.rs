//! The records of users and of production entries.

use vstd::prelude::*;

verus! {

/// A stored user. `pin` holds the bcrypt hash of the PIN; `ativo` is 1 for an
/// active user and 0 for one that was deactivated.
#[derive(Debug, Clone, PartialEq, Eq)]
pub struct Usuario {
    pub id: i64,
    pub nome: String,
    pub pin: String,
    pub cargo: String,
    pub ativo: i64,
    pub criado_em: String,
}

/// What an administrator sends to create a user.
#[derive(Debug, Clone, PartialEq, Eq)]
pub struct CriarUsuario {
    pub nome: String,
    pub pin: String,
    pub cargo: String,
}

/// What is shown of a user to clients.
#[derive(Debug, Clone, PartialEq, Eq)]
pub struct UsuarioPublico {
    pub id: i64,
    pub nome: String,
    pub cargo: String,
}

/// A production entry: `quantidade` pieces of the cut line `linha_corte_id`
/// that the worker `funcionaria_id` went through the step `operacao`.
#[derive(Debug, Clone, PartialEq, Eq)]
pub struct Producao {
    pub id: i64,
    pub funcionaria_id: i64,
    pub corte_id: i64,
    pub linha_corte_id: i64,
    pub operacao: String,
    pub quantidade: i64,
    pub data_hora: String,
}

/// A production entry with the worker's name and the colour of its line.
#[derive(Debug, Clone, PartialEq, Eq)]
pub struct ProducaoDetalhada {
    pub id: i64,
    pub funcionaria_id: i64,
    pub funcionaria_nome: String,
    pub corte_id: i64,
    pub linha_corte_id: i64,
    pub cor: String,
    pub operacao: String,
    pub quantidade: i64,
    pub data_hora: String,
}

/// What a worker sends to record a production entry.
#[derive(Debug, Clone, PartialEq, Eq)]
pub struct LancarProducao {
    pub linha_corte_id: i64,
    pub operacao: String,
    pub quantidade: i64,
}

} // verus!
