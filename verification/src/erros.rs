//! The errors the service answers with, their HTTP status and their body.

use vstd::prelude::*;
use vstd::string::StringExecFns;

use crate::json::{
    anexar_texto_json,
    desescapado,
    lei_texto_json_le_de_volta,
    lema_texto_json_determina,
    texto_json,
};

verus! {

/// An error answered to a client.
#[derive(Debug, Clone, PartialEq, Eq)]
pub enum AppError {
    /// The request carries no valid credentials (401).
    NaoAutorizado,
    /// The credentials are valid but the operation is not allowed (403).
    Proibido,
    /// The resource does not exist (404).
    NaoEncontrado,
    /// The request is malformed; the text says why (400).
    BadRequest(String),
    /// The service failed; the text says how (500).
    Internal(String),
}

impl AppError {
    /// The HTTP status code of the error.
    pub open spec fn codigo_http(&self) -> u16 {
        match self {
            AppError::NaoAutorizado => 401,
            AppError::Proibido => 403,
            AppError::NaoEncontrado => 404,
            AppError::BadRequest(_) => 400,
            AppError::Internal(_) => 500,
        }
    }

    /// The message shown to the client.
    pub open spec fn texto_da_mensagem(&self) -> Seq<char> {
        match self {
            AppError::NaoAutorizado => "Não autorizado"@,
            AppError::Proibido => "Acesso proibido"@,
            AppError::NaoEncontrado => "Recurso não encontrado"@,
            AppError::BadRequest(m) => m@,
            AppError::Internal(m) => m@,
        }
    }

    /// The JSON body of the answer: an object whose only member `erro`
    /// holds the message.
    pub open spec fn texto_do_corpo(&self) -> Seq<char> {
        "{\"erro\":"@ + texto_json(self.texto_da_mensagem()) + "}"@
    }

    /// The error answered when the database fails: an internal error whose
    /// message says so, followed by the database's own description.
    pub fn de_banco_de_dados(descricao: &str) -> (r: AppError)
        ensures
            r matches AppError::Internal(m) && m@ == "Erro de banco de dados: "@ + descricao@,
    {
        let mut m = String::from_str("Erro de banco de dados: ");
        m.append(descricao);
        AppError::Internal(m)
    }

    /// The HTTP status code of the error.
    pub fn status(&self) -> (r: u16)
        ensures
            r == self.codigo_http(),
    {
        match self {
            AppError::NaoAutorizado => 401,
            AppError::Proibido => 403,
            AppError::NaoEncontrado => 404,
            AppError::BadRequest(_) => 400,
            AppError::Internal(_) => 500,
        }
    }

    /// The message shown to the client.
    pub fn mensagem(&self) -> (r: String)
        ensures
            r@ == self.texto_da_mensagem(),
    {
        match self {
            AppError::NaoAutorizado => String::from_str("Não autorizado"),
            AppError::Proibido => String::from_str("Acesso proibido"),
            AppError::NaoEncontrado => String::from_str("Recurso não encontrado"),
            AppError::BadRequest(m) => m.clone(),
            AppError::Internal(m) => m.clone(),
        }
    }

    /// The status code and the JSON body of the answer to this error.
    pub fn resposta(&self) -> (r: (u16, String))
        ensures
            r.0 == self.codigo_http(),
            r.1@ == self.texto_do_corpo(),
    {
        let mensagem = self.mensagem();
        let mut corpo = String::from_str("{\"erro\":");
        anexar_texto_json(&mut corpo, mensagem.as_str());
        corpo.append("}");
        (self.status(), corpo)
    }
}

/// The body of an error answer holds its message: two errors answered with
/// the same body carry the same message.
pub proof fn lei_corpo_identifica_mensagem(e1: AppError, e2: AppError)
    requires
        e1.texto_do_corpo() == e2.texto_do_corpo(),
    ensures
        e1.texto_da_mensagem() == e2.texto_da_mensagem(),
{
    reveal_strlit("{\"erro\":");
    reveal_strlit("}");
    let c1 = e1.texto_do_corpo();
    let c2 = e2.texto_do_corpo();
    assert(c1.skip(8) =~= texto_json(e1.texto_da_mensagem()) + "}"@);
    assert(c2.skip(8) =~= texto_json(e2.texto_da_mensagem()) + "}"@);
    lema_texto_json_determina(e1.texto_da_mensagem(), e2.texto_da_mensagem(), "}"@, "}"@);
}


/// The body of an error answer is `{"erro":` followed by a string literal
/// that reads back as the message, and a closing `}`.
pub proof fn lei_corpo_traz_mensagem(e: AppError)
    ensures
        ({
            let c = e.texto_do_corpo();
            &&& c.len() >= 10
            &&& c.subrange(0, 8) == "{\"erro\":"@
            &&& c[8] == '"'
            &&& c[c.len() - 2] == '"'
            &&& c[c.len() - 1] == '}'
            &&& desescapado(c.subrange(9, c.len() - 2)) == e.texto_da_mensagem()
        }),
{
    reveal_strlit("{\"erro\":");
    reveal_strlit("}");
    let c = e.texto_do_corpo();
    let t = texto_json(e.texto_da_mensagem());
    lei_texto_json_le_de_volta(e.texto_da_mensagem());
    assert(c.subrange(0, 8) =~= "{\"erro\":"@);
    assert(c.subrange(8, c.len() - 1) =~= t);
    assert(c[8] == t[0]);
    assert(c[c.len() - 2] == t.last());
    assert(c.subrange(9, c.len() - 2) =~= t.subrange(1, t.len() - 1));
}

} // verus!
