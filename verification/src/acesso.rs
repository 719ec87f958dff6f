//! Signing in with a PIN, and the hashing of the PIN of a new user.

use vstd::prelude::*;
use vstd::string::StringExecFns;
use vstd::string::StringSliceAdditionalSpecFns;

use crate::autorizacao::{cargo_admin, e_admin, mesmo_texto};
use crate::erros::AppError;
use crate::jwt::{criar_token, expiracao_de, token_emitido, ErroToken};
use crate::modelos::{CriarUsuario, UsuarioPublico};

verus! {

/// Declares the error type of `bcrypt`.
#[verifier::external_type_specification]
#[verifier::external_body]
pub struct ErroBcrypt(bcrypt::BcryptError);

/// What `bcrypt::verify(pin, hash)` returns: `Some(b)` for `Ok(b)`, `None`
/// for an error (a hash that is not in the bcrypt format).
pub uninterp spec fn bcrypt_verifica(pin: Seq<char>, hash: Seq<char>) -> Option<bool>;

/// Checks `pin` against a bcrypt hash.
///
/// Calls `bcrypt::verify`, which parses the cost and salt out of `hash`,
/// hashes `pin` again with them and compares; the result depends on the two
/// arguments alone, and the contract names it.
#[verifier::external_body]
fn conferir_pin(pin: &str, hash: &str) -> (r: Result<bool, bcrypt::BcryptError>)
    ensures
        match r {
            Ok(b) => bcrypt_verifica(pin@, hash@) == Some(b),
            Err(_) => bcrypt_verifica(pin@, hash@) is None,
        },
{
    bcrypt::verify(pin, hash)
}

/// Hashes a PIN for storage.
///
/// Calls `bcrypt::hash(pin, bcrypt::DEFAULT_COST)`. The salt is drawn from
/// the operating system, so the hash is not a function of `pin`, and the
/// call fails only where drawing the salt fails. The hash it returns is
/// written as `$2b$12$` followed by the 22 characters of the salt and the 31
/// of the digest, 60 in all, which `bcrypt::verify` parses back: checking
/// `pin` against it gives `Ok(true)`.
/// Nothing is said of other PINs checked against it.
#[verifier::external_body]
fn gerar_hash_pin(pin: &str) -> (r: Result<String, bcrypt::BcryptError>)
    ensures
        r matches Ok(h) ==> bcrypt_verifica(pin@, h@) == Some(true),
        r matches Ok(h) ==> h@.len() == 60 && h@.take(7) == "$2b$12$"@,
{
    bcrypt::hash(pin, bcrypt::DEFAULT_COST)
}

/// An active user as read for signing in: `pin` is the bcrypt hash.
#[derive(Debug, Clone, PartialEq, Eq)]
pub struct UsuarioAtivo {
    pub id: i64,
    pub nome: String,
    pub pin: String,
    pub cargo: String,
}

/// What a successful sign-in answers: the token and the user it belongs to.
#[derive(Debug, Clone, PartialEq, Eq)]
pub struct RespostaLogin {
    pub token: String,
    pub usuario: UsuarioPublico,
}

/// The stored hash of `u` accepts `pin`; a hash that cannot be read accepts
/// nothing.
pub open spec fn aceita(u: UsuarioAtivo, pin: Seq<char>) -> bool {
    bcrypt_verifica(pin, u.pin@) == Some(true)
}

/// `usuarios[i]` is the first user whose hash accepts `pin`.
pub open spec fn primeiro_a_aceitar(usuarios: Seq<UsuarioAtivo>, pin: Seq<char>, i: int) -> bool {
    &&& 0 <= i < usuarios.len()
    &&& aceita(usuarios[i], pin)
    &&& forall|j: int| 0 <= j < i ==> !aceita(#[trigger] usuarios[j], pin)
}

/// No user's hash accepts `pin`.
pub open spec fn nenhum_aceita(usuarios: Seq<UsuarioAtivo>, pin: Seq<char>) -> bool {
    forall|j: int| 0 <= j < usuarios.len() ==> !aceita(#[trigger] usuarios[j], pin)
}

/// The message of the error answered where no token can be issued.
pub open spec fn mensagem_expiracao() -> Seq<char> {
    "Falha ao calcular expiração"@
}

/// `r` is what the user `u`, let in at the Unix time `agora`, is answered:
/// the token issued at `agora` with their id, name and role, and what is
/// shown of them; or, where the token's expiration falls outside the
/// calendar, an internal error.
pub open spec fn resposta_para(
    u: UsuarioAtivo,
    segredo: Seq<u8>,
    agora: int,
    r: Result<RespostaLogin, AppError>,
) -> bool {
    match token_emitido(u.id as int, u.nome@, u.cargo@, agora, segredo) {
        Some(t) => r matches Ok(resposta) && resposta.token@ == t && resposta.usuario.id == u.id
            && resposta.usuario.nome@ == u.nome@ && resposta.usuario.cargo@ == u.cargo@,
        None => r matches Err(AppError::Internal(m)) && m@ == mensagem_expiracao(),
    }
}

/// `r` is what signing in with `pin` answers at the Unix time `agora`: the
/// first user whose hash accepts the PIN gets a token issued at `agora`
/// with their id, name and role; where no user's hash accepts it, the
/// request is unauthorized.
pub open spec fn login_responde(
    usuarios: Seq<UsuarioAtivo>,
    pin: Seq<char>,
    segredo: Seq<u8>,
    agora: int,
    r: Result<RespostaLogin, AppError>,
) -> bool {
    if nenhum_aceita(usuarios, pin) {
        r == Err::<RespostaLogin, AppError>(AppError::NaoAutorizado)
    } else {
        exists|i: int|
            #[trigger] primeiro_a_aceitar(usuarios, pin, i) && resposta_para(
                usuarios[i],
                segredo,
                agora,
                r,
            )
    }
}

/// The index of the first user whose hash accepts `pin`, if any.
pub fn usuario_que_aceita(usuarios: &Vec<UsuarioAtivo>, pin: &str) -> (r: Option<usize>)
    ensures
        match r {
            Some(i) => primeiro_a_aceitar(usuarios@, pin@, i as int),
            None => nenhum_aceita(usuarios@, pin@),
        },
{
    for i in 0..usuarios.len()
        invariant
            forall|j: int| 0 <= j < i ==> !aceita(#[trigger] usuarios@[j], pin@),
    {
        let confere = match conferir_pin(pin, usuarios[i].pin.as_str()) {
            Ok(b) => b,
            Err(_) => false,
        };
        if confere {
            return Some(i);
        }
    }
    None
}

/// What the user `u`, let in at the Unix time `agora` (the caller reads
/// the clock once the PIN is accepted), is answered: the token and what is
/// shown of the user.
pub fn resposta_login(u: &UsuarioAtivo, segredo: &str, agora: i64) -> (r: Result<
    RespostaLogin,
    AppError,
>)
    ensures
        resposta_para(*u, segredo.spec_bytes(), agora as int, r),
        r is Ok <==> expiracao_de(agora as int) is Some,
{
    match criar_token(u.id, u.nome.as_str(), u.cargo.as_str(), agora, segredo) {
        Ok(token) => Ok(
            RespostaLogin {
                token,
                usuario: UsuarioPublico { id: u.id, nome: u.nome.clone(), cargo: u.cargo.clone() },
            },
        ),
        Err(ErroToken::ExpiracaoForaDoCalendario) => Err(
            AppError::Internal(String::from_str("Falha ao calcular expiração")),
        ),
    }
}

/// Signs in with `pin` at the Unix time `agora` against the active users.
/// A PIN that some user's hash accepts is always let in where the calendar
/// holds the token's expiration.
pub fn login(usuarios: &Vec<UsuarioAtivo>, pin: &str, segredo: &str, agora: i64) -> (r: Result<
    RespostaLogin,
    AppError,
>)
    ensures
        login_responde(usuarios@, pin@, segredo.spec_bytes(), agora as int, r),
        !nenhum_aceita(usuarios@, pin@) && expiracao_de(agora as int) is Some ==> r is Ok,
{
    match usuario_que_aceita(usuarios, pin) {
        None => Err(AppError::NaoAutorizado),
        Some(i) => {
            let r = resposta_login(&usuarios[i], segredo, agora);
            assert(primeiro_a_aceitar(usuarios@, pin@, i as int));
            r
        },
    }
}

/// The roles a user may have.
pub open spec fn cargo_valido(cargo: Seq<char>) -> bool {
    cargo == "funcionaria"@ || cargo == cargo_admin()
}

/// The message of the error answered for an unknown role.
pub open spec fn mensagem_cargo_invalido() -> Seq<char> {
    "Cargo inválido"@
}

/// Whether `cargo` is a role a user may have.
pub fn e_cargo_valido(cargo: &str) -> (r: bool)
    ensures
        r == cargo_valido(cargo@),
        r == (cargo@ == "funcionaria"@ || cargo@ == "admin"@),
{
    mesmo_texto(cargo, "funcionaria") || mesmo_texto(cargo, "admin")
}

/// Decides on the creation of a user and hashes the new user's PIN: only an
/// administrator may create users, and only with a known role. The hash it
/// returns accepts the PIN that was sent.
pub fn preparar_usuario(claims: &crate::jwt::Claims, novo: &CriarUsuario) -> (r: Result<
    String,
    AppError,
>)
    ensures
        claims.cargo@ != cargo_admin() ==> r == Err::<String, AppError>(AppError::Proibido),
        claims.cargo@ == cargo_admin() && !cargo_valido(novo.cargo@) ==> (r matches Err(
            AppError::BadRequest(m),
        ) && m@ == mensagem_cargo_invalido()),
        claims.cargo@ == cargo_admin() && cargo_valido(novo.cargo@) ==> match r {
            Ok(h) => bcrypt_verifica(novo.pin@, h@) == Some(true) && h@.len() == 60 && h@.take(7)
                == "$2b$12$"@,
            Err(e) => e is Internal,
        },
{
    if !e_admin(claims) {
        return Err(AppError::Proibido);
    }
    if !e_cargo_valido(novo.cargo.as_str()) {
        return Err(AppError::BadRequest(String::from_str("Cargo inválido")));
    }
    match gerar_hash_pin(novo.pin.as_str()) {
        Ok(h) => Ok(h),
        Err(e) => Err(AppError::Internal(e.to_string())),
    }
}

/// A user whose stored hash accepts a PIN is never refused as unauthorized
/// when signing in with it, at any time: the user let in is that one or one
/// listed before them. In particular the PIN given when `preparar_usuario`
/// created a user lets that user's record through.
pub proof fn lei_pin_aceito_nunca_e_recusado(
    usuarios: Seq<UsuarioAtivo>,
    pin: Seq<char>,
    segredo: Seq<u8>,
    agora: int,
    k: int,
    r: Result<RespostaLogin, AppError>,
)
    requires
        0 <= k < usuarios.len(),
        bcrypt_verifica(pin, usuarios[k].pin@) == Some(true),
        login_responde(usuarios, pin, segredo, agora, r),
    ensures
        r != Err::<RespostaLogin, AppError>(AppError::NaoAutorizado),
        exists|i: int| 0 <= i <= k && #[trigger] primeiro_a_aceitar(usuarios, pin, i),
{
    assert(aceita(usuarios[k], pin));
    assert(!nenhum_aceita(usuarios, pin));
    let i = choose|i: int|
        #[trigger] primeiro_a_aceitar(usuarios, pin, i) && resposta_para(
            usuarios[i],
            segredo,
            agora,
            r,
        );
    if k < i {
        assert(!aceita(usuarios[k], pin));
    }
}

/// Signing in is refused as unauthorized exactly when no user's stored hash
/// accepts the PIN.
pub proof fn lei_recusa_exatamente_sem_pin_aceito(
    usuarios: Seq<UsuarioAtivo>,
    pin: Seq<char>,
    segredo: Seq<u8>,
    agora: int,
    r: Result<RespostaLogin, AppError>,
)
    requires
        login_responde(usuarios, pin, segredo, agora, r),
    ensures
        r == Err::<RespostaLogin, AppError>(AppError::NaoAutorizado) <==> nenhum_aceita(
            usuarios,
            pin,
        ),
{
    if !nenhum_aceita(usuarios, pin) {
        let k = choose|k: int| 0 <= k < usuarios.len() && aceita(#[trigger] usuarios[k], pin);
        lei_pin_aceito_nunca_e_recusado(usuarios, pin, segredo, agora, k, r);
    }
}


/// The roles a user may be created with are exactly `funcionaria` and
/// `admin`.
pub proof fn lei_cargos_aceitos(cargo: Seq<char>)
    ensures
        cargo_valido(cargo) <==> (cargo == "funcionaria"@ || cargo == "admin"@),
{
}

} // verus!
