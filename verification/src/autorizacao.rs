//! Who may do what: the bearer token of a request and the administrator
//! role.

use vstd::prelude::*;

use crate::erros::AppError;
use crate::jwt::Claims;
use crate::modelos::UsuarioPublico;

verus! {

/// Whether two texts are the same.
pub fn mesmo_texto(a: &str, b: &str) -> (r: bool)
    ensures
        r == (a@ == b@),
{
    let n = a.unicode_len();
    let m = b.unicode_len();
    if n != m {
        return false;
    }
    for i in 0..n
        invariant
            n == a@.len(),
            m == b@.len(),
            n == m,
            forall|j: int| 0 <= j < i ==> a@[j] == b@[j],
    {
        if a.get_char(i) != b.get_char(i) {
            return false;
        }
    }
    assert(a@ =~= b@);
    true
}

/// The role of administrators.
pub open spec fn cargo_admin() -> Seq<char> {
    "admin"@
}

/// Whether the bearer of the claims is an administrator.
pub fn e_admin(claims: &Claims) -> (r: bool)
    ensures
        r == (claims.cargo@ == cargo_admin()),
{
    mesmo_texto(claims.cargo.as_str(), "admin")
}

/// Lets only administrators through: any other role is forbidden.
pub fn verificar_admin(claims: &Claims) -> (r: Result<(), AppError>)
    ensures
        r == (if claims.cargo@ == cargo_admin() {
            Ok::<(), AppError>(())
        } else {
            Err(AppError::Proibido)
        }),
{
    if e_admin(claims) {
        Ok(())
    } else {
        Err(AppError::Proibido)
    }
}

/// The decision of the administrators-only gate: a request that carries no
/// claims is unauthorized, one whose claims are not an administrator's is
/// forbidden, and an administrator's goes through.
pub fn requer_admin(claims: Option<&Claims>) -> (r: Result<(), AppError>)
    ensures
        r == (match claims {
            None => Err(AppError::NaoAutorizado),
            Some(c) => if c.cargo@ == cargo_admin() {
                Ok::<(), AppError>(())
            } else {
                Err(AppError::Proibido)
            },
        }),
{
    match claims {
        None => Err(AppError::NaoAutorizado),
        Some(c) => verificar_admin(c),
    }
}

/// The scheme that starts an `Authorization` header carrying a token.
pub open spec fn prefixo_bearer() -> Seq<char> {
    "Bearer "@
}

/// `valor` starts with `Bearer `.
pub open spec fn tem_prefixo_bearer(valor: Seq<char>) -> bool {
    valor.len() >= prefixo_bearer().len() && valor.take(prefixo_bearer().len() as int)
        == prefixo_bearer()
}

/// The token of an `Authorization` header: what follows `Bearer `. A request
/// without the header, or whose header does not start with `Bearer `, is
/// unauthorized.
pub fn extrair_token_bearer(valor: Option<&str>) -> (r: Result<&str, AppError>)
    ensures
        match valor {
            Some(v) if tem_prefixo_bearer(v@) => r matches Ok(t) && t@ == v@.skip(
                prefixo_bearer().len() as int,
            ),
            _ => r == Err::<&str, AppError>(AppError::NaoAutorizado),
        },
{
    match valor {
        None => Err(AppError::NaoAutorizado),
        Some(v) => {
            let prefixo = "Bearer ";
            proof {
                reveal_strlit("Bearer ");
            }
            let n = v.unicode_len();
            let p = prefixo.unicode_len();
            if n < p {
                return Err(AppError::NaoAutorizado);
            }
            for i in 0..p
                invariant
                    valor == Some(v),
                    n == v@.len(),
                    p == prefixo@.len(),
                    prefixo@ == prefixo_bearer(),
                    p <= n,
                    forall|j: int| 0 <= j < i ==> v@[j] == prefixo@[j],
            {
                if v.get_char(i) != prefixo.get_char(i) {
                    assert(v@.take(p as int)[i as int] != prefixo_bearer()[i as int]);
                    assert(v@.take(p as int) != prefixo_bearer());
                    assert(!tem_prefixo_bearer(v@));
                    return Err(AppError::NaoAutorizado);
                }
            }
            assert(v@.take(p as int) =~= prefixo_bearer());
            Ok(v.substring_char(p, n))
        },
    }
}

/// What is shown of the bearer of the claims.
pub fn usuario_publico_de(claims: &Claims) -> (r: UsuarioPublico)
    ensures
        r.id == claims.sub,
        r.nome@ == claims.nome@,
        r.cargo@ == claims.cargo@,
{
    UsuarioPublico { id: claims.sub, nome: claims.nome.clone(), cargo: claims.cargo.clone() }
}

} // verus!
