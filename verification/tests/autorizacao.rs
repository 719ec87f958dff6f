use controle_producao::autorizacao::{e_admin, extrair_token_bearer, mesmo_texto, requer_admin, usuario_publico_de, verificar_admin};
use controle_producao::erros::AppError;
use controle_producao::jwt::Claims;

fn claims(cargo: &str) -> Claims {
    Claims { sub: 5, nome: "Rita".to_string(), cargo: cargo.to_string(), exp: 10 }
}

#[test]
fn textos_iguais_e_diferentes() {
    assert!(mesmo_texto("admin", "admin"));
    assert!(!mesmo_texto("admin", "Admin"));
    assert!(!mesmo_texto("admin", "admin "));
    assert!(mesmo_texto("", ""));
}

#[test]
fn somente_admin_passa() {
    assert!(e_admin(&claims("admin")));
    assert!(!e_admin(&claims("funcionaria")));
    assert_eq!(verificar_admin(&claims("admin")), Ok(()));
    assert_eq!(verificar_admin(&claims("funcionaria")), Err(AppError::Proibido));
    assert_eq!(verificar_admin(&claims("ADMIN")), Err(AppError::Proibido));
}

#[test]
fn portao_de_admin() {
    assert_eq!(requer_admin(None), Err(AppError::NaoAutorizado));
    assert_eq!(requer_admin(Some(&claims("funcionaria"))), Err(AppError::Proibido));
    assert_eq!(requer_admin(Some(&claims("admin"))), Ok(()));
}

#[test]
fn token_do_cabecalho() {
    assert_eq!(extrair_token_bearer(Some("Bearer abc.def")), Ok("abc.def"));
    assert_eq!(extrair_token_bearer(Some("Bearer ")), Ok(""));
    assert_eq!(extrair_token_bearer(Some("bearer abc")), Err(AppError::NaoAutorizado));
    assert_eq!(extrair_token_bearer(Some("Bearer")), Err(AppError::NaoAutorizado));
    assert_eq!(extrair_token_bearer(Some("Basic abc")), Err(AppError::NaoAutorizado));
    assert_eq!(extrair_token_bearer(None), Err(AppError::NaoAutorizado));
}

#[test]
fn usuario_publico_das_claims() {
    let u = usuario_publico_de(&claims("admin"));
    assert_eq!((u.id, u.nome.as_str(), u.cargo.as_str()), (5, "Rita", "admin"));
}
