use controle_producao::acesso::{e_cargo_valido, login, preparar_usuario, resposta_login, usuario_que_aceita, UsuarioAtivo};
use controle_producao::erros::AppError;
use controle_producao::jwt::{criar_token, Claims, MAIOR_INSTANTE};
use controle_producao::modelos::CriarUsuario;

fn usuario(id: i64, nome: &str, pin: &str, cargo: &str) -> UsuarioAtivo {
    UsuarioAtivo { id, nome: nome.to_string(), pin: bcrypt::hash(pin, 4).unwrap(), cargo: cargo.to_string() }
}

fn admin() -> Claims {
    Claims { sub: 1, nome: "Chefe".to_string(), cargo: "admin".to_string(), exp: 0 }
}

#[test]
fn primeiro_usuario_que_aceita_o_pin() {
    let us = vec![usuario(1, "A", "1111", "admin"), usuario(2, "B", "2222", "funcionaria"), usuario(3, "C", "2222", "funcionaria")];
    assert_eq!(usuario_que_aceita(&us, "2222"), Some(1));
    assert_eq!(usuario_que_aceita(&us, "1111"), Some(0));
    assert_eq!(usuario_que_aceita(&us, "9999"), None);
}

#[test]
fn hash_ilegivel_nao_aceita() {
    let mut us = vec![usuario(1, "A", "1111", "admin")];
    us[0].pin = "texto-puro".to_string();
    assert_eq!(usuario_que_aceita(&us, "texto-puro"), None);
}

#[test]
fn login_em_instante_fixo() {
    let us = vec![usuario(1, "A", "1111", "admin"), usuario(2, "B", "2222", "funcionaria")];
    let r = login(&us, "2222", "segredo", 1700000000).unwrap();
    assert_eq!(r.usuario.id, 2);
    assert_eq!(r.usuario.nome, "B");
    assert_eq!(r.usuario.cargo, "funcionaria");
    assert_eq!(r.token, criar_token(2, "B", "funcionaria", 1700000000, "segredo").unwrap());
}

#[test]
fn login_sem_pin_aceito_e_recusado() {
    let us = vec![usuario(1, "A", "1111", "admin")];
    assert_eq!(login(&us, "0000", "s", 1700000000), Err(AppError::NaoAutorizado));
    assert_eq!(login(&Vec::new(), "0000", "s", 1700000000), Err(AppError::NaoAutorizado));
}

#[test]
fn login_fora_do_calendario() {
    let us = vec![usuario(1, "A", "1111", "admin")];
    assert_eq!(
        login(&us, "1111", "s", MAIOR_INSTANTE),
        Err(AppError::Internal("Falha ao calcular expiração".to_string()))
    );
}

#[test]
fn login_agora() {
    let us = vec![usuario(4, "D", "4444", "admin")];
    let i = usuario_que_aceita(&us, "4444").unwrap();
    let agora = chrono::Utc::now().timestamp();
    let r = resposta_login(&us[i], "s", agora).unwrap();
    assert_eq!(r.usuario.id, 4);
    assert_eq!(r.token, criar_token(4, "D", "admin", agora, "s").unwrap());
}

#[test]
fn cargos_validos() {
    assert!(e_cargo_valido("funcionaria"));
    assert!(e_cargo_valido("admin"));
    assert!(!e_cargo_valido("gerente"));
    assert!(!e_cargo_valido(""));
}

#[test]
fn criar_usuario_exige_admin() {
    let novo = CriarUsuario { nome: "E".to_string(), pin: "5555".to_string(), cargo: "funcionaria".to_string() };
    let func = Claims { cargo: "funcionaria".to_string(), ..admin() };
    assert_eq!(preparar_usuario(&func, &novo), Err(AppError::Proibido));
}

#[test]
fn criar_usuario_exige_cargo_conhecido() {
    let novo = CriarUsuario { nome: "E".to_string(), pin: "5555".to_string(), cargo: "gerente".to_string() };
    assert_eq!(preparar_usuario(&admin(), &novo), Err(AppError::BadRequest("Cargo inválido".to_string())));
}

#[test]
fn pin_cadastrado_entra() {
    let novo = CriarUsuario { nome: "E".to_string(), pin: "5555".to_string(), cargo: "funcionaria".to_string() };
    let hash = preparar_usuario(&admin(), &novo).unwrap();
    assert!(bcrypt::verify("5555", &hash).unwrap());
    let us = vec![UsuarioAtivo { id: 9, nome: novo.nome.clone(), pin: hash, cargo: novo.cargo.clone() }];
    let r = login(&us, "5555", "s", 1700000000).unwrap();
    assert_eq!(r.usuario.id, 9);
}

#[test]
fn formato_do_hash_do_pin() {
    let novo = CriarUsuario { nome: "F".to_string(), pin: "6666".to_string(), cargo: "admin".to_string() };
    let hash = preparar_usuario(&admin(), &novo).unwrap();
    assert_eq!(hash.len(), 60);
    assert!(hash.starts_with("$2b$12$"));
}

#[test]
fn resposta_fora_do_calendario() {
    let u = usuario(1, "A", "1111", "admin");
    assert_eq!(
        resposta_login(&u, "s", MAIOR_INSTANTE),
        Err(AppError::Internal("Falha ao calcular expiração".to_string()))
    );
}
