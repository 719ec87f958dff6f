use controle_producao::erros::AppError;

#[test]
fn status_de_cada_erro() {
    assert_eq!(AppError::NaoAutorizado.status(), 401);
    assert_eq!(AppError::Proibido.status(), 403);
    assert_eq!(AppError::NaoEncontrado.status(), 404);
    assert_eq!(AppError::BadRequest("x".to_string()).status(), 400);
    assert_eq!(AppError::Internal("y".to_string()).status(), 500);
}

#[test]
fn mensagens_fixas() {
    assert_eq!(AppError::NaoAutorizado.mensagem(), "Não autorizado");
    assert_eq!(AppError::Proibido.mensagem(), "Acesso proibido");
    assert_eq!(AppError::NaoEncontrado.mensagem(), "Recurso não encontrado");
    assert_eq!(AppError::BadRequest("Cargo inválido".to_string()).mensagem(), "Cargo inválido");
}

#[test]
fn corpo_da_resposta() {
    assert_eq!(AppError::Proibido.resposta(), (403, "{\"erro\":\"Acesso proibido\"}".to_string()));
    assert_eq!(
        AppError::Internal("falha \"x\"\n".to_string()).resposta(),
        (500, "{\"erro\":\"falha \\\"x\\\"\\n\"}".to_string())
    );
}

#[test]
fn corpo_igual_ao_serde_json() {
    let e = AppError::NaoEncontrado;
    let mut m = serde_json::Map::new();
    m.insert("erro".to_string(), serde_json::Value::String(e.mensagem()));
    assert_eq!(e.resposta().1, serde_json::Value::Object(m).to_string());
}

#[test]
fn erro_de_banco_de_dados() {
    let e = AppError::de_banco_de_dados("no such table: cortes");
    assert_eq!(e, AppError::Internal("Erro de banco de dados: no such table: cortes".to_string()));
    assert_eq!(e.status(), 500);
}
