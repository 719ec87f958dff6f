use controle_producao::erros::AppError;
use controle_producao::jwt::Claims;
use controle_producao::modelos::LancarProducao;
use controle_producao::regras::{encontrado, numero_da_nova_linha, pendente, periodo_relatorio, producao_lancada, validar_lancamento};

fn lancamento(q: i64) -> LancarProducao {
    LancarProducao { linha_corte_id: 11, operacao: "costura".to_string(), quantidade: q }
}

#[test]
fn quantidade_positiva() {
    assert_eq!(validar_lancamento(&lancamento(1)), Ok(()));
    assert_eq!(
        validar_lancamento(&lancamento(0)),
        Err(AppError::BadRequest("Quantidade deve ser maior que zero".to_string()))
    );
    assert!(validar_lancamento(&lancamento(-5)).is_err());
}

#[test]
fn producao_da_usuaria_autenticada() {
    let c = Claims { sub: 42, nome: "Rita".to_string(), cargo: "funcionaria".to_string(), exp: 0 };
    let p = producao_lancada(100, "2024-05-01 10:00:00".to_string(), &c, 8, &lancamento(12));
    assert_eq!((p.id, p.funcionaria_id, p.corte_id, p.linha_corte_id, p.quantidade), (100, 42, 8, 11, 12));
    assert_eq!(p.operacao, "costura");
    assert_eq!(p.data_hora, "2024-05-01 10:00:00");
}

#[test]
fn registro_procurado() {
    assert_eq!(encontrado(Some(3)), Ok(3));
    assert_eq!(encontrado::<i64>(None), Err(AppError::NaoEncontrado));
}

#[test]
fn nova_linha_e_pendente() {
    assert_eq!(numero_da_nova_linha(0), 1);
    assert_eq!(numero_da_nova_linha(7), 8);
    assert_eq!(pendente(100, 30), 70);
    assert_eq!(pendente(10, 25), -15);
}

#[test]
fn periodo_padrao_do_relatorio() {
    assert_eq!(periodo_relatorio(None, None), ("2000-01-01".to_string(), "2099-12-31".to_string()));
    assert_eq!(
        periodo_relatorio(Some("2024-01-01".to_string()), None),
        ("2024-01-01".to_string(), "2099-12-31".to_string())
    );
    assert_eq!(
        periodo_relatorio(None, Some("2024-02-01".to_string())),
        ("2000-01-01".to_string(), "2024-02-01".to_string())
    );
}
