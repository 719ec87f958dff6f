//! The rules applied to what clients send about cuts and production.

use vstd::prelude::*;
use vstd::string::StringExecFns;

use crate::erros::AppError;
use crate::jwt::Claims;
use crate::modelos::{LancarProducao, Producao};

verus! {

/// The message of the error answered for a quantity that is not positive.
pub open spec fn mensagem_quantidade_invalida() -> Seq<char> {
    "Quantidade deve ser maior que zero"@
}

/// A production entry must count at least one piece.
pub fn validar_lancamento(lancamento: &LancarProducao) -> (r: Result<(), AppError>)
    ensures
        lancamento.quantidade > 0 ==> r == Ok::<(), AppError>(()),
        lancamento.quantidade <= 0 ==> (r matches Err(AppError::BadRequest(m)) && m@
            == mensagem_quantidade_invalida()),
{
    if lancamento.quantidade <= 0 {
        Err(AppError::BadRequest(String::from_str("Quantidade deve ser maior que zero")))
    } else {
        Ok(())
    }
}

/// The production entry recorded for a request: it is always attributed to
/// the signed-in user, to the cut its line belongs to, and counts what the
/// request says.
pub fn producao_lancada(
    id: i64,
    data_hora: String,
    claims: &Claims,
    corte_id: i64,
    lancamento: &LancarProducao,
) -> (r: Producao)
    ensures
        r.id == id,
        r.funcionaria_id == claims.sub,
        r.corte_id == corte_id,
        r.linha_corte_id == lancamento.linha_corte_id,
        r.operacao@ == lancamento.operacao@,
        r.quantidade == lancamento.quantidade,
        r.data_hora@ == data_hora@,
{
    Producao {
        id,
        funcionaria_id: claims.sub,
        corte_id,
        linha_corte_id: lancamento.linha_corte_id,
        operacao: lancamento.operacao.clone(),
        quantidade: lancamento.quantidade,
        data_hora,
    }
}

/// A record that was looked up: missing is not found.
pub fn encontrado<T>(registro: Option<T>) -> (r: Result<T, AppError>)
    ensures
        match registro {
            Some(v) => r == Ok::<T, AppError>(v),
            None => r == Err::<T, AppError>(AppError::NaoEncontrado),
        },
{
    match registro {
        Some(v) => Ok(v),
        None => Err(AppError::NaoEncontrado),
    }
}

/// The number of a new line of a cut: one past the largest number in use
/// (which is 0 for a cut without lines).
pub fn numero_da_nova_linha(maior_numero: i64) -> (r: i64)
    requires
        maior_numero < i64::MAX,
    ensures
        r == maior_numero + 1,
{
    maior_numero + 1
}

/// The pieces of a colour that are still to be produced.
pub fn pendente(total_geral: i64, produzido: i64) -> (r: i64)
    requires
        i64::MIN <= total_geral - produzido <= i64::MAX,
    ensures
        r == total_geral - produzido,
{
    total_geral - produzido
}

/// The first day a report covers when none is given.
pub open spec fn inicio_padrao() -> Seq<char> {
    "2000-01-01"@
}

/// The last day a report covers when none is given.
pub open spec fn fim_padrao() -> Seq<char> {
    "2099-12-31"@
}

/// The days a report covers: the given bounds, or 2000-01-01 and 2099-12-31
/// where a bound is missing.
pub fn periodo_relatorio(inicio: Option<String>, fim: Option<String>) -> (r: (String, String))
    ensures
        r.0@ == match inicio {
            Some(d) => d@,
            None => inicio_padrao(),
        },
        r.1@ == match fim {
            Some(d) => d@,
            None => fim_padrao(),
        },
{
    let de = match inicio {
        Some(d) => d,
        None => String::from_str("2000-01-01"),
    };
    let ate = match fim {
        Some(d) => d,
        None => String::from_str("2099-12-31"),
    };
    (de, ate)
}

} // verus!
