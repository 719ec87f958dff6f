//! The signed token (JWT, HS256) that carries a signed-in user.

use vstd::prelude::*;
use vstd::string::StringExecFns;
use vstd::string::StringSliceAdditionalSpecFns;

use crate::erros::AppError;
use crate::json::{
    anexar_decimal,
    anexar_decimal_com_sinal,
    anexar_texto_json,
    decimal,
    decimal_com_sinal,
    lema_decimal_com_sinal_determina,
    lema_decimal_determina,
    lema_texto_json_determina,
    lei_decimal_com_sinal_e_o_numeral,
    lei_decimal_e_o_numeral,
    lei_texto_json_le_de_volta,
    le_inteiro,
    le_natural,
    desescapado,
    texto_json,
};

verus! {

/// What a token says of its bearer: the user id, name and role, and the
/// Unix time after which the token is no longer accepted.
#[derive(Debug, Clone, PartialEq, Eq)]
pub struct Claims {
    pub sub: i64,
    pub nome: String,
    pub cargo: String,
    pub exp: usize,
}

/// The largest Unix time a `chrono::DateTime<Utc>` can hold: the last
/// second of the year 262142.
pub const MAIOR_INSTANTE: i64 = 8210266876799i64;

/// How long a token lasts, in seconds.
pub const VALIDADE_SEGUNDOS: i64 = 86400i64;

/// How long past its expiration a token is still accepted, in seconds (the
/// leeway of `jsonwebtoken::Validation::default()`).
pub const FOLGA_SEGUNDOS: u64 = 60u64;

/// The JSON object written as the payload of a token.
pub open spec fn json_claims(sub: int, nome: Seq<char>, cargo: Seq<char>, exp: nat) -> Seq<char> {
    "{\"sub\":"@ + decimal_com_sinal(sub) + ",\"nome\":"@ + texto_json(nome) + ",\"cargo\":"@
        + texto_json(cargo) + ",\"exp\":"@ + decimal(exp) + "}"@
}

/// `payload` is the JSON object of some claims.
pub open spec fn payload_de_claims(payload: Seq<char>) -> bool {
    exists|sub: i64, nome: Seq<char>, cargo: Seq<char>, exp: usize|
        payload == #[trigger] json_claims(sub as int, nome, cargo, exp as nat)
}

/// The token that `jsonwebtoken::encode` writes with the default header
/// (HS256) for the JSON text `payload`, signed with `segredo`; `None` where
/// `payload` is not JSON text.
pub uninterp spec fn token_hs256(payload: Seq<char>, segredo: Seq<u8>) -> Option<Seq<char>>;

/// The payload text that `jsonwebtoken::decode` reads out of `token` once
/// it has checked, with the default validation (HS256) but without looking
/// at the clock, that the token is signed with `segredo` and that its
/// payload is a JSON object with a numeric `exp`; `None` where any of this
/// fails.
pub uninterp spec fn payload_hs256(token: Seq<char>, segredo: Seq<u8>) -> Option<Seq<char>>;

/// When a token issued at `agora` expires: 24 hours later, where the
/// calendar reaches that far.
pub open spec fn expiracao_de(agora: int) -> Option<usize> {
    if agora + VALIDADE_SEGUNDOS <= MAIOR_INSTANTE {
        Some((agora + VALIDADE_SEGUNDOS) as usize)
    } else {
        None
    }
}

/// The token issued at `agora` for the user `sub`, or `None` where its
/// expiration falls outside the calendar.
pub open spec fn token_emitido(
    sub: int,
    nome: Seq<char>,
    cargo: Seq<char>,
    agora: int,
    segredo: Seq<u8>,
) -> Option<Seq<char>> {
    match expiracao_de(agora) {
        Some(exp) => token_hs256(json_claims(sub, nome, cargo, exp as nat), segredo),
        None => None,
    }
}

/// Why no token could be issued.
#[derive(Debug, Clone, PartialEq, Eq)]
pub enum ErroToken {
    /// The expiration, 24 hours after now, is past the last instant the
    /// calendar holds.
    ExpiracaoForaDoCalendario,
}

/// Declares the error type of `jsonwebtoken`.
#[verifier::external_type_specification]
#[verifier::external_body]
pub struct ErroJsonWebToken(jsonwebtoken::errors::Error);

/// Signs the JSON text `payload` as an HS256 token.
///
/// Calls `serde_json::value::RawValue::from_string`, which checks that
/// `payload` is JSON text, and `jsonwebtoken::encode` with the default
/// header and `EncodingKey::from_secret(segredo)`. The header and the key
/// are both of the HMAC family and the raw payload is written verbatim, so
/// `encode` fails on nothing here; the only failure is a payload that is not
/// JSON. The contract names the token and says that the JSON object of any
/// claims is accepted; it does not say which other texts are.
#[verifier::external_body]
fn assinar_hs256(payload: String, segredo: &[u8]) -> (r: Result<String, jsonwebtoken::errors::Error>)
    ensures
        match r {
            Ok(t) => token_hs256(payload@, segredo@) == Some(t@),
            Err(_) => token_hs256(payload@, segredo@) is None,
        },
        payload_de_claims(payload@) ==> r is Ok,
{
    let bruto = serde_json::value::RawValue::from_string(payload)?;
    jsonwebtoken::encode(
        &jsonwebtoken::Header::default(),
        &bruto,
        &jsonwebtoken::EncodingKey::from_secret(segredo),
    )
}

/// Checks the signature of a token and reads its payload text.
///
/// Calls `jsonwebtoken::decode` into `Box<serde_json::value::RawValue>` with
/// `DecodingKey::from_secret(segredo)` and `Validation::default()` whose
/// `validate_exp` is turned off, so that the call never reads the clock
/// (`get_current_timestamp` panics on a clock before 1970); the expiration
/// is checked by `exigir_nao_expirado`. `decode` splits the token at its
/// last two dots, reads the header, requires HS256, recomputes the HMAC and
/// compares it, decodes the payload, parses it as JSON and requires a
/// numeric `exp`; none of this depends on anything but the two arguments,
/// and the contract names the result. A token that `jsonwebtoken::encode`
/// wrote with the default header for the JSON object of some claims passes
/// all of these checks and gives that object back, which the last clause
/// states.
#[verifier::external_body]
fn conferir_hs256(token: &str, segredo: &[u8]) -> (r: Result<String, jsonwebtoken::errors::Error>)
    ensures
        match r {
            Ok(p) => payload_hs256(token@, segredo@) == Some(p@),
            Err(_) => payload_hs256(token@, segredo@) is None,
        },
        match r {
            Ok(q) => forall|p: Seq<char>|
                payload_de_claims(p) && #[trigger] token_hs256(p, segredo@) == Some(token@) ==> q@
                    == p,
            Err(_) => forall|p: Seq<char>|
                !(payload_de_claims(p) && #[trigger] token_hs256(p, segredo@) == Some(token@)),
        },
{
    let mut validacao = jsonwebtoken::Validation::default();
    validacao.validate_exp = false;
    let chave = jsonwebtoken::DecodingKey::from_secret(segredo);
    let dados = jsonwebtoken::decode::<Box<serde_json::value::RawValue>>(token, &chave, &validacao)?;
    Ok(dados.claims.get().to_string())
}

/// Checks that a token is signed with `segredo` and reads its payload text;
/// any token that fails is unauthorized. A token issued by `criar_token`
/// with the same secret is accepted and gives back the JSON object of its
/// claims.
pub fn validar_token(token: &str, segredo: &str) -> (r: Result<String, AppError>)
    ensures
        match payload_hs256(token@, segredo.spec_bytes()) {
            Some(p) => r matches Ok(q) && q@ == p,
            None => r == Err::<String, AppError>(AppError::NaoAutorizado),
        },
        forall|p: Seq<char>|
            payload_de_claims(p) && #[trigger] token_hs256(p, segredo.spec_bytes()) == Some(token@)
                ==> (r matches Ok(q) && q@ == p),
{
    match conferir_hs256(token, segredo.as_bytes()) {
        Ok(p) => Ok(p),
        Err(_) => Err(AppError::NaoAutorizado),
    }
}

/// A token whose expiration `exp` is more than the leeway before the Unix
/// time `agora` has expired.
pub open spec fn expirado(exp: int, agora: int) -> bool {
    exp < agora - FOLGA_SEGUNDOS
}

/// Lets through the claims of a token read at the Unix time `agora` (the
/// caller reads the clock) unless the token has expired, which is
/// unauthorized.
pub fn exigir_nao_expirado(claims: Claims, agora: u64) -> (r: Result<Claims, AppError>)
    requires
        agora >= FOLGA_SEGUNDOS,
    ensures
        expirado(claims.exp as int, agora as int) ==> r == Err::<Claims, AppError>(
            AppError::NaoAutorizado,
        ),
        !expirado(claims.exp as int, agora as int) ==> r == Ok::<Claims, AppError>(claims),
{
    if (claims.exp as u64) < agora - FOLGA_SEGUNDOS {
        Err(AppError::NaoAutorizado)
    } else {
        Ok(claims)
    }
}

/// A token issued at `emitido` is accepted until 24 hours and the leeway
/// later, and not after.
pub proof fn lei_token_vale_24_horas(emitido: int, exp: usize, agora: int)
    requires
        expiracao_de(emitido) == Some(exp),
        0 <= emitido + VALIDADE_SEGUNDOS <= usize::MAX,
    ensures
        expirado(exp as int, agora) <==> agora > emitido + VALIDADE_SEGUNDOS + FOLGA_SEGUNDOS,
{
}

/// The expiration of a token issued at `agora`.
pub fn expiracao(agora: i64) -> (r: Option<usize>)
    ensures
        r == expiracao_de(agora as int),
        agora + 86400 <= 8210266876799 ==> r == Some((agora + 86400) as usize),
{
    if agora <= MAIOR_INSTANTE - VALIDADE_SEGUNDOS {
        Some((agora + VALIDADE_SEGUNDOS) as usize)
    } else {
        None
    }
}

/// The JSON object of the claims, as `serde_json` writes it.
pub fn claims_para_json(claims: &Claims) -> (r: String)
    ensures
        r@ == json_claims(claims.sub as int, claims.nome@, claims.cargo@, claims.exp as nat),
{
    let mut s = String::from_str("{\"sub\":");
    anexar_decimal_com_sinal(&mut s, claims.sub);
    s.append(",\"nome\":");
    anexar_texto_json(&mut s, claims.nome.as_str());
    s.append(",\"cargo\":");
    anexar_texto_json(&mut s, claims.cargo.as_str());
    s.append(",\"exp\":");
    anexar_decimal(&mut s, claims.exp as u64);
    s.append("}");
    assert(s@ =~= json_claims(claims.sub as int, claims.nome@, claims.cargo@, claims.exp as nat));
    s
}

/// Issues the token of the user `id` as of the Unix time `agora` (the
/// caller reads the clock): its claims are the user's id, name and role and
/// an expiration 24 hours after `agora`.
pub fn criar_token(id: i64, nome: &str, cargo: &str, agora: i64, segredo: &str) -> (r: Result<
    String,
    ErroToken,
>)
    ensures
        match r {
            Ok(t) => token_emitido(id as int, nome@, cargo@, agora as int, segredo.spec_bytes())
                == Some(t@),
            Err(e) => e == ErroToken::ExpiracaoForaDoCalendario && expiracao_de(agora as int)
                is None,
        },
        r is Ok <==> expiracao_de(agora as int) is Some,
        agora + 86400 <= 8210266876799 ==> r is Ok,
{
    match expiracao(agora) {
        None => Err(ErroToken::ExpiracaoForaDoCalendario),
        Some(exp) => {
            let claims = Claims {
                sub: id,
                nome: nome.to_owned(),
                cargo: cargo.to_owned(),
                exp,
            };
            let payload = claims_para_json(&claims);
            let ghost texto = payload@;
            assert(payload_de_claims(texto)) by {
                assert(texto == json_claims(id as int, nome@, cargo@, exp as nat));
            }
            match assinar_hs256(payload, segredo.as_bytes()) {
                Ok(t) => Ok(t),
                Err(_) => {
                    assert(false);
                    Err(ErroToken::ExpiracaoForaDoCalendario)
                },
            }
        },
    }
}

proof fn lema_literais_das_claims()
    ensures
        "{\"sub\":"@.len() == 7,
        ",\"nome\":"@.len() == 8,
        ",\"nome\":"@[0] == ',',
        ",\"cargo\":"@.len() == 9,
        ",\"exp\":"@.len() == 7,
        ",\"exp\":"@[0] == ',',
        "}"@.len() == 1,
        "}"@[0] == '}',
{
    reveal_strlit("{\"sub\":");
    reveal_strlit(",\"nome\":");
    reveal_strlit(",\"cargo\":");
    reveal_strlit(",\"exp\":");
    reveal_strlit("}");
}

proof fn lema_sem_prefixo(p: Seq<char>, a: Seq<char>, b: Seq<char>)
    requires
        p + a == p + b,
    ensures
        a == b,
{
    assert(a =~= (p + a).skip(p.len() as int));
    assert(b =~= (p + b).skip(p.len() as int));
}

proof fn lema_reassocia(
    a: Seq<char>,
    b: Seq<char>,
    c: Seq<char>,
    d: Seq<char>,
    e: Seq<char>,
    f: Seq<char>,
    g: Seq<char>,
    h: Seq<char>,
    i: Seq<char>,
)
    ensures
        a + b + c + d + e + f + g + h + i == a + (b + (c + (d + (e + (f + (g + (h + i))))))),
{
    assert(a + b + c + d + e + f + g + h + i =~= a + (b + (c + (d + (e + (f + (g + (h
        + i))))))));
}

/// Two claims written as the same JSON object are the same claims: the
/// payload of a token identifies the user id, name, role and expiration it
/// was issued with.
pub proof fn lei_payload_identifica_claims(
    sub1: int,
    nome1: Seq<char>,
    cargo1: Seq<char>,
    exp1: nat,
    sub2: int,
    nome2: Seq<char>,
    cargo2: Seq<char>,
    exp2: nat,
)
    requires
        json_claims(sub1, nome1, cargo1, exp1) == json_claims(sub2, nome2, cargo2, exp2),
    ensures
        sub1 == sub2,
        nome1 == nome2,
        cargo1 == cargo2,
        exp1 == exp2,
{
    lema_literais_das_claims();
    let p1 = "{\"sub\":"@;
    let p2 = ",\"nome\":"@;
    let p3 = ",\"cargo\":"@;
    let p4 = ",\"exp\":"@;
    let p5 = "}"@;
    // What follows the expiration, the role, the name and the id.
    let c1 = p4 + (decimal(exp1) + p5);
    let c2 = p4 + (decimal(exp2) + p5);
    let n1 = p3 + (texto_json(cargo1) + c1);
    let n2 = p3 + (texto_json(cargo2) + c2);
    let s1 = p2 + (texto_json(nome1) + n1);
    let s2 = p2 + (texto_json(nome2) + n2);
    lema_reassocia(
        p1,
        decimal_com_sinal(sub1),
        p2,
        texto_json(nome1),
        p3,
        texto_json(cargo1),
        p4,
        decimal(exp1),
        p5,
    );
    lema_reassocia(
        p1,
        decimal_com_sinal(sub2),
        p2,
        texto_json(nome2),
        p3,
        texto_json(cargo2),
        p4,
        decimal(exp2),
        p5,
    );
    lema_sem_prefixo(p1, decimal_com_sinal(sub1) + s1, decimal_com_sinal(sub2) + s2);
    lema_decimal_com_sinal_determina(sub1, sub2, s1, s2);
    lema_sem_prefixo(p2, texto_json(nome1) + n1, texto_json(nome2) + n2);
    lema_texto_json_determina(nome1, nome2, n1, n2);
    lema_sem_prefixo(p3, texto_json(cargo1) + c1, texto_json(cargo2) + c2);
    lema_texto_json_determina(cargo1, cargo2, c1, c2);
    lema_sem_prefixo(p4, decimal(exp1) + p5, decimal(exp2) + p5);
    lema_decimal_determina(exp1, exp2, p5, p5);
}


/// `lit` stands in `j` from position `k` on.
pub open spec fn trecho_em(j: Seq<char>, k: int, lit: Seq<char>) -> bool {
    0 <= k && k + lit.len() <= j.len() && j.subrange(k, k + lit.len()) == lit
}

/// What a reader of the payload `j` finds in it: it opens with `{"sub":`,
/// the text up to `,"nome":` reads back as `sub`, the string literal after
/// `,"nome":` reads back as `nome`, the one after `,"cargo":` as `cargo`, and
/// the text after `,"exp":` up to the closing `}` reads back as `exp`.
pub open spec fn payload_traz(j: Seq<char>, sub: int, nome: Seq<char>, cargo: Seq<char>, exp: nat) -> bool {
    &&& trecho_em(j, 0, "{\"sub\":"@)
    &&& j.len() > 0 && j.last() == '}'
    &&& exists|a: int|
        7 <= a && #[trigger] trecho_em(j, a, ",\"nome\":"@) && le_inteiro(j.subrange(7, a)) == sub
    &&& exists|a: int, b: int|
        #![trigger trecho_em(j, a, ",\"nome\":"@), trecho_em(j, b, ",\"cargo\":"@)]
        trecho_em(j, a, ",\"nome\":"@) && trecho_em(j, b, ",\"cargo\":"@) && a + 10 <= b && j[a
            + 8] == '"' && j[b - 1] == '"' && desescapado(j.subrange(a + 9, b - 1)) == nome
    &&& exists|b: int, c: int|
        #![trigger trecho_em(j, b, ",\"cargo\":"@), trecho_em(j, c, ",\"exp\":"@)]
        trecho_em(j, b, ",\"cargo\":"@) && trecho_em(j, c, ",\"exp\":"@) && b + 11 <= c && j[b
            + 9] == '"' && j[c - 1] == '"' && desescapado(j.subrange(b + 10, c - 1)) == cargo
    &&& exists|c: int|
        #[trigger] trecho_em(j, c, ",\"exp\":"@) && c + 7 < j.len() && le_natural(
            j.subrange(c + 7, j.len() - 1),
        ) == exp
}

proof fn lema_parte(j: Seq<char>, m: int, x: Seq<char>, y: Seq<char>)
    requires
        0 <= m <= j.len(),
        j.skip(m) == x + y,
    ensures
        j.subrange(m, m + x.len()) == x,
        j.skip(m + x.len()) == y,
{
    assert(j.subrange(m, m + x.len()) =~= (x + y).take(x.len() as int));
    assert((x + y).take(x.len() as int) =~= x);
    assert(j.skip(m + x.len()) =~= (x + y).skip(x.len() as int));
    assert((x + y).skip(x.len() as int) =~= y);
}

/// The payload of a token carries each field it is given: reading the JSON
/// object back gives the user id, name, role and expiration it was written
/// from.
#[verifier::spinoff_prover]
#[verifier::rlimit(60)]
pub proof fn lei_payload_traz_os_campos(sub: int, nome: Seq<char>, cargo: Seq<char>, exp: nat)
    ensures
        payload_traz(json_claims(sub, nome, cargo, exp), sub, nome, cargo, exp),
{
    lema_literais_das_claims();
    reveal_strlit(",\"cargo\":");
    let p1 = "{\"sub\":"@;
    let p2 = ",\"nome\":"@;
    let p3 = ",\"cargo\":"@;
    let p4 = ",\"exp\":"@;
    let p5 = "}"@;
    let d = decimal_com_sinal(sub);
    let t1 = texto_json(nome);
    let t2 = texto_json(cargo);
    let e = decimal(exp);
    let j = json_claims(sub, nome, cargo, exp);
    lema_reassocia(p1, d, p2, t1, p3, t2, p4, e, p5);
    let r4 = p4 + (e + p5);
    let r3 = t2 + r4;
    let r2 = p3 + r3;
    let r1 = t1 + r2;
    let r0 = p2 + r1;
    assert(j == p1 + (d + r0));
    assert(j.skip(0) =~= j);
    lema_parte(j, 0, p1, d + r0);
    let a: int = 7 + d.len() as int;
    lema_parte(j, 7, d, r0);
    lema_parte(j, a, p2, r1);
    lema_parte(j, a + 8, t1, r2);
    let b: int = a + 8 + t1.len();
    lema_parte(j, b, p3, r3);
    lema_parte(j, b + 9, t2, r4);
    let c: int = b + 9 + t2.len();
    lema_parte(j, c, p4, e + p5);
    lema_parte(j, c + 7, e, p5);
    lei_decimal_com_sinal_e_o_numeral(sub);
    lei_decimal_e_o_numeral(exp);
    lei_texto_json_le_de_volta(nome);
    lei_texto_json_le_de_volta(cargo);
    assert(j.len() == c + 7 + e.len() + 1);
    assert(j.last() == p5[0]);
    assert(trecho_em(j, 0, p1));
    assert(trecho_em(j, a, p2));
    assert(trecho_em(j, b, p3));
    assert(trecho_em(j, c, p4));
    assert(j[a + 8] == t1[0]);
    assert(j[b - 1] == t1.last());
    assert(j.subrange(a + 9, b - 1) =~= t1.subrange(1, t1.len() - 1));
    assert(j[b + 9] == t2[0]);
    assert(j[c - 1] == t2.last());
    assert(j.subrange(b + 10, c - 1) =~= t2.subrange(1, t2.len() - 1));
    assert(j.subrange(c + 7, j.len() - 1) == e);
}


/// Every instant whose expiration, 24 hours later, still falls within
/// chrono's calendar (up to 8210266876799, the last second of the year
/// 262142) gets an expiration, and it is exactly 86400 seconds later.
pub proof fn lei_expiracao_em_todo_o_calendario(agora: int)
    requires
        agora + 86400 <= 8210266876799,
    ensures
        expiracao_de(agora) is Some,
        0 <= agora + 86400 <= usize::MAX ==> expiracao_de(agora)->0 == agora + 86400,
{
}

} // verus!
