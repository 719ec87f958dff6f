use controle_producao::json::{anexar_decimal, anexar_decimal_com_sinal, anexar_escape, anexar_texto_json};

fn texto(s: &str) -> String {
    let mut r = String::new();
    anexar_texto_json(&mut r, s);
    r
}

#[test]
fn texto_simples_entre_aspas() {
    assert_eq!(texto("Ana"), "\"Ana\"");
    assert_eq!(texto(""), "\"\"");
}

#[test]
fn texto_com_aspas_e_barra() {
    assert_eq!(texto("a\"b\\c"), "\"a\\\"b\\\\c\"");
}

#[test]
fn texto_com_controles() {
    assert_eq!(texto("\n\r\t\u{8}\u{c}"), "\"\\n\\r\\t\\b\\f\"");
    assert_eq!(texto("\u{1}\u{1f}"), "\"\\u0001\\u001f\"");
}

#[test]
fn texto_nao_ascii_fica_como_esta() {
    assert_eq!(texto("Não autorizado ✓"), "\"Não autorizado ✓\"");
    assert_eq!(texto("\u{7f}/"), "\"\u{7f}/\"");
}

#[test]
fn texto_igual_ao_serde_json() {
    let mut amostra = String::new();
    for c in 0u32..0x90 {
        if let Some(ch) = char::from_u32(c) {
            amostra.push(ch);
        }
    }
    amostra.push_str("çãé€😀");
    assert_eq!(texto(&amostra), serde_json::to_string(&amostra).unwrap());
}

#[test]
fn escape_de_um_caractere() {
    let mut r = String::from("x");
    anexar_escape(&mut r, '"');
    assert_eq!(r, "x\\\"");
}

#[test]
fn decimais() {
    let mut r = String::new();
    anexar_decimal(&mut r, 0);
    r.push(' ');
    anexar_decimal(&mut r, 1700086400);
    r.push(' ');
    anexar_decimal(&mut r, u64::MAX);
    assert_eq!(r, "0 1700086400 18446744073709551615");
}

#[test]
fn decimais_com_sinal() {
    let mut r = String::new();
    anexar_decimal_com_sinal(&mut r, -7);
    r.push(' ');
    anexar_decimal_com_sinal(&mut r, i64::MIN);
    r.push(' ');
    anexar_decimal_com_sinal(&mut r, i64::MAX);
    r.push(' ');
    anexar_decimal_com_sinal(&mut r, 0);
    assert_eq!(r, "-7 -9223372036854775808 9223372036854775807 0");
}
