//! Compact JSON text for the few values the service writes itself: string
//! literals, integers, and the claims object carried inside a token.
//!
//! The text is exactly what `serde_json` writes for the same values in its
//! compact form: `"` and `\` are escaped with a backslash, the control
//! characters U+0008, U+0009, U+000A, U+000C and U+000D get their short
//! escapes, every other character below U+0020 becomes `\u00xx` with
//! lower-case hex digits, and every other character is written as it is.

use vstd::prelude::*;

verus! {

/// The lower-case hexadecimal digit of `d` (`0 <= d < 16`).
pub open spec fn digito_hex(d: nat) -> char {
    if d < 10 {
        ((48 + d) as u8) as char
    } else {
        ((87 + d) as u8) as char
    }
}

/// The decimal digit of `d` (`0 <= d < 10`).
pub open spec fn digito_decimal(d: nat) -> char {
    ((48 + d) as u8) as char
}

/// How one character of a string is written inside a JSON string literal.
pub open spec fn escape_de(c: char) -> Seq<char> {
    if c == '"' {
        seq!['\\', '"']
    } else if c == '\\' {
        seq!['\\', '\\']
    } else if c == '\u{8}' {
        seq!['\\', 'b']
    } else if c == '\t' {
        seq!['\\', 't']
    } else if c == '\n' {
        seq!['\\', 'n']
    } else if c == '\u{c}' {
        seq!['\\', 'f']
    } else if c == '\r' {
        seq!['\\', 'r']
    } else if (c as u32) < 0x20 {
        seq![
            '\\',
            'u',
            '0',
            '0',
            digito_hex(((c as u32) / 16) as nat),
            digito_hex(((c as u32) % 16) as nat),
        ]
    } else {
        seq![c]
    }
}

/// The escaped body of a string: each character replaced by its escape.
pub open spec fn escapado(s: Seq<char>) -> Seq<char>
    decreases s.len(),
{
    if s.len() == 0 {
        Seq::empty()
    } else {
        escapado(s.drop_last()) + escape_de(s.last())
    }
}

/// A JSON string literal holding `s`.
pub open spec fn texto_json(s: Seq<char>) -> Seq<char> {
    seq!['"'] + escapado(s) + seq!['"']
}

/// The decimal digits of a natural number, without leading zeros.
pub open spec fn decimal(n: nat) -> Seq<char>
    decreases n,
{
    if n < 10 {
        seq![digito_decimal(n)]
    } else {
        decimal(n / 10).push(digito_decimal(n % 10))
    }
}

/// The decimal text of an integer, with a leading `-` when it is negative.
pub open spec fn decimal_com_sinal(i: int) -> Seq<char> {
    if i < 0 {
        seq!['-'] + decimal((-i) as nat)
    } else {
        decimal(i as nat)
    }
}

/// `c` is one of the characters `0` to `9`.
pub open spec fn e_digito(c: char) -> bool {
    '0' <= c && c <= '9'
}

/// Escaping a character in front of a string.
pub proof fn lema_escapado_frente(c: char, s: Seq<char>)
    ensures
        escapado(seq![c] + s) == escape_de(c) + escapado(s),
    decreases s.len(),
{
    if s.len() == 0 {
        assert(seq![c] + s =~= seq![c]);
        assert(seq![c].drop_last() =~= Seq::<char>::empty());
        assert(seq![c].last() == c);
        assert(escapado(Seq::<char>::empty()) == Seq::<char>::empty());
        assert(escapado(seq![c]) == escapado(seq![c].drop_last()) + escape_de(c));
        assert(escapado(seq![c]) =~= escape_de(c));
        assert(escape_de(c) + escapado(s) =~= escape_de(c));
    } else {
        let t = s.drop_last();
        lema_escapado_frente(c, t);
        assert((seq![c] + s).drop_last() =~= seq![c] + t);
        assert((seq![c] + s).last() == s.last());
        assert(escapado(seq![c] + s) =~= escape_de(c) + escapado(s));
    }
}

proof fn lema_hex_injetivo(x: nat, y: nat)
    requires
        x < 16,
        y < 16,
        digito_hex(x) == digito_hex(y),
    ensures
        x == y,
{
    assert(digito_hex(x) as u32 == if x < 10 { 48 + x } else { 87 + x });
    assert(digito_hex(y) as u32 == if y < 10 { 48 + y } else { 87 + y });
}

/// The escape of a character is never empty and never starts with a quote;
/// one that does not start with a backslash is the character itself.
proof fn lema_forma_do_escape(c: char)
    ensures
        escape_de(c).len() >= 1,
        escape_de(c)[0] != '"',
        escape_de(c)[0] != '\\' ==> escape_de(c) == seq![c] && c != '"' && c != '\\',
        escape_de(c)[0] == '\\' ==> escape_de(c).len() >= 2,
{
}

/// The written escape of a character tells which character it was and
/// where the text that follows it starts.
pub proof fn lema_escape_determina(a: char, b: char, ra: Seq<char>, rb: Seq<char>)
    requires
        escape_de(a) + ra == escape_de(b) + rb,
    ensures
        a == b,
        ra == rb,
{
    let ea = escape_de(a);
    let eb = escape_de(b);
    lema_forma_do_escape(a);
    lema_forma_do_escape(b);
    assert((ea + ra)[0] == ea[0]);
    assert((eb + rb)[0] == eb[0]);
    if ea[0] == '\\' {
        assert((ea + ra)[1] == ea[1]);
        assert((eb + rb)[1] == eb[1]);
        if ea[1] == 'u' {
            assert((ea + ra)[4] == ea[4]);
            assert((eb + rb)[4] == eb[4]);
            assert((ea + ra)[5] == ea[5]);
            assert((eb + rb)[5] == eb[5]);
            lema_hex_injetivo(((a as u32) / 16) as nat, ((b as u32) / 16) as nat);
            lema_hex_injetivo(((a as u32) % 16) as nat, ((b as u32) % 16) as nat);
            assert(a as u32 == b as u32);
        }
    }
    assert(a == b);
    assert(ra =~= (ea + ra).skip(ea.len() as int));
    assert(rb =~= (eb + rb).skip(eb.len() as int));
}

/// An escaped string followed by a quote tells which string it was and where
/// the text after the quote starts: the closing quote of a JSON string
/// literal is the first quote that is not escaped.
pub proof fn lema_escapado_ate_aspas(a: Seq<char>, b: Seq<char>, ra: Seq<char>, rb: Seq<char>)
    requires
        escapado(a) + (seq!['"'] + ra) == escapado(b) + (seq!['"'] + rb),
    ensures
        a == b,
        ra == rb,
    decreases a.len(),
{
    if a.len() == 0 {
        if b.len() > 0 {
            lema_decompoe_frente(b);
            lema_forma_do_escape(b[0]);
            assert((escapado(a) + (seq!['"'] + ra))[0] == '"');
            assert((escapado(b) + (seq!['"'] + rb))[0] == escape_de(b[0])[0]);
        }
        assert(escapado(a) =~= Seq::<char>::empty());
        assert(escapado(b) =~= Seq::<char>::empty());
        assert(ra =~= (seq!['"'] + ra).drop_first());
        assert(rb =~= (seq!['"'] + rb).drop_first());
    } else if b.len() == 0 {
        lema_decompoe_frente(a);
        lema_forma_do_escape(a[0]);
        assert((escapado(b) + (seq!['"'] + rb))[0] == '"');
        assert((escapado(a) + (seq!['"'] + ra))[0] == escape_de(a[0])[0]);
    } else {
        lema_decompoe_frente(a);
        lema_decompoe_frente(b);
        let a1 = a.drop_first();
        let b1 = b.drop_first();
        assert(escapado(a) + (seq!['"'] + ra) =~= escape_de(a[0]) + (escapado(a1) + (seq!['"']
            + ra)));
        assert(escapado(b) + (seq!['"'] + rb) =~= escape_de(b[0]) + (escapado(b1) + (seq!['"']
            + rb)));
        lema_escape_determina(a[0], b[0], escapado(a1) + (seq!['"'] + ra), escapado(b1) + (seq![
            '"',
        ] + rb));
        lema_escapado_ate_aspas(a1, b1, ra, rb);
        assert(a =~= seq![a[0]] + a1);
        assert(b =~= seq![b[0]] + b1);
    }
}

proof fn lema_decompoe_frente(s: Seq<char>)
    requires
        s.len() > 0,
    ensures
        escapado(s) == escape_de(s[0]) + escapado(s.drop_first()),
{
    assert(s =~= seq![s[0]] + s.drop_first());
    lema_escapado_frente(s[0], s.drop_first());
}

/// A JSON string literal followed by more text tells which string it holds
/// and where the text after it starts.
pub proof fn lema_texto_json_determina(a: Seq<char>, b: Seq<char>, ra: Seq<char>, rb: Seq<char>)
    requires
        texto_json(a) + ra == texto_json(b) + rb,
    ensures
        a == b,
        ra == rb,
{
    let ta = texto_json(a) + ra;
    let tb = texto_json(b) + rb;
    assert(ta.drop_first() =~= escapado(a) + (seq!['"'] + ra));
    assert(tb.drop_first() =~= escapado(b) + (seq!['"'] + rb));
    lema_escapado_ate_aspas(a, b, ra, rb);
}

proof fn lema_digito_decimal(d: nat)
    requires
        d < 10,
    ensures
        e_digito(digito_decimal(d)),
        digito_decimal(d) as u32 == 48 + d,
{
}

/// Decimal text is made of digits, and has at least two of them from 10 on.
proof fn lema_decimal_digitos(n: nat)
    ensures
        decimal(n).len() >= 1,
        n >= 10 ==> decimal(n).len() >= 2,
        forall|i: int| 0 <= i < decimal(n).len() ==> e_digito(#[trigger] decimal(n)[i]),
    decreases n,
{
    lema_digito_decimal(n % 10);
    if n >= 10 {
        lema_decimal_digitos(n / 10);
    }
}

/// Different numbers have different decimal texts.
proof fn lema_decimal_injetivo(n: nat, m: nat)
    requires
        decimal(n) == decimal(m),
    ensures
        n == m,
    decreases n,
{
    lema_decimal_digitos(n);
    lema_decimal_digitos(m);
    lema_digito_decimal(n % 10);
    lema_digito_decimal(m % 10);
    if n >= 10 && m >= 10 {
        assert(decimal(n).last() == digito_decimal(n % 10));
        assert(decimal(m).last() == digito_decimal(m % 10));
        assert(decimal(n).drop_last() =~= decimal(n / 10));
        assert(decimal(m).drop_last() =~= decimal(m / 10));
        lema_decimal_injetivo(n / 10, m / 10);
    } else if n < 10 && m < 10 {
        assert(decimal(n)[0] == digito_decimal(n));
        assert(decimal(m)[0] == digito_decimal(m));
    }
}

/// Decimal text followed by text that does not start with a digit tells
/// which number it was and where the text after it starts.
pub proof fn lema_decimal_determina(n: nat, m: nat, r1: Seq<char>, r2: Seq<char>)
    requires
        decimal(n) + r1 == decimal(m) + r2,
        r1.len() > 0 && !e_digito(r1[0]),
        r2.len() > 0 && !e_digito(r2[0]),
    ensures
        n == m,
        r1 == r2,
{
    let dn = decimal(n);
    let dm = decimal(m);
    lema_decimal_digitos(n);
    lema_decimal_digitos(m);
    if dn.len() < dm.len() {
        assert((dn + r1)[dn.len() as int] == r1[0]);
        assert((dm + r2)[dn.len() as int] == dm[dn.len() as int]);
    } else if dm.len() < dn.len() {
        assert((dm + r2)[dm.len() as int] == r2[0]);
        assert((dn + r1)[dm.len() as int] == dn[dm.len() as int]);
    }
    assert(dn =~= (dn + r1).take(dn.len() as int));
    assert(dm =~= (dm + r2).take(dm.len() as int));
    lema_decimal_injetivo(n, m);
    assert(r1 =~= (dn + r1).skip(dn.len() as int));
    assert(r2 =~= (dm + r2).skip(dm.len() as int));
}

/// The same for signed integers.
pub proof fn lema_decimal_com_sinal_determina(x: int, y: int, r1: Seq<char>, r2: Seq<char>)
    requires
        decimal_com_sinal(x) + r1 == decimal_com_sinal(y) + r2,
        r1.len() > 0 && !e_digito(r1[0]),
        r2.len() > 0 && !e_digito(r2[0]),
    ensures
        x == y,
        r1 == r2,
{
    let tx = decimal_com_sinal(x) + r1;
    let ty = decimal_com_sinal(y) + r2;
    if x < 0 {
        lema_decimal_digitos((-x) as nat);
        assert(tx[0] == '-');
    } else {
        lema_decimal_digitos(x as nat);
        assert(tx[0] == decimal(x as nat)[0]);
    }
    if y < 0 {
        lema_decimal_digitos((-y) as nat);
        assert(ty[0] == '-');
    } else {
        lema_decimal_digitos(y as nat);
        assert(ty[0] == decimal(y as nat)[0]);
    }
    if x < 0 {
        assert(y < 0);
        assert(tx.drop_first() =~= decimal((-x) as nat) + r1);
        assert(ty.drop_first() =~= decimal((-y) as nat) + r2);
        lema_decimal_determina((-x) as nat, (-y) as nat, r1, r2);
    } else {
        assert(y >= 0);
        lema_decimal_determina(x as nat, y as nat, r1, r2);
    }
}

/// The number a string of decimal digits stands for, read digit by digit:
/// each digit is its distance from `0`.
pub open spec fn le_natural(s: Seq<char>) -> int
    decreases s.len(),
{
    if s.len() == 0 {
        0
    } else {
        10 * le_natural(s.drop_last()) + ((s.last() as u32) - 48)
    }
}

/// The integer a decimal numeral stands for, with an optional leading `-`.
pub open spec fn le_inteiro(s: Seq<char>) -> int {
    if s.len() > 0 && s[0] == '-' {
        -le_natural(s.drop_first())
    } else {
        le_natural(s)
    }
}

/// The decimal text of a natural number is its base-10 numeral: it is made
/// of the characters `0` to `9`, it reads back as the number, and it has no
/// leading zero (zero is written `0`).
pub proof fn lei_decimal_e_o_numeral(n: nat)
    ensures
        decimal(n).len() >= 1,
        forall|i: int| 0 <= i < decimal(n).len() ==> '0' <= #[trigger] decimal(n)[i] <= '9',
        le_natural(decimal(n)) == n,
        decimal(n)[0] == '0' ==> n == 0 && decimal(n).len() == 1,
    decreases n,
{
    lema_decimal_digitos(n);
    lema_digito_decimal(n % 10);
    let d = decimal(n);
    assert(le_natural(d) == 10 * le_natural(d.drop_last()) + ((d.last() as u32) - 48));
    if n < 10 {
        assert(d.drop_last() =~= Seq::<char>::empty());
        assert(le_natural(Seq::<char>::empty()) == 0);
        assert(d.last() == digito_decimal(n));
    } else {
        lei_decimal_e_o_numeral(n / 10);
        assert(d.drop_last() =~= decimal(n / 10));
        assert(d.last() == digito_decimal(n % 10));
        assert(d[0] == decimal(n / 10)[0]);
        assert(10 * (n / 10) + n % 10 == n);
    }
}

/// The decimal text of an integer reads back as the integer.
pub proof fn lei_decimal_com_sinal_e_o_numeral(i: int)
    ensures
        le_inteiro(decimal_com_sinal(i)) == i,
{
    if i < 0 {
        lei_decimal_e_o_numeral((-i) as nat);
        let t = decimal_com_sinal(i);
        assert(t[0] == '-');
        assert(t.drop_first() =~= decimal((-i) as nat));
    } else {
        lei_decimal_e_o_numeral(i as nat);
        assert(decimal(i as nat)[0] != '-');
    }
}

/// The value of a hexadecimal digit, upper or lower case.
pub open spec fn valor_hex(c: char) -> int {
    if '0' <= c <= '9' {
        (c as u32) - 48
    } else if 'a' <= c <= 'f' {
        (c as u32) - 87
    } else if 'A' <= c <= 'F' {
        (c as u32) - 55
    } else {
        0
    }
}

/// The character a JSON short escape `\x` stands for.
pub open spec fn escape_curto(x: char) -> char {
    if x == 'b' {
        '\u{8}'
    } else if x == 't' {
        '\t'
    } else if x == 'n' {
        '\n'
    } else if x == 'f' {
        '\u{c}'
    } else if x == 'r' {
        '\r'
    } else {
        x
    }
}

/// What a JSON reader makes of the body of a string literal: a backslash
/// and `u` followed by four hexadecimal digits stand for the character with
/// that code, a backslash followed by another character for the character
/// that short escape names, and any other character for itself.
pub open spec fn desescapado(t: Seq<char>) -> Seq<char>
    decreases t.len(),
{
    if t.len() == 0 {
        Seq::empty()
    } else if t[0] != '\\' || t.len() < 2 {
        seq![t[0]] + desescapado(t.skip(1))
    } else if t[1] == 'u' && t.len() >= 6 {
        seq![
            ((4096 * valor_hex(t[2]) + 256 * valor_hex(t[3]) + 16 * valor_hex(t[4]) + valor_hex(
                t[5],
            )) as u32) as char,
        ] + desescapado(t.skip(6))
    } else {
        seq![escape_curto(t[1])] + desescapado(t.skip(2))
    }
}

/// Every character from U+0020 on, other than the quote and the backslash,
/// is written as it is.
pub proof fn lei_caractere_comum_fica_como_esta(c: char)
    requires
        (c as u32) >= 0x20,
        c != '"',
        c != '\\',
    ensures
        escape_de(c) == seq![c],
{
}

proof fn lema_hex_volta(d: nat)
    requires
        d < 16,
    ensures
        valor_hex(digito_hex(d)) == d,
{
}

/// Reading back the escape of one character gives that character.
proof fn lema_desescapa_um(c: char, r: Seq<char>)
    ensures
        desescapado(escape_de(c) + r) == seq![c] + desescapado(r),
{
    let e = escape_de(c);
    let t = e + r;
    lema_forma_do_escape(c);
    assert(t[0] == e[0]);
    if e[0] != '\\' {
        assert(t.skip(1) =~= r);
    } else if (c as u32) < 0x20 && c != '\u{8}' && c != '\t' && c != '\n' && c != '\u{c}' && c
        != '\r' {
        assert(t[1] == 'u' && t[2] == '0' && t[3] == '0');
        assert(t[4] == digito_hex(((c as u32) / 16) as nat));
        assert(t[5] == digito_hex(((c as u32) % 16) as nat));
        lema_hex_volta(((c as u32) / 16) as nat);
        lema_hex_volta(((c as u32) % 16) as nat);
        assert(t.skip(6) =~= r);
        let codigo = 4096 * valor_hex(t[2]) + 256 * valor_hex(t[3]) + 16 * valor_hex(t[4])
            + valor_hex(t[5]);
        assert(codigo == c as u32);
        vstd::utf8::char_u32_cast(c, c as u32);
    } else {
        assert(t[1] == e[1]);
        assert(t.skip(2) =~= r);
    }
}

/// Reading back the escaped body of a string gives the string: a JSON
/// reader gets back exactly what was written.
pub proof fn lei_escapado_le_de_volta(s: Seq<char>)
    ensures
        desescapado(escapado(s)) == s,
    decreases s.len(),
{
    if s.len() == 0 {
        assert(escapado(s) =~= Seq::<char>::empty());
    } else {
        lema_decompoe_frente(s);
        lema_desescapa_um(s[0], escapado(s.drop_first()));
        lei_escapado_le_de_volta(s.drop_first());
        assert(s =~= seq![s[0]] + s.drop_first());
    }
}

/// A JSON string literal is a quote, a body that reads back as the string,
/// and a closing quote.
pub proof fn lei_texto_json_le_de_volta(s: Seq<char>)
    ensures
        texto_json(s).len() >= 2,
        texto_json(s)[0] == '"',
        texto_json(s).last() == '"',
        desescapado(texto_json(s).subrange(1, texto_json(s).len() - 1)) == s,
{
    lei_escapado_le_de_volta(s);
    assert(texto_json(s).subrange(1, texto_json(s).len() - 1) =~= escapado(s));
}

/// Appends one character to a string.
///
/// Calls `String::push`, which the standard library documents as appending
/// the given `char` to the end of the `String`.
#[verifier::external_body]
pub(crate) fn anexar_char(s: &mut String, c: char)
    ensures
        final(s)@ == old(s)@.push(c),
{
    s.push(c);
}

fn hex(d: u32) -> (c: char)
    requires
        d < 16,
    ensures
        c == digito_hex(d as nat),
{
    if d < 10 {
        ((48 + d) as u8) as char
    } else {
        ((87 + d) as u8) as char
    }
}

/// Appends the JSON escape of one character.
pub fn anexar_escape(s: &mut String, c: char)
    ensures
        final(s)@ == old(s)@ + escape_de(c),
{
    let codigo = c as u32;
    if c == '"' {
        anexar_char(s, '\\');
        anexar_char(s, '"');
    } else if c == '\\' {
        anexar_char(s, '\\');
        anexar_char(s, '\\');
    } else if c == '\u{8}' {
        anexar_char(s, '\\');
        anexar_char(s, 'b');
    } else if c == '\t' {
        anexar_char(s, '\\');
        anexar_char(s, 't');
    } else if c == '\n' {
        anexar_char(s, '\\');
        anexar_char(s, 'n');
    } else if c == '\u{c}' {
        anexar_char(s, '\\');
        anexar_char(s, 'f');
    } else if c == '\r' {
        anexar_char(s, '\\');
        anexar_char(s, 'r');
    } else if codigo < 0x20 {
        anexar_char(s, '\\');
        anexar_char(s, 'u');
        anexar_char(s, '0');
        anexar_char(s, '0');
        anexar_char(s, hex(codigo / 16));
        anexar_char(s, hex(codigo % 16));
    } else {
        anexar_char(s, c);
    }
    assert(final(s)@ =~= old(s)@ + escape_de(c));
}

/// Appends `texto` as a JSON string literal.
pub fn anexar_texto_json(s: &mut String, texto: &str)
    ensures
        final(s)@ == old(s)@ + texto_json(texto@),
{
    let n = texto.unicode_len();
    anexar_char(s, '"');
    let ghost inicio = old(s)@.push('"');
    for i in 0..n
        invariant
            n == texto@.len(),
            s@ == inicio + escapado(texto@.take(i as int)),
    {
        let c = texto.get_char(i);
        anexar_escape(s, c);
        assert(texto@.take(i + 1).drop_last() =~= texto@.take(i as int));
        assert(s@ =~= inicio + escapado(texto@.take(i + 1)));
    }
    assert(texto@.take(n as int) =~= texto@);
    anexar_char(s, '"');
    assert(s@ =~= old(s)@ + texto_json(texto@));
}

/// Appends the decimal digits of `n`.
pub fn anexar_decimal(s: &mut String, n: u64)
    ensures
        final(s)@ == old(s)@ + decimal(n as nat),
    decreases n,
{
    if n >= 10 {
        anexar_decimal(s, n / 10);
    }
    let d = ((48 + n % 10) as u8) as char;
    anexar_char(s, d);
    assert(final(s)@ =~= old(s)@ + decimal(n as nat));
}

/// Appends the decimal text of a signed integer.
pub fn anexar_decimal_com_sinal(s: &mut String, i: i64)
    ensures
        final(s)@ == old(s)@ + decimal_com_sinal(i as int),
{
    if i < 0 {
        anexar_char(s, '-');
        let magnitude: u64 = ((-(i + 1)) as u64) + 1;
        anexar_decimal(s, magnitude);
        assert(final(s)@ =~= old(s)@ + decimal_com_sinal(i as int));
    } else {
        anexar_decimal(s, i as u64);
    }
}

} // verus!
