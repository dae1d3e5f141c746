//! How the pages write numbers, prices and identifiers.
use vstd::prelude::*;


verus! {

/// The character of a decimal digit.
pub open spec fn caracter_digito(d: nat) -> char {
    if d == 0 {
        '0'
    } else if d == 1 {
        '1'
    } else if d == 2 {
        '2'
    } else if d == 3 {
        '3'
    } else if d == 4 {
        '4'
    } else if d == 5 {
        '5'
    } else if d == 6 {
        '6'
    } else if d == 7 {
        '7'
    } else if d == 8 {
        '8'
    } else {
        '9'
    }
}

/// The decimal digits of a natural number, most significant first, without
/// leading zeros (`0` is written `"0"`).
pub open spec fn digitos(n: nat) -> Seq<char>
    decreases n,
{
    if n < 10 {
        seq![caracter_digito(n)]
    } else {
        digitos(n / 10).push(caracter_digito(n % 10))
    }
}

/// An integer as `Display` writes it: its digits, after a `-` when negative.
pub open spec fn texto_entero(n: int) -> Seq<char> {
    if n < 0 {
        seq!['-'] + digitos((-n) as nat)
    } else {
        digitos(n as nat)
    }
}

/// `16^n`.
pub open spec fn potencia_dieciseis(n: nat) -> int
    decreases n,
{
    if n == 0 {
        1
    } else {
        16 * potencia_dieciseis((n - 1) as nat)
    }
}

/// The lowercase hexadecimal digit of a value below sixteen.
pub open spec fn hexadecimal(n: int) -> char {
    if n < 10 {
        (48 + n) as char
    } else {
        (87 + n) as char
    }
}

/// The `j`-th of the 32 hexadecimal digits of a UUID's value, most
/// significant first.
pub open spec fn nibble(u: u128, j: int) -> int {
    (u as int / potencia_dieciseis((31 - j) as nat)) % 16
}

/// The hexadecimal digits `a` to `b - 1` of a UUID's value.
pub open spec fn tramo_hexadecimal(u: u128, a: int, b: int) -> Seq<char> {
    Seq::new((b - a) as nat, |i: int| hexadecimal(nibble(u, a + i)))
}

/// A UUID as `Display` of `uuid::Uuid` writes it: its 32 lowercase
/// hexadecimal digits, most significant first, in groups of 8, 4, 4, 4 and 12
/// joined by hyphens.
pub open spec fn uuid_texto(u: u128) -> Seq<char> {
    tramo_hexadecimal(u, 0, 8) + seq!['-'] + tramo_hexadecimal(u, 8, 12) + seq!['-']
        + tramo_hexadecimal(u, 12, 16) + seq!['-'] + tramo_hexadecimal(u, 16, 20) + seq!['-']
        + tramo_hexadecimal(u, 20, 32)
}

/// Writes a UUID with `ToString` of `uuid::Uuid` (built with
/// `Uuid::from_u128`, whose bytes are the value's, most significant first).
/// Its `Display` writes the hyphenated lowercase form: the claim is exactly
/// `uuid_texto`.
#[verifier::external_body]
pub(crate) fn escribir_uuid(u: u128) -> (s: String)
    ensures
        s@ == uuid_texto(u),
{
    uuid::Uuid::from_u128(u).to_string()
}

fn texto_digito(d: u64) -> (s: &'static str)
    requires
        d < 10,
    ensures
        s@ == seq![caracter_digito(d as nat)],
{
    if d == 0 {
        proof {
            reveal_strlit("0");
        }
        "0"
    } else if d == 1 {
        proof {
            reveal_strlit("1");
        }
        "1"
    } else if d == 2 {
        proof {
            reveal_strlit("2");
        }
        "2"
    } else if d == 3 {
        proof {
            reveal_strlit("3");
        }
        "3"
    } else if d == 4 {
        proof {
            reveal_strlit("4");
        }
        "4"
    } else if d == 5 {
        proof {
            reveal_strlit("5");
        }
        "5"
    } else if d == 6 {
        proof {
            reveal_strlit("6");
        }
        "6"
    } else if d == 7 {
        proof {
            reveal_strlit("7");
        }
        "7"
    } else if d == 8 {
        proof {
            reveal_strlit("8");
        }
        "8"
    } else {
        proof {
            reveal_strlit("9");
        }
        "9"
    }
}

/// Appends the digits of `n` to `s`.
fn escribir_digitos(n: u64, s: &mut String)
    ensures
        final(s)@ == old(s)@ + digitos(n as nat),
    decreases n,
{
    if n >= 10 {
        escribir_digitos(n / 10, s);
    }
    let d = texto_digito(n % 10);
    s.append(d);
    proof {
        if n >= 10 {
            assert(digitos(n as nat) == digitos((n / 10) as nat).push(caracter_digito((n % 10) as nat)));
            assert(old(s)@ + digitos((n / 10) as nat) + seq![caracter_digito((n % 10) as nat)]
                =~= old(s)@ + digitos(n as nat));
        } else {
            assert(digitos(n as nat) == seq![caracter_digito(n as nat)]);
        }
    }
}

/// A natural number as `Display` writes it.
pub fn natural_a_texto(n: u64) -> (s: String)
    ensures
        s@ == digitos(n as nat),
{
    let mut s = String::new();
    escribir_digitos(n, &mut s);
    assert(s@ =~= digitos(n as nat));
    s
}

/// An integer as `Display` writes it.
pub fn entero_a_texto(n: i64) -> (s: String)
    ensures
        s@ == texto_entero(n as int),
{
    let mut s = String::new();
    if n < 0 {
        proof {
            reveal_strlit("-");
        }
        s.append("-");
        let magnitud: u64 = (0i128 - (n as i128)) as u64;
        escribir_digitos(magnitud, &mut s);
        assert(s@ =~= texto_entero(n as int));
    } else {
        escribir_digitos(n as u64, &mut s);
        assert(s@ =~= texto_entero(n as int));
    }
    s
}

} // verus!
