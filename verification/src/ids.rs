//! Identifiers of users and products: UUIDs, held as their 128-bit value.
use vstd::prelude::*;

use crate::texto::{hexadecimal, nibble, potencia_dieciseis, tramo_hexadecimal, uuid_texto};

verus! {

/// What `uuid::Uuid::parse_str` gives for a text, as the UUID's 128-bit value.
pub uninterp spec fn uuid_desde_texto(s: Seq<char>) -> Option<u128>;

/// Parses a UUID with `uuid::Uuid::parse_str` and takes its value with
/// `Uuid::as_u128`. Claims that the result is the named parse of the text,
/// and that the hyphenated lowercase form of a value (`uuid_texto`, what
/// `Display` writes) parses back to that value; which other texts parse is
/// left to the name `uuid_desde_texto`.
#[verifier::external_body]
fn analizar_uuid(s: &str) -> (r: Option<u128>)
    ensures
        r == uuid_desde_texto(s@),
        forall|u: u128| #[trigger] uuid_texto(u) == s@ ==> r == Some(u),
{
    match uuid::Uuid::parse_str(s) {
        Ok(u) => Some(u.as_u128()),
        Err(_) => None,
    }
}

/// The identifier in a page's path; `None` when it is not a UUID (the page
/// then fails).
pub fn id_de_ruta(ruta: &str) -> (r: Option<u128>)
    ensures
        r == uuid_desde_texto(ruta@),
{
    analizar_uuid(ruta)
}

/// The powers of sixteen up to the 31st.
proof fn lema_potencias()
    ensures
        potencia_dieciseis(0) == 1,
        potencia_dieciseis(1) == 0x10u128,
        potencia_dieciseis(2) == 0x100u128,
        potencia_dieciseis(3) == 0x1000u128,
        potencia_dieciseis(4) == 0x10000u128,
        potencia_dieciseis(5) == 0x100000u128,
        potencia_dieciseis(6) == 0x1000000u128,
        potencia_dieciseis(7) == 0x10000000u128,
        potencia_dieciseis(8) == 0x100000000u128,
        potencia_dieciseis(9) == 0x1000000000u128,
        potencia_dieciseis(10) == 0x10000000000u128,
        potencia_dieciseis(11) == 0x100000000000u128,
        potencia_dieciseis(12) == 0x1000000000000u128,
        potencia_dieciseis(13) == 0x10000000000000u128,
        potencia_dieciseis(14) == 0x100000000000000u128,
        potencia_dieciseis(15) == 0x1000000000000000u128,
        potencia_dieciseis(16) == 0x10000000000000000u128,
        potencia_dieciseis(17) == 0x100000000000000000u128,
        potencia_dieciseis(18) == 0x1000000000000000000u128,
        potencia_dieciseis(19) == 0x10000000000000000000u128,
        potencia_dieciseis(20) == 0x100000000000000000000u128,
        potencia_dieciseis(21) == 0x1000000000000000000000u128,
        potencia_dieciseis(22) == 0x10000000000000000000000u128,
        potencia_dieciseis(23) == 0x100000000000000000000000u128,
        potencia_dieciseis(24) == 0x1000000000000000000000000u128,
        potencia_dieciseis(25) == 0x10000000000000000000000000u128,
        potencia_dieciseis(26) == 0x100000000000000000000000000u128,
        potencia_dieciseis(27) == 0x1000000000000000000000000000u128,
        potencia_dieciseis(28) == 0x10000000000000000000000000000u128,
        potencia_dieciseis(29) == 0x100000000000000000000000000000u128,
        potencia_dieciseis(30) == 0x1000000000000000000000000000000u128,
        potencia_dieciseis(31) == 0x10000000000000000000000000000000u128,
{
    reveal_with_fuel(potencia_dieciseis, 2);
    assert(potencia_dieciseis(1) == 0x10u128);
    assert(potencia_dieciseis(2) == 0x100u128);
    assert(potencia_dieciseis(3) == 0x1000u128);
    assert(potencia_dieciseis(4) == 0x10000u128);
    assert(potencia_dieciseis(5) == 0x100000u128);
    assert(potencia_dieciseis(6) == 0x1000000u128);
    assert(potencia_dieciseis(7) == 0x10000000u128);
    assert(potencia_dieciseis(8) == 0x100000000u128);
    assert(potencia_dieciseis(9) == 0x1000000000u128);
    assert(potencia_dieciseis(10) == 0x10000000000u128);
    assert(potencia_dieciseis(11) == 0x100000000000u128);
    assert(potencia_dieciseis(12) == 0x1000000000000u128);
    assert(potencia_dieciseis(13) == 0x10000000000000u128);
    assert(potencia_dieciseis(14) == 0x100000000000000u128);
    assert(potencia_dieciseis(15) == 0x1000000000000000u128);
    assert(potencia_dieciseis(16) == 0x10000000000000000u128);
    assert(potencia_dieciseis(17) == 0x100000000000000000u128);
    assert(potencia_dieciseis(18) == 0x1000000000000000000u128);
    assert(potencia_dieciseis(19) == 0x10000000000000000000u128);
    assert(potencia_dieciseis(20) == 0x100000000000000000000u128);
    assert(potencia_dieciseis(21) == 0x1000000000000000000000u128);
    assert(potencia_dieciseis(22) == 0x10000000000000000000000u128);
    assert(potencia_dieciseis(23) == 0x100000000000000000000000u128);
    assert(potencia_dieciseis(24) == 0x1000000000000000000000000u128);
    assert(potencia_dieciseis(25) == 0x10000000000000000000000000u128);
    assert(potencia_dieciseis(26) == 0x100000000000000000000000000u128);
    assert(potencia_dieciseis(27) == 0x1000000000000000000000000000u128);
    assert(potencia_dieciseis(28) == 0x10000000000000000000000000000u128);
    assert(potencia_dieciseis(29) == 0x100000000000000000000000000000u128);
    assert(potencia_dieciseis(30) == 0x1000000000000000000000000000000u128);
    assert(potencia_dieciseis(31) == 0x10000000000000000000000000000000u128);
}

/// The hexadecimal digits of the base user's identifier, `desde` to
/// `desde + 7`.
proof fn lema_nibbles(desde: int)
    requires
        desde == 0 || desde == 8 || desde == 16 || desde == 24,
    ensures
        forall|j: int| desde <= j < desde + 8 ==> #[trigger] nibble(0x95022733_f013_301a_0ada_abc18f151006u128, j) == digito_id_base(j),
{
    lema_potencias();
    let u: u128 = 0x95022733_f013_301a_0ada_abc18f151006u128;
    if desde == 0 {
        assert(nibble(u, 0) == 9);
        assert(nibble(u, 1) == 5);
        assert(nibble(u, 2) == 0);
        assert(nibble(u, 3) == 2);
        assert(nibble(u, 4) == 2);
        assert(nibble(u, 5) == 7);
        assert(nibble(u, 6) == 3);
        assert(nibble(u, 7) == 3);
    }
    if desde == 8 {
        assert(nibble(u, 8) == 15);
        assert(nibble(u, 9) == 0);
        assert(nibble(u, 10) == 1);
        assert(nibble(u, 11) == 3);
        assert(nibble(u, 12) == 3);
        assert(nibble(u, 13) == 0);
        assert(nibble(u, 14) == 1);
        assert(nibble(u, 15) == 10);
    }
    if desde == 16 {
        assert(nibble(u, 16) == 0);
        assert(nibble(u, 17) == 10);
        assert(nibble(u, 18) == 13);
        assert(nibble(u, 19) == 10);
        assert(nibble(u, 20) == 10);
        assert(nibble(u, 21) == 11);
        assert(nibble(u, 22) == 12);
        assert(nibble(u, 23) == 1);
    }
    if desde == 24 {
        assert(nibble(u, 24) == 8);
        assert(nibble(u, 25) == 15);
        assert(nibble(u, 26) == 1);
        assert(nibble(u, 27) == 5);
        assert(nibble(u, 28) == 1);
        assert(nibble(u, 29) == 0);
        assert(nibble(u, 30) == 0);
        assert(nibble(u, 31) == 6);
    }
    assert(forall|j: int| desde <= j < desde + 8 ==> #[trigger] nibble(u, j) == digito_id_base(j));
}

/// The `j`-th hexadecimal digit of the base user's identifier.
spec fn digito_id_base(j: int) -> int {
    seq![9, 5, 0, 2, 2, 7, 3, 3, 15, 0, 1, 3, 3, 0, 1, 10, 0, 10, 13, 10, 10, 11, 12, 1, 8, 15, 1, 5, 1, 0, 0, 6][j]
}

/// The lowercase hexadecimal digits.
proof fn lema_hexadecimal()
    ensures
        hexadecimal(0) == '0',
        hexadecimal(1) == '1',
        hexadecimal(2) == '2',
        hexadecimal(3) == '3',
        hexadecimal(4) == '4',
        hexadecimal(5) == '5',
        hexadecimal(6) == '6',
        hexadecimal(7) == '7',
        hexadecimal(8) == '8',
        hexadecimal(9) == '9',
        hexadecimal(10) == 'a',
        hexadecimal(11) == 'b',
        hexadecimal(12) == 'c',
        hexadecimal(13) == 'd',
        hexadecimal(14) == 'e',
        hexadecimal(15) == 'f',
{
}

/// The base user's identifier as `uuid_texto` writes it.
proof fn lema_id_base()
    ensures
        uuid_texto(0x95022733_f013_301a_0ada_abc18f151006u128) =~= seq!['9', '5', '0', '2', '2', '7', '3', '3', '-', 'f', '0', '1', '3', '-', '3', '0', '1', 'a', '-', '0', 'a', 'd', 'a', '-', 'a', 'b', 'c', '1', '8', 'f', '1', '5', '1', '0', '0', '6'],
{
    let u: u128 = 0x95022733_f013_301a_0ada_abc18f151006u128;
    lema_nibbles(0);
    lema_nibbles(8);
    lema_nibbles(16);
    lema_nibbles(24);
    lema_hexadecimal();
    assert(tramo_hexadecimal(u, 0, 8) =~= seq!['9', '5', '0', '2', '2', '7', '3', '3']);
    assert(tramo_hexadecimal(u, 8, 12) =~= seq!['f', '0', '1', '3']);
    assert(tramo_hexadecimal(u, 12, 16) =~= seq!['3', '0', '1', 'a']);
    assert(tramo_hexadecimal(u, 16, 20) =~= seq!['0', 'a', 'd', 'a']);
    assert(tramo_hexadecimal(u, 20, 32) =~= seq!['a', 'b', 'c', '1', '8', 'f', '1', '5', '1', '0', '0', '6']);
}

/// The user whose cart every page works on.
pub fn id_base() -> (r: Option<u128>)
    ensures
        r == uuid_desde_texto("95022733-f013-301a-0ada-abc18f151006"@),
        r == Some(0x95022733_f013_301a_0ada_abc18f151006u128),
{
    proof {
        reveal_strlit("95022733-f013-301a-0ada-abc18f151006");
        lema_id_base();
        assert("95022733-f013-301a-0ada-abc18f151006"@ =~= seq!['9', '5', '0', '2', '2', '7', '3', '3', '-', 'f', '0', '1', '3', '-', '3', '0', '1', 'a', '-', '0', 'a', 'd', 'a', '-', 'a', 'b', 'c', '1', '8', 'f', '1', '5', '1', '0', '0', '6']);
        assert(uuid_texto(0x95022733_f013_301a_0ada_abc18f151006u128)
            == "95022733-f013-301a-0ada-abc18f151006"@);
    }
    analizar_uuid("95022733-f013-301a-0ada-abc18f151006")
}

} // verus!
