//! What the pages show, said field by field of what they are given: every
//! product and every line of the cart gets its own row, in order, showing its
//! own values; the cart rows are numbered from 0; the minus button is off
//! only on a line of one unit; the catalogue listing prints eight lines per
//! product after its header.
use vstd::prelude::*;

use crate::database::{cabecera_listado, lineas_de_producto, lineas_de_productos};
use crate::decimal::bigdecimal_texto;
use crate::funciones::{fila_carrito_de, listado_de, FilaCarrito, ListadoProductos};
use crate::models::{ElemCarrito, Product};
use crate::texto::{caracter_digito, digitos, texto_entero, uuid_texto};

verus! {

/// The character is a decimal digit.
pub open spec fn es_cifra(c: char) -> bool {
    '0' <= c && c <= '9'
}

/// The number a text of decimal digits stands for, most significant first.
pub open spec fn valor_decimal(s: Seq<char>) -> int
    decreases s.len(),
{
    if s.len() == 0 {
        0
    } else {
        valor_decimal(s.drop_last()) * 10 + (s.last() as int - '0' as int)
    }
}

/// A text of decimal digits, at least one.
pub open spec fn es_decimal(s: Seq<char>) -> bool {
    s.len() > 0 && forall|i: int| 0 <= i < s.len() ==> es_cifra(#[trigger] s[i])
}

/// The digit of a value below ten stands for that value.
proof fn lema_caracter_digito(d: nat)
    requires
        d < 10,
    ensures
        es_cifra(caracter_digito(d)),
        caracter_digito(d) as int - '0' as int == d,
{
}

/// The decimal digits of a number are a text of decimal digits that stands
/// for the number.
pub proof fn lema_digitos(n: nat)
    ensures
        es_decimal(digitos(n)),
        valor_decimal(digitos(n)) == n,
    decreases n,
{
    if n < 10 {
        lema_caracter_digito(n);
        let t = seq![caracter_digito(n)];
        assert(t.drop_last() =~= Seq::<char>::empty());
        assert(valor_decimal(t.drop_last()) == 0);
        assert(valor_decimal(t) == valor_decimal(t.drop_last()) * 10 + (t.last() as int - '0' as int));
    } else {
        lema_digitos(n / 10);
        lema_caracter_digito(n % 10);
        let s = digitos(n / 10);
        let t = s.push(caracter_digito(n % 10));
        assert(t.drop_last() =~= s);
        assert(valor_decimal(t) == valor_decimal(s) * 10 + (t.last() as int - '0' as int));
        assert(n == (n / 10) * 10 + n % 10);
        assert(forall|i: int| 0 <= i < t.len() ==> es_cifra(#[trigger] t[i])) by {
            assert forall|i: int| 0 <= i < t.len() implies es_cifra(#[trigger] t[i]) by {
                if i < s.len() {
                    assert(t[i] == s[i]);
                }
            }
        }
    }
}

/// The integer a text stands for: decimal digits, after a `-` when negative.
pub open spec fn valor_entero(s: Seq<char>) -> int {
    if s.len() > 0 && s[0] == '-' {
        -valor_decimal(s.drop_first())
    } else {
        valor_decimal(s)
    }
}

/// An integer as the pages write it stands for that integer.
pub proof fn lema_texto_entero(n: int)
    ensures
        valor_entero(texto_entero(n)) == n,
{
    if n < 0 {
        lema_digitos((-n) as nat);
        let s = seq!['-'] + digitos((-n) as nat);
        assert(s.drop_first() =~= digitos((-n) as nat));
    } else {
        lema_digitos(n as nat);
        let d = digitos(n as nat);
        assert(es_cifra(d[0]));
    }
}

/// The rows of the cart page, for each line of the cart in order: row `i`
/// shows the product of line `i` (its identifier, name, description, price
/// and image) and the quantity of that line, as a text that stands for it; its position is the decimal text
/// of `i`, so no two rows share a position; and its minus button is off
/// (`"disabled"`) exactly when the line holds one unit, on (`""`) otherwise,
/// a line of two units included.
pub proof fn ley_filas_carrito(lineas: Seq<(ElemCarrito, Product)>, filas: Seq<FilaCarrito>)
    requires
        filas.len() == lineas.len(),
        forall|i: int| 0 <= i < filas.len() ==> fila_carrito_de(#[trigger] filas[i], lineas[i], i),
    ensures
        forall|i: int|
            0 <= i < filas.len() ==> {
                &&& (#[trigger] filas[i]).id@ == uuid_texto(lineas[i].1.id_producto)
                &&& filas[i].nombre@ == lineas[i].1.nombre_producto@
                &&& lineas[i].1.descripcion is Some && filas[i].descripcion@
                    == lineas[i].1.descripcion->0@
                &&& filas[i].precio@ == bigdecimal_texto(lineas[i].1.precio@)
                &&& lineas[i].1.imagen is Some && filas[i].imagen@ == lineas[i].1.imagen->0@
                &&& valor_entero(filas[i].cantidad@) == lineas[i].0.cantidad
                &&& es_decimal(filas[i].num@)
                &&& valor_decimal(filas[i].num@) == i
                &&& (filas[i].disabled@ == "disabled"@ <==> lineas[i].0.cantidad == 1)
                &&& (lineas[i].0.cantidad != 1 ==> filas[i].disabled@.len() == 0)
            },
        forall|i: int, j: int|
            0 <= i < filas.len() && 0 <= j < filas.len() && i != j ==> (#[trigger] filas[i]).num@
                != (#[trigger] filas[j]).num@,
{
    reveal_strlit("disabled");
    reveal_strlit("");
    assert forall|i: int| 0 <= i < filas.len() implies {
        &&& es_decimal((#[trigger] filas[i]).num@)
        &&& valor_decimal(filas[i].num@) == i
        &&& valor_entero(filas[i].cantidad@) == lineas[i].0.cantidad
        &&& (filas[i].disabled@ == "disabled"@ <==> lineas[i].0.cantidad == 1)
        &&& (lineas[i].0.cantidad != 1 ==> filas[i].disabled@.len() == 0)
    } by {
        assert(fila_carrito_de(filas[i], lineas[i], i));
        lema_digitos(i as nat);
        lema_texto_entero(lineas[i].0.cantidad as int);
        assert("disabled"@.len() == 8);
        assert(""@.len() == 0);
    }
    assert forall|i: int, j: int|
        0 <= i < filas.len() && 0 <= j < filas.len() && i != j implies (#[trigger] filas[i]).num@
        != (#[trigger] filas[j]).num@ by {
        assert(fila_carrito_de(filas[i], lineas[i], i));
        assert(fila_carrito_de(filas[j], lineas[j], j));
        lema_digitos(i as nat);
        lema_digitos(j as nat);
    }
}

/// The catalogue page shows, when `tiene_productos` found products, exactly
/// one row per product, in order, row `i` showing product `i` itself: its
/// identifier, name, description, price and image; when it found none, no
/// row.
pub proof fn ley_listado(l: ListadoProductos, hay: bool, ps: Seq<Product>)
    requires
        listado_de(l, (hay, ps)),
    ensures
        l.hay_productos == hay,
        hay ==> l.filas@.len() == ps.len(),
        !hay ==> l.filas@.len() == 0,
        hay ==> forall|i: int|
            0 <= i < ps.len() ==> {
                &&& (#[trigger] l.filas@[i]).id@ == uuid_texto(ps[i].id_producto)
                &&& l.filas@[i].nombre@ == ps[i].nombre_producto@
                &&& ps[i].descripcion is Some && l.filas@[i].descripcion@ == ps[i].descripcion->0@
                &&& l.filas@[i].precio@ == bigdecimal_texto(ps[i].precio@)
                &&& ps[i].imagen is Some && l.filas@[i].imagen@ == ps[i].imagen->0@
            },
{
}

/// The lines that the listing writes for a list of products: eight per
/// product, in order.
proof fn lema_lineas_de_productos(ps: Seq<Product>)
    ensures
        lineas_de_productos(ps).len() == 8 * ps.len(),
        forall|k: int, j: int|
            0 <= k < ps.len() && 0 <= j < 8 ==> #[trigger] lineas_de_productos(ps)[8 * k + j]
                == lineas_de_producto(ps[k])[j],
    decreases ps.len(),
{
    if ps.len() > 0 {
        let resto = ps.drop_last();
        lema_lineas_de_productos(resto);
        let a = lineas_de_productos(resto);
        let b = lineas_de_producto(ps.last());
        assert(lineas_de_productos(ps) == a + b);
        assert forall|k: int, j: int| 0 <= k < ps.len() && 0 <= j < 8 implies #[trigger] lineas_de_productos(
            ps,
        )[8 * k + j] == lineas_de_producto(ps[k])[j] by {
            if k < ps.len() - 1 {
                assert(resto[k] == ps[k]);
                assert(a[8 * k + j] == lineas_de_producto(resto[k])[j]);
            } else {
                assert(8 * k + j - a.len() == j);
            }
        }
    }
}

/// The eight lines of product `k` in the catalogue listing.
proof fn lema_lineas_de(ps: Seq<Product>, lineas: Seq<Seq<char>>, k: int)
    requires
        lineas == seq![cabecera_listado(ps.len())] + lineas_de_productos(ps),
        0 <= k < ps.len(),
    ensures
        lineas[1 + 8 * k] == ps[k].nombre_producto@,
        lineas[2 + 8 * k] == "----------\n"@,
        lineas[3 + 8 * k] == ps[k].descripcion->0@,
        lineas[4 + 8 * k] == "----------\n"@,
        lineas[5 + 8 * k] == bigdecimal_texto(ps[k].precio@),
        lineas[6 + 8 * k] == "----------\n"@,
        lineas[7 + 8 * k] == ps[k].imagen->0@,
        lineas[8 + 8 * k] == "----------\n"@,
{
    lema_lineas_de_productos(ps);
    let cuerpo = lineas_de_productos(ps);
    let l = lineas_de_producto(ps[k]);
    assert(cuerpo[8 * k + 0] == l[0]);
    assert(cuerpo[8 * k + 1] == l[1]);
    assert(cuerpo[8 * k + 2] == l[2]);
    assert(cuerpo[8 * k + 3] == l[3]);
    assert(cuerpo[8 * k + 4] == l[4]);
    assert(cuerpo[8 * k + 5] == l[5]);
    assert(cuerpo[8 * k + 6] == l[6]);
    assert(cuerpo[8 * k + 7] == l[7]);
}

/// The catalogue listing, for `n` products: its first line is
/// `"Displaying "`, the decimal digits of `n` and `" products"`; then come
/// exactly eight lines per product, in order: for product `k`, lines
/// `1 + 8k` to `8 + 8k` are its name, its description, its price and its
/// image, each followed by a separator line. So the listing has `1 + 8n`
/// lines and every product is printed.
pub proof fn ley_listado_productos(ps: Seq<Product>, lineas: Seq<Seq<char>>)
    requires
        lineas == seq![cabecera_listado(ps.len())] + lineas_de_productos(ps),
    ensures
        lineas.len() == 1 + 8 * ps.len(),
        exists|d: Seq<char>|
            es_decimal(d) && valor_decimal(d) == ps.len() && lineas[0] == "Displaying "@ + d
                + " products"@,
        forall|k: int|
            0 <= k < ps.len() ==> {
                &&& #[trigger] lineas[1 + 8 * k] == ps[k].nombre_producto@
                &&& lineas[2 + 8 * k] == "----------\n"@
                &&& lineas[3 + 8 * k] == ps[k].descripcion->0@
                &&& lineas[4 + 8 * k] == "----------\n"@
                &&& lineas[5 + 8 * k] == bigdecimal_texto(ps[k].precio@)
                &&& lineas[6 + 8 * k] == "----------\n"@
                &&& lineas[7 + 8 * k] == ps[k].imagen->0@
                &&& lineas[8 + 8 * k] == "----------\n"@
            },
{
    lema_lineas_de_productos(ps);
    lema_digitos(ps.len());
    let d = digitos(ps.len());
    assert(es_decimal(d) && valor_decimal(d) == ps.len() && lineas[0] == "Displaying "@ + d
        + " products"@);
    assert forall|k: int| 0 <= k < ps.len() implies {
        &&& #[trigger] lineas[1 + 8 * k] == ps[k].nombre_producto@
        &&& lineas[2 + 8 * k] == "----------\n"@
        &&& lineas[3 + 8 * k] == ps[k].descripcion->0@
        &&& lineas[4 + 8 * k] == "----------\n"@
        &&& lineas[5 + 8 * k] == bigdecimal_texto(ps[k].precio@)
        &&& lineas[6 + 8 * k] == "----------\n"@
        &&& lineas[7 + 8 * k] == ps[k].imagen->0@
        &&& lineas[8 + 8 * k] == "----------\n"@
    } by {
        lema_lineas_de(ps, lineas, k);
    }
}

} // verus!
