//! What the cart pages do to the table `carrito`, run over the model of
//! `crate::carrito`, and the promises they keep: the cart stays in the state
//! `carrito_valido` describes, each page changes only the line it is about,
//! the numbers the pages answer are the quantities left in the table, and the
//! badge counts the units of the user's lines.
use vstd::prelude::*;

use crate::carrito::{
    aplicar, cantidad_en, carrito_valido, clave_de, claves_usuario, desborda, es_linea, existe,
    existe_usuario, linea_unica, linea_valida, numero_en, sin_lineas, sumar_a_lineas, sumar_cantidad, unidades,
    usuario_valido,
};
use crate::models::NuevoCarrito;
use crate::database::{cantidad_respondida, numero_respondido, orden_delete, se_inserta, OrdenCarrito};
use crate::funciones::{
    fin_quitar, lema_pendiente, orden_add_carrito, orden_add_producto, paso_quitar,
    paso_quitar_cantidad, num_carrito_spec, valor_num_carrito, PasoQuitar, RespuestaQuitar,
};
use crate::models::{ElemCarrito, ErrorBd};

verus! {

/// The table after "add to cart" on user `u` and product `p`; `clave` is the
/// key the database gives a new line.
pub open spec fn tras_add_carrito(t: Map<i32, ElemCarrito>, u: u128, p: u128, clave: i32) -> Map<
    i32,
    ElemCarrito,
> {
    match orden_add_carrito(u, p, Ok(existe(t, u, p))) {
        Some(o) => aplicar(t, o, clave).0,
        None => t,
    }
}

/// The table after "one more", and the number the page answers.
pub open spec fn tras_add_producto(t: Map<i32, ElemCarrito>, u: u128, p: u128) -> (
    Map<i32, ElemCarrito>,
    i32,
) {
    let t2 = match orden_add_producto(u, p, Ok(existe(t, u, p))) {
        Some(o) => aplicar(t, o, 0).0,
        None => t,
    };
    (t2, cantidad_respondida(cantidad_en(t2, u, p)))
}

/// The table after "one less", and the number the page answers.
pub open spec fn tras_quitar_producto(t: Map<i32, ElemCarrito>, u: u128, p: u128) -> (
    Map<i32, ElemCarrito>,
    i32,
) {
    match paso_quitar(Ok(existe(t, u, p))) {
        PasoQuitar::ConsultarCantidad => match paso_quitar_cantidad(
            u,
            p,
            cantidad_respondida(cantidad_en(t, u, p)),
        ) {
            PasoQuitar::Decrementar(o, pend) => {
                let r = aplicar(t, o, 0);
                (r.0, fin_quitar(pend, r.1 is Ok))
            },
            PasoQuitar::Responder(n) => (t, n),
            PasoQuitar::ConsultarCantidad => (t, 0),
        },
        PasoQuitar::Responder(n) => (t, n),
        PasoQuitar::Decrementar(_, _) => (t, 0),
    }
}

/// The table after "remove from cart", and the page's answer.
pub open spec fn tras_quitar_carrito(t: Map<i32, ElemCarrito>, u: u128, p: u128) -> (
    Map<i32, ElemCarrito>,
    RespuestaQuitar,
) {
    match orden_delete(u, p, cantidad_respondida(cantidad_en(t, u, p))) {
        Some(o) => {
            let r = aplicar(t, o, 0);
            (
                r.0,
                if r.1 is Ok {
                    RespuestaQuitar::Actualizar
                } else {
                    RespuestaQuitar::SinContenido
                },
            )
        },
        None => (t, RespuestaQuitar::SinContenido),
    }
}

/// `t2` differs from `t` at most in the lines of user `u` and product `p`.
pub open spec fn solo_cambia(
    t: Map<i32, ElemCarrito>,
    t2: Map<i32, ElemCarrito>,
    u: u128,
    p: u128,
) -> bool {
    &&& forall|k: i32|
        t.dom().contains(k) && !es_linea(#[trigger] t[k], u, p) ==> t2.dom().contains(k) && t2[k]
            == t[k]
    &&& forall|k: i32|
        t2.dom().contains(k) && !es_linea(#[trigger] t2[k], u, p) ==> t.dom().contains(k) && t[k]
            == t2[k]
}

/// When the line of a user and product is unique, the line found under a key
/// is the one every query of that user and product reads.
proof fn lema_linea_unica(t: Map<i32, ElemCarrito>, u: u128, p: u128, k: i32)
    requires
        linea_unica(t, u, p),
        t.dom().contains(k),
        es_linea(t[k], u, p),
    ensures
        existe(t, u, p),
        clave_de(t, u, p) == k,
        cantidad_en(t, u, p) == Ok::<i32, ErrorBd>(t[k].cantidad),
{
    assert(existe(t, u, p));
    let c = clave_de(t, u, p);
    assert(t.dom().contains(c) && es_linea(t[c], u, p));
}

/// A change that touches only the lines of `u` and `p` keeps the lines of any
/// other user or product in their state and reading the same.
proof fn lema_otras_lineas(
    t: Map<i32, ElemCarrito>,
    t2: Map<i32, ElemCarrito>,
    u: u128,
    p: u128,
    u2: u128,
    p2: u128,
)
    requires
        solo_cambia(t, t2, u, p),
        !(u2 == u && p2 == p),
    ensures
        existe(t2, u2, p2) == existe(t, u2, p2),
        linea_valida(t, u2, p2) ==> linea_valida(t2, u2, p2),
        linea_valida(t, u2, p2) ==> cantidad_en(t2, u2, p2) == cantidad_en(t, u2, p2),
{
    assert forall|k: i32| t2.dom().contains(k) && es_linea(#[trigger] t2[k], u2, p2) implies t.dom().contains(
        k,
    ) && t[k] == t2[k] by {
        assert(!es_linea(t2[k], u, p));
    }
    assert forall|k: i32| t.dom().contains(k) && es_linea(#[trigger] t[k], u2, p2) implies t2.dom().contains(
        k,
    ) && t[k] == t2[k] by {
        assert(!es_linea(t[k], u, p));
    }
    if existe(t, u2, p2) {
        let k = clave_de(t, u2, p2);
        assert(t.dom().contains(k) && es_linea(t[k], u2, p2));
        assert(t2.dom().contains(k) && es_linea(t2[k], u2, p2));
    } else if existe(t2, u2, p2) {
        let k = clave_de(t2, u2, p2);
        assert(t2.dom().contains(k) && es_linea(t2[k], u2, p2));
    }
    if linea_valida(t, u2, p2) {
        assert(linea_valida(t2, u2, p2));
        if existe(t, u2, p2) {
            let k = clave_de(t, u2, p2);
            assert(t.dom().contains(k) && es_linea(t[k], u2, p2));
            lema_linea_unica(t, u2, p2, k);
            lema_linea_unica(t2, u2, p2, k);
        }
    }
}

/// A change that touches only the lines of `u` and `p` and leaves them in their
/// state keeps every other line of the cart in its state too.
proof fn lema_validez_general(t: Map<i32, ElemCarrito>, t2: Map<i32, ElemCarrito>, u: u128, p: u128)
    requires
        solo_cambia(t, t2, u, p),
        linea_valida(t2, u, p),
    ensures
        usuario_valido(t, u) ==> usuario_valido(t2, u),
        forall|u2: u128, p2: u128|
            linea_valida(t, u2, p2) ==> #[trigger] linea_valida(t2, u2, p2),
{
    assert forall|u2: u128, p2: u128| linea_valida(t, u2, p2) implies #[trigger] linea_valida(
        t2,
        u2,
        p2,
    ) by {
        if !(u2 == u && p2 == p) {
            lema_otras_lineas(t, t2, u, p, u2, p2);
        }
    }
}

/// The whole cart keeps its state when the lines of `u` and `p` keep theirs,
/// nothing else changes, and every row stays under its own key.
proof fn lema_carrito_valido(t: Map<i32, ElemCarrito>, t2: Map<i32, ElemCarrito>, u: u128, p: u128)
    requires
        carrito_valido(t),
        solo_cambia(t, t2, u, p),
        linea_valida(t2, u, p),
        forall|k: i32| t2.dom().contains(k) ==> (#[trigger] t2[k]).clave == k,
    ensures
        carrito_valido(t2),
{
    assert forall|k: i32| t2.dom().contains(k) implies (#[trigger] t2[k]).cantidad >= 1 by {
        if !es_linea(t2[k], u, p) {
            assert(t.dom().contains(k) && t[k] == t2[k]);
        }
    }
    assert forall|k1: i32, k2: i32|
        #![trigger t2[k1], t2[k2]]
        t2.dom().contains(k1) && t2.dom().contains(k2) && k1 != k2 implies !es_linea(
            t2[k1],
            t2[k2].id_usuario,
            t2[k2].id_producto,
        ) by {
        if es_linea(t2[k1], t2[k2].id_usuario, t2[k2].id_producto) {
            if es_linea(t2[k1], u, p) {
                assert(es_linea(t2[k2], u, p));
            } else {
                assert(t.dom().contains(k1) && t[k1] == t2[k1]);
                assert(t.dom().contains(k2) && t[k2] == t2[k2]);
                assert(!es_linea(t[k1], t[k2].id_usuario, t[k2].id_producto));
            }
        }
    }
}

/// Adding `d` to the quantity of the (only) line of `u` and `p`, at key `k`,
/// keeps that line in its state when the new quantity stays at least one.
proof fn lema_sumar_a_linea(t: Map<i32, ElemCarrito>, u: u128, p: u128, k: i32, d: int)
    requires
        linea_unica(t, u, p),
        t.dom().contains(k),
        es_linea(t[k], u, p),
        i32::MIN <= t[k].cantidad + d <= i32::MAX,
    ensures
        !desborda(t, u, p, d),
        linea_unica(sumar_a_lineas(t, u, p, d), u, p),
        t[k].cantidad + d >= 1 ==> linea_valida(sumar_a_lineas(t, u, p, d), u, p),
        solo_cambia(t, sumar_a_lineas(t, u, p, d), u, p),
        sumar_a_lineas(t, u, p, d).dom() == t.dom(),
        sumar_a_lineas(t, u, p, d)[k].cantidad == t[k].cantidad + d,
        es_linea(sumar_a_lineas(t, u, p, d)[k], u, p),
        carrito_valido(t) && t[k].cantidad + d >= 1 ==> carrito_valido(sumar_a_lineas(t, u, p, d)),
{
    let t2 = sumar_a_lineas(t, u, p, d);
    assert forall|j: i32| t.dom().contains(j) && es_linea(#[trigger] t[j], u, p) implies j == k by {
    }
    assert(t2.dom() =~= t.dom());
    if carrito_valido(t) && t[k].cantidad + d >= 1 {
        lema_carrito_valido(t, t2, u, p);
    }
}

/// "Add to cart", on a user with at most one line of the product, touches no
/// other line and keeps that line unique (and in its state, with the state of
/// the user's cart and of the whole cart, when they were in it): afterwards
/// the product is in the cart, with one unit if it was not there before and
/// with one unit more than the line held if it was, whatever it held (unless
/// that was the largest `int4`, when the database refuses the change).
pub proof fn ley_add_carrito(t: Map<i32, ElemCarrito>, u: u128, p: u128, clave: i32)
    requires
        linea_unica(t, u, p),
        !t.dom().contains(clave),
    ensures
        linea_unica(tras_add_carrito(t, u, p, clave), u, p),
        linea_valida(t, u, p) ==> linea_valida(tras_add_carrito(t, u, p, clave), u, p),
        usuario_valido(t, u) ==> usuario_valido(tras_add_carrito(t, u, p, clave), u),
        carrito_valido(t) ==> carrito_valido(tras_add_carrito(t, u, p, clave)),
        solo_cambia(t, tras_add_carrito(t, u, p, clave), u, p),
        existe(tras_add_carrito(t, u, p, clave), u, p),
        !existe(t, u, p) ==> cantidad_en(tras_add_carrito(t, u, p, clave), u, p) == Ok::<
            i32,
            ErrorBd,
        >(1),
        existe(t, u, p) ==> cantidad_en(tras_add_carrito(t, u, p, clave), u, p) == (if cantidad_en(
            t,
            u,
            p,
        ) == Ok::<i32, ErrorBd>(i32::MAX) {
            cantidad_en(t, u, p)
        } else {
            Ok((cantidad_respondida(cantidad_en(t, u, p)) + 1) as i32)
        }),
        forall|u2: u128, p2: u128|
            !(u2 == u && p2 == p) && linea_valida(t, u2, p2) ==> #[trigger] cantidad_en(
                tras_add_carrito(t, u, p, clave),
                u2,
                p2,
            ) == cantidad_en(t, u2, p2),
{
    let t2 = tras_add_carrito(t, u, p, clave);
    if existe(t, u, p) {
        let k = clave_de(t, u, p);
        assert(t.dom().contains(k) && es_linea(t[k], u, p));
        lema_linea_unica(t, u, p, k);
        if carrito_valido(t) || usuario_valido(t, u) {
            assert(t[k].cantidad >= 1) by {
                if usuario_valido(t, u) {
                    assert(linea_valida(t, u, p));
                }
            }
        }
        if t[k].cantidad == i32::MAX {
            assert(desborda(t, u, p, 1));
            assert(t2 == t);
        } else {
            lema_sumar_a_linea(t, u, p, k, 1);
            lema_linea_unica(t2, u, p, k);
        }
    } else {
        let fila = ElemCarrito { clave, id_usuario: u, id_producto: p, cantidad: 1 };
        assert(t2 == t.insert(clave, fila));
        assert(linea_valida(t2, u, p));
        assert(solo_cambia(t, t2, u, p));
        lema_linea_unica(t2, u, p, clave);
        if carrito_valido(t) {
            lema_carrito_valido(t, t2, u, p);
        }
    }
    if linea_valida(t2, u, p) {
        lema_validez_general(t, t2, u, p);
    }
    assert forall|u2: u128, p2: u128|
        !(u2 == u && p2 == p) && linea_valida(t, u2, p2) implies #[trigger] cantidad_en(
        t2,
        u2,
        p2,
    ) == cantidad_en(t, u2, p2) by {
        lema_otras_lineas(t, t2, u, p, u2, p2);
    }
}

/// "One more" keeps the line of the product in its state and touches no
/// other line, nor adds or removes any row; the number it answers is the
/// quantity the line holds afterwards, one unit more than before (unless the
/// quantity already was the largest `int4`), and `0` when the product is not
/// in the cart, which it leaves as it was.
pub proof fn ley_add_producto(t: Map<i32, ElemCarrito>, u: u128, p: u128)
    requires
        linea_valida(t, u, p),
    ensures
        linea_valida(tras_add_producto(t, u, p).0, u, p),
        usuario_valido(t, u) ==> usuario_valido(tras_add_producto(t, u, p).0, u),
        carrito_valido(t) ==> carrito_valido(tras_add_producto(t, u, p).0),
        solo_cambia(t, tras_add_producto(t, u, p).0, u, p),
        tras_add_producto(t, u, p).0.dom() == t.dom(),
        existe(t, u, p) ==> cantidad_en(tras_add_producto(t, u, p).0, u, p) == Ok::<i32, ErrorBd>(
            tras_add_producto(t, u, p).1,
        ),
        existe(t, u, p) ==> tras_add_producto(t, u, p).1 == (if cantidad_respondida(
            cantidad_en(t, u, p),
        ) == i32::MAX {
            i32::MAX
        } else {
            (cantidad_respondida(cantidad_en(t, u, p)) + 1) as i32
        }),
        !existe(t, u, p) ==> tras_add_producto(t, u, p).0 == t && tras_add_producto(t, u, p).1
            == 0,
{
    let t2 = tras_add_producto(t, u, p).0;
    if existe(t, u, p) {
        let k = clave_de(t, u, p);
        assert(t.dom().contains(k) && es_linea(t[k], u, p));
        lema_linea_unica(t, u, p, k);
        if t[k].cantidad == i32::MAX {
            assert(desborda(t, u, p, 1));
            assert(t2 == t);
        } else {
            lema_sumar_a_linea(t, u, p, k, 1);
            lema_linea_unica(t2, u, p, k);
        }
    }
    lema_validez_general(t, t2, u, p);
}

/// "One less" keeps the line of the product in its state and touches no other
/// line, nor adds or removes any row. It never takes the last unit away: a
/// line with more than one unit loses one, a line with one unit stays as it
/// is, and the number the page answers is the quantity the line holds
/// afterwards. When the product is not in the cart the page answers `-1` and
/// leaves the cart as it was.
pub proof fn ley_quitar_producto(t: Map<i32, ElemCarrito>, u: u128, p: u128)
    requires
        linea_valida(t, u, p),
    ensures
        linea_valida(tras_quitar_producto(t, u, p).0, u, p),
        usuario_valido(t, u) ==> usuario_valido(tras_quitar_producto(t, u, p).0, u),
        carrito_valido(t) ==> carrito_valido(tras_quitar_producto(t, u, p).0),
        solo_cambia(t, tras_quitar_producto(t, u, p).0, u, p),
        tras_quitar_producto(t, u, p).0.dom() == t.dom(),
        existe(t, u, p) ==> existe(tras_quitar_producto(t, u, p).0, u, p) && cantidad_en(
            tras_quitar_producto(t, u, p).0,
            u,
            p,
        ) == Ok::<i32, ErrorBd>(tras_quitar_producto(t, u, p).1),
        existe(t, u, p) ==> tras_quitar_producto(t, u, p).1 == (if cantidad_respondida(
            cantidad_en(t, u, p),
        ) > 1 {
            (cantidad_respondida(cantidad_en(t, u, p)) - 1) as i32
        } else {
            cantidad_respondida(cantidad_en(t, u, p))
        }),
        !existe(t, u, p) ==> tras_quitar_producto(t, u, p).0 == t && tras_quitar_producto(
            t,
            u,
            p,
        ).1 == -1,
{
    broadcast use lema_pendiente;

    let r = tras_quitar_producto(t, u, p);
    if existe(t, u, p) {
        let k = clave_de(t, u, p);
        assert(t.dom().contains(k) && es_linea(t[k], u, p));
        lema_linea_unica(t, u, p, k);
        let c = t[k].cantidad;
        if c > 1 {
            lema_sumar_a_linea(t, u, p, k, -1);
            lema_linea_unica(r.0, u, p, k);
        }
    }
    lema_validez_general(t, r.0, u, p);
}

/// "Remove from cart" touches only the line of the product: afterwards the
/// product is not in the cart, no row was added, and the page answers that the
/// badge and the total must be refreshed exactly when the product was in the
/// cart before.
pub proof fn ley_quitar_carrito(t: Map<i32, ElemCarrito>, u: u128, p: u128)
    requires
        linea_valida(t, u, p),
    ensures
        linea_valida(tras_quitar_carrito(t, u, p).0, u, p),
        usuario_valido(t, u) ==> usuario_valido(tras_quitar_carrito(t, u, p).0, u),
        carrito_valido(t) ==> carrito_valido(tras_quitar_carrito(t, u, p).0),
        solo_cambia(t, tras_quitar_carrito(t, u, p).0, u, p),
        tras_quitar_carrito(t, u, p).0.dom().subset_of(t.dom()),
        !existe(tras_quitar_carrito(t, u, p).0, u, p),
        (tras_quitar_carrito(t, u, p).1 == RespuestaQuitar::Actualizar) == existe(t, u, p),
{
    let t2 = tras_quitar_carrito(t, u, p).0;
    if existe(t, u, p) {
        let k = clave_de(t, u, p);
        assert(t.dom().contains(k) && es_linea(t[k], u, p));
        lema_linea_unica(t, u, p, k);
        assert(t2 == sin_lineas(t, u, p));
        if existe(t2, u, p) {
            let j = clave_de(t2, u, p);
            assert(t2.dom().contains(j) && es_linea(t2[j], u, p));
        }
        if carrito_valido(t) {
            lema_carrito_valido(t, t2, u, p);
        }
    }
    lema_validez_general(t, t2, u, p);
}

/// A second "remove from cart" of the same product answers that nothing was
/// deleted and leaves the cart as the first one left it.
pub proof fn ley_quitar_carrito_dos_veces(t: Map<i32, ElemCarrito>, u: u128, p: u128)
    ensures
        tras_quitar_carrito(t, u, p).1 == RespuestaQuitar::Actualizar ==> tras_quitar_carrito(
            tras_quitar_carrito(t, u, p).0,
            u,
            p,
        ) == (tras_quitar_carrito(t, u, p).0, RespuestaQuitar::SinContenido),
{
    let t2 = tras_quitar_carrito(t, u, p).0;
    if tras_quitar_carrito(t, u, p).1 == RespuestaQuitar::Actualizar {
        assert(t2 == sin_lineas(t, u, p));
        if existe(t2, u, p) {
            let j = clave_de(t2, u, p);
            assert(t2.dom().contains(j) && es_linea(t2[j], u, p));
        }
    }
}

/// One unit more followed by one unit less gives back the table: when the
/// increment succeeds, the decrement succeeds too and undoes it.
pub proof fn ley_incrementar_y_decrementar(t: Map<i32, ElemCarrito>, u: u128, p: u128)
    requires
        aplicar(t, OrdenCarrito::Incrementar { id_usuario: u, id_producto: p }, 0).1 is Ok,
    ensures
        aplicar(
            aplicar(t, OrdenCarrito::Incrementar { id_usuario: u, id_producto: p }, 0).0,
            OrdenCarrito::Decrementar { id_usuario: u, id_producto: p },
            0,
        ).1 is Ok,
        aplicar(
            aplicar(t, OrdenCarrito::Incrementar { id_usuario: u, id_producto: p }, 0).0,
            OrdenCarrito::Decrementar { id_usuario: u, id_producto: p },
            0,
        ).0 == t,
{
    let t2 = sumar_a_lineas(t, u, p, 1);
    assert(!desborda(t, u, p, 1));
    assert(!desborda(t2, u, p, -1)) by {
        if desborda(t2, u, p, -1) {
            let k = choose|k: i32|
                t2.dom().contains(k) && es_linea(#[trigger] t2[k], u, p) && !(i32::MIN
                    <= t2[k].cantidad + -1 <= i32::MAX);
            assert(t.dom().contains(k) && es_linea(t[k], u, p));
        }
    }
    let t3 = sumar_a_lineas(t2, u, p, -1);
    assert forall|k: i32| #[trigger] t3.dom().contains(k) implies t3[k] == t[k] by {
        if es_linea(t[k], u, p) {
            assert(t.dom().contains(k) && es_linea(t[k], u, p));
            assert(i32::MIN <= t[k].cantidad + 1 <= i32::MAX);
        }
    }
    assert(t3 =~= t);
}

/// A line inserted with any quantity is then found with that quantity.
pub proof fn ley_insertar_y_leer(t: Map<i32, ElemCarrito>, u: u128, p: u128, c: i32, clave: i32)
    requires
        !existe(t, u, p),
        !t.dom().contains(clave),
    ensures
        aplicar(t, crate::database::orden_insertar(u, p, c), clave).1 is Ok,
        existe(aplicar(t, crate::database::orden_insertar(u, p, c), clave).0, u, p),
        cantidad_en(aplicar(t, crate::database::orden_insertar(u, p, c), clave).0, u, p) == Ok::<
            i32,
            ErrorBd,
        >(c),
        cantidad_respondida(
            cantidad_en(aplicar(t, crate::database::orden_insertar(u, p, c), clave).0, u, p),
        ) == c,
{
    let t2 = aplicar(t, crate::database::orden_insertar(u, p, c), clave).0;
    assert(t2.dom().contains(clave) && es_linea(t2[clave], u, p));
    assert(forall|k: i32| t2.dom().contains(k) && es_linea(#[trigger] t2[k], u, p) ==> k == clave);
    assert(existe(t2, u, p));
    let j = clave_de(t2, u, p);
    assert(t2.dom().contains(j) && es_linea(t2[j], u, p));
}

/// Adding up quantities does not depend on the order of the lines.
proof fn lema_suma_conmutativa(t: Map<i32, ElemCarrito>)
    ensures
        vstd::set::fold::is_fun_commutative(sumar_cantidad(t)),
{
}

/// Taking one line out of a sum of quantities.
proof fn lema_suma_sin(s: Set<i32>, t: Map<i32, ElemCarrito>, k: i32)
    requires
        s.finite(),
        s.contains(k),
    ensures
        s.fold(0int, sumar_cantidad(t)) == s.remove(k).fold(0int, sumar_cantidad(t)) + t[k].cantidad,
{
    lema_suma_conmutativa(t);
    vstd::set::fold::lemma_fold_insert(s.remove(k), 0int, sumar_cantidad(t), k);
    assert(s.remove(k).insert(k) =~= s);
}

/// Two tables with the same quantities under the keys of a set add up the
/// same over it.
proof fn lema_suma_igual(s: Set<i32>, t: Map<i32, ElemCarrito>, t2: Map<i32, ElemCarrito>)
    requires
        s.finite(),
        forall|k: i32| s.contains(k) ==> #[trigger] t[k].cantidad == t2[k].cantidad,
    ensures
        s.fold(0int, sumar_cantidad(t)) == s.fold(0int, sumar_cantidad(t2)),
    decreases s.len(),
{
    if s.len() == 0 {
        assert(s =~= Set::<i32>::empty());
        vstd::set::fold::lemma_fold_empty(0int, sumar_cantidad(t));
        vstd::set::fold::lemma_fold_empty(0int, sumar_cantidad(t2));
    } else {
        let k = s.choose();
        assert(s.contains(k));
        lema_suma_igual(s.remove(k), t, t2);
        lema_suma_sin(s, t, k);
        lema_suma_sin(s, t2, k);
    }
}

/// The keys of a user's lines are finite when the table is.
proof fn lema_claves_finitas(t: Map<i32, ElemCarrito>, u: u128)
    requires
        t.dom().finite(),
    ensures
        claves_usuario(t, u).finite(),
{
    t.dom().lemma_len_filter(|k: i32| t[k].id_usuario == u);
}

/// The badge shows the units in the user's cart: `carrito_numero_productos`,
/// given the answer of `SUM(cantidad)`, is the sum of the quantities of the
/// user's lines (0 when there are none), as long as that sum is a `bigint`.
pub proof fn ley_numero_es_unidades(t: Map<i32, ElemCarrito>, u: u128)
    requires
        t.dom().finite(),
        i64::MIN <= unidades(t, u) <= i64::MAX,
    ensures
        numero_respondido(numero_en(t, u)) == unidades(t, u),
{
    if !existe_usuario(t, u) {
        assert(claves_usuario(t, u) =~= Set::<i32>::empty());
        vstd::set::fold::lemma_fold_empty(0int, sumar_cantidad(t));
    }
}

/// A change of the quantity of the (only) line of `u` and `p` by `d` changes
/// the units of user `u` by `d`, and those of every other user not at all.
proof fn lema_unidades_sumar(t: Map<i32, ElemCarrito>, u: u128, p: u128, d: int)
    requires
        t.dom().finite(),
        linea_unica(t, u, p),
        existe(t, u, p),
        !desborda(t, u, p, d),
    ensures
        sumar_a_lineas(t, u, p, d).dom().finite(),
        unidades(sumar_a_lineas(t, u, p, d), u) == unidades(t, u) + d,
        forall|v: u128| v != u ==> #[trigger] unidades(sumar_a_lineas(t, u, p, d), v) == unidades(t, v),
{
    let t2 = sumar_a_lineas(t, u, p, d);
    assert(t2.dom() =~= t.dom());
    let k = clave_de(t, u, p);
    assert(t.dom().contains(k) && es_linea(t[k], u, p));
    assert(claves_usuario(t2, u) =~= claves_usuario(t, u));
    lema_claves_finitas(t, u);
    let s = claves_usuario(t, u);
    lema_suma_sin(s, t, k);
    lema_suma_sin(s, t2, k);
    lema_suma_igual(s.remove(k), t, t2);
    assert forall|v: u128| v != u implies #[trigger] unidades(t2, v) == unidades(t, v) by {
        assert(claves_usuario(t2, v) =~= claves_usuario(t, v));
        lema_claves_finitas(t, v);
        lema_suma_igual(claves_usuario(t, v), t, t2);
    }
}

/// One unit more, or one unit less, on the (only) line of `u` and `p`, when
/// the database accepts it, adds or takes one unit from the badge of user
/// `u` and leaves the badges of the other users as they were.
pub proof fn ley_unidades_incrementar_decrementar(t: Map<i32, ElemCarrito>, u: u128, p: u128)
    requires
        t.dom().finite(),
        linea_unica(t, u, p),
        existe(t, u, p),
    ensures
        aplicar(t, OrdenCarrito::Incrementar { id_usuario: u, id_producto: p }, 0).1 is Ok ==> {
            let t2 = aplicar(t, OrdenCarrito::Incrementar { id_usuario: u, id_producto: p }, 0).0;
            &&& unidades(t2, u) == unidades(t, u) + 1
            &&& forall|v: u128| v != u ==> #[trigger] unidades(t2, v) == unidades(t, v)
        },
        aplicar(t, OrdenCarrito::Decrementar { id_usuario: u, id_producto: p }, 0).1 is Ok ==> {
            let t2 = aplicar(t, OrdenCarrito::Decrementar { id_usuario: u, id_producto: p }, 0).0;
            &&& unidades(t2, u) == unidades(t, u) - 1
            &&& forall|v: u128| v != u ==> #[trigger] unidades(t2, v) == unidades(t, v)
        },
{
    if !desborda(t, u, p, 1) {
        lema_unidades_sumar(t, u, p, 1);
    }
    if !desborda(t, u, p, -1) {
        lema_unidades_sumar(t, u, p, -1);
    }
}

/// Inserting a line adds its quantity to the badge of its user and leaves the
/// badges of the other users as they were.
pub proof fn ley_unidades_insertar(t: Map<i32, ElemCarrito>, n: NuevoCarrito, clave: i32)
    requires
        t.dom().finite(),
        !t.dom().contains(clave),
    ensures
        aplicar(t, OrdenCarrito::Insertar(n), clave).0.dom().finite(),
        unidades(aplicar(t, OrdenCarrito::Insertar(n), clave).0, n.id_usuario) == unidades(
            t,
            n.id_usuario,
        ) + n.cantidad,
        forall|v: u128|
            v != n.id_usuario ==> #[trigger] unidades(aplicar(t, OrdenCarrito::Insertar(n), clave).0, v)
                == unidades(t, v),
{
    let t2 = aplicar(t, OrdenCarrito::Insertar(n), clave).0;
    let u = n.id_usuario;
    lema_claves_finitas(t, u);
    let s = claves_usuario(t, u);
    assert(claves_usuario(t2, u) =~= s.insert(clave));
    assert(s.insert(clave).remove(clave) =~= s);
    lema_suma_sin(s.insert(clave), t2, clave);
    lema_suma_igual(s, t, t2);
    assert forall|v: u128| v != u implies #[trigger] unidades(t2, v) == unidades(t, v) by {
        assert(claves_usuario(t2, v) =~= claves_usuario(t, v));
        lema_claves_finitas(t, v);
        lema_suma_igual(claves_usuario(t, v), t, t2);
    }
}

/// Deleting the (only) line of `u` and `p` takes its quantity from the badge
/// of user `u` and leaves the badges of the other users as they were.
pub proof fn ley_unidades_eliminar(t: Map<i32, ElemCarrito>, u: u128, p: u128)
    requires
        t.dom().finite(),
        linea_unica(t, u, p),
        existe(t, u, p),
    ensures
        unidades(aplicar(t, OrdenCarrito::Eliminar { id_usuario: u, id_producto: p }, 0).0, u)
            == unidades(t, u) - cantidad_respondida(cantidad_en(t, u, p)),
        forall|v: u128|
            v != u ==> #[trigger] unidades(
                aplicar(t, OrdenCarrito::Eliminar { id_usuario: u, id_producto: p }, 0).0,
                v,
            ) == unidades(t, v),
{
    let t2 = sin_lineas(t, u, p);
    let k = clave_de(t, u, p);
    assert(t.dom().contains(k) && es_linea(t[k], u, p));
    lema_linea_unica(t, u, p, k);
    lema_claves_finitas(t, u);
    let s = claves_usuario(t, u);
    assert(claves_usuario(t2, u) =~= s.remove(k));
    lema_suma_sin(s, t, k);
    lema_suma_igual(s.remove(k), t, t2);
    assert forall|v: u128| v != u implies #[trigger] unidades(t2, v) == unidades(t, v) by {
        assert(claves_usuario(t2, v) =~= claves_usuario(t, v));
        lema_claves_finitas(t, v);
        lema_suma_igual(claves_usuario(t, v), t, t2);
    }
}

/// "Add to cart" adds one unit to the user's badge (none when the quantity
/// already was the largest `int4`) and leaves the badges of the other users
/// as they were.
pub proof fn ley_add_carrito_unidades(t: Map<i32, ElemCarrito>, u: u128, p: u128, clave: i32)
    requires
        t.dom().finite(),
        linea_unica(t, u, p),
        !t.dom().contains(clave),
    ensures
        unidades(tras_add_carrito(t, u, p, clave), u) == unidades(t, u) + (if cantidad_en(t, u, p)
            == Ok::<i32, ErrorBd>(i32::MAX) {
            0int
        } else {
            1int
        }),
        forall|v: u128| v != u ==> #[trigger] unidades(tras_add_carrito(t, u, p, clave), v) == unidades(t, v),
{
    if existe(t, u, p) {
        let k = clave_de(t, u, p);
        assert(t.dom().contains(k) && es_linea(t[k], u, p));
        lema_linea_unica(t, u, p, k);
        if t[k].cantidad == i32::MAX {
            assert(desborda(t, u, p, 1));
        } else {
            lema_sumar_a_linea(t, u, p, k, 1);
            lema_unidades_sumar(t, u, p, 1);
        }
    } else {
        ley_unidades_insertar(t, NuevoCarrito { id_usuario: u, id_producto: p, cantidad: 1 }, clave);
    }
}

/// "One less" takes one unit from the user's badge when the line held more
/// than one, none otherwise, and leaves the badges of the other users as
/// they were.
pub proof fn ley_quitar_producto_unidades(t: Map<i32, ElemCarrito>, u: u128, p: u128)
    requires
        t.dom().finite(),
        linea_unica(t, u, p),
    ensures
        unidades(tras_quitar_producto(t, u, p).0, u) == unidades(t, u) - (if existe(t, u, p)
            && cantidad_respondida(cantidad_en(t, u, p)) > 1 {
            1int
        } else {
            0int
        }),
        forall|v: u128| v != u ==> #[trigger] unidades(tras_quitar_producto(t, u, p).0, v) == unidades(t, v),
{
    broadcast use lema_pendiente;

    if existe(t, u, p) {
        let k = clave_de(t, u, p);
        assert(t.dom().contains(k) && es_linea(t[k], u, p));
        lema_linea_unica(t, u, p, k);
        if t[k].cantidad > 1 {
            lema_sumar_a_linea(t, u, p, k, -1);
            lema_unidades_sumar(t, u, p, -1);
        }
    }
}

/// "Remove from cart" takes all the units of the product from the user's
/// badge (none when the line it reads holds less than one unit, which the
/// page does not delete) and leaves the badges of the other users as they
/// were.
pub proof fn ley_quitar_carrito_unidades(t: Map<i32, ElemCarrito>, u: u128, p: u128)
    requires
        t.dom().finite(),
        linea_unica(t, u, p),
    ensures
        unidades(tras_quitar_carrito(t, u, p).0, u) == unidades(t, u) - (if cantidad_respondida(
            cantidad_en(t, u, p),
        ) >= 1 {
            cantidad_respondida(cantidad_en(t, u, p)) as int
        } else {
            0int
        }),
        forall|v: u128| v != u ==> #[trigger] unidades(tras_quitar_carrito(t, u, p).0, v) == unidades(t, v),
{
    if existe(t, u, p) {
        let k = clave_de(t, u, p);
        assert(t.dom().contains(k) && es_linea(t[k], u, p));
        lema_linea_unica(t, u, p, k);
        ley_unidades_eliminar(t, u, p);
    }
}

/// The value of the badge that the catalogue page and the cart page show for
/// user `u` on this table: the decision taken on whether the user has lines,
/// then the number `carrito_numero_productos` reads from `SUM(cantidad)`.
pub open spec fn num_carrito_en(t: Map<i32, ElemCarrito>, u: u128) -> Option<i64> {
    valor_num_carrito(
        num_carrito_spec(Ok(existe_usuario(t, u))),
        numero_respondido(numero_en(t, u)),
    )
}

/// The badge of the catalogue page and of the cart page shows the units in
/// the user's cart: the sum of the quantities of the user's lines, `0` when
/// there are none, as long as that sum is a `bigint`.
pub proof fn ley_num_carrito_paginas(t: Map<i32, ElemCarrito>, u: u128)
    requires
        t.dom().finite(),
        i64::MIN <= unidades(t, u) <= i64::MAX,
    ensures
        num_carrito_en(t, u) == Some(unidades(t, u) as i64),
{
    ley_numero_es_unidades(t, u);
    if !existe_usuario(t, u) {
        assert(claves_usuario(t, u) =~= Set::<i32>::empty());
        vstd::set::fold::lemma_fold_empty(0int, sumar_cantidad(t));
    }
}

} // verus!
