//! The table `carrito` as the database keeps it, and what its statements do to
//! it: the model over which the shop's laws are stated.
//!
//! The table maps each primary key (`clave`) to its row. The statements are
//! those the shop sends: the `exists` query, the query of a line's quantity,
//! the `SUM(cantidad)` query, an insert, `cantidad = cantidad ± 1` on the lines
//! of a user and product (which fails, changing nothing, when a quantity would
//! leave the `int4` range), and the delete of those lines.
use vstd::prelude::*;

use crate::database::OrdenCarrito;
use crate::models::{ElemCarrito, ErrorBd};

verus! {

/// The line belongs to this user and this product.
pub open spec fn es_linea(e: ElemCarrito, u: u128, p: u128) -> bool {
    e.id_usuario == u && e.id_producto == p
}

/// `EXISTS (SELECT … WHERE id_usuario = u AND id_producto = p)`.
pub open spec fn existe(t: Map<i32, ElemCarrito>, u: u128, p: u128) -> bool {
    exists|k: i32| t.dom().contains(k) && es_linea(#[trigger] t[k], u, p)
}

/// `EXISTS (SELECT … WHERE id_usuario = u)`.
pub open spec fn existe_usuario(t: Map<i32, ElemCarrito>, u: u128) -> bool {
    exists|k: i32| t.dom().contains(k) && (#[trigger] t[k]).id_usuario == u
}

/// A key of a line of this user and product, if there is one.
pub open spec fn clave_de(t: Map<i32, ElemCarrito>, u: u128, p: u128) -> i32
    recommends
        existe(t, u, p),
{
    choose|k: i32| t.dom().contains(k) && es_linea(#[trigger] t[k], u, p)
}

/// `SELECT cantidad … WHERE id_usuario = u AND id_producto = p` (first row).
pub open spec fn cantidad_en(t: Map<i32, ElemCarrito>, u: u128, p: u128) -> Result<i32, ErrorBd> {
    if existe(t, u, p) {
        Ok(t[clave_de(t, u, p)].cantidad)
    } else {
        Err(ErrorBd::NoEncontrado)
    }
}

/// Some line of this user and product would leave the `int4` range by `d`.
pub open spec fn desborda(t: Map<i32, ElemCarrito>, u: u128, p: u128, d: int) -> bool {
    exists|k: i32|
        t.dom().contains(k) && es_linea(#[trigger] t[k], u, p) && !(i32::MIN <= t[k].cantidad + d
            <= i32::MAX)
}

/// The lines of this user and product with `d` added to their quantity.
pub open spec fn sumar_a_lineas(t: Map<i32, ElemCarrito>, u: u128, p: u128, d: int) -> Map<
    i32,
    ElemCarrito,
> {
    Map::new(
        |k: i32| t.dom().contains(k),
        |k: i32|
            if es_linea(t[k], u, p) {
                ElemCarrito { cantidad: (t[k].cantidad + d) as i32, ..t[k] }
            } else {
                t[k]
            },
    )
}

/// The table without the lines of this user and product.
pub open spec fn sin_lineas(t: Map<i32, ElemCarrito>, u: u128, p: u128) -> Map<i32, ElemCarrito> {
    Map::new(|k: i32| t.dom().contains(k) && !es_linea(t[k], u, p), |k: i32| t[k])
}

/// How many lines a statement on this user and product touches.
pub open spec fn afectadas(t: Map<i32, ElemCarrito>, u: u128, p: u128) -> usize {
    t.dom().filter(|k: i32| es_linea(t[k], u, p)).len() as usize
}

/// What a change does to the table, and what the database answers.
/// `clave_nueva` is the key the database gives to an inserted row.
pub open spec fn aplicar(t: Map<i32, ElemCarrito>, o: OrdenCarrito, clave_nueva: i32) -> (
    Map<i32, ElemCarrito>,
    Result<usize, ErrorBd>,
) {
    match o {
        OrdenCarrito::Insertar(n) => (
            t.insert(
                clave_nueva,
                ElemCarrito {
                    clave: clave_nueva,
                    id_usuario: n.id_usuario,
                    id_producto: n.id_producto,
                    cantidad: n.cantidad,
                },
            ),
            Ok(1),
        ),
        OrdenCarrito::Incrementar { id_usuario, id_producto } => {
            if desborda(t, id_usuario, id_producto, 1) {
                (t, Err(ErrorBd::Fallo))
            } else {
                (
                    sumar_a_lineas(t, id_usuario, id_producto, 1),
                    Ok(afectadas(t, id_usuario, id_producto)),
                )
            }
        },
        OrdenCarrito::Decrementar { id_usuario, id_producto } => {
            if desborda(t, id_usuario, id_producto, -1) {
                (t, Err(ErrorBd::Fallo))
            } else {
                (
                    sumar_a_lineas(t, id_usuario, id_producto, -1),
                    Ok(afectadas(t, id_usuario, id_producto)),
                )
            }
        },
        OrdenCarrito::Eliminar { id_usuario, id_producto } => (
            sin_lineas(t, id_usuario, id_producto),
            Ok(afectadas(t, id_usuario, id_producto)),
        ),
    }
}

/// The keys of the lines of user `u`.
pub open spec fn claves_usuario(t: Map<i32, ElemCarrito>, u: u128) -> Set<i32> {
    t.dom().filter(|k: i32| t[k].id_usuario == u)
}

/// Adds the quantity of the line under a key.
pub open spec fn sumar_cantidad(t: Map<i32, ElemCarrito>) -> spec_fn(int, i32) -> int {
    |acc: int, k: i32| acc + t[k].cantidad
}

/// The units in the cart of user `u`: the sum of the quantities of its lines.
pub open spec fn unidades(t: Map<i32, ElemCarrito>, u: u128) -> int {
    claves_usuario(t, u).fold(0int, sumar_cantidad(t))
}

/// `SELECT SUM(cantidad) … WHERE id_usuario = u`: `NULL` when the user has no
/// lines; the sum, as a `bigint`, otherwise (an error when it leaves that range).
pub open spec fn numero_en(t: Map<i32, ElemCarrito>, u: u128) -> Result<Option<i64>, ErrorBd> {
    if !existe_usuario(t, u) {
        Ok(None)
    } else if i64::MIN <= unidades(t, u) <= i64::MAX {
        Ok(Some(unidades(t, u) as i64))
    } else {
        Err(ErrorBd::Fallo)
    }
}

/// User `u` has at most one line of product `p`.
pub open spec fn linea_unica(t: Map<i32, ElemCarrito>, u: u128, p: u128) -> bool {
    forall|k1: i32, k2: i32|
        #![trigger t[k1], t[k2]]
        t.dom().contains(k1) && t.dom().contains(k2) && es_linea(t[k1], u, p) && es_linea(
            t[k2],
            u,
            p,
        ) ==> k1 == k2
}

/// The lines of user `u` and product `p` are in the state the shop keeps them
/// in: at most one such line, holding at least one unit.
pub open spec fn linea_valida(t: Map<i32, ElemCarrito>, u: u128, p: u128) -> bool {
    &&& linea_unica(t, u, p)
    &&& forall|k: i32| t.dom().contains(k) && es_linea(#[trigger] t[k], u, p) ==> t[k].cantidad >= 1
}

/// Every line of user `u` is in the state the shop keeps it in.
pub open spec fn usuario_valido(t: Map<i32, ElemCarrito>, u: u128) -> bool {
    forall|p: u128| #[trigger] linea_valida(t, u, p)
}

/// The state the shop keeps its cart in: each row sits under its own key, each
/// user has at most one line per product, and every line holds at least one
/// unit.
pub open spec fn carrito_valido(t: Map<i32, ElemCarrito>) -> bool {
    &&& forall|k: i32| t.dom().contains(k) ==> (#[trigger] t[k]).clave == k
    &&& forall|k: i32| t.dom().contains(k) ==> (#[trigger] t[k]).cantidad >= 1
    &&& forall|k1: i32, k2: i32|
        #![trigger t[k1], t[k2]]
        t.dom().contains(k1) && t.dom().contains(k2) && k1 != k2 ==> !es_linea(
            t[k1],
            t[k2].id_usuario,
            t[k2].id_producto,
        )
}

} // verus!
