//! The table `productos` as the database keeps it, and what the catalogue page
//! does to it: it puts the shop's products in, each with `insertar_producto`,
//! which inserts a product only when no row has its name. The promises kept:
//! names stay unique, no row that was there changes, exactly one row comes in
//! per product whose name was missing, and a second visit changes nothing.
use vstd::prelude::*;

use crate::database::se_inserta;
use crate::funciones::{catalogo, producto_de_entrada};
use crate::models::NewProduct;

verus! {

/// The table `productos`, by identifier: some row has this name.
pub open spec fn nombre_en_catalogo(t: Map<u128, NewProduct>, nombre: Seq<char>) -> bool {
    exists|k: u128| t.dom().contains(k) && (#[trigger] t[k]).nombre_producto@ == nombre
}

/// No two rows of the catalogue share a name.
pub open spec fn nombres_unicos(t: Map<u128, NewProduct>) -> bool {
    forall|k1: u128, k2: u128|
        #![trigger t[k1], t[k2]]
        t.dom().contains(k1) && t.dom().contains(k2) && k1 != k2 ==> t[k1].nombre_producto@
            != t[k2].nombre_producto@
}

/// No two products of the list share a name.
pub open spec fn nombres_distintos(nuevos: Seq<NewProduct>) -> bool {
    forall|i: int, j: int|
        #![trigger nuevos[i], nuevos[j]]
        0 <= i < nuevos.len() && 0 <= j < nuevos.len() && i != j ==> nuevos[i].nombre_producto@
            != nuevos[j].nombre_producto@
}

/// Some product of the list has this name.
pub open spec fn nombre_en_lista(nuevos: Seq<NewProduct>, nombre: Seq<char>) -> bool {
    exists|j: int| 0 <= j < nuevos.len() && (#[trigger] nuevos[j]).nombre_producto@ == nombre
}

/// The catalogue after `insertar_producto` of this product, and its answer;
/// `id_nuevo` is the identifier the database gives a new row. An identifier
/// that is already a key makes the `INSERT` fail on the primary key: the
/// catalogue stays as it was and the answer is `false`.
pub open spec fn tras_insertar_producto(t: Map<u128, NewProduct>, n: NewProduct, id_nuevo: u128) -> (
    Map<u128, NewProduct>,
    bool,
) {
    if se_inserta(Ok(nombre_en_catalogo(t, n.nombre_producto@))) && !t.dom().contains(id_nuevo) {
        (t.insert(id_nuevo, n), true)
    } else {
        (t, false)
    }
}

/// The catalogue after inserting these products, in order; `ids[i]` is the
/// identifier the database gives the `i`-th product if it is inserted.
pub open spec fn tras_insertar_catalogo(
    t: Map<u128, NewProduct>,
    nuevos: Seq<NewProduct>,
    ids: Seq<u128>,
) -> Map<u128, NewProduct>
    decreases nuevos.len(),
{
    if nuevos.len() == 0 {
        t
    } else {
        tras_insertar_producto(
            tras_insertar_catalogo(t, nuevos.drop_last(), ids.drop_last()),
            nuevos.last(),
            ids.last(),
        ).0
    }
}

/// How many products of the list have a name that no row of the catalogue has.
pub open spec fn ausentes(t: Map<u128, NewProduct>, nuevos: Seq<NewProduct>) -> nat
    decreases nuevos.len(),
{
    if nuevos.len() == 0 {
        0
    } else {
        ausentes(t, nuevos.drop_last()) + if nombre_en_catalogo(t, nuevos.last().nombre_producto@) {
            0nat
        } else {
            1nat
        }
    }
}

/// The identifiers are new to the catalogue and to each other, as the
/// database gives them.
pub open spec fn ids_nuevos(t: Map<u128, NewProduct>, ids: Seq<u128>) -> bool {
    &&& forall|i: int| 0 <= i < ids.len() ==> !t.dom().contains(#[trigger] ids[i])
    &&& forall|i: int, j: int| 0 <= i < j < ids.len() ==> ids[i] != ids[j]
}

/// Inserting a product keeps the names of the catalogue unique and changes no
/// row that was there, whatever the answer; a product whose name is already
/// there leaves the catalogue as it was (so putting the same products in
/// again, as every visit of the catalogue page does, changes nothing), and
/// `true` comes only for a name that was not there. When the insert goes
/// through (the identifier is new), the name is in the catalogue afterwards
/// and the answer is `true` exactly when it was not there before.
pub proof fn ley_insertar_producto(t: Map<u128, NewProduct>, n: NewProduct, id_nuevo: u128)
    ensures
        nombres_unicos(t) ==> nombres_unicos(tras_insertar_producto(t, n, id_nuevo).0),
        nombre_en_catalogo(t, n.nombre_producto@) ==> tras_insertar_producto(t, n, id_nuevo) == (
            t,
            false,
        ),
        tras_insertar_producto(t, n, id_nuevo).1 ==> !nombre_en_catalogo(t, n.nombre_producto@),
        !t.dom().contains(id_nuevo) ==> nombre_en_catalogo(
            tras_insertar_producto(t, n, id_nuevo).0,
            n.nombre_producto@,
        ),
        !t.dom().contains(id_nuevo) ==> tras_insertar_producto(t, n, id_nuevo).1
            == !nombre_en_catalogo(t, n.nombre_producto@),
        forall|k: u128|
            t.dom().contains(k) ==> tras_insertar_producto(t, n, id_nuevo).0.dom().contains(k)
                && #[trigger] tras_insertar_producto(t, n, id_nuevo).0[k] == t[k],
{
    let t2 = tras_insertar_producto(t, n, id_nuevo).0;
    let nombre = n.nombre_producto@;
    if !nombre_en_catalogo(t, nombre) && !t.dom().contains(id_nuevo) {
        assert(t2.dom().contains(id_nuevo) && t2[id_nuevo].nombre_producto@ == nombre);
        if nombres_unicos(t) {
            assert forall|k1: u128, k2: u128|
                #![trigger t2[k1], t2[k2]]
                t2.dom().contains(k1) && t2.dom().contains(k2) && k1 != k2 implies t2[k1].nombre_producto@
                != t2[k2].nombre_producto@ by {
                if k1 == id_nuevo {
                    assert(t.dom().contains(k2) && t2[k2] == t[k2]);
                } else if k2 == id_nuevo {
                    assert(t.dom().contains(k1) && t2[k1] == t[k1]);
                } else {
                    assert(t[k1].nombre_producto@ != t[k2].nombre_producto@);
                }
            }
        }
    } else if nombre_en_catalogo(t, nombre) {
        let k = choose|k: u128| t.dom().contains(k) && (#[trigger] t[k]).nombre_producto@ == nombre;
        assert(t2.dom().contains(k) && t2[k].nombre_producto@ == nombre);
    }
}

/// Once an insert of a product has gone through without a database error
/// (its identifier was new, whatever it answered), a second insert of a
/// product with the same name answers `false` and leaves the catalogue as the
/// first one left it.
pub proof fn ley_insertar_producto_dos_veces(
    t: Map<u128, NewProduct>,
    n: NewProduct,
    n2: NewProduct,
    id1: u128,
    id2: u128,
)
    requires
        !t.dom().contains(id1),
        n2.nombre_producto@ == n.nombre_producto@,
    ensures
        tras_insertar_producto(tras_insertar_producto(t, n, id1).0, n2, id2) == (
            tras_insertar_producto(t, n, id1).0,
            false,
        ),
{
    ley_insertar_producto(t, n, id1);
}

/// The catalogue after inserting a list of products (with identifiers new to
/// it and to each other), step by step: every row that was there stays as it
/// was; the only rows added are under the identifiers given; a name is in the
/// catalogue exactly when it was before or is in the list; each product whose
/// name was missing (and appears once in the list) comes in under its own
/// identifier; and the rows grow by the number of such products.
proof fn lema_catalogo(t: Map<u128, NewProduct>, nuevos: Seq<NewProduct>, ids: Seq<u128>)
    requires
        ids.len() == nuevos.len(),
        ids_nuevos(t, ids),
    ensures
        forall|k: u128|
            #![trigger tras_insertar_catalogo(t, nuevos, ids).dom().contains(k)]
            t.dom().contains(k) ==> tras_insertar_catalogo(t, nuevos, ids).dom().contains(k)
                && tras_insertar_catalogo(t, nuevos, ids)[k] == t[k],
        forall|k: u128|
            #[trigger] tras_insertar_catalogo(t, nuevos, ids).dom().contains(k) ==> t.dom().contains(k)
                || ids.contains(k),
        forall|x: Seq<char>|
            #[trigger] nombre_en_catalogo(tras_insertar_catalogo(t, nuevos, ids), x) <==> (
            nombre_en_catalogo(t, x) || nombre_en_lista(nuevos, x)),
        nombres_unicos(t) ==> nombres_unicos(tras_insertar_catalogo(t, nuevos, ids)),
        nombres_distintos(nuevos) ==> forall|i: int|
            0 <= i < nuevos.len() && !nombre_en_catalogo(t, #[trigger] nuevos[i].nombre_producto@)
                ==> tras_insertar_catalogo(t, nuevos, ids).dom().contains(ids[i])
                && tras_insertar_catalogo(t, nuevos, ids)[ids[i]] == nuevos[i],
        t.dom().finite() ==> tras_insertar_catalogo(t, nuevos, ids).dom().finite(),
        t.dom().finite() && nombres_distintos(nuevos) ==> tras_insertar_catalogo(t, nuevos, ids).dom().len()
            == t.dom().len() + ausentes(t, nuevos),
    decreases nuevos.len(),
{
    if nuevos.len() > 0 {
        let resto = nuevos.drop_last();
        let ids_resto = ids.drop_last();
        let t1 = tras_insertar_catalogo(t, resto, ids_resto);
        let t2 = tras_insertar_catalogo(t, nuevos, ids);
        let n = nuevos.last();
        let id = ids.last();
        let ult = nuevos.len() - 1;
        assert(ids_nuevos(t, ids_resto)) by {
            assert forall|i: int| 0 <= i < ids_resto.len() implies !t.dom().contains(
                #[trigger] ids_resto[i],
            ) by {
                assert(ids_resto[i] == ids[i]);
            }
            assert forall|i: int, j: int| 0 <= i < j < ids_resto.len() implies ids_resto[i]
                != ids_resto[j] by {
                assert(ids_resto[i] == ids[i]);
                assert(ids_resto[j] == ids[j]);
            }
        }
        lema_catalogo(t, resto, ids_resto);
        assert(t2 == tras_insertar_producto(t1, n, id).0);
        assert(!t1.dom().contains(id)) by {
            if t1.dom().contains(id) {
                assert(!t.dom().contains(ids[ult]));
                assert(ids_resto.contains(id));
                let j = choose|j: int| 0 <= j < ids_resto.len() && ids_resto[j] == id;
                assert(ids[j] == ids[ult]);
            }
        }
        ley_insertar_producto(t1, n, id);
        assert forall|k: u128| t.dom().contains(k) implies #[trigger] t2.dom().contains(k) && t2[k]
            == t[k] by {
            assert(t1.dom().contains(k) && t1[k] == t[k]);
        }
        assert forall|k: u128| #[trigger] t2.dom().contains(k) implies t.dom().contains(k)
            || ids.contains(k) by {
            if k == id {
                assert(ids[ult] == k);
            } else if !t.dom().contains(k) {
                assert(t1.dom().contains(k));
                assert(ids_resto.contains(k));
                let j = choose|j: int| 0 <= j < ids_resto.len() && ids_resto[j] == k;
                assert(ids[j] == k);
            }
        }
        assert forall|x: Seq<char>| #[trigger] nombre_en_catalogo(t2, x) <==> (nombre_en_catalogo(
            t,
            x,
        ) || nombre_en_lista(nuevos, x)) by {
            if nombre_en_catalogo(t2, x) {
                let k = choose|k: u128| t2.dom().contains(k) && (#[trigger] t2[k]).nombre_producto@ == x;
                if t1.dom().contains(k) {
                    assert(nombre_en_catalogo(t1, x));
                    if nombre_en_lista(resto, x) {
                        let j = choose|j: int|
                            0 <= j < resto.len() && (#[trigger] resto[j]).nombre_producto@ == x;
                        assert(nuevos[j] == resto[j]);
                    }
                } else {
                    assert(k == id && t2[k] == n);
                    assert(nuevos[ult] == n);
                }
            }
            if nombre_en_catalogo(t, x) || nombre_en_lista(nuevos, x) {
                if nombre_en_catalogo(t, x) {
                    assert(nombre_en_catalogo(t1, x));
                } else {
                    let j = choose|j: int|
                        0 <= j < nuevos.len() && (#[trigger] nuevos[j]).nombre_producto@ == x;
                    if j < ult {
                        assert(resto[j] == nuevos[j]);
                        assert(nombre_en_lista(resto, x));
                    }
                }
                if nombre_en_catalogo(t1, x) {
                    let k = choose|k: u128| t1.dom().contains(k) && (#[trigger] t1[k]).nombre_producto@ == x;
                    assert(t2.dom().contains(k) && t2[k] == t1[k]);
                } else {
                    assert(n.nombre_producto@ == x);
                }
            }
        }
        if nombres_distintos(nuevos) {
            assert(nombres_distintos(resto)) by {
                assert forall|i: int, j: int|
                    #![trigger resto[i], resto[j]]
                    0 <= i < resto.len() && 0 <= j < resto.len() && i != j implies resto[i].nombre_producto@
                    != resto[j].nombre_producto@ by {
                    assert(resto[i] == nuevos[i] && resto[j] == nuevos[j]);
                }
            }
            assert(!nombre_en_lista(resto, n.nombre_producto@)) by {
                if nombre_en_lista(resto, n.nombre_producto@) {
                    let j = choose|j: int|
                        0 <= j < resto.len() && (#[trigger] resto[j]).nombre_producto@
                            == n.nombre_producto@;
                    assert(resto[j] == nuevos[j]);
                    assert(nuevos[ult] == n);
                }
            }
            assert(nombre_en_catalogo(t1, n.nombre_producto@) == nombre_en_catalogo(
                t,
                n.nombre_producto@,
            ));
            assert forall|i: int|
                0 <= i < nuevos.len() && !nombre_en_catalogo(t, #[trigger] nuevos[i].nombre_producto@)
                    implies t2.dom().contains(ids[i]) && t2[ids[i]] == nuevos[i] by {
                if i < ult {
                    assert(resto[i] == nuevos[i]);
                    assert(ids_resto[i] == ids[i]);
                    assert(t1.dom().contains(ids[i]) && t1[ids[i]] == nuevos[i]);
                    assert(t2.dom().contains(ids[i]) && t2[ids[i]] == t1[ids[i]]);
                } else {
                    assert(nuevos[i] == n);
                }
            }
            if t.dom().finite() {
                if !nombre_en_catalogo(t, n.nombre_producto@) {
                    assert(t2 == t1.insert(id, n));
                } else {
                    assert(t2 == t1);
                }
            }
        }
    }
}

/// Inserting a list of products with different names one after the other, the
/// identifiers being new, changes no row that was there; afterwards a name is
/// in the catalogue exactly when it was before or is in the list; exactly one
/// row comes in per product whose name no row had, under its identifier, and
/// no other; the names stay unique when they were; and inserting the same list
/// again changes nothing.
pub proof fn ley_insertar_catalogo(
    t: Map<u128, NewProduct>,
    nuevos: Seq<NewProduct>,
    ids: Seq<u128>,
    ids2: Seq<u128>,
)
    requires
        t.dom().finite(),
        nombres_distintos(nuevos),
        ids.len() == nuevos.len(),
        ids_nuevos(t, ids),
    ensures
        forall|k: u128|
            #![trigger tras_insertar_catalogo(t, nuevos, ids).dom().contains(k)]
            t.dom().contains(k) ==> tras_insertar_catalogo(t, nuevos, ids).dom().contains(k)
                && tras_insertar_catalogo(t, nuevos, ids)[k] == t[k],
        forall|x: Seq<char>|
            #[trigger] nombre_en_catalogo(tras_insertar_catalogo(t, nuevos, ids), x) <==> (
            nombre_en_catalogo(t, x) || nombre_en_lista(nuevos, x)),
        forall|i: int|
            0 <= i < nuevos.len() && !nombre_en_catalogo(t, #[trigger] nuevos[i].nombre_producto@)
                ==> tras_insertar_catalogo(t, nuevos, ids).dom().contains(ids[i])
                && tras_insertar_catalogo(t, nuevos, ids)[ids[i]] == nuevos[i],
        forall|k: u128|
            #[trigger] tras_insertar_catalogo(t, nuevos, ids).dom().contains(k) ==> t.dom().contains(k)
                || ids.contains(k),
        tras_insertar_catalogo(t, nuevos, ids).dom().finite(),
        tras_insertar_catalogo(t, nuevos, ids).dom().len() == t.dom().len() + ausentes(t, nuevos),
        nombres_unicos(t) ==> nombres_unicos(tras_insertar_catalogo(t, nuevos, ids)),
        tras_insertar_catalogo(tras_insertar_catalogo(t, nuevos, ids), nuevos, ids2)
            == tras_insertar_catalogo(t, nuevos, ids),
{
    lema_catalogo(t, nuevos, ids);
    let t2 = tras_insertar_catalogo(t, nuevos, ids);
    assert forall|i: int| 0 <= i < nuevos.len() implies nombre_en_catalogo(
        t2,
        #[trigger] nuevos[i].nombre_producto@,
    ) by {
        assert(nombre_en_lista(nuevos, nuevos[i].nombre_producto@));
    }
    lema_catalogo_presente(t2, nuevos, ids2);
}

/// Inserting products whose names are all in the catalogue changes nothing.
proof fn lema_catalogo_presente(t: Map<u128, NewProduct>, nuevos: Seq<NewProduct>, ids: Seq<u128>)
    requires
        forall|i: int|
            0 <= i < nuevos.len() ==> nombre_en_catalogo(t, #[trigger] nuevos[i].nombre_producto@),
    ensures
        tras_insertar_catalogo(t, nuevos, ids) == t,
    decreases nuevos.len(),
{
    if nuevos.len() > 0 {
        let resto = nuevos.drop_last();
        assert forall|i: int| 0 <= i < resto.len() implies nombre_en_catalogo(
            t,
            #[trigger] resto[i].nombre_producto@,
        ) by {
            assert(resto[i] == nuevos[i]);
        }
        lema_catalogo_presente(t, resto, ids.drop_last());
        assert(nombre_en_catalogo(t, nuevos[nuevos.len() - 1].nombre_producto@));
    }
}

/// The products of the catalogue page have different names.
pub proof fn ley_catalogo_nombres_distintos(nuevos: Seq<NewProduct>)
    requires
        nuevos.len() == catalogo().len(),
        forall|i: int| 0 <= i < nuevos.len() ==> producto_de_entrada(#[trigger] nuevos[i], catalogo()[i]),
    ensures
        nombres_distintos(nuevos),
{
    reveal_strlit("Producto1");
    reveal_strlit("Producto2");
    reveal_strlit("Producto3");
    reveal_strlit("Producto4");
    reveal_strlit("DeadPool Figura");
    let c = catalogo();
    assert forall|i: int, j: int|
        #![trigger nuevos[i], nuevos[j]]
        0 <= i < nuevos.len() && 0 <= j < nuevos.len() && i != j implies nuevos[i].nombre_producto@
        != nuevos[j].nombre_producto@ by {
        assert(producto_de_entrada(nuevos[i], c[i]));
        assert(producto_de_entrada(nuevos[j], c[j]));
        let a = c[i].0;
        let b = c[j].0;
        if a.len() == b.len() {
            assert(a[8] != b[8] || a.len() != 9);
        }
    }
}

/// What the catalogue page writes (the products `index_inicio` lists, each
/// put in with `insertar_producto`; the page writes nothing else), on any
/// catalogue and with identifiers new to it: no row that was there changes,
/// each of the page's products whose name no row had comes in under its
/// identifier, the rows grow by exactly the number of those products, names
/// stay unique when they were, and a second visit changes nothing.
pub proof fn ley_pagina_catalogo(
    t: Map<u128, NewProduct>,
    nuevos: Seq<NewProduct>,
    ids: Seq<u128>,
    ids2: Seq<u128>,
)
    requires
        t.dom().finite(),
        nuevos.len() == catalogo().len(),
        forall|i: int| 0 <= i < nuevos.len() ==> producto_de_entrada(#[trigger] nuevos[i], catalogo()[i]),
        ids.len() == nuevos.len(),
        ids_nuevos(t, ids),
    ensures
        forall|k: u128|
            #![trigger tras_insertar_catalogo(t, nuevos, ids).dom().contains(k)]
            t.dom().contains(k) ==> tras_insertar_catalogo(t, nuevos, ids).dom().contains(k)
                && tras_insertar_catalogo(t, nuevos, ids)[k] == t[k],
        forall|i: int|
            0 <= i < nuevos.len() && !nombre_en_catalogo(t, #[trigger] nuevos[i].nombre_producto@)
                ==> tras_insertar_catalogo(t, nuevos, ids).dom().contains(ids[i])
                && tras_insertar_catalogo(t, nuevos, ids)[ids[i]] == nuevos[i],
        tras_insertar_catalogo(t, nuevos, ids).dom().len() == t.dom().len() + ausentes(t, nuevos),
        nombres_unicos(t) ==> nombres_unicos(tras_insertar_catalogo(t, nuevos, ids)),
        tras_insertar_catalogo(tras_insertar_catalogo(t, nuevos, ids), nuevos, ids2)
            == tras_insertar_catalogo(t, nuevos, ids),
{
    ley_catalogo_nombres_distintos(nuevos);
    ley_insertar_catalogo(t, nuevos, ids, ids2);
}

} // verus!
