//! What the shop decides around each statement on its database: which row or
//! change it asks for, and what it makes of the answer. The statements
//! themselves are run by the program around the library.
use vstd::prelude::*;

use crate::decimal::{
    bigdecimal_texto, lema_potencia_suma, multiplicar, potencia_diez, producto_spec, suma_spec,
    sumar, texto_decimal, Decimal,
};
use crate::models::{ErrorBd, NewProduct, NuevoCarrito, Product};
use crate::texto::{digitos, natural_a_texto};

verus! {

/// A change to the table `carrito`.
#[derive(Clone, Copy, Debug, PartialEq, Eq, Structural)]
pub enum OrdenCarrito {
    /// Insert a new line.
    Insertar(NuevoCarrito),
    /// `cantidad = cantidad + 1` on the lines of this user and product.
    Incrementar { id_usuario: u128, id_producto: u128 },
    /// `cantidad = cantidad - 1` on the lines of this user and product.
    Decrementar { id_usuario: u128, id_producto: u128 },
    /// Delete the lines of this user and product.
    Eliminar { id_usuario: u128, id_producto: u128 },
}

/// What to do with a new product once the table has been searched for its name.
pub enum PasoInsercion {
    /// Do not insert: the answer is `false`.
    Rechazar,
    /// Insert this row; the answer is whether the insert succeeds.
    Insertar(NewProduct),
}

/// The answer to a write on the database: `true` when it succeeded.
pub fn escritura_exitosa(res: Result<usize, ErrorBd>) -> (b: bool)
    ensures
        b == (res is Ok),
{
    match res {
        Ok(_) => true,
        Err(_) => false,
    }
}

/// A product is inserted exactly when the search for its name found no row
/// and did not fail.
pub open spec fn se_inserta(existente: Result<bool, ErrorBd>) -> bool {
    existente == Ok::<bool, ErrorBd>(false)
}

/// A product is inserted only when the search for its name found no row and did
/// not fail; the row carries the given name, description, price and image.
pub fn insertar_producto(
    nombre_prod: &str,
    desc: &str,
    prec: &Decimal,
    img: &str,
    existente: Result<bool, ErrorBd>,
) -> (p: PasoInsercion)
    ensures
        se_inserta(existente) ==> (p matches PasoInsercion::Insertar(n) && {
            &&& n.nombre_producto@ == nombre_prod@
            &&& n.descripcion@ == desc@
            &&& n.precio@ == prec@
            &&& n.imagen@ == img@
        }),
        !se_inserta(existente) ==> p is Rechazar,
{
    match existente {
        Ok(false) => PasoInsercion::Insertar(
            NewProduct {
                nombre_producto: nombre_prod.to_string(),
                descripcion: desc.to_string(),
                precio: prec.copiar(),
                imagen: img.to_string(),
            },
        ),
        _ => PasoInsercion::Rechazar,
    }
}

/// The insert of a line of `cant` units of a product into a user's cart.
pub open spec fn orden_insertar(id_us: u128, id_prod: u128, cant: i32) -> OrdenCarrito {
    OrdenCarrito::Insertar(NuevoCarrito { id_usuario: id_us, id_producto: id_prod, cantidad: cant })
}

/// The line that puts `cant` units of a product into a user's cart.
pub fn add_carrito(id_us: u128, id_prod: u128, cant: i32) -> (o: OrdenCarrito)
    ensures
        o == orden_insertar(id_us, id_prod, cant),
{
    OrdenCarrito::Insertar(NuevoCarrito { id_usuario: id_us, id_producto: id_prod, cantidad: cant })
}

/// One unit more of a product in a user's cart.
pub fn incrementar_cantidad_carrito(id_u: u128, id_p: u128) -> (o: OrdenCarrito)
    ensures
        o == (OrdenCarrito::Incrementar { id_usuario: id_u, id_producto: id_p }),
{
    OrdenCarrito::Incrementar { id_usuario: id_u, id_producto: id_p }
}

/// One unit less of a product in a user's cart.
pub fn decrementar_cantidad_carrito(id_u: u128, id_p: u128) -> (o: OrdenCarrito)
    ensures
        o == (OrdenCarrito::Decrementar { id_usuario: id_u, id_producto: id_p }),
{
    OrdenCarrito::Decrementar { id_usuario: id_u, id_producto: id_p }
}

/// The delete that `delete_carrito` asks for, given the quantity it read.
pub open spec fn orden_delete(id_u: u128, id_p: u128, cantidad: i32) -> Option<OrdenCarrito> {
    if cantidad < 1 {
        None
    } else {
        Some(OrdenCarrito::Eliminar { id_usuario: id_u, id_producto: id_p })
    }
}

/// A product leaves the cart only when the cart holds at least one unit of it
/// (`cantidad` is what `obtener_cantidad_carrito` answered); `None` means that
/// nothing is deleted and the answer is `false`.
pub fn delete_carrito(id_u: u128, id_p: u128, cantidad: i32) -> (o: Option<OrdenCarrito>)
    ensures
        o == orden_delete(id_u, id_p, cantidad),
{
    if cantidad < 1 {
        None
    } else {
        Some(OrdenCarrito::Eliminar { id_usuario: id_u, id_producto: id_p })
    }
}

/// The number read from the answer to `SUM(cantidad)`: `0` when there is none.
pub open spec fn numero_respondido(res: Result<Option<i64>, ErrorBd>) -> i64 {
    match res {
        Ok(Some(c)) => c,
        _ => 0,
    }
}

/// The number of units in a user's cart from the answer to `SUM(cantidad)`:
/// the sum when there is one, `0` when there are no lines or the query failed.
pub fn carrito_numero_productos(res: Result<Option<i64>, ErrorBd>) -> (n: i64)
    ensures
        n == numero_respondido(res),
{
    match res {
        Ok(Some(c)) => c,
        Ok(None) => 0,
        Err(_) => 0,
    }
}

/// The quantity read from the answer to the query of a line: `0` on failure.
pub open spec fn cantidad_respondida(res: Result<i32, ErrorBd>) -> i32 {
    match res {
        Ok(c) => c,
        Err(_) => 0,
    }
}

/// The units of one product in a user's cart from the answer to the query of
/// its line: `0` when there is no line or the query failed.
pub fn obtener_cantidad_carrito(res: Result<i32, ErrorBd>) -> (n: i32)
    ensures
        n == cantidad_respondida(res),
{
    match res {
        Ok(c) => c,
        Err(_) => 0,
    }
}

/// Whether the catalogue has products, with the products themselves.
pub fn tiene_productos(resultados: Vec<Product>) -> (r: (bool, Vec<Product>))
    ensures
        r.0 == (resultados@.len() > 0),
        r.1@ == resultados@,
{
    if resultados.len() > 0 {
        (true, resultados)
    } else {
        (false, resultados)
    }
}

/// The lines the catalogue listing writes for one product: name,
/// description, price and image, each followed by a separator line.
pub open spec fn lineas_de_producto(p: Product) -> Seq<Seq<char>> {
    seq![
        p.nombre_producto@,
        "----------\n"@,
        p.descripcion->0@,
        "----------\n"@,
        bigdecimal_texto(p.precio@),
        "----------\n"@,
        p.imagen->0@,
        "----------\n"@,
    ]
}

/// The lines the catalogue listing writes for these products, in order.
pub open spec fn lineas_de_productos(ps: Seq<Product>) -> Seq<Seq<char>>
    decreases ps.len(),
{
    if ps.len() == 0 {
        Seq::empty()
    } else {
        lineas_de_productos(ps.drop_last()) + lineas_de_producto(ps.last())
    }
}

/// The texts of a list of strings.
pub open spec fn textos(v: Seq<String>) -> Seq<Seq<char>> {
    v.map_values(|s: String| s@)
}

/// The first line of the catalogue listing.
pub open spec fn cabecera_listado(n: nat) -> Seq<char> {
    "Displaying "@ + digitos(n) + " products"@
}

/// The lines of the catalogue listing: how many products there are, then
/// the lines of each product. Every product must have a description and an
/// image.
pub fn list_productos(productos: &Vec<Product>) -> (lineas: Vec<String>)
    requires
        forall|i: int|
            0 <= i < productos@.len() ==> (#[trigger] productos@[i]).descripcion is Some
                && productos@[i].imagen is Some,
    ensures
        textos(lineas@) == seq![cabecera_listado(productos@.len())] + lineas_de_productos(
            productos@,
        ),
{
    let mut cabecera = "Displaying ".to_string();
    let n = natural_a_texto(productos.len() as u64);
    cabecera.append(n.as_str());
    cabecera.append(" products");
    let mut lineas: Vec<String> = Vec::new();
    lineas.push(cabecera);
    assert(textos(lineas@) =~= seq![cabecera_listado(productos@.len())]);
    let mut i: usize = 0;
    while i < productos.len()
        invariant
            0 <= i <= productos@.len(),
            forall|j: int|
                0 <= j < productos@.len() ==> (#[trigger] productos@[j]).descripcion is Some
                    && productos@[j].imagen is Some,
            textos(lineas@) == seq![cabecera_listado(productos@.len())] + lineas_de_productos(
                productos@.take(i as int),
            ),
        decreases productos@.len() - i,
    {
        let p = &productos[i];
        let ghost antes = textos(lineas@);
        let descripcion = match &p.descripcion {
            Some(d) => d.clone(),
            None => String::new(),
        };
        let imagen = match &p.imagen {
            Some(im) => im.clone(),
            None => String::new(),
        };
        lineas.push(p.nombre_producto.clone());
        lineas.push("----------\n".to_string());
        lineas.push(descripcion);
        lineas.push("----------\n".to_string());
        lineas.push(texto_decimal(&p.precio));
        lineas.push("----------\n".to_string());
        lineas.push(imagen);
        lineas.push("----------\n".to_string());
        proof {
            assert(productos@.take(i as int + 1).drop_last() =~= productos@.take(i as int));
            assert(productos@.take(i as int + 1).last() == productos@[i as int]);
            assert(textos(lineas@) =~= antes + lineas_de_producto(productos@[i as int]));
        }
        i = i + 1;
    }
    proof {
        assert(productos@.take(productos@.len() as int) =~= productos@);
    }
    lineas
}

/// The total of a cart as `BigDecimal` arithmetic forms it: starting from `0`
/// (scale 0), each line adds `precio * cantidad`.
pub open spec fn total_spec(filas: Seq<(Decimal, i32)>) -> (int, int)
    decreases filas.len(),
{
    if filas.len() == 0 {
        (0, 0)
    } else {
        suma_spec(
            total_spec(filas.drop_last()),
            producto_spec(filas.last().0@, filas.last().1 as int),
        )
    }
}

/// The total price of a cart, given the price and the quantity of each line.
pub fn total_carrito(filas: &Vec<(Decimal, i32)>) -> (t: Decimal)
    ensures
        t@ == total_spec(filas@),
{
    let mut total = Decimal::nuevo(0, 0);
    let mut i: usize = 0;
    while i < filas.len()
        invariant
            0 <= i <= filas.len(),
            total_spec(filas@.take(i as int)) == total@,
        decreases filas.len() - i,
    {
        let linea = multiplicar(&filas[i].0, filas[i].1);
        total = sumar(&total, &linea);
        proof {
            assert(filas@.take(i as int + 1).drop_last() =~= filas@.take(i as int));
            assert(filas@.take(i as int + 1).last() == filas@[i as int]);
        }
        i = i + 1;
    }
    proof {
        assert(filas@.take(filas@.len() as int) =~= filas@);
    }
    total
}

/// The scale of a cart's total: the largest scale among its prices, and 0 for
/// an empty cart.
pub open spec fn escala_maxima(filas: Seq<(Decimal, i32)>) -> int
    decreases filas.len(),
{
    if filas.len() == 0 {
        0
    } else {
        let s = escala_maxima(filas.drop_last());
        if filas.last().0@.1 > s {
            filas.last().0@.1
        } else {
            s
        }
    }
}

/// `Σ precio · cantidad` over the lines, with every price written at scale `k`.
pub open spec fn suma_alineada(filas: Seq<(Decimal, i32)>, k: int) -> int
    decreases filas.len(),
{
    if filas.len() == 0 {
        0
    } else {
        suma_alineada(filas.drop_last(), k) + (filas.last().0@.0 * filas.last().1)
            * potencia_diez((k - filas.last().0@.1) as nat)
    }
}

proof fn lema_escala_maxima_acota(filas: Seq<(Decimal, i32)>, i: int)
    requires
        0 <= i < filas.len(),
    ensures
        filas[i].0@.1 <= escala_maxima(filas),
        0 <= escala_maxima(filas),
    decreases filas.len(),
{
    let resto = filas.drop_last();
    if filas.len() > 1 {
        if i < filas.len() - 1 {
            lema_escala_maxima_acota(resto, i);
            assert(resto[i] == filas[i]);
        } else {
            lema_escala_maxima_acota(resto, 0);
        }
    } else {
        assert(escala_maxima(resto) == 0);
    }
}

proof fn lema_escala_maxima_no_negativa(filas: Seq<(Decimal, i32)>)
    ensures
        0 <= escala_maxima(filas),
{
    if filas.len() > 0 {
        lema_escala_maxima_acota(filas, 0);
    }
}

/// Writing every price `d` places further right multiplies the sum by `10^d`.
proof fn lema_suma_alineada_escala(filas: Seq<(Decimal, i32)>, k: int, d: nat)
    requires
        forall|i: int| 0 <= i < filas.len() ==> filas[i].0@.1 <= k,
    ensures
        suma_alineada(filas, k) * potencia_diez(d) == suma_alineada(filas, k + d),
    decreases filas.len(),
{
    if filas.len() > 0 {
        let resto = filas.drop_last();
        assert forall|i: int| 0 <= i < resto.len() implies resto[i].0@.1 <= k by {
            assert(resto[i] == filas[i]);
        }
        lema_suma_alineada_escala(resto, k, d);
        let e = (k - filas.last().0@.1) as nat;
        lema_potencia_suma(e, d);
        assert((k + d - filas.last().0@.1) as nat == e + d);
        let t = filas.last().0@.0 * filas.last().1;
        let a = suma_alineada(resto, k);
        let pe = potencia_diez(e);
        let pd = potencia_diez(d);
        assert((a + t * pe) * pd == a * pd + t * (pe * pd)) by (nonlinear_arith);
    }
}

/// The total of a cart is exactly the sum of price times quantity over its
/// lines: it stands at the largest scale among the prices (0 for an empty
/// cart), and its digits are that sum with every price written at that scale.
pub proof fn ley_total_es_suma_de_lineas(filas: Seq<(Decimal, i32)>)
    ensures
        total_spec(filas).1 == escala_maxima(filas),
        total_spec(filas).0 == suma_alineada(filas, escala_maxima(filas)),
    decreases filas.len(),
{
    if filas.len() > 0 {
        let resto = filas.drop_last();
        ley_total_es_suma_de_lineas(resto);
        lema_escala_maxima_no_negativa(resto);
        let s = escala_maxima(resto);
        let s2 = escala_maxima(filas);
        assert forall|i: int| 0 <= i < resto.len() implies resto[i].0@.1 <= s by {
            lema_escala_maxima_acota(resto, i);
        }
        lema_suma_alineada_escala(resto, s, (s2 - s) as nat);
        assert(s + (s2 - s) as nat == s2);
    }
}

/// An empty cart costs `0`, at scale 0.
pub proof fn ley_total_vacio()
    ensures
        total_spec(Seq::<(Decimal, i32)>::empty()) == (0int, 0int),
{
}

} // verus!
