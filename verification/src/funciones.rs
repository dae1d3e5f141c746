//! The decisions of the shop's pages: what each page asks of the database, in
//! which order, and what it shows. The program around the library serves the
//! pages, runs the statements and hands each answer back.
use vstd::prelude::*;

use crate::database::{
    decrementar_cantidad_carrito, incrementar_cantidad_carrito, total_carrito, total_spec, OrdenCarrito,
};
use crate::decimal::{bigdecimal_desde_texto, bigdecimal_texto, decimal_desde_texto, texto_decimal, Decimal};
use crate::models::{ElemCarrito, ErrorBd, NewProduct, Product};
use crate::texto::{digitos, entero_a_texto, escribir_uuid, natural_a_texto, texto_entero, uuid_texto};

verus! {

/// What the cart badge shows, from the answer to "does this user have lines?".
#[derive(Clone, Copy, Debug, PartialEq, Eq, Structural)]
pub enum NumCarrito {
    /// Ask for the number of units (`carrito_numero_productos`) and show it.
    Consultar,
    /// Show `0`.
    Cero,
    /// The query failed: the badge gets no value.
    SinDato,
}

/// The badge decision shared by the catalogue page and the cart page.
pub open spec fn num_carrito_spec(existe_usuario: Result<bool, ErrorBd>) -> NumCarrito {
    match existe_usuario {
        Ok(true) => NumCarrito::Consultar,
        Ok(false) => NumCarrito::Cero,
        Err(_) => NumCarrito::SinDato,
    }
}

/// The value the badge shows, given the decision and the number that
/// `carrito_numero_productos` read (asked for only on `Consultar`); `None`
/// when the badge gets no value.
pub open spec fn valor_num_carrito(n: NumCarrito, leido: i64) -> Option<i64> {
    match n {
        NumCarrito::Consultar => Some(leido),
        NumCarrito::Cero => Some(0),
        NumCarrito::SinDato => None,
    }
}

/// What the cart badge shows, given whether the user has lines in the cart.
pub fn num_carrito(existe_usuario: Result<bool, ErrorBd>) -> (n: NumCarrito)
    ensures
        n == num_carrito_spec(existe_usuario),
{
    match existe_usuario {
        Ok(true) => NumCarrito::Consultar,
        Ok(false) => NumCarrito::Cero,
        Err(_) => NumCarrito::SinDato,
    }
}

/// A product as the catalogue page shows it, every field as text.
pub struct FilaProducto {
    pub id: String,
    pub nombre: String,
    pub descripcion: String,
    pub precio: String,
    pub imagen: String,
}

/// The products of the catalogue page, and under which name the page gets
/// them: `products` when there are some, `lista_productos` (empty) otherwise.
pub struct ListadoProductos {
    pub hay_productos: bool,
    pub filas: Vec<FilaProducto>,
}

/// The product has the description and the image that the pages show.
pub open spec fn producto_completo(p: Product) -> bool {
    p.descripcion is Some && p.imagen is Some
}

/// The row shows this product.
pub open spec fn fila_producto_de(f: FilaProducto, p: Product) -> bool {
    &&& f.id@ == uuid_texto(p.id_producto)
    &&& f.nombre@ == p.nombre_producto@
    &&& p.descripcion matches Some(d) && f.descripcion@ == d@
    &&& f.precio@ == bigdecimal_texto(p.precio@)
    &&& p.imagen matches Some(i) && f.imagen@ == i@
}

/// Copies the fields that a page shows of a product.
fn fila_de_producto(p: &Product) -> (f: FilaProducto)
    requires
        producto_completo(*p),
    ensures
        fila_producto_de(f, *p),
{
    let descripcion = match &p.descripcion {
        Some(d) => d.clone(),
        None => String::new(),
    };
    let imagen = match &p.imagen {
        Some(i) => i.clone(),
        None => String::new(),
    };
    FilaProducto {
        id: escribir_uuid(p.id_producto),
        nombre: p.nombre_producto.clone(),
        descripcion,
        precio: texto_decimal(&p.precio),
        imagen,
    }
}

/// What the catalogue page shows: its products, and what its cart badge shows.
pub struct PaginaProductos {
    pub listado: ListadoProductos,
    pub num_carrito: NumCarrito,
}

/// The listing shows these products, as `tiene_productos` answered them.
pub open spec fn listado_de(l: ListadoProductos, productos: (bool, Seq<Product>)) -> bool {
    &&& l.hay_productos == productos.0
    &&& productos.0 ==> l.filas@.len() == productos.1.len() && forall|i: int|
        0 <= i < l.filas@.len() ==> fila_producto_de(#[trigger] l.filas@[i], productos.1[i])
    &&& !productos.0 ==> l.filas@.len() == 0
}

/// The catalogue page, first step: before it reads anything, the page puts
/// the shop's products into the catalogue, these, in this order, each with
/// `insertar_producto` (which inserts it only when no product has its name).
/// Apart from these inserts the page only reads. `None` when a price does not
/// parse, which makes the page fail.
pub fn index_inicio() -> (r: Option<Vec<NewProduct>>)
    ensures
        r is Some <==> forall|i: int| 0 <= i < catalogo().len() ==> precio_valido(
            #[trigger] catalogo()[i].2,
        ),
        r matches Some(v) ==> v@.len() == catalogo().len() && forall|i: int|
            0 <= i < v@.len() ==> producto_de_entrada(#[trigger] v@[i], catalogo()[i]),
{
    add_products()
}

/// The catalogue page, once the products are in: what it shows, from what
/// `tiene_productos` answered and whether the user has lines in the cart
/// (`existe_en_carrito_user`). Every product shown must have a description
/// and an image.
pub fn index(productos: (bool, Vec<Product>), existe_usuario: Result<bool, ErrorBd>) -> (p:
    PaginaProductos)
    requires
        productos.0 ==> forall|i: int|
            0 <= i < productos.1@.len() ==> producto_completo(#[trigger] productos.1@[i]),
    ensures
        listado_de(p.listado, (productos.0, productos.1@)),
        p.num_carrito == num_carrito_spec(existe_usuario),
{
    let (hay, resultados) = productos;
    let mut filas: Vec<FilaProducto> = Vec::new();
    if hay {
        let mut i: usize = 0;
        while i < resultados.len()
            invariant
                0 <= i <= resultados@.len(),
                filas@.len() == i,
                forall|j: int| 0 <= j < resultados@.len() ==> producto_completo(#[trigger] resultados@[j]),
                forall|j: int| 0 <= j < i ==> fila_producto_de(#[trigger] filas@[j], resultados@[j]),
            decreases resultados@.len() - i,
        {
            let f = fila_de_producto(&resultados[i]);
            filas.push(f);
            i = i + 1;
        }
    }
    PaginaProductos {
        listado: ListadoProductos { hay_productos: hay, filas },
        num_carrito: num_carrito(existe_usuario),
    }
}

/// A line of the cart as the cart page shows it, every field as text.
pub struct FilaCarrito {
    pub id: String,
    pub nombre: String,
    pub descripcion: String,
    pub precio: String,
    pub imagen: String,
    pub cantidad: String,
    /// The position of the line on the page, from 0.
    pub num: String,
    /// `"disabled"` when the line holds one unit (its minus button is off), `""` otherwise.
    pub disabled: String,
}

/// The row shows this line of the cart, at position `i`.
pub open spec fn fila_carrito_de(f: FilaCarrito, linea: (ElemCarrito, Product), i: int) -> bool {
    &&& f.id@ == uuid_texto(linea.1.id_producto)
    &&& f.nombre@ == linea.1.nombre_producto@
    &&& linea.1.descripcion matches Some(d) && f.descripcion@ == d@
    &&& f.precio@ == bigdecimal_texto(linea.1.precio@)
    &&& linea.1.imagen matches Some(im) && f.imagen@ == im@
    &&& f.cantidad@ == texto_entero(linea.0.cantidad as int)
    &&& f.num@ == digitos(i as nat)
    &&& f.disabled@ == (if linea.0.cantidad == 1 {
        "disabled"@
    } else {
        ""@
    })
}

/// The rows of the cart page, one per line of the user's cart (joined with its
/// product), in order.
fn filas_carrito(lineas: &Vec<(ElemCarrito, Product)>) -> (filas: Vec<FilaCarrito>)
    requires
        forall|i: int| 0 <= i < lineas@.len() ==> producto_completo(#[trigger] lineas@[i].1),
    ensures
        filas@.len() == lineas@.len(),
        forall|i: int| 0 <= i < filas@.len() ==> fila_carrito_de(#[trigger] filas@[i], lineas@[i], i),
{
    let mut filas: Vec<FilaCarrito> = Vec::new();
    let mut i: usize = 0;
    while i < lineas.len()
        invariant
            0 <= i <= lineas@.len(),
            filas@.len() == i,
            forall|j: int| 0 <= j < lineas@.len() ==> producto_completo(#[trigger] lineas@[j].1),
            forall|j: int| 0 <= j < i ==> fila_carrito_de(#[trigger] filas@[j], lineas@[j], j),
        decreases lineas@.len() - i,
    {
        let elem = &lineas[i].0;
        let prod = &lineas[i].1;
        let f = fila_de_producto(prod);
        let disabled = if elem.cantidad == 1 {
            "disabled".to_string()
        } else {
            let vacio = String::new();
            proof {
                reveal_strlit("");
            }
            assert(vacio@ =~= ""@);
            vacio
        };
        filas.push(
            FilaCarrito {
                id: f.id,
                nombre: f.nombre,
                descripcion: f.descripcion,
                precio: f.precio,
                imagen: f.imagen,
                cantidad: entero_a_texto(elem.cantidad as i64),
                num: natural_a_texto(i as u64),
                disabled,
            },
        );
        i = i + 1;
    }
    filas
}

/// What the cart page shows: its cart badge, one row per line of the cart,
/// and the cart's total as text.
pub struct PaginaCarrito {
    pub num_carrito: NumCarrito,
    pub filas: Vec<FilaCarrito>,
    pub total: String,
}

/// The cart page, which only reads: from whether the user has lines in the
/// cart (`existe_en_carrito_user`), the user's lines joined with their
/// products (`list_carrito`), and the price and quantity of each line (what
/// `total_carrito` adds up). Every product shown must have a description and
/// an image.
pub fn carrito(
    existe_usuario: Result<bool, ErrorBd>,
    lineas: &Vec<(ElemCarrito, Product)>,
    precios: &Vec<(Decimal, i32)>,
) -> (p: PaginaCarrito)
    requires
        forall|i: int| 0 <= i < lineas@.len() ==> producto_completo(#[trigger] lineas@[i].1),
    ensures
        p.num_carrito == num_carrito_spec(existe_usuario),
        p.filas@.len() == lineas@.len(),
        forall|i: int| 0 <= i < p.filas@.len() ==> fila_carrito_de(#[trigger] p.filas@[i], lineas@[i], i),
        p.total@ == bigdecimal_texto(total_spec(precios@)),
{
    let num = num_carrito(existe_usuario);
    let filas = filas_carrito(lineas);
    let total = total_carrito(precios);
    PaginaCarrito { num_carrito: num, filas, total: texto_decimal(&total) }
}

/// The body of "refresh price": the cart's total and the euro sign.
pub fn actualizar_precio(total: &Decimal) -> (s: String)
    ensures
        s@ == bigdecimal_texto(total@) + " €"@,
{
    texto_decimal(total).concat(" €")
}

/// The body of "refresh badge": the number of units in the cart.
pub fn actualizar_num_carrito(numero: i64) -> (s: String)
    ensures
        s@ == texto_entero(numero as int),
{
    entero_a_texto(numero)
}

/// The change `add_carrito` asks for once it knows whether the product is in
/// the user's cart: one unit more if it is, a new line of one unit if it is
/// not, nothing if the query failed.
pub open spec fn orden_add_carrito(u: u128, p: u128, existe: Result<bool, ErrorBd>) -> Option<
    OrdenCarrito,
> {
    match existe {
        Ok(true) => Some(OrdenCarrito::Incrementar { id_usuario: u, id_producto: p }),
        Ok(false) => Some(
            OrdenCarrito::Insertar(
                crate::models::NuevoCarrito { id_usuario: u, id_producto: p, cantidad: 1 },
            ),
        ),
        Err(_) => None,
    }
}

/// What the page "add to cart" does: the change it asks for, and the title
/// and message of the notice it shows.
pub struct RespuestaAddCarrito {
    pub orden: Option<OrdenCarrito>,
    pub titulo_aviso: String,
    pub mensaje_aviso: String,
}

/// The page "add to cart" of the product whose identifier the path holds as
/// `id_str` (and whose value is `id_producto`): the change to make once it is
/// known whether the product is in the user's cart, and the notice.
pub fn add_carrito(
    id_str: &str,
    id_usuario: u128,
    id_producto: u128,
    existe: Result<bool, ErrorBd>,
) -> (r: RespuestaAddCarrito)
    ensures
        r.orden == orden_add_carrito(id_usuario, id_producto, existe),
        r.titulo_aviso@ == id_str@ + " añadido al carrito"@,
        r.mensaje_aviso@ == "Funciona!"@,
{
    let orden = match existe {
        Ok(true) => Some(incrementar_cantidad_carrito(id_usuario, id_producto)),
        Ok(false) => Some(crate::database::add_carrito(id_usuario, id_producto, 1)),
        Err(_) => None,
    };
    let (titulo_aviso, mensaje_aviso) = aviso_add_carrito(id_str);
    RespuestaAddCarrito { orden, titulo_aviso, mensaje_aviso }
}

/// The title and the message of the notice shown after "add to cart".
fn aviso_add_carrito(id_str: &str) -> (aviso: (String, String))
    ensures
        aviso.0@ == id_str@ + " añadido al carrito"@,
        aviso.1@ == "Funciona!"@,
{
    let titulo = id_str.to_string().concat(" añadido al carrito");
    (titulo, "Funciona!".to_string())
}

/// The change `add_producto` asks for: one unit more when the product is in
/// the user's cart, nothing otherwise.
pub open spec fn orden_add_producto(u: u128, p: u128, existe: Result<bool, ErrorBd>) -> Option<
    OrdenCarrito,
> {
    match existe {
        Ok(true) => Some(OrdenCarrito::Incrementar { id_usuario: u, id_producto: p }),
        _ => None,
    }
}

/// The page "one more": the change to make once it is known whether the
/// product is in the user's cart. The page then answers with the quantity
/// that `obtener_cantidad_carrito` reads.
pub fn add_producto(id_usuario: u128, id_producto: u128, existe: Result<bool, ErrorBd>) -> (o:
    Option<OrdenCarrito>)
    ensures
        o == orden_add_producto(id_usuario, id_producto, existe),
{
    match existe {
        Ok(true) => Some(incrementar_cantidad_carrito(id_usuario, id_producto)),
        _ => None,
    }
}

/// A quantity read from the cart that is above one, waiting for its decrement.
pub struct Pendiente {
    cantidad: i32,
}

impl Pendiente {
    #[verifier::type_invariant]
    spec fn por_encima_de_uno(self) -> bool {
        self.cantidad > 1
    }

    /// The quantity that was read.
    pub closed spec fn cantidad(self) -> i32 {
        self.cantidad
    }
}

/// The pending decrement of a quantity read from the cart.
pub closed spec fn pendiente(c: i32) -> Pendiente {
    Pendiente { cantidad: c }
}

/// A pending decrement holds the quantity it was made from.
pub broadcast proof fn lema_pendiente(c: i32)
    ensures
        #[trigger] pendiente(c).cantidad() == c,
{
}

/// The next thing the page "one less" does.
pub enum PasoQuitar {
    /// Read the quantity of the line (`obtener_cantidad_carrito`).
    ConsultarCantidad,
    /// Make this change, then answer with `quitar_producto_fin`.
    Decrementar(OrdenCarrito, Pendiente),
    /// Answer with this number.
    Responder(i32),
}

/// The first decision of "one less": read the quantity only when the product
/// is in the user's cart; otherwise answer `-1`.
pub open spec fn paso_quitar(existe: Result<bool, ErrorBd>) -> PasoQuitar {
    match existe {
        Ok(true) => PasoQuitar::ConsultarCantidad,
        _ => PasoQuitar::Responder(-1i32),
    }
}

/// The second decision of "one less": take one unit away only when the line
/// holds more than one; otherwise answer with the quantity as it is.
pub open spec fn paso_quitar_cantidad(u: u128, p: u128, cantidad: i32) -> PasoQuitar {
    if cantidad > 1 {
        PasoQuitar::Decrementar(
            OrdenCarrito::Decrementar { id_usuario: u, id_producto: p },
            pendiente(cantidad),
        )
    } else {
        PasoQuitar::Responder(cantidad)
    }
}

/// The answer of "one less" once the decrement has run: one unit less if it
/// succeeded, the quantity read otherwise.
pub open spec fn fin_quitar(pendiente: Pendiente, decrementado: bool) -> i32 {
    if decrementado {
        (pendiente.cantidad() - 1) as i32
    } else {
        pendiente.cantidad()
    }
}

/// The page "one less", first step: given whether the product is in the
/// user's cart.
pub fn quitar_producto(existe: Result<bool, ErrorBd>) -> (paso: PasoQuitar)
    ensures
        paso == paso_quitar(existe),
{
    match existe {
        Ok(true) => PasoQuitar::ConsultarCantidad,
        _ => PasoQuitar::Responder(-1),
    }
}

/// The page "one less", second step: given the quantity that
/// `obtener_cantidad_carrito` read.
pub fn quitar_producto_cantidad(id_usuario: u128, id_producto: u128, cantidad: i32) -> (paso:
    PasoQuitar)
    ensures
        paso == paso_quitar_cantidad(id_usuario, id_producto, cantidad),
{
    if cantidad > 1 {
        PasoQuitar::Decrementar(
            decrementar_cantidad_carrito(id_usuario, id_producto),
            Pendiente { cantidad },
        )
    } else {
        PasoQuitar::Responder(cantidad)
    }
}

/// The page "one less", last step: given whether the decrement succeeded.
pub fn quitar_producto_fin(pendiente: Pendiente, decrementado: bool) -> (n: i32)
    ensures
        n == fin_quitar(pendiente, decrementado),
        n >= 1,
{
    proof {
        use_type_invariant(&pendiente);
    }
    if decrementado {
        pendiente.cantidad - 1
    } else {
        pendiente.cantidad
    }
}

/// What the page "remove from cart" answers.
#[derive(Clone, Copy, Debug, PartialEq, Eq, Structural)]
pub enum RespuestaQuitar {
    /// The line was deleted: the badge and the total are to be refreshed.
    Actualizar,
    /// Nothing was deleted: `204 No Content`.
    SinContenido,
}

/// The answer of "remove from cart", given what `delete_carrito` answered.
pub fn quitar_carrito(eliminado: bool) -> (r: RespuestaQuitar)
    ensures
        r == (if eliminado {
            RespuestaQuitar::Actualizar
        } else {
            RespuestaQuitar::SinContenido
        }),
{
    if eliminado {
        RespuestaQuitar::Actualizar
    } else {
        RespuestaQuitar::SinContenido
    }
}

/// The products that the shop puts into its catalogue when the catalogue page
/// is served: name, description, price as text, image.
pub open spec fn catalogo() -> Seq<(Seq<char>, Seq<char>, Seq<char>, Seq<char>)> {
    seq![
        ("Producto1"@, "Es un buen producto"@, "12.05"@, "assets/imgs/amarillo.jpg"@),
        ("Producto2"@, "Pedazo de producto"@, "20.00"@, "assets/imgs/verde.jpg"@),
        ("Producto3"@, "Producto bastante interesante"@, "1.00"@, "assets/imgs/azul.jpg"@),
        ("Producto4"@, "Producto categoría S"@, "50.99"@, "assets/imgs/celeste.jpg"@),
        ("DeadPool Figura"@, "Figura de Deadpool"@, "14.90"@, "assets/imgs/deadpool-funko.jpg"@),
    ]
}

/// The price text parses to a decimal.
pub open spec fn precio_valido(texto: Seq<char>) -> bool {
    bigdecimal_desde_texto(texto) is Some
}

/// The new product is this entry of the catalogue, its price parsed.
pub open spec fn producto_de_entrada(
    n: NewProduct,
    e: (Seq<char>, Seq<char>, Seq<char>, Seq<char>),
) -> bool {
    &&& n.nombre_producto@ == e.0
    &&& n.descripcion@ == e.1
    &&& bigdecimal_desde_texto(e.2) == Some(n.precio@)
    &&& n.imagen@ == e.3
}

fn producto_de_catalogo(nombre: &str, desc: &str, precio: &str, img: &str) -> (r: Option<
    NewProduct,
>)
    ensures
        r is Some <==> precio_valido(precio@),
        r matches Some(n) ==> producto_de_entrada(n, (nombre@, desc@, precio@, img@)),
{
    match decimal_desde_texto(precio) {
        Some(d) => Some(
            NewProduct {
                nombre_producto: nombre.to_string(),
                descripcion: desc.to_string(),
                precio: d,
                imagen: img.to_string(),
            },
        ),
        None => None,
    }
}

/// The products to insert into the catalogue, in order, with their prices
/// parsed by `BigDecimal`; `None` when a price does not parse.
pub fn add_products() -> (r: Option<Vec<NewProduct>>)
    ensures
        r is Some <==> forall|i: int| 0 <= i < catalogo().len() ==> precio_valido(
            #[trigger] catalogo()[i].2,
        ),
        r matches Some(v) ==> v@.len() == catalogo().len() && forall|i: int|
            0 <= i < v@.len() ==> producto_de_entrada(#[trigger] v@[i], catalogo()[i]),
{
    let p1 = producto_de_catalogo(
        "Producto1",
        "Es un buen producto",
        "12.05",
        "assets/imgs/amarillo.jpg",
    );
    let p2 = producto_de_catalogo(
        "Producto2",
        "Pedazo de producto",
        "20.00",
        "assets/imgs/verde.jpg",
    );
    let p3 = producto_de_catalogo(
        "Producto3",
        "Producto bastante interesante",
        "1.00",
        "assets/imgs/azul.jpg",
    );
    let p4 = producto_de_catalogo(
        "Producto4",
        "Producto categoría S",
        "50.99",
        "assets/imgs/celeste.jpg",
    );
    let p5 = producto_de_catalogo(
        "DeadPool Figura",
        "Figura de Deadpool",
        "14.90",
        "assets/imgs/deadpool-funko.jpg",
    );
    proof {
        let c = catalogo();
        assert(c[0].2 == "12.05"@);
        assert(c[1].2 == "20.00"@);
        assert(c[2].2 == "1.00"@);
        assert(c[3].2 == "50.99"@);
        assert(c[4].2 == "14.90"@);
    }
    match (p1, p2, p3, p4, p5) {
        (Some(a), Some(b), Some(c), Some(d), Some(e)) => {
            let mut v: Vec<NewProduct> = Vec::new();
            v.push(a);
            v.push(b);
            v.push(c);
            v.push(d);
            v.push(e);
            proof {
                assert forall|i: int| 0 <= i < v@.len() implies producto_de_entrada(
                    #[trigger] v@[i],
                    catalogo()[i],
                ) by {
                    if i == 0 {
                    } else if i == 1 {
                    } else if i == 2 {
                    } else if i == 3 {
                    } else {
                    }
                }
            }
            Some(v)
        },
        _ => {
            proof {
                let c = catalogo();
                if precio_valido(c[0].2) && precio_valido(c[1].2) && precio_valido(c[2].2)
                    && precio_valido(c[3].2) && precio_valido(c[4].2) {
                    assert(false);
                }
            }
            None
        },
    }
}

} // verus!
