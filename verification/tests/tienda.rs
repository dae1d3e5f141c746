use tienda::database::{
    add_carrito, carrito_numero_productos, list_productos, decrementar_cantidad_carrito, delete_carrito,
    escritura_exitosa, incrementar_cantidad_carrito, insertar_producto, obtener_cantidad_carrito,
    tiene_productos, total_carrito, OrdenCarrito, PasoInsercion,
};
use tienda::decimal::{sumar, Decimal};
use tienda::funciones::{
    add_products, carrito, index, index_inicio, num_carrito, quitar_carrito, quitar_producto,
    quitar_producto_cantidad, quitar_producto_fin, NumCarrito, PasoQuitar, RespuestaQuitar,
};
use tienda::funciones::{actualizar_num_carrito, actualizar_precio};
use tienda::ids::{id_base, id_de_ruta};
use tienda::decimal::texto_decimal;
use tienda::texto::{entero_a_texto, natural_a_texto};
use tienda::models::{ElemCarrito, ErrorBd, NuevoCarrito, Product};

fn dec(digitos: i128, escala: i64) -> Decimal {
    Decimal::nuevo(digitos, escala)
}

/// The integer of a decimal's digits, written out, and its scale.
fn partes(d: &Decimal) -> (String, i64) {
    let (negativo, cifras, escala) = d.partes();
    let mut texto: String = cifras.iter().rev().map(|c| char::from(b'0' + *c)).collect();
    let sin_ceros = texto.trim_start_matches('0').to_string();
    texto = if sin_ceros.is_empty() { "0".to_string() } else { sin_ceros };
    if negativo && texto != "0" {
        texto = format!("-{}", texto);
    }
    (texto, escala)
}

fn es(d: &Decimal, digitos: &str, escala: i64) -> bool {
    partes(d) == (digitos.to_string(), escala)
}

fn producto(id: u128, nombre: &str, precio: Decimal) -> Product {
    Product {
        id_producto: id,
        nombre_producto: nombre.to_string(),
        descripcion: Some(format!("desc {}", nombre)),
        precio,
        imagen: Some(format!("img/{}.jpg", nombre)),
    }
}

#[test]
fn total_de_carrito_vacio_es_cero() {
    assert!(es(&total_carrito(&vec![]), "0", 0));
}

#[test]
fn total_suma_precio_por_cantidad() {
    // 12.05 x 2 + 1.00 x 3 = 27.10
    let filas = vec![(dec(1205, 2), 2), (dec(100, 2), 3)];
    assert!(es(&total_carrito(&filas), "2710", 2));
}

#[test]
fn total_con_escalas_distintas_toma_la_mayor() {
    // 1.5 x 1 + 0.25 x 2 = 2.00
    let filas = vec![(dec(15, 1), 1), (dec(25, 2), 2)];
    assert!(es(&total_carrito(&filas), "200", 2));
}

#[test]
fn total_con_cantidad_negativa() {
    // 20 x -1 + 5 x 1 = -15
    let filas = vec![(dec(20, 0), -1), (dec(5, 0), 1)];
    assert!(es(&total_carrito(&filas), "-15", 0));
}

#[test]
fn total_sin_limite_de_cifras() {
    let filas = vec![(dec(i128::MAX, 0), 2)];
    assert!(es(&total_carrito(&filas), "340282366920938463463374607431768211454", 0));
    let filas = vec![(dec(i128::MAX, 0), 1), (dec(1, 0), 1)];
    assert!(es(&total_carrito(&filas), "170141183460469231731687303715884105728", 0));
    let filas = vec![(dec(i128::MIN, 2), i32::MIN), (dec(1, 0), -1)];
    assert!(es(&total_carrito(&filas), "365375409332725729550921208179070754913983135644", 2));
    assert_eq!(
        texto_decimal(&total_carrito(&vec![(dec(i128::MAX, 0), 2)])),
        "340282366920938463463374607431768211454"
    );
}

#[test]
fn sumar_alinea_a_la_escala_mayor() {
    assert!(es(&sumar(&dec(3, 0), &dec(25, 2)), "325", 2));
    assert!(es(&sumar(&dec(25, 2), &dec(3, 0)), "325", 2));
    assert!(es(&sumar(&dec(-7, 1), &dec(7, 1)), "0", 1));
    assert!(es(&sumar(&dec(-7, 1), &dec(2, 0)), "13", 1));
    assert!(es(&sumar(&dec(7, 1), &dec(-2, 0)), "-13", 1));
}

#[test]
fn sumar_cero_toma_la_escala_mayor() {
    assert!(es(&sumar(&dec(0, 0), &dec(5, 100)), "5", 100));
    assert!(es(&sumar(&dec(5, 0), &dec(0, 3)), "5000", 3));
}

#[test]
fn sumar_con_escalas_muy_lejanas_no_cabe() {
    assert!(es(&sumar(&dec(1, 0), &dec(1, 50)), &format!("1{}1", "0".repeat(49)), 50));
    assert!(es(&sumar(&dec(1, 0), &dec(1, 38)), "100000000000000000000000000000000000001", 38));
}

#[test]
fn catalogo_inicial() {
    let v = add_products().expect("the catalogue prices parse");
    assert_eq!(v.len(), 5);
    let esperado = [
        ("Producto1", "Es un buen producto", dec(1205, 2), "assets/imgs/amarillo.jpg"),
        ("Producto2", "Pedazo de producto", dec(2000, 2), "assets/imgs/verde.jpg"),
        ("Producto3", "Producto bastante interesante", dec(100, 2), "assets/imgs/azul.jpg"),
        ("Producto4", "Producto categoría S", dec(5099, 2), "assets/imgs/celeste.jpg"),
        ("DeadPool Figura", "Figura de Deadpool", dec(1490, 2), "assets/imgs/deadpool-funko.jpg"),
    ];
    for (p, e) in v.iter().zip(esperado.iter()) {
        assert_eq!(p.nombre_producto, e.0);
        assert_eq!(p.descripcion, e.1);
        assert!(es(&p.precio, &partes(&e.2).0, e.2.escala()));
        assert_eq!(p.imagen, e.3);
    }
}

#[test]
fn usuario_base() {
    assert_eq!(id_base(), Some(0x95022733_f013_301a_0ada_abc18f151006u128));
}

#[test]
fn id_de_ruta_valido_e_invalido() {
    assert_eq!(
        id_de_ruta("95023733-f013-301a-0ada-abc18f151006"),
        Some(0x95023733_f013_301a_0ada_abc18f151006u128)
    );
    assert_eq!(id_de_ruta("no-es-un-uuid"), None);
    assert_eq!(id_de_ruta(""), None);
}

#[test]
fn insertar_producto_solo_si_no_existe() {
    let precio = dec(999, 2);
    match insertar_producto("Taza", "Una taza", &precio, "taza.jpg", Ok(false)) {
        PasoInsercion::Insertar(n) => {
            assert_eq!(n.nombre_producto, "Taza");
            assert_eq!(n.descripcion, "Una taza");
            assert!(es(&n.precio, "999", 2));
            assert_eq!(n.imagen, "taza.jpg");
        }
        PasoInsercion::Rechazar => panic!("the product should be inserted"),
    }
    assert!(matches!(
        insertar_producto("Taza", "Una taza", &precio, "taza.jpg", Ok(true)),
        PasoInsercion::Rechazar
    ));
    assert!(matches!(
        insertar_producto("Taza", "Una taza", &precio, "taza.jpg", Err(ErrorBd::Fallo)),
        PasoInsercion::Rechazar
    ));
}

#[test]
fn escrituras() {
    assert!(escritura_exitosa(Ok(1)));
    assert!(escritura_exitosa(Ok(0)));
    assert!(!escritura_exitosa(Err(ErrorBd::Fallo)));
    assert_eq!(
        add_carrito(1, 2, 3),
        OrdenCarrito::Insertar(NuevoCarrito { id_usuario: 1, id_producto: 2, cantidad: 3 })
    );
    assert_eq!(
        incrementar_cantidad_carrito(1, 2),
        OrdenCarrito::Incrementar { id_usuario: 1, id_producto: 2 }
    );
    assert_eq!(
        decrementar_cantidad_carrito(1, 2),
        OrdenCarrito::Decrementar { id_usuario: 1, id_producto: 2 }
    );
}

#[test]
fn delete_carrito_necesita_al_menos_una_unidad() {
    assert_eq!(delete_carrito(1, 2, 0), None);
    assert_eq!(delete_carrito(1, 2, -3), None);
    assert_eq!(delete_carrito(1, 2, 1), Some(OrdenCarrito::Eliminar { id_usuario: 1, id_producto: 2 }));
}

#[test]
fn lecturas_del_carrito() {
    assert_eq!(carrito_numero_productos(Ok(Some(7))), 7);
    assert_eq!(carrito_numero_productos(Ok(None)), 0);
    assert_eq!(carrito_numero_productos(Err(ErrorBd::Fallo)), 0);
    assert_eq!(obtener_cantidad_carrito(Ok(4)), 4);
    assert_eq!(obtener_cantidad_carrito(Err(ErrorBd::NoEncontrado)), 0);
}

#[test]
fn tiene_productos_segun_la_lista() {
    let (hay, v) = tiene_productos(vec![]);
    assert!(!hay);
    assert!(v.is_empty());
    let (hay, v) = tiene_productos(vec![producto(1, "a", dec(1, 0))]);
    assert!(hay);
    assert_eq!(v.len(), 1);
    assert_eq!(v[0].id_producto, 1);
}

#[test]
fn badge_del_carrito() {
    assert_eq!(num_carrito(Ok(true)), NumCarrito::Consultar);
    assert_eq!(num_carrito(Ok(false)), NumCarrito::Cero);
    assert_eq!(num_carrito(Err(ErrorBd::Fallo)), NumCarrito::SinDato);
}

#[test]
fn pagina_de_catalogo() {
    let pagina = index((true, vec![producto(7, "a", dec(1205, 2)), producto(8, "b", dec(1, 0))]), Ok(true));
    assert_eq!(pagina.num_carrito, NumCarrito::Consultar);
    let l = pagina.listado;
    assert!(l.hay_productos);
    assert_eq!(l.filas.len(), 2);
    assert_eq!(l.filas[0].id, "00000000-0000-0000-0000-000000000007");
    assert_eq!(l.filas[0].nombre, "a");
    assert_eq!(l.filas[0].descripcion, "desc a");
    assert_eq!(l.filas[0].precio, "12.05");
    assert_eq!(l.filas[0].imagen, "img/a.jpg");
    assert_eq!(l.filas[1].id, "00000000-0000-0000-0000-000000000008");
    assert_eq!(l.filas[1].precio, "1");
    let pagina = index((false, vec![]), Ok(false));
    assert_eq!(pagina.num_carrito, NumCarrito::Cero);
    assert!(!pagina.listado.hay_productos);
    assert!(pagina.listado.filas.is_empty());
    let pagina = index((false, vec![]), Err(ErrorBd::Fallo));
    assert_eq!(pagina.num_carrito, NumCarrito::SinDato);
}

#[test]
fn pagina_de_catalogo_inserta_el_catalogo() {
    let v = index_inicio().expect("the catalogue prices parse");
    let w = add_products().expect("the catalogue prices parse");
    assert_eq!(v.len(), 5);
    for (a, b) in v.iter().zip(w.iter()) {
        assert_eq!(a.nombre_producto, b.nombre_producto);
        assert_eq!(a.descripcion, b.descripcion);
        assert_eq!(a.imagen, b.imagen);
        assert_eq!(texto_decimal(&a.precio), texto_decimal(&b.precio));
    }
    assert_eq!(v[4].nombre_producto, "DeadPool Figura");
}

#[test]
fn pagina_del_carrito() {
    let lineas = vec![
        (
            ElemCarrito { clave: 1, id_usuario: 9, id_producto: 7, cantidad: 1 },
            producto(7, "a", dec(1205, 2)),
        ),
        (
            ElemCarrito { clave: 2, id_usuario: 9, id_producto: 8, cantidad: 3 },
            producto(8, "b", dec(2000, 2)),
        ),
    ];
    let precios = vec![(dec(1205, 2), 1), (dec(2000, 2), 3)];
    let pagina = carrito(Ok(true), &lineas, &precios);
    assert_eq!(pagina.num_carrito, NumCarrito::Consultar);
    assert_eq!(pagina.total, "72.05");
    let filas = pagina.filas;
    assert_eq!(filas.len(), 2);
    assert_eq!(filas[0].num, "0");
    assert_eq!(filas[0].cantidad, "1");
    assert_eq!(filas[0].disabled, "disabled");
    assert_eq!(filas[0].nombre, "a");
    assert_eq!(filas[0].descripcion, "desc a");
    assert_eq!(filas[0].imagen, "img/a.jpg");
    assert_eq!(filas[1].num, "1");
    assert_eq!(filas[1].cantidad, "3");
    assert_eq!(filas[1].disabled, "");
    assert_eq!(filas[1].precio, "20.00");
    assert_eq!(filas[1].id, "00000000-0000-0000-0000-000000000008");
    let vacia = carrito(Ok(false), &vec![], &vec![]);
    assert_eq!(vacia.num_carrito, NumCarrito::Cero);
    assert_eq!(vacia.total, "0");
    assert!(vacia.filas.is_empty());
    assert_eq!(carrito(Err(ErrorBd::Fallo), &vec![], &vec![]).num_carrito, NumCarrito::SinDato);
}

#[test]
fn pagina_add_carrito() {
    assert_eq!(
        tienda::funciones::add_carrito("x", 9, 7, Ok(true)).orden,
        Some(OrdenCarrito::Incrementar { id_usuario: 9, id_producto: 7 })
    );
    assert_eq!(
        tienda::funciones::add_carrito("x", 9, 7, Ok(false)).orden,
        Some(OrdenCarrito::Insertar(NuevoCarrito { id_usuario: 9, id_producto: 7, cantidad: 1 }))
    );
    let r = tienda::funciones::add_carrito("abc", 9, 7, Err(ErrorBd::Fallo));
    assert_eq!(r.orden, None);
    assert_eq!(r.titulo_aviso, "abc añadido al carrito");
    assert_eq!(r.mensaje_aviso, "Funciona!");
}

#[test]
fn pagina_add_producto() {
    assert_eq!(
        tienda::funciones::add_producto(9, 7, Ok(true)),
        Some(OrdenCarrito::Incrementar { id_usuario: 9, id_producto: 7 })
    );
    assert_eq!(tienda::funciones::add_producto(9, 7, Ok(false)), None);
    assert_eq!(tienda::funciones::add_producto(9, 7, Err(ErrorBd::Fallo)), None);
}

#[test]
fn pagina_quitar_producto() {
    assert!(matches!(quitar_producto(Ok(true)), PasoQuitar::ConsultarCantidad));
    assert!(matches!(quitar_producto(Ok(false)), PasoQuitar::Responder(-1)));
    assert!(matches!(quitar_producto(Err(ErrorBd::Fallo)), PasoQuitar::Responder(-1)));
    assert!(matches!(quitar_producto_cantidad(9, 7, 1), PasoQuitar::Responder(1)));
    assert!(matches!(quitar_producto_cantidad(9, 7, 0), PasoQuitar::Responder(0)));
    match quitar_producto_cantidad(9, 7, 4) {
        PasoQuitar::Decrementar(orden, pendiente) => {
            assert_eq!(orden, OrdenCarrito::Decrementar { id_usuario: 9, id_producto: 7 });
            assert_eq!(quitar_producto_fin(pendiente, true), 3);
        }
        _ => panic!("a line of 4 units loses one"),
    }
    match quitar_producto_cantidad(9, 7, 2) {
        PasoQuitar::Decrementar(_, pendiente) => assert_eq!(quitar_producto_fin(pendiente, false), 2),
        _ => panic!("a line of 2 units loses one"),
    }
}

#[test]
fn pagina_quitar_carrito() {
    assert_eq!(quitar_carrito(true), RespuestaQuitar::Actualizar);
    assert_eq!(quitar_carrito(false), RespuestaQuitar::SinContenido);
}

#[test]
fn enteros_como_texto() {
    assert_eq!(entero_a_texto(0), "0");
    assert_eq!(entero_a_texto(7), "7");
    assert_eq!(entero_a_texto(-15), "-15");
    assert_eq!(entero_a_texto(1234567890), "1234567890");
    assert_eq!(entero_a_texto(i64::MIN), i64::MIN.to_string());
    assert_eq!(entero_a_texto(i64::MAX), i64::MAX.to_string());
    assert_eq!(natural_a_texto(0), "0");
    assert_eq!(natural_a_texto(u64::MAX), u64::MAX.to_string());
    assert_eq!(natural_a_texto(100), "100");
}

#[test]
fn precios_como_texto() {
    assert_eq!(texto_decimal(&dec(1205, 2)), "12.05");
    assert_eq!(texto_decimal(&dec(2710, 2)), "27.10");
    assert_eq!(texto_decimal(&dec(0, 0)), "0");
    assert_eq!(texto_decimal(&dec(-15, 0)), "-15");
    assert_eq!(actualizar_precio(&dec(2710, 2)), "27.10 €");
    assert_eq!(actualizar_num_carrito(12), "12");
    assert_eq!(actualizar_num_carrito(0), "0");
}

#[test]
fn listado_de_productos() {
    let lineas = list_productos(&vec![producto(7, "a", dec(1205, 2)), producto(8, "b", dec(3, 0))]);
    let esperado = vec![
        "Displaying 2 products",
        "a",
        "----------\n",
        "desc a",
        "----------\n",
        "12.05",
        "----------\n",
        "img/a.jpg",
        "----------\n",
        "b",
        "----------\n",
        "desc b",
        "----------\n",
        "3",
        "----------\n",
        "img/b.jpg",
        "----------\n",
    ];
    assert_eq!(lineas, esperado);
    assert_eq!(list_productos(&vec![]), vec!["Displaying 0 products"]);
}

#[test]
fn uuid_como_texto() {
    let id = id_de_ruta("95022733-f013-301a-0ada-abc18f151006").unwrap();
    let l = index((true, vec![producto(id, "a", dec(1, 0))]), Ok(false)).listado;
    assert_eq!(l.filas[0].id, "95022733-f013-301a-0ada-abc18f151006");
    assert_eq!(id_base(), Some(0x95022733_f013_301a_0ada_abc18f151006u128));
    assert_eq!(id_base(), Some(id));
    assert_eq!(id_de_ruta("95022733F013301A0ADAABC18F151006"), Some(id));
}
