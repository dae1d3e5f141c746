//! The cart pages run against a small table kept in memory, the way the
//! program runs them against the database.
use std::collections::BTreeMap;

use tienda::database::{
    add_carrito as orden_add_carrito, carrito_numero_productos, decrementar_cantidad_carrito,
    incrementar_cantidad_carrito, delete_carrito, escritura_exitosa, insertar_producto, obtener_cantidad_carrito, OrdenCarrito,
    PasoInsercion,
};
use tienda::decimal::Decimal;
use tienda::funciones::{
    add_carrito, add_producto, carrito, index, index_inicio, quitar_carrito, quitar_producto,
    quitar_producto_cantidad, quitar_producto_fin, NumCarrito, PasoQuitar, RespuestaQuitar,
};
use tienda::models::{ElemCarrito, ErrorBd};

struct Tabla {
    filas: BTreeMap<i32, ElemCarrito>,
    siguiente: i32,
}

impl Tabla {
    fn new() -> Self {
        Tabla { filas: BTreeMap::new(), siguiente: 1 }
    }

    fn existe(&self, u: u128, p: u128) -> Result<bool, ErrorBd> {
        Ok(self.filas.values().any(|e| e.id_usuario == u && e.id_producto == p))
    }

    fn cantidad(&self, u: u128, p: u128) -> Result<i32, ErrorBd> {
        self.filas
            .values()
            .find(|e| e.id_usuario == u && e.id_producto == p)
            .map(|e| e.cantidad)
            .ok_or(ErrorBd::NoEncontrado)
    }

    fn ejecutar(&mut self, orden: OrdenCarrito) -> Result<usize, ErrorBd> {
        match orden {
            OrdenCarrito::Insertar(n) => {
                let clave = self.siguiente;
                self.siguiente += 1;
                self.filas.insert(
                    clave,
                    ElemCarrito { clave, id_usuario: n.id_usuario, id_producto: n.id_producto, cantidad: n.cantidad },
                );
                Ok(1)
            }
            OrdenCarrito::Incrementar { id_usuario, id_producto } => self.sumar(id_usuario, id_producto, 1),
            OrdenCarrito::Decrementar { id_usuario, id_producto } => self.sumar(id_usuario, id_producto, -1),
            OrdenCarrito::Eliminar { id_usuario, id_producto } => {
                let antes = self.filas.len();
                self.filas.retain(|_, e| !(e.id_usuario == id_usuario && e.id_producto == id_producto));
                Ok(antes - self.filas.len())
            }
        }
    }

    fn sumar(&mut self, u: u128, p: u128, d: i32) -> Result<usize, ErrorBd> {
        let mut n = 0;
        for e in self.filas.values_mut() {
            if e.id_usuario == u && e.id_producto == p {
                e.cantidad = e.cantidad.checked_add(d).ok_or(ErrorBd::Fallo)?;
                n += 1;
            }
        }
        Ok(n)
    }

    fn numero(&self, u: u128) -> Result<Option<i64>, ErrorBd> {
        let lineas: Vec<i64> =
            self.filas.values().filter(|e| e.id_usuario == u).map(|e| e.cantidad as i64).collect();
        if lineas.is_empty() {
            Ok(None)
        } else {
            Ok(Some(lineas.iter().sum()))
        }
    }

    fn pagina_add_carrito(&mut self, u: u128, p: u128) {
        if let Some(o) = add_carrito("", u, p, self.existe(u, p)).orden {
            self.ejecutar(o).ok();
        }
    }

    fn pagina_add_producto(&mut self, u: u128, p: u128) -> i32 {
        if let Some(o) = add_producto(u, p, self.existe(u, p)) {
            self.ejecutar(o).ok();
        }
        obtener_cantidad_carrito(self.cantidad(u, p))
    }

    fn pagina_quitar_producto(&mut self, u: u128, p: u128) -> i32 {
        let mut paso = quitar_producto(self.existe(u, p));
        loop {
            paso = match paso {
                PasoQuitar::ConsultarCantidad => {
                    quitar_producto_cantidad(u, p, obtener_cantidad_carrito(self.cantidad(u, p)))
                }
                PasoQuitar::Decrementar(o, pendiente) => {
                    let hecho = escritura_exitosa(self.ejecutar(o));
                    return quitar_producto_fin(pendiente, hecho);
                }
                PasoQuitar::Responder(n) => return n,
            }
        }
    }

    fn pagina_quitar_carrito(&mut self, u: u128, p: u128) -> RespuestaQuitar {
        let eliminado = match delete_carrito(u, p, obtener_cantidad_carrito(self.cantidad(u, p))) {
            Some(o) => escritura_exitosa(self.ejecutar(o)),
            None => false,
        };
        quitar_carrito(eliminado)
    }
}

#[test]
fn add_carrito_crea_la_linea_y_luego_suma() {
    let mut t = Tabla::new();
    t.pagina_add_carrito(9, 7);
    assert_eq!(t.cantidad(9, 7), Ok(1));
    t.pagina_add_carrito(9, 7);
    assert_eq!(t.cantidad(9, 7), Ok(2));
    assert_eq!(t.filas.len(), 1);
    t.pagina_add_carrito(9, 8);
    assert_eq!(t.cantidad(9, 8), Ok(1));
    assert_eq!(t.cantidad(9, 7), Ok(2));
}

#[test]
fn add_producto_responde_la_cantidad_guardada() {
    let mut t = Tabla::new();
    assert_eq!(t.pagina_add_producto(9, 7), 0);
    assert!(t.filas.is_empty());
    t.pagina_add_carrito(9, 7);
    assert_eq!(t.pagina_add_producto(9, 7), 2);
    assert_eq!(t.cantidad(9, 7), Ok(2));
}

#[test]
fn add_con_la_cantidad_maxima_no_cambia_nada() {
    let mut t = Tabla::new();
    t.filas.insert(1, ElemCarrito { clave: 1, id_usuario: 9, id_producto: 7, cantidad: i32::MAX });
    assert_eq!(t.pagina_add_producto(9, 7), i32::MAX);
    t.pagina_add_carrito(9, 7);
    assert_eq!(t.cantidad(9, 7), Ok(i32::MAX));
}

#[test]
fn quitar_producto_nunca_quita_la_ultima_unidad() {
    let mut t = Tabla::new();
    assert_eq!(t.pagina_quitar_producto(9, 7), -1);
    t.pagina_add_carrito(9, 7);
    t.pagina_add_carrito(9, 7);
    t.pagina_add_carrito(9, 7);
    assert_eq!(t.pagina_quitar_producto(9, 7), 2);
    assert_eq!(t.cantidad(9, 7), Ok(2));
    assert_eq!(t.pagina_quitar_producto(9, 7), 1);
    assert_eq!(t.pagina_quitar_producto(9, 7), 1);
    assert_eq!(t.cantidad(9, 7), Ok(1));
}

#[test]
fn quitar_carrito_borra_la_linea() {
    let mut t = Tabla::new();
    t.pagina_add_carrito(9, 7);
    t.pagina_add_carrito(9, 8);
    assert_eq!(t.pagina_quitar_carrito(9, 7), RespuestaQuitar::Actualizar);
    assert_eq!(t.existe(9, 7), Ok(false));
    assert_eq!(t.cantidad(9, 8), Ok(1));
    assert_eq!(t.pagina_quitar_carrito(9, 7), RespuestaQuitar::SinContenido);
}

#[test]
fn insertar_dos_veces_el_mismo_producto_no_lo_duplica() {
    let mut nombres: Vec<String> = Vec::new();
    let precio = Decimal::nuevo(1205, 2);
    let insertar = |nombres: &mut Vec<String>, nombre: &str| -> bool {
        let existe = Ok(nombres.iter().any(|n| n == nombre));
        match insertar_producto(nombre, "d", &precio, "i", existe) {
            PasoInsercion::Insertar(n) => {
                nombres.push(n.nombre_producto);
                true
            }
            PasoInsercion::Rechazar => false,
        }
    };
    assert!(insertar(&mut nombres, "Producto1"));
    assert!(!insertar(&mut nombres, "Producto1"));
    assert!(insertar(&mut nombres, "Producto2"));
    assert_eq!(nombres, vec!["Producto1".to_string(), "Producto2".to_string()]);
}

#[test]
fn el_badge_cuenta_las_unidades() {
    let mut t = Tabla::new();
    assert_eq!(carrito_numero_productos(t.numero(9)), 0);
    t.pagina_add_carrito(9, 7);
    t.pagina_add_carrito(9, 7);
    t.pagina_add_carrito(9, 8);
    t.pagina_add_carrito(5, 8);
    assert_eq!(carrito_numero_productos(t.numero(9)), 3);
    assert_eq!(carrito_numero_productos(t.numero(5)), 1);
    t.pagina_quitar_producto(9, 7);
    assert_eq!(carrito_numero_productos(t.numero(9)), 2);
    t.pagina_quitar_carrito(9, 8);
    assert_eq!(carrito_numero_productos(t.numero(9)), 1);
    assert_eq!(carrito_numero_productos(t.numero(5)), 1);
}

#[test]
fn incrementar_y_decrementar_deja_la_tabla() {
    let mut t = Tabla::new();
    t.pagina_add_carrito(9, 7);
    t.pagina_add_carrito(9, 8);
    let antes = t.filas.clone();
    assert!(escritura_exitosa(t.ejecutar(incrementar_cantidad_carrito(9, 7))));
    assert!(escritura_exitosa(t.ejecutar(decrementar_cantidad_carrito(9, 7))));
    assert_eq!(t.filas, antes);
}

#[test]
fn insertar_y_leer_la_cantidad() {
    let mut t = Tabla::new();
    assert!(escritura_exitosa(t.ejecutar(orden_add_carrito(9, 7, 5))));
    assert_eq!(obtener_cantidad_carrito(t.cantidad(9, 7)), 5);
    assert_eq!(t.existe(9, 7), Ok(true));
}

#[test]
fn quitar_del_carrito_dos_veces() {
    let mut t = Tabla::new();
    t.pagina_add_carrito(9, 7);
    assert_eq!(t.pagina_quitar_carrito(9, 7), RespuestaQuitar::Actualizar);
    let despues = t.filas.clone();
    assert_eq!(t.pagina_quitar_carrito(9, 7), RespuestaQuitar::SinContenido);
    assert_eq!(t.filas, despues);
}

/// The catalogue page's inserts, against a list of product names.
fn visitar_catalogo(nombres: &mut Vec<String>) {
    for p in index_inicio().expect("the catalogue prices parse") {
        let existe = Ok(nombres.iter().any(|n| *n == p.nombre_producto));
        if let PasoInsercion::Insertar(n) = insertar_producto(&p.nombre_producto, &p.descripcion, &p.precio, &p.imagen, existe) {
            nombres.push(n.nombre_producto);
        }
    }
}

#[test]
fn la_pagina_de_catalogo_inserta_una_vez_cada_producto() {
    let mut nombres: Vec<String> = vec!["Producto2".to_string(), "Otro".to_string()];
    visitar_catalogo(&mut nombres);
    assert_eq!(
        nombres,
        vec!["Producto2", "Otro", "Producto1", "Producto3", "Producto4", "DeadPool Figura"]
    );
    visitar_catalogo(&mut nombres);
    assert_eq!(nombres.len(), 6);
}

/// The value of the badge a page shows, as the program reads it.
fn badge(t: &Tabla, u: u128, n: NumCarrito) -> Option<i64> {
    match n {
        NumCarrito::Consultar => Some(carrito_numero_productos(t.numero(u))),
        NumCarrito::Cero => Some(0),
        NumCarrito::SinDato => None,
    }
}

#[test]
fn las_paginas_muestran_las_unidades_en_el_badge() {
    let mut t = Tabla::new();
    let vacio = index((false, vec![]), Ok(t.filas.values().any(|e| e.id_usuario == 9))).num_carrito;
    assert_eq!(badge(&t, 9, vacio), Some(0));
    t.pagina_add_carrito(9, 7);
    t.pagina_add_carrito(9, 7);
    t.pagina_add_carrito(9, 8);
    let n = index((false, vec![]), Ok(t.filas.values().any(|e| e.id_usuario == 9))).num_carrito;
    assert_eq!(badge(&t, 9, n), Some(3));
    let n = carrito(Ok(t.filas.values().any(|e| e.id_usuario == 9)), &vec![], &vec![]).num_carrito;
    assert_eq!(badge(&t, 9, n), Some(3));
    let n = carrito(Err(ErrorBd::Fallo), &vec![], &vec![]).num_carrito;
    assert_eq!(badge(&t, 9, n), None);
}
