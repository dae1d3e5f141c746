//! The rows of the shop's two tables, `productos` and `carrito`, as plain values.
use vstd::prelude::*;

use crate::decimal::Decimal;

verus! {

/// A product to be inserted into `productos`.
pub struct NewProduct {
    pub nombre_producto: String,
    pub descripcion: String,
    pub precio: Decimal,
    pub imagen: String,
}

/// A line to be inserted into `carrito`.
#[derive(Clone, Copy, Debug, PartialEq, Eq, Structural)]
pub struct NuevoCarrito {
    pub id_usuario: u128,
    pub id_producto: u128,
    pub cantidad: i32,
}

/// A row of `productos`; the identifier is the UUID as a `u128`.
pub struct Product {
    pub id_producto: u128,
    pub nombre_producto: String,
    pub descripcion: Option<String>,
    pub precio: Decimal,
    pub imagen: Option<String>,
}

/// A row of `carrito`.
#[derive(Clone, Copy, Debug, PartialEq, Eq, Structural)]
pub struct ElemCarrito {
    pub clave: i32,
    pub id_usuario: u128,
    pub id_producto: u128,
    pub cantidad: i32,
}

/// Why a statement on the database failed.
#[derive(Clone, Copy, Debug, PartialEq, Eq, Structural)]
pub enum ErrorBd {
    /// The query found no row.
    NoEncontrado,
    /// Any other failure of the database.
    Fallo,
}

} // verus!
