pub mod carrito;
pub mod catalogo;
pub mod database;
pub mod decimal;
pub mod funciones;
pub mod ids;
pub mod leyes;
pub mod models;
pub mod texto;
pub mod vistas;
