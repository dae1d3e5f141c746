# tienda

A small web shop: a catalogue of products and a cart per user, kept in a
PostgreSQL database and served as HTML pages.

- `src/` is the verified library (Verus):
  - `decimal.rs`: prices as digits and scale, their sum and product proved, parsed and
    written through `bigdecimal`;
  - `models.rs`: the rows of the tables `productos` and `carrito`;
  - `database.rs`: what the shop asks of its database and what it makes of the answers,
    the cart total and the catalogue listing;
  - `funciones.rs`: the decisions of each page;
  - `texto.rs`, `ids.rs`: how numbers, prices and UUIDs are written and read;
  - `carrito.rs`: a model of the table `carrito` and of the statements on it;
  - `leyes.rs`: what the cart pages keep true of that table, and what the badge shows, proved;
  - `catalogo.rs`: a model of the table `productos` and what the catalogue page does to it, proved.
- `app/` is the server: actix-web routes, diesel queries, tera templates.
- `tests/` runs the library on concrete values.
