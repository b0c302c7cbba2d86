//! Biblioteca de un gestor de tareas: motor de mutaciones en memoria
//! (crear, editar, cambiar estado, borrar, listar) y almacén que
//! serializa la colección completa a texto y la vuelve a leer.

pub mod almacen;
pub mod modelos;
pub mod motor;
pub mod reloj;
pub mod texto;
