//! Lectura del reloj del sistema.

use vstd::prelude::*;

verus! {

/// Marca de tiempo del momento actual, con zona horaria local.
/// Se apoya en chrono: Local::now leída del reloj y formateada por
/// DateTime::to_rfc3339. El valor depende del reloj, así que no se
/// afirma nada de él.
#[verifier::external_body]
pub fn ahora() -> String {
    chrono::Local::now().to_rfc3339()
}

} // verus!
