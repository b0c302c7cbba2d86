//! Modelo de datos: la tarea, su estado y los errores del motor.

use vstd::prelude::*;

use crate::texto::{caracteres, iguales};

verus! {

/// Estado de una tarea: conjunto cerrado de tres valores.
#[derive(Clone, Copy, PartialEq, Eq, Structural, Debug)]
pub enum Estado {
    Pendiente,
    EnProceso,
    Finalizada,
}

/// Nombre en minúsculas de cada estado, como lo escribe el usuario y
/// como queda persistido.
pub open spec fn nombre_estado(e: Estado) -> Seq<char> {
    match e {
        Estado::Pendiente => "pendiente"@,
        Estado::EnProceso => "en proceso"@,
        Estado::Finalizada => "finalizada"@,
    }
}

/// Estado que nombra un texto ya normalizado a minúsculas, si nombra
/// alguno del conjunto cerrado.
pub open spec fn estado_de(s: Seq<char>) -> Option<Estado> {
    if s == "pendiente"@ {
        Some(Estado::Pendiente)
    } else if s == "en proceso"@ {
        Some(Estado::EnProceso)
    } else if s == "finalizada"@ {
        Some(Estado::Finalizada)
    } else {
        None
    }
}

/// Ley: el nombre de cada estado vuelve a ese estado; los tres nombres
/// son distintos entre sí.
pub proof fn lema_estado_de_nombre(e: Estado)
    ensures
        estado_de(nombre_estado(e)) == Some(e),
{
    reveal_strlit("pendiente");
    reveal_strlit("en proceso");
    reveal_strlit("finalizada");
    assert("pendiente"@.len() == 9);
    assert("en proceso"@.len() == 10);
    assert("finalizada"@.len() == 10);
    assert("en proceso"@[0] == 'e');
    assert("finalizada"@[0] == 'f');
}

impl Estado {
    /// Estado que nombra el texto dado, si nombra alguno.
    pub fn desde_texto(s: &str) -> (r: Option<Estado>)
        ensures
            r == estado_de(s@),
    {
        let v = caracteres(s);
        if iguales(&v, &caracteres("pendiente")) {
            Some(Estado::Pendiente)
        } else if iguales(&v, &caracteres("en proceso")) {
            Some(Estado::EnProceso)
        } else if iguales(&v, &caracteres("finalizada")) {
            Some(Estado::Finalizada)
        } else {
            None
        }
    }

    /// Nombre del estado, el que entiende desde_texto.
    pub fn nombre(&self) -> (r: String)
        ensures
            r@ == nombre_estado(*self),
    {
        match self {
            Estado::Pendiente => "pendiente".to_owned(),
            Estado::EnProceso => "en proceso".to_owned(),
            Estado::Finalizada => "finalizada".to_owned(),
        }
    }
}

/// Vista matemática de una tarea: cada campo como valor puro.
pub ghost struct TareaVista {
    pub id: u32,
    pub nombre: Seq<char>,
    pub descripcion: Option<Seq<char>>,
    pub fecha_creacion: Seq<char>,
    pub estado: Estado,
    pub fecha_finalizacion: Option<Seq<char>>,
}

/// Una tarea: id inmutable, nombre, descripción opcional, estado y
/// marcas de tiempo como texto ya formateado.
pub struct Tarea {
    pub id: u32,
    pub nombre: String,
    pub descripcion: Option<String>,
    pub fecha_creacion: String,
    pub estado: Estado,
    pub fecha_finalizacion: Option<String>,
}

/// Vista de una opción de texto.
pub open spec fn vista_opcional(o: Option<String>) -> Option<Seq<char>> {
    match o {
        None => None,
        Some(s) => Some(s@),
    }
}

impl View for Tarea {
    type V = TareaVista;

    open spec fn view(&self) -> TareaVista {
        TareaVista {
            id: self.id,
            nombre: self.nombre@,
            descripcion: vista_opcional(self.descripcion),
            fecha_creacion: self.fecha_creacion@,
            estado: self.estado,
            fecha_finalizacion: vista_opcional(self.fecha_finalizacion),
        }
    }
}

impl Tarea {
    /// Copia profunda con la misma vista.
    pub fn clon(&self) -> (r: Tarea)
        ensures
            r@ == self@,
    {
        Tarea {
            id: self.id,
            nombre: self.nombre.clone(),
            descripcion: clon_opcional(&self.descripcion),
            fecha_creacion: self.fecha_creacion.clone(),
            estado: self.estado,
            fecha_finalizacion: clon_opcional(&self.fecha_finalizacion),
        }
    }
}

/// Copia de una opción de texto que conserva la vista.
pub fn clon_opcional(o: &Option<String>) -> (r: Option<String>)
    ensures
        vista_opcional(r) == vista_opcional(*o),
{
    match o {
        None => None,
        Some(s) => Some(s.clone()),
    }
}

/// Vistas de una sucesión de tareas.
pub open spec fn vistas(s: Seq<Tarea>) -> Seq<TareaVista> {
    s.map_values(|t: Tarea| t@)
}

/// Errores del motor y del almacén.
#[derive(Debug)]
pub enum ErrorTarea {
    /// Ninguna tarea lleva el id pedido.
    NoEncontrada(u32),
    /// El texto no nombra ningún estado del conjunto cerrado.
    EstadoInvalido(String),
    /// El contenido persistido no sigue el formato de la colección.
    CargaInvalida,
}

impl ErrorTarea {
    /// Mensaje para el usuario, como lo imprime la interfaz.
    pub fn mensaje(&self) -> String
    {
        match self {
            ErrorTarea::NoEncontrada(id) => mensaje_no_encontrada(*id),
            ErrorTarea::EstadoInvalido(v) => mensaje_estado_invalido(v),
            ErrorTarea::CargaInvalida => mensaje_carga_invalida(),
        }
    }
}

/// Texto del error de id ausente. Se apoya en el macro format de std.
#[verifier::external_body]
fn mensaje_no_encontrada(id: u32) -> String {
    format!("Error: no se encontró tarea con ID {}", id)
}

/// Texto del error de estado inválido. Se apoya en el macro format de std.
#[verifier::external_body]
fn mensaje_estado_invalido(v: &String) -> String {
    format!("Error: el estado '{}' no es válido. Válidos: pendiente, en proceso, finalizada", v)
}

/// Texto del error de contenido ilegible. Se apoya en el macro format de std.
#[verifier::external_body]
fn mensaje_carga_invalida() -> String {
    format!("Error: el contenido guardado no es una colección de tareas válida")
}

} // verus!
