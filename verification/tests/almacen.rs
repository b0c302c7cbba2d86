//! Pruebas del almacén: escritura, lectura y su ida y vuelta.

use tareas::almacen::{load_tasks, save_tasks};
use tareas::modelos::{Estado, ErrorTarea, Tarea};
use tareas::motor::{add_task, change_status};

fn igual_tarea(a: &Tarea, b: &Tarea) -> bool {
    a.id == b.id && a.nombre == b.nombre && a.descripcion == b.descripcion
        && a.fecha_creacion == b.fecha_creacion && a.estado == b.estado
        && a.fecha_finalizacion == b.fecha_finalizacion
}

#[test]
fn guardar_coleccion_vacia() {
    let c: Vec<Tarea> = Vec::new();
    assert_eq!(save_tasks(&c), "[]");
}

#[test]
fn guardar_una_tarea_da_el_texto_exacto() {
    let c = vec![Tarea {
        id: 7,
        nombre: "Tarea".to_string(),
        descripcion: None,
        fecha_creacion: "2024-01-02T03:04:05+01:00".to_string(),
        estado: Estado::EnProceso,
        fecha_finalizacion: None,
    }];
    let esperado = "[{\"id\":7,\"nombre\":\"Tarea\",\"descripcion_detallada\":null,\"fecha_creacion\":\"2024-01-02T03:04:05+01:00\",\"estado\":\"en proceso\",\"fecha_finalizacion\":null}]";
    assert_eq!(save_tasks(&c), esperado);
}

#[test]
fn guardar_escapa_comillas_y_barras() {
    let c = vec![Tarea {
        id: 1,
        nombre: "a\"b\\c".to_string(),
        descripcion: Some("d\"".to_string()),
        fecha_creacion: "f".to_string(),
        estado: Estado::Pendiente,
        fecha_finalizacion: None,
    }];
    let s = save_tasks(&c);
    assert!(s.contains("\"nombre\":\"a\\\"b\\\\c\""));
    assert!(s.contains("\"descripcion_detallada\":\"d\\\"\""));
    let c2 = load_tasks(&s).unwrap();
    assert_eq!(c2.len(), 1);
    assert!(igual_tarea(&c2[0], &c[0]));
}

#[test]
fn cargar_contenido_vacio_es_coleccion_vacia() {
    let c = load_tasks("").unwrap();
    assert!(c.is_empty());
}

#[test]
fn cargar_arreglo_vacio() {
    let c = load_tasks("[]").unwrap();
    assert!(c.is_empty());
}

#[test]
fn cargar_texto_exacto() {
    let s = "[{\"id\":3,\"nombre\":\"Comprar pan\",\"descripcion_detallada\":\"integral\",\"fecha_creacion\":\"2023-12-31T23:59:59-05:00\",\"estado\":\"finalizada\",\"fecha_finalizacion\":\"2024-01-01T00:00:01-05:00\"}]";
    let c = load_tasks(s).unwrap();
    assert_eq!(c.len(), 1);
    assert_eq!(c[0].id, 3);
    assert_eq!(c[0].nombre, "Comprar pan");
    assert_eq!(c[0].descripcion.as_deref(), Some("integral"));
    assert_eq!(c[0].fecha_creacion, "2023-12-31T23:59:59-05:00");
    assert!(matches!(c[0].estado, Estado::Finalizada));
    assert_eq!(c[0].fecha_finalizacion.as_deref(), Some("2024-01-01T00:00:01-05:00"));
}

#[test]
fn ida_y_vuelta_de_varias_tareas() {
    let mut c: Vec<Tarea> = Vec::new();
    add_task(&mut c, "Buy milk".to_string(), None);
    add_task(&mut c, "Clean".to_string(), Some("kitchen".to_string()));
    add_task(&mut c, "Pagar \"luz\"".to_string(), Some("c:\\recibos".to_string()));
    change_status(&mut c, 2, "finalizada").unwrap();
    change_status(&mut c, 3, "en proceso").unwrap();
    let s = save_tasks(&c);
    let c2 = load_tasks(&s).unwrap();
    assert_eq!(c2.len(), c.len());
    for (a, b) in c.iter().zip(c2.iter()) {
        assert!(igual_tarea(a, b));
    }
    // Una segunda vuelta da el mismo texto.
    assert_eq!(save_tasks(&c2), s);
}

#[test]
fn ida_y_vuelta_de_la_coleccion_vacia() {
    let c: Vec<Tarea> = Vec::new();
    let s = save_tasks(&c);
    let c2 = load_tasks(&s).unwrap();
    assert!(c2.is_empty());
}

#[test]
fn cargar_malformado_falla() {
    for malo in [
        "x",
        "[",
        "[{",
        "[{\"id\":}]",
        "[{\"id\":1}]",
        "[{\"id\":01,\"nombre\":\"a\",\"descripcion_detallada\":null,\"fecha_creacion\":\"f\",\"estado\":\"pendiente\",\"fecha_finalizacion\":null}]",
        "[{\"id\":1,\"nombre\":\"a\",\"descripcion_detallada\":null,\"fecha_creacion\":\"f\",\"estado\":\"lista\",\"fecha_finalizacion\":null}]",
        "[{\"id\":1,\"nombre\":\"a\",\"descripcion_detallada\":null,\"fecha_creacion\":\"f\",\"estado\":\"pendiente\",\"fecha_finalizacion\":null}] ",
        "[{\"id\":4294967296,\"nombre\":\"a\",\"descripcion_detallada\":null,\"fecha_creacion\":\"f\",\"estado\":\"pendiente\",\"fecha_finalizacion\":null}]",
    ] {
        let r = load_tasks(malo);
        assert!(matches!(r, Err(ErrorTarea::CargaInvalida)), "se aceptó: {}", malo);
    }
}

#[test]
fn cargar_id_maximo() {
    let s = "[{\"id\":4294967295,\"nombre\":\"a\",\"descripcion_detallada\":null,\"fecha_creacion\":\"f\",\"estado\":\"pendiente\",\"fecha_finalizacion\":null}]";
    let c = load_tasks(s).unwrap();
    assert_eq!(c[0].id, u32::MAX);
}

#[test]
fn mensaje_de_carga_invalida() {
    let r = load_tasks("basura");
    match r {
        Err(e) => assert_eq!(
            e.mensaje(),
            "Error: el contenido guardado no es una colección de tareas válida"
        ),
        Ok(_) => panic!("se esperaba un error"),
    }
}
