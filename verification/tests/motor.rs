//! Pruebas del motor de tareas.

use tareas::modelos::{Estado, ErrorTarea, Tarea};
use tareas::motor::{add_task, change_status, delete_task, edit_task, get_new_id, list_tasks};

fn tarea(id: u32, nombre: &str, estado: Estado) -> Tarea {
    Tarea {
        id,
        nombre: nombre.to_string(),
        descripcion: None,
        fecha_creacion: "2024-01-02T03:04:05+01:00".to_string(),
        estado,
        fecha_finalizacion: None,
    }
}

#[test]
fn escenario_basico() {
    let mut c: Vec<Tarea> = Vec::new();
    let id1 = add_task(&mut c, "Buy milk".to_string(), None);
    assert_eq!(id1, 1);
    assert!(matches!(c[0].estado, Estado::Pendiente));
    assert!(c[0].fecha_finalizacion.is_none());
    let id2 = add_task(&mut c, "Clean".to_string(), Some("kitchen".to_string()));
    assert_eq!(id2, 2);
    assert_eq!(c[1].descripcion.as_deref(), Some("kitchen"));
    change_status(&mut c, 1, "finalizada").unwrap();
    assert!(matches!(c[0].estado, Estado::Finalizada));
    assert!(c[0].fecha_finalizacion.is_some());
    delete_task(&mut c, 2).unwrap();
    assert_eq!(c.len(), 1);
    assert_eq!(c[0].id, 1);
    let l = list_tasks(&c, Some("finalizada")).unwrap();
    assert_eq!(l.len(), 1);
    assert_eq!(l[0].id, 1);
}

#[test]
fn ids_crecen_y_no_se_repiten() {
    let mut c: Vec<Tarea> = Vec::new();
    let id1 = add_task(&mut c, "a".to_string(), None);
    let id2 = add_task(&mut c, "b".to_string(), None);
    let id3 = add_task(&mut c, "c".to_string(), None);
    assert_eq!((id1, id2, id3), (1, 2, 3));
    delete_task(&mut c, 1).unwrap();
    let id4 = add_task(&mut c, "d".to_string(), None);
    assert_eq!(id4, 4);
    delete_task(&mut c, 2).unwrap();
    delete_task(&mut c, 3).unwrap();
    let id5 = add_task(&mut c, "e".to_string(), None);
    assert_eq!(id5, 5);
}

#[test]
fn get_new_id_vacia_es_uno() {
    let c: Vec<Tarea> = Vec::new();
    assert_eq!(get_new_id(&c), 1);
    let c2 = vec![tarea(7, "x", Estado::Pendiente), tarea(3, "y", Estado::Pendiente)];
    assert_eq!(get_new_id(&c2), 8);
}

#[test]
fn editar_sin_campos_no_cambia_nada() {
    let mut c = vec![tarea(1, "uno", Estado::Pendiente)];
    let r = edit_task(&mut c, 1, None, None);
    assert_eq!(r.unwrap(), false);
    assert_eq!(c[0].nombre, "uno");
    assert!(c[0].descripcion.is_none());
    // Sin campos tampoco se busca el id: un id ausente no da error.
    let r2 = edit_task(&mut c, 99, None, None);
    assert_eq!(r2.unwrap(), false);
    assert_eq!(c.len(), 1);
}

#[test]
fn editar_id_ausente_falla() {
    let mut c = vec![tarea(1, "uno", Estado::Pendiente)];
    let r = edit_task(&mut c, 2, Some("nuevo".to_string()), None);
    assert!(matches!(r, Err(ErrorTarea::NoEncontrada(2))));
    assert_eq!(c[0].nombre, "uno");
}

#[test]
fn editar_cambia_nombre_y_descripcion() {
    let mut c = vec![tarea(1, "uno", Estado::Finalizada)];
    let r = edit_task(&mut c, 1, Some("otro".to_string()), Some("detalle".to_string()));
    assert_eq!(r.unwrap(), true);
    assert_eq!(c[0].nombre, "otro");
    assert_eq!(c[0].descripcion.as_deref(), Some("detalle"));
    assert!(matches!(c[0].estado, Estado::Finalizada));
}

#[test]
fn editar_descripcion_vacia_la_borra() {
    let mut c = vec![tarea(1, "uno", Estado::Pendiente)];
    edit_task(&mut c, 1, None, Some("detalle".to_string())).unwrap();
    assert_eq!(c[0].descripcion.as_deref(), Some("detalle"));
    edit_task(&mut c, 1, None, Some("".to_string())).unwrap();
    assert!(c[0].descripcion.is_none());
    assert_eq!(c[0].nombre, "uno");
}

#[test]
fn finalizar_pone_fecha_y_revertir_la_borra() {
    let mut c = vec![tarea(1, "uno", Estado::Pendiente)];
    change_status(&mut c, 1, "finalizada").unwrap();
    assert!(matches!(c[0].estado, Estado::Finalizada));
    assert!(c[0].fecha_finalizacion.is_some());
    change_status(&mut c, 1, "pendiente").unwrap();
    assert!(matches!(c[0].estado, Estado::Pendiente));
    assert!(c[0].fecha_finalizacion.is_none());
}

#[test]
fn cambio_a_en_proceso_no_pone_fecha() {
    let mut c = vec![tarea(1, "uno", Estado::Pendiente)];
    change_status(&mut c, 1, "en proceso").unwrap();
    assert!(matches!(c[0].estado, Estado::EnProceso));
    assert!(c[0].fecha_finalizacion.is_none());
}

#[test]
fn estado_invalido_se_rechaza_antes_de_buscar() {
    let mut c: Vec<Tarea> = Vec::new();
    // El id 9 tampoco existe, pero el estado se valida primero.
    let r = change_status(&mut c, 9, "terminada");
    match r {
        Err(ErrorTarea::EstadoInvalido(v)) => assert_eq!(v, "terminada"),
        _ => panic!("se esperaba EstadoInvalido"),
    }
}

#[test]
fn cambio_de_estado_id_ausente_falla() {
    let mut c = vec![tarea(1, "uno", Estado::Pendiente)];
    let r = change_status(&mut c, 2, "finalizada");
    assert!(matches!(r, Err(ErrorTarea::NoEncontrada(2))));
    assert!(matches!(c[0].estado, Estado::Pendiente));
}

#[test]
fn borrar_quita_exactamente_una() {
    let mut c = vec![
        tarea(1, "uno", Estado::Pendiente),
        tarea(2, "dos", Estado::Pendiente),
        tarea(3, "tres", Estado::Pendiente),
    ];
    delete_task(&mut c, 2).unwrap();
    assert_eq!(c.len(), 2);
    assert_eq!(c[0].id, 1);
    assert_eq!(c[1].id, 3);
}

#[test]
fn borrar_id_ausente_no_cambia_nada() {
    let mut c = vec![tarea(1, "uno", Estado::Pendiente)];
    let r = delete_task(&mut c, 9);
    assert!(matches!(r, Err(ErrorTarea::NoEncontrada(9))));
    assert_eq!(c.len(), 1);
}

#[test]
fn listar_sin_filtro_devuelve_todo_en_orden() {
    let c = vec![
        tarea(1, "uno", Estado::Pendiente),
        tarea(2, "dos", Estado::Finalizada),
    ];
    let l = list_tasks(&c, None).unwrap();
    assert_eq!(l.len(), 2);
    assert_eq!(l[0].id, 1);
    assert_eq!(l[1].id, 2);
    assert_eq!(l[1].nombre, "dos");
}

#[test]
fn listar_vacia_y_filtro_sin_resultados_se_distinguen() {
    let vacia: Vec<Tarea> = Vec::new();
    let l0 = list_tasks(&vacia, None).unwrap();
    assert!(l0.is_empty());
    assert!(vacia.is_empty());
    let c = vec![tarea(1, "uno", Estado::Finalizada)];
    let l1 = list_tasks(&c, Some("pendiente")).unwrap();
    assert!(l1.is_empty());
    // La colección misma no está vacía: el llamador puede distinguir.
    assert!(!c.is_empty());
}

#[test]
fn listar_filtra_por_estado() {
    let c = vec![
        tarea(1, "uno", Estado::Pendiente),
        tarea(2, "dos", Estado::Finalizada),
        tarea(3, "tres", Estado::Pendiente),
    ];
    let l = list_tasks(&c, Some("pendiente")).unwrap();
    assert_eq!(l.len(), 2);
    assert_eq!(l[0].id, 1);
    assert_eq!(l[1].id, 3);
}

#[test]
fn listar_filtro_invalido_falla() {
    let c = vec![tarea(1, "uno", Estado::Pendiente)];
    let r = list_tasks(&c, Some("Pendiente"));
    match r {
        Err(ErrorTarea::EstadoInvalido(v)) => assert_eq!(v, "Pendiente"),
        _ => panic!("se esperaba EstadoInvalido"),
    }
}

#[test]
fn estado_desde_texto_y_nombre() {
    assert!(matches!(Estado::desde_texto("pendiente"), Some(Estado::Pendiente)));
    assert!(matches!(Estado::desde_texto("en proceso"), Some(Estado::EnProceso)));
    assert!(matches!(Estado::desde_texto("finalizada"), Some(Estado::Finalizada)));
    assert!(Estado::desde_texto("EN PROCESO").is_none());
    assert!(Estado::desde_texto("").is_none());
    assert_eq!(Estado::EnProceso.nombre(), "en proceso");
    assert_eq!(Estado::Pendiente.nombre(), "pendiente");
    assert_eq!(Estado::Finalizada.nombre(), "finalizada");
}

#[test]
fn mensajes_de_error() {
    assert_eq!(
        ErrorTarea::NoEncontrada(3).mensaje(),
        "Error: no se encontró tarea con ID 3"
    );
    assert_eq!(
        ErrorTarea::EstadoInvalido("lista".to_string()).mensaje(),
        "Error: el estado 'lista' no es válido. Válidos: pendiente, en proceso, finalizada"
    );
}
