//! Motor de tareas: toda la lógica de mutación y consulta sobre la
//! colección en memoria.

use vstd::prelude::*;
use vstd::seq_lib::*;

use crate::modelos::{
    estado_de, nombre_estado, vista_opcional, vistas, Estado, ErrorTarea, Tarea, TareaVista,
};
use crate::reloj::ahora;

verus! {

/// Mayor id presente en la colección, o 0 si está vacía.
pub open spec fn max_id(s: Seq<TareaVista>) -> int
    decreases s.len(),
{
    if s.len() == 0 {
        0
    } else {
        let m = max_id(s.drop_last());
        if s.last().id > m {
            s.last().id as int
        } else {
            m
        }
    }
}

/// Id que recibirá la próxima tarea creada: uno más que el máximo
/// presente, o 1 sobre la colección vacía.
pub open spec fn siguiente_id(s: Seq<TareaVista>) -> int {
    max_id(s) + 1
}

/// Hay alguna tarea con el id dado.
pub open spec fn contiene_id(s: Seq<TareaVista>, id: u32) -> bool {
    exists|j: int| 0 <= j < s.len() && s[j].id == id
}

/// Posición de la primera tarea con el id dado; s.len() si no hay tal.
pub open spec fn indice_de(s: Seq<TareaVista>, id: u32) -> int
    decreases s.len(),
{
    if s.len() == 0 {
        0
    } else if s[0].id == id {
        0
    } else {
        1 + indice_de(s.drop_first(), id)
    }
}

/// El índice de un id señala su primera aparición.
pub proof fn lema_indice_de(s: Seq<TareaVista>, id: u32)
    ensures
        0 <= indice_de(s, id) <= s.len(),
        indice_de(s, id) < s.len() ==> s[indice_de(s, id)].id == id,
        forall|j: int| 0 <= j < indice_de(s, id) ==> s[j].id != id,
        (indice_de(s, id) < s.len()) == contiene_id(s, id),
    decreases s.len(),
{
    if s.len() == 0 {
    } else if s[0].id == id {
    } else {
        lema_indice_de(s.drop_first(), id);
        let k = indice_de(s.drop_first(), id);
        assert(forall|j: int| 0 <= j < k ==> s.drop_first()[j].id != id);
        assert(forall|j: int| 1 <= j < 1 + k ==> s[j].id == s.drop_first()[j - 1].id);
        if contiene_id(s, id) {
            let w = choose|j: int| 0 <= j < s.len() && s[j].id == id;
            assert(s.drop_first()[w - 1].id == id);
            assert(contiene_id(s.drop_first(), id));
        }
        if contiene_id(s.drop_first(), id) {
            let w = choose|j: int| 0 <= j < s.drop_first().len() && s.drop_first()[j].id == id;
            assert(s[w + 1].id == id);
        }
    }
}

/// Ningún id presente excede al máximo.
pub proof fn lema_max_id_cota(s: Seq<TareaVista>)
    ensures
        0 <= max_id(s),
        forall|j: int| 0 <= j < s.len() ==> (s[j].id as int) <= max_id(s),
    decreases s.len(),
{
    if s.len() == 0 {
    } else {
        lema_max_id_cota(s.drop_last());
        assert(forall|j: int| 0 <= j < s.len() - 1 ==> s[j] == s.drop_last()[j]);
    }
}

/// El máximo de un prefijo no excede al de la colección entera.
pub proof fn lema_max_id_prefijo(s: Seq<TareaVista>, n: int)
    requires
        0 <= n <= s.len(),
    ensures
        max_id(s.take(n)) <= max_id(s),
    decreases s.len() - n,
{
    if n == s.len() {
        assert(s.take(n) =~= s);
    } else {
        lema_max_id_prefijo(s, n + 1);
        assert(s.take(n + 1).drop_last() =~= s.take(n));
        assert(max_id(s.take(n)) <= max_id(s.take(n + 1)));
    }
}

/// Posición de la primera tarea con el id dado, si hay alguna.
fn buscar_indice(tareas: &Vec<Tarea>, id: u32) -> (r: Option<usize>)
    ensures
        ({
            let todas = vistas(tareas@);
            match r {
                Some(i) => i < tareas@.len() && i == indice_de(todas, id) && todas[i as int].id
                    == id && contiene_id(todas, id),
                None => !contiene_id(todas, id),
            }
        }),
{
    let ghost todas = vistas(tareas@);
    let mut i: usize = 0;
    while i < tareas.len()
        invariant
            i <= tareas@.len(),
            todas == vistas(tareas@),
            todas.len() == tareas@.len(),
            forall|j: int| 0 <= j < i ==> todas[j].id != id,
        decreases tareas@.len() - i,
    {
        if tareas[i].id == id {
            proof {
                lema_indice_de(todas, id);
                assert(todas[i as int].id == id);
            }
            return Some(i);
        }
        i += 1;
    }
    proof {
        assert(!contiene_id(todas, id));
    }
    None
}

/// Id con el que nace la próxima tarea.
pub fn get_new_id(tareas: &Vec<Tarea>) -> (id: u32)
    requires
        max_id(vistas(tareas@)) < u32::MAX,
    ensures
        id as int == siguiente_id(vistas(tareas@)),
{
    let ghost todas = vistas(tareas@);
    let mut m: u32 = 0;
    let mut i: usize = 0;
    while i < tareas.len()
        invariant
            i <= tareas@.len(),
            todas == vistas(tareas@),
            todas.len() == tareas@.len(),
            m as int == max_id(todas.take(i as int)),
            max_id(vistas(tareas@)) < u32::MAX,
        decreases tareas@.len() - i,
    {
        proof {
            assert(todas.take(i + 1).drop_last() =~= todas.take(i as int));
            assert(todas.take(i + 1).last() == tareas@[i as int]@);
            lema_max_id_prefijo(todas, i + 1);
        }
        if tareas[i].id > m {
            m = tareas[i].id;
        }
        i += 1;
    }
    proof {
        assert(todas.take(tareas@.len() as int) =~= todas);
    }
    m + 1
}

/// Crea una tarea con el siguiente id, estado Pendiente y la hora
/// actual como fecha de creación, y la añade al final. Devuelve el id.
pub fn add_task(tareas: &mut Vec<Tarea>, nombre: String, descripcion: Option<String>) -> (id: u32)
    requires
        max_id(vistas(old(tareas)@)) < u32::MAX,
    ensures
        id as int == siguiente_id(vistas(old(tareas)@)),
        exists|ts: Seq<char>|
            vistas(final(tareas)@) == vistas(old(tareas)@).push(
                TareaVista {
                    id,
                    nombre: nombre@,
                    descripcion: vista_opcional(descripcion),
                    fecha_creacion: ts,
                    estado: Estado::Pendiente,
                    fecha_finalizacion: None,
                },
            ),
{
    let id = get_new_id(tareas);
    let nueva = Tarea {
        id,
        nombre,
        descripcion,
        fecha_creacion: ahora(),
        estado: Estado::Pendiente,
        fecha_finalizacion: None,
    };
    let ghost ts = nueva.fecha_creacion@;
    let ghost objetivo = vistas(old(tareas)@).push(nueva@);
    tareas.push(nueva);
    proof {
        assert(vistas(tareas@) =~= objetivo);
    }
    id
}

/// Tarea tras una edición: el nombre nuevo si se dio; la descripción
/// nueva si se dio, donde la vacía borra el campo; lo demás intacto.
pub open spec fn tarea_editada(
    t: TareaVista,
    nuevo_nombre: Option<Seq<char>>,
    nueva_descripcion: Option<Seq<char>>,
) -> TareaVista {
    TareaVista {
        nombre: match nuevo_nombre {
            Some(n) => n,
            None => t.nombre,
        },
        descripcion: match nueva_descripcion {
            Some(d) => if d.len() == 0 {
                None
            } else {
                Some(d)
            },
            None => t.descripcion,
        },
        ..t
    }
}

/// Aplica una edición a una tarea suelta.
fn aplicar_edicion(
    viejo: Tarea,
    nuevo_nombre: Option<String>,
    nueva_descripcion: Option<String>,
) -> (r: Tarea)
    ensures
        r@ == tarea_editada(viejo@, vista_opcional(nuevo_nombre), vista_opcional(nueva_descripcion)),
{
    let nombre = match nuevo_nombre {
        Some(n) => n,
        None => viejo.nombre,
    };
    let descripcion = match nueva_descripcion {
        Some(d) => if d.as_str().is_empty() {
            None
        } else {
            Some(d)
        },
        None => viejo.descripcion,
    };
    Tarea {
        id: viejo.id,
        nombre,
        descripcion,
        fecha_creacion: viejo.fecha_creacion,
        estado: viejo.estado,
        fecha_finalizacion: viejo.fecha_finalizacion,
    }
}

/// Busca la tarea del id y le aplica los campos dados. Sin campos no
/// cambia nada y lo dice, sin buscar el id; con id ausente falla con
/// NoEncontrada; si no, edita esa tarea y nada más.
pub fn edit_task(
    tareas: &mut Vec<Tarea>,
    id: u32,
    nuevo_nombre: Option<String>,
    nueva_descripcion: Option<String>,
) -> (r: Result<bool, ErrorTarea>)
    ensures
        ({
            let antes = vistas(old(tareas)@);
            let despues = vistas(final(tareas)@);
            if nuevo_nombre is None && nueva_descripcion is None {
                (r matches Ok(c) && c == false) && despues == antes
            } else if !contiene_id(antes, id) {
                (r matches Err(e) && e matches ErrorTarea::NoEncontrada(i) && i == id)
                    && despues == antes
            } else {
                (r matches Ok(c) && c == true) && despues == antes.update(
                    indice_de(antes, id),
                    tarea_editada(
                        antes[indice_de(antes, id)],
                        vista_opcional(nuevo_nombre),
                        vista_opcional(nueva_descripcion),
                    ),
                )
            }
        }),
{
    if nuevo_nombre.is_none() && nueva_descripcion.is_none() {
        return Ok(false);
    }
    let ghost antes = vistas(old(tareas)@);
    match buscar_indice(tareas, id) {
        None => Err(ErrorTarea::NoEncontrada(id)),
        Some(i) => {
            let viejo = tareas.remove(i);
            let nuevo = aplicar_edicion(viejo, nuevo_nombre, nueva_descripcion);
            tareas.insert(i, nuevo);
            proof {
                assert(vistas(tareas@) =~= antes.update(
                    i as int,
                    tarea_editada(
                        antes[i as int],
                        vista_opcional(nuevo_nombre),
                        vista_opcional(nueva_descripcion),
                    ),
                ));
            }
            Ok(true)
        },
    }
}

/// Tarea tras un cambio de estado: adopta el estado nuevo; la fecha de
/// finalización queda puesta exactamente cuando el estado nuevo es
/// Finalizada, y borrada en los demás casos.
pub open spec fn tras_cambio(t: TareaVista, e: Estado, ts: Seq<char>) -> TareaVista {
    TareaVista {
        estado: e,
        fecha_finalizacion: if e == Estado::Finalizada {
            Some(ts)
        } else {
            None
        },
        ..t
    }
}

/// Valida el texto del estado antes de buscar el id; luego cambia el
/// estado de la tarea del id, poniendo la fecha de finalización con la
/// hora actual exactamente cuando el estado nuevo es Finalizada y
/// borrándola en otro caso. Cualquier estado válido se acepta, también
/// al salir de Finalizada.
pub fn change_status(tareas: &mut Vec<Tarea>, id: u32, nuevo_estado: &str) -> (r: Result<
    (),
    ErrorTarea,
>)
    ensures
        ({
            let antes = vistas(old(tareas)@);
            let despues = vistas(final(tareas)@);
            match estado_de(nuevo_estado@) {
                None => (r matches Err(e) && e matches ErrorTarea::EstadoInvalido(v) && v@
                    == nuevo_estado@) && despues == antes,
                Some(nuevo) => if !contiene_id(antes, id) {
                    (r matches Err(e) && e matches ErrorTarea::NoEncontrada(i) && i == id)
                        && despues == antes
                } else {
                    r is Ok && exists|ts: Seq<char>|
                        despues == antes.update(
                            indice_de(antes, id),
                            tras_cambio(antes[indice_de(antes, id)], nuevo, ts),
                        )
                },
            }
        }),
{
    let nuevo = match Estado::desde_texto(nuevo_estado) {
        None => {
            return Err(ErrorTarea::EstadoInvalido(nuevo_estado.to_owned()));
        },
        Some(e) => e,
    };
    let ghost antes = vistas(old(tareas)@);
    match buscar_indice(tareas, id) {
        None => Err(ErrorTarea::NoEncontrada(id)),
        Some(i) => {
            let viejo = tareas.remove(i);
            let fecha_finalizacion = if matches!(nuevo, Estado::Finalizada) {
                Some(ahora())
            } else {
                None
            };
            let ghost ts_elegida: Seq<char> = match vista_opcional(fecha_finalizacion) {
                Some(t) => t,
                None => Seq::empty(),
            };
            let nueva = Tarea { estado: nuevo, fecha_finalizacion, ..viejo };
            tareas.insert(i, nueva);
            proof {
                let despues = vistas(tareas@);
                assert(despues =~= antes.update(
                    i as int,
                    tras_cambio(antes[i as int], nuevo, ts_elegida),
                ));
                assert(exists|ts: Seq<char>|
                    despues == antes.update(
                        indice_de(antes, id),
                        tras_cambio(antes[indice_de(antes, id)], nuevo, ts),
                    ));
            }
            Ok(())
        },
    }
}

/// Quita la tarea del id, conservando el orden de las demás; la
/// colección pierde exactamente un elemento. Con id ausente falla con
/// NoEncontrada y deja la colección intacta.
pub fn delete_task(tareas: &mut Vec<Tarea>, id: u32) -> (r: Result<(), ErrorTarea>)
    ensures
        ({
            let antes = vistas(old(tareas)@);
            let despues = vistas(final(tareas)@);
            if contiene_id(antes, id) {
                r is Ok && despues == antes.remove(indice_de(antes, id)) && despues.len()
                    == antes.len() - 1
            } else {
                (r matches Err(e) && e matches ErrorTarea::NoEncontrada(i) && i == id) && despues
                    == antes
            }
        }),
{
    let ghost antes = vistas(old(tareas)@);
    match buscar_indice(tareas, id) {
        None => Err(ErrorTarea::NoEncontrada(id)),
        Some(i) => {
            tareas.remove(i);
            proof {
                assert(vistas(tareas@) =~= antes.remove(i as int));
            }
            Ok(())
        },
    }
}

/// Tareas que pasan el filtro de estado, en el orden de la colección.
pub open spec fn filtrar(s: Seq<TareaVista>, e: Estado) -> Seq<TareaVista> {
    s.filter(|t: TareaVista| t.estado == e)
}

/// Consulta de solo lectura: sin filtro devuelve copia de toda la
/// colección; con filtro lo valida (EstadoInvalido si no nombra un
/// estado) y devuelve las tareas de ese estado, en orden. Un resultado
/// vacío con colección no vacía sigue distinguible de la colección
/// vacía, que el llamador conoce.
pub fn list_tasks(tareas: &Vec<Tarea>, filtro: Option<&str>) -> (r: Result<Vec<Tarea>, ErrorTarea>)
    ensures
        ({
            let todas = vistas(tareas@);
            match filtro {
                None => r matches Ok(ts) && vistas(ts@) == todas,
                Some(f) => match estado_de(f@) {
                    None => r matches Err(e) && e matches ErrorTarea::EstadoInvalido(v) && v@ == f@,
                    Some(buscado) => r matches Ok(ts) && vistas(ts@) == filtrar(todas, buscado),
                },
            }
        }),
{
    let ghost todas = vistas(tareas@);
    match filtro {
        None => {
            let mut copia: Vec<Tarea> = Vec::new();
            let mut i: usize = 0;
            while i < tareas.len()
                invariant
                    i <= tareas@.len(),
                    todas == vistas(tareas@),
                    todas.len() == tareas@.len(),
                    copia@.len() == i,
                    forall|j: int| 0 <= j < i ==> #[trigger] vistas(copia@)[j] == todas[j],
                decreases tareas@.len() - i,
            {
                let ghost previas = copia@;
                let c = tareas[i].clon();
                let ghost cv = c@;
                copia.push(c);
                proof {
                    assert forall|j: int| 0 <= j < i + 1 implies #[trigger] vistas(copia@)[j]
                        == todas[j] by {
                        if j < i {
                            assert(copia@[j] == previas[j]);
                            assert(vistas(previas)[j] == todas[j]);
                        } else {
                            assert(copia@[j]@ == cv);
                        }
                    }
                }
                i += 1;
            }
            proof {
                assert(vistas(copia@) =~= todas);
            }
            Ok(copia)
        },
        Some(f) => {
            let buscado = match Estado::desde_texto(f) {
                None => {
                    return Err(ErrorTarea::EstadoInvalido(f.to_owned()));
                },
                Some(e) => e,
            };
            let ghost criba = |t: TareaVista| t.estado == buscado;
            let mut elegidas: Vec<Tarea> = Vec::new();
            let mut i: usize = 0;
            while i < tareas.len()
                invariant
                    i <= tareas@.len(),
                    todas == vistas(tareas@),
                    todas.len() == tareas@.len(),
                    criba == (|t: TareaVista| t.estado == buscado),
                    vistas(elegidas@) == todas.take(i as int).filter(criba),
                decreases tareas@.len() - i,
            {
                proof {
                    reveal(Seq::filter);
                    assert(todas.take(i + 1).drop_last() =~= todas.take(i as int));
                    assert(todas.take(i + 1).last() == todas[i as int]);
                }
                if matches_estado(&tareas[i], buscado) {
                    let ghost previas = vistas(elegidas@);
                    elegidas.push(tareas[i].clon());
                    proof {
                        assert(criba(todas[i as int]));
                        assert(vistas(elegidas@) =~= previas.push(todas[i as int]));
                        assert(vistas(elegidas@) =~= todas.take(i + 1).filter(criba));
                    }
                } else {
                    proof {
                        assert(!criba(todas[i as int]));
                        assert(vistas(elegidas@) =~= todas.take(i + 1).filter(criba));
                    }
                }
                i += 1;
            }
            proof {
                assert(todas.take(tareas@.len() as int) =~= todas);
            }
            Ok(elegidas)
        },
    }
}

/// Ley: el id que recibe una tarea nueva no repite ninguno presente;
/// es estrictamente mayor que todos ellos.
pub proof fn lema_id_nuevo_no_repetido(s: Seq<TareaVista>)
    ensures
        forall|j: int| 0 <= j < s.len() ==> (s[j].id as int) < siguiente_id(s),
{
    lema_max_id_cota(s);
}

/// Ley: los ids crecen estrictamente entre una creación y la
/// siguiente, mientras entre ambas no se borre toda tarea cuyo id
/// alcance al recién dado. (Si se borra la de id máximo, el siguiente
/// id vuelve a bajar: el máximo se toma de lo presente.)
pub proof fn lema_ids_crecientes(c1: Seq<TareaVista>, c2: Seq<TareaVista>)
    requires
        exists|j: int| 0 <= j < c2.len() && siguiente_id(c1) <= c2[j].id as int,
    ensures
        siguiente_id(c1) < siguiente_id(c2),
{
    let j = choose|j: int| 0 <= j < c2.len() && siguiente_id(c1) <= c2[j].id as int;
    lema_max_id_cota(c2);
    assert(c2[j].id as int <= max_id(c2));
}

/// Ley: tras añadir la tarea del siguiente id, el siguiente id sube
/// exactamente en uno; encadenar creaciones da ids consecutivos.
pub proof fn lema_siguiente_tras_agregar(s: Seq<TareaVista>, t: TareaVista)
    requires
        t.id as int == siguiente_id(s),
    ensures
        siguiente_id(s.push(t)) == siguiente_id(s) + 1,
{
    lema_max_id_cota(s);
    assert(s.push(t).drop_last() =~= s);
    assert(s.push(t).last() == t);
}

/// Ley: pasar una tarea a Finalizada deja puesta la fecha de
/// finalización; cualquier cambio posterior a un estado distinto la
/// deja ausente de nuevo.
pub proof fn lema_finalizar_y_revertir(t: TareaVista, ts1: Seq<char>, e2: Estado, ts2: Seq<char>)
    requires
        e2 != Estado::Finalizada,
    ensures
        tras_cambio(t, Estado::Finalizada, ts1).fecha_finalizacion is Some,
        tras_cambio(tras_cambio(t, Estado::Finalizada, ts1), e2, ts2).fecha_finalizacion is None,
{
}

/// La tarea está en el estado dado.
fn matches_estado(t: &Tarea, e: Estado) -> (r: bool)
    ensures
        r == (t@.estado == e),
{
    t.estado == e
}

} // verus!
