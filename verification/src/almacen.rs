//! Almacén: formato de texto de la colección completa y su lectura.
//!
//! El formato es un arreglo de registros, uno por tarea, con los campos
//! en orden fijo y sin espacio sobrante:
//! `[{"id":1,"nombre":"...","descripcion_detallada":null,
//! "fecha_creacion":"...","estado":"pendiente","fecha_finalizacion":null}]`.
//! En los textos solo se escapan la comilla y la barra invertida, cada
//! una precedida de una barra invertida. Escribir y volver a leer
//! reproduce la colección exacta; un contenido que no sigue el formato
//! se rechaza entero.

use vstd::prelude::*;

use crate::modelos::{estado_de, nombre_estado, vistas, Estado, ErrorTarea, Tarea, TareaVista};
use crate::texto::{caracteres, iguales, texto_de};

verus! {

// ---------------------------------------------------------------------
// Escritura, como función matemática del contenido.
// ---------------------------------------------------------------------

/// Un carácter escrito dentro de comillas: la comilla y la barra
/// invertida llevan barra invertida delante; el resto va tal cual.
pub open spec fn escape_car(c: char) -> Seq<char> {
    if c == '"' {
        seq!['\\', '"']
    } else if c == '\\' {
        seq!['\\', '\\']
    } else {
        seq![c]
    }
}

/// Cuerpo de un texto entre comillas.
pub open spec fn render_texto(s: Seq<char>) -> Seq<char>
    decreases s.len(),
{
    if s.len() == 0 {
        Seq::empty()
    } else {
        escape_car(s[0]) + render_texto(s.drop_first())
    }
}

/// Texto entre comillas.
pub open spec fn render_cadena(s: Seq<char>) -> Seq<char> {
    seq!['"'] + render_texto(s) + seq!['"']
}

/// Cifra decimal de un valor entre 0 y 9.
pub open spec fn digito(n: int) -> char {
    if n == 0 {
        '0'
    } else if n == 1 {
        '1'
    } else if n == 2 {
        '2'
    } else if n == 3 {
        '3'
    } else if n == 4 {
        '4'
    } else if n == 5 {
        '5'
    } else if n == 6 {
        '6'
    } else if n == 7 {
        '7'
    } else if n == 8 {
        '8'
    } else {
        '9'
    }
}

/// Número sin signo en decimal, sin ceros a la izquierda.
pub open spec fn render_nat(n: int) -> Seq<char>
    decreases n,
{
    if n < 10 {
        seq![digito(n)]
    } else {
        render_nat(n / 10).push(digito(n % 10))
    }
}

/// Campo de texto opcional: null cuando está ausente.
pub open spec fn render_opc(o: Option<Seq<char>>) -> Seq<char> {
    match o {
        None => "null"@,
        Some(s) => render_cadena(s),
    }
}

/// Registro de una tarea.
pub open spec fn render_tarea(t: TareaVista) -> Seq<char> {
    "{\"id\":"@ + render_nat(t.id as int) + ",\"nombre\":"@ + render_cadena(t.nombre)
        + ",\"descripcion_detallada\":"@ + render_opc(t.descripcion) + ",\"fecha_creacion\":"@
        + render_cadena(t.fecha_creacion) + ",\"estado\":"@ + render_cadena(
        nombre_estado(t.estado),
    ) + ",\"fecha_finalizacion\":"@ + render_opc(t.fecha_finalizacion) + "}"@
}

/// Registros separados por comas, para una colección no vacía.
pub open spec fn render_lista(s: Seq<TareaVista>) -> Seq<char>
    decreases s.len(),
{
    if s.len() <= 1 {
        render_tarea(s[0])
    } else {
        render_tarea(s[0]) + seq![','] + render_lista(s.drop_first())
    }
}

/// La colección completa, entre corchetes.
pub open spec fn render_coleccion(s: Seq<TareaVista>) -> Seq<char> {
    if s.len() == 0 {
        seq!['[', ']']
    } else {
        seq!['['] + render_lista(s) + seq![']']
    }
}

// ---------------------------------------------------------------------
// Lectura, como función matemática del contenido.
// ---------------------------------------------------------------------

/// Resto del texto tras un literal fijo, si el texto empieza por él.
pub open spec fn tras_literal(s: Seq<char>, lit: Seq<char>) -> Option<Seq<char>> {
    if lit.len() <= s.len() && s.take(lit.len() as int) == lit {
        Some(s.skip(lit.len() as int))
    } else {
        None
    }
}

/// Cuerpo entre comillas: consume hasta la comilla de cierre deshaciendo
/// los escapes, y devuelve el contenido y el resto tras la comilla.
pub open spec fn analizar_cuerpo(s: Seq<char>) -> Option<(Seq<char>, Seq<char>)>
    decreases s.len(),
{
    if s.len() == 0 {
        None
    } else if s[0] == '"' {
        Some((Seq::empty(), s.drop_first()))
    } else if s[0] == '\\' {
        if s.len() >= 2 && (s[1] == '"' || s[1] == '\\') {
            match analizar_cuerpo(s.skip(2)) {
                Some(p) => Some((seq![s[1]] + p.0, p.1)),
                None => None,
            }
        } else {
            None
        }
    } else {
        match analizar_cuerpo(s.drop_first()) {
            Some(p) => Some((seq![s[0]] + p.0, p.1)),
            None => None,
        }
    }
}

/// Texto entre comillas, comilla inicial incluida.
pub open spec fn analizar_cadena(s: Seq<char>) -> Option<(Seq<char>, Seq<char>)> {
    if s.len() > 0 && s[0] == '"' {
        analizar_cuerpo(s.drop_first())
    } else {
        None
    }
}

/// El carácter es una cifra decimal.
pub open spec fn es_digito(c: char) -> bool {
    48 <= c as u32 && c as u32 <= 57
}

/// Valor de una cifra decimal.
pub open spec fn valor_digito(c: char) -> int {
    c as u32 - 48
}

/// Consume las cifras iniciales acumulando su valor.
pub open spec fn consumir_digitos(s: Seq<char>, acc: int) -> (int, Seq<char>)
    decreases s.len(),
{
    if s.len() > 0 && es_digito(s[0]) {
        consumir_digitos(s.drop_first(), acc * 10 + valor_digito(s[0]))
    } else {
        (acc, s)
    }
}

/// Número decimal que cabe en u32, sin ceros a la izquierda.
pub open spec fn analizar_u32(s: Seq<char>) -> Option<(u32, Seq<char>)> {
    if s.len() == 0 || !es_digito(s[0]) {
        None
    } else if s[0] == '0' && s.len() >= 2 && es_digito(s[1]) {
        None
    } else {
        let (v, resto) = consumir_digitos(s, 0);
        if v > u32::MAX {
            None
        } else {
            Some((v as u32, resto))
        }
    }
}

/// Campo de texto opcional: un texto entre comillas o el literal null.
pub open spec fn analizar_opc(s: Seq<char>) -> Option<(Option<Seq<char>>, Seq<char>)> {
    if s.len() > 0 && s[0] == '"' {
        match analizar_cuerpo(s.drop_first()) {
            Some(p) => Some((Some(p.0), p.1)),
            None => None,
        }
    } else {
        match tras_literal(s, "null"@) {
            Some(r) => Some((None, r)),
            None => None,
        }
    }
}

/// Registro de una tarea: los seis campos, en orden y completos.
pub open spec fn analizar_tarea(s: Seq<char>) -> Option<(TareaVista, Seq<char>)> {
    match tras_literal(s, "{\"id\":"@) {
        None => None,
        Some(s1) => match analizar_u32(s1) {
            None => None,
            Some((id, s2)) => match tras_literal(s2, ",\"nombre\":"@) {
                None => None,
                Some(s3) => match analizar_cadena(s3) {
                    None => None,
                    Some((nombre, s4)) => match tras_literal(s4, ",\"descripcion_detallada\":"@) {
                        None => None,
                        Some(s5) => match analizar_opc(s5) {
                            None => None,
                            Some((descripcion, s6)) => match tras_literal(
                                s6,
                                ",\"fecha_creacion\":"@,
                            ) {
                                None => None,
                                Some(s7) => match analizar_cadena(s7) {
                                    None => None,
                                    Some((fecha_creacion, s8)) => match tras_literal(
                                        s8,
                                        ",\"estado\":"@,
                                    ) {
                                        None => None,
                                        Some(s9) => match analizar_cadena(s9) {
                                            None => None,
                                            Some((estado_txt, s10)) => match estado_de(
                                                estado_txt,
                                            ) {
                                                None => None,
                                                Some(estado) => match tras_literal(
                                                    s10,
                                                    ",\"fecha_finalizacion\":"@,
                                                ) {
                                                    None => None,
                                                    Some(s11) => match analizar_opc(s11) {
                                                        None => None,
                                                        Some((fecha_finalizacion, s12)) => match tras_literal(
                                                            s12,
                                                            "}"@,
                                                        ) {
                                                            None => None,
                                                            Some(resto) => Some(
                                                                (
                                                                    TareaVista {
                                                                        id,
                                                                        nombre,
                                                                        descripcion,
                                                                        fecha_creacion,
                                                                        estado,
                                                                        fecha_finalizacion,
                                                                    },
                                                                    resto,
                                                                ),
                                                            ),
                                                        },
                                                    },
                                                },
                                            },
                                        },
                                    },
                                },
                            },
                        },
                    },
                },
            },
        },
    }
}

/// Registros separados por comas, al menos uno.
pub open spec fn analizar_lista(s: Seq<char>) -> Option<(Seq<TareaVista>, Seq<char>)>
    decreases s.len(),
{
    match analizar_tarea(s) {
        None => None,
        Some((t, r)) => if r.len() > 0 && r[0] == ',' && r.len() < s.len() {
            match analizar_lista(r.drop_first()) {
                None => None,
                Some((ts, r2)) => Some((seq![t] + ts, r2)),
            }
        } else {
            Some((seq![t], r))
        },
    }
}

/// La colección completa: corchetes que encierran exactamente los
/// registros, sin nada después.
pub open spec fn analizar_coleccion(s: Seq<char>) -> Option<Seq<TareaVista>> {
    if s.len() == 0 || s[0] != '[' {
        None
    } else {
        let s1 = s.drop_first();
        if s1.len() == 1 && s1[0] == ']' {
            Some(Seq::empty())
        } else {
            match analizar_lista(s1) {
                None => None,
                Some((ts, r)) => if r.len() == 1 && r[0] == ']' {
                    Some(ts)
                } else {
                    None
                },
            }
        }
    }
}

// ---------------------------------------------------------------------
// La lectura deshace la escritura.
// ---------------------------------------------------------------------

/// Leer un literal recién escrito lo consume entero.
proof fn lema_tras_literal(lit: Seq<char>, resto: Seq<char>)
    ensures
        tras_literal(lit + resto, lit) == Some(resto),
{
    assert((lit + resto).take(lit.len() as int) =~= lit);
    assert((lit + resto).skip(lit.len() as int) =~= resto);
}

/// Leer un cuerpo recién escrito devuelve el texto original y deja el
/// resto que sigue a la comilla de cierre.
proof fn lema_cuerpo(s: Seq<char>, resto: Seq<char>)
    ensures
        analizar_cuerpo(render_texto(s) + seq!['"'] + resto) == Some((s, resto)),
    decreases s.len(),
{
    let ent = render_texto(s) + seq!['"'] + resto;
    if s.len() == 0 {
        assert(ent =~= seq!['"'] + resto);
        assert(ent[0] == '"');
        assert(ent.drop_first() =~= resto);
    } else {
        let c = s[0];
        let s2 = s.drop_first();
        lema_cuerpo(s2, resto);
        let cola = render_texto(s2) + seq!['"'] + resto;
        assert(ent =~= escape_car(c) + cola);
        if c == '"' {
            assert(ent[0] == '\\' && ent[1] == '"');
            assert(ent.skip(2) =~= cola);
            assert(seq![ent[1]] + s2 =~= s);
        } else if c == '\\' {
            assert(ent[0] == '\\' && ent[1] == '\\');
            assert(ent.skip(2) =~= cola);
            assert(seq![ent[1]] + s2 =~= s);
        } else {
            assert(ent[0] == c);
            assert(ent.drop_first() =~= cola);
            assert(seq![ent[0]] + s2 =~= s);
        }
    }
}

/// Leer una cadena recién escrita devuelve el texto original.
proof fn lema_cadena(s: Seq<char>, resto: Seq<char>)
    ensures
        analizar_cadena(render_cadena(s) + resto) == Some((s, resto)),
{
    let ent = render_cadena(s) + resto;
    assert(ent[0] == '"');
    assert(ent.drop_first() =~= render_texto(s) + seq!['"'] + resto);
    lema_cuerpo(s, resto);
}

/// El valor de cada cifra escrita es el de partida.
proof fn lema_valor_digito(n: int)
    requires
        0 <= n <= 9,
    ensures
        es_digito(digito(n)),
        valor_digito(digito(n)) == n,
{
}

/// Un número recién escrito se consume entero, cifra a cifra, y aporta
/// su valor sobre el acumulador ya leído.
proof fn lema_consumir_render(n: int, resto: Seq<char>)
    requires
        0 <= n,
    ensures
        consumir_digitos(render_nat(n) + resto, 0) == consumir_digitos(resto, n),
    decreases n,
{
    if n < 10 {
        let ent = render_nat(n) + resto;
        lema_valor_digito(n);
        assert(ent[0] == digito(n));
        assert(ent.drop_first() =~= resto);
    } else {
        let d = digito(n % 10);
        lema_valor_digito(n % 10);
        lema_consumir_render(n / 10, seq![d] + resto);
        assert(render_nat(n) + resto =~= render_nat(n / 10) + (seq![d] + resto));
        let cola = seq![d] + resto;
        assert(cola[0] == d);
        assert(cola.drop_first() =~= resto);
        assert(consumir_digitos(cola, n / 10) == consumir_digitos(resto, (n / 10) * 10 + (n % 10)));
        assert((n / 10) * 10 + (n % 10) == n);
    }
}

/// La primera cifra de un número escrito es cifra, y solo el cero
/// empieza por cero.
proof fn lema_render_nat_inicio(n: int)
    requires
        0 <= n,
    ensures
        render_nat(n).len() >= 1,
        es_digito(render_nat(n)[0]),
        n >= 1 ==> render_nat(n)[0] != '0',
    decreases n,
{
    if n < 10 {
        lema_valor_digito(n);
    } else {
        lema_render_nat_inicio(n / 10);
        assert(render_nat(n)[0] == render_nat(n / 10)[0]);
    }
}

/// Leer un número recién escrito devuelve el valor original, si lo que
/// sigue no empieza por cifra.
proof fn lema_u32(n: u32, resto: Seq<char>)
    requires
        resto.len() == 0 || !es_digito(resto[0]),
    ensures
        analizar_u32(render_nat(n as int) + resto) == Some((n, resto)),
{
    let ent = render_nat(n as int) + resto;
    lema_render_nat_inicio(n as int);
    assert(ent[0] == render_nat(n as int)[0]);
    lema_consumir_render(n as int, resto);
    assert(consumir_digitos(resto, n as int) == (n as int, resto));
    if n == 0 {
        assert(render_nat(0) =~= seq!['0']);
        assert(ent.len() >= 2 ==> ent[1] == resto[0]);
    } else {
        assert(ent[0] != '0');
    }
}

/// Leer un campo opcional recién escrito devuelve el valor original.
proof fn lema_opc(o: Option<Seq<char>>, resto: Seq<char>)
    ensures
        analizar_opc(render_opc(o) + resto) == Some((o, resto)),
{
    reveal_strlit("null");
    match o {
        None => {
            let ent = "null"@ + resto;
            assert("null"@.len() == 4);
            assert("null"@[0] == 'n');
            assert(ent[0] == 'n');
            lema_tras_literal("null"@, resto);
        },
        Some(s) => {
            let ent = render_cadena(s) + resto;
            assert(ent[0] == '"');
            assert(ent.drop_first() =~= render_texto(s) + seq!['"'] + resto);
            lema_cuerpo(s, resto);
        },
    }
}

/// Leer un registro recién escrito devuelve la tarea original; el
/// registro mide al menos un carácter.
proof fn lema_tarea(t: TareaVista, resto: Seq<char>)
    ensures
        analizar_tarea(render_tarea(t) + resto) == Some((t, resto)),
        render_tarea(t).len() >= 1,
{
    reveal_strlit("{\"id\":");
    reveal_strlit(",\"nombre\":");
    reveal_strlit(",\"descripcion_detallada\":");
    reveal_strlit(",\"fecha_creacion\":");
    reveal_strlit(",\"estado\":");
    reveal_strlit(",\"fecha_finalizacion\":");
    reveal_strlit("}");
    let ent = render_tarea(t) + resto;
    let r12 = "}"@ + resto;
    let r11 = render_opc(t.fecha_finalizacion) + r12;
    let r10 = ",\"fecha_finalizacion\":"@ + r11;
    let r9 = render_cadena(nombre_estado(t.estado)) + r10;
    let r8 = ",\"estado\":"@ + r9;
    let r7 = render_cadena(t.fecha_creacion) + r8;
    let r6 = ",\"fecha_creacion\":"@ + r7;
    let r5 = render_opc(t.descripcion) + r6;
    let r4 = ",\"descripcion_detallada\":"@ + r5;
    let r3 = render_cadena(t.nombre) + r4;
    let r2 = ",\"nombre\":"@ + r3;
    let r1 = render_nat(t.id as int) + r2;
    assert(ent =~= "{\"id\":"@ + r1);
    lema_tras_literal("{\"id\":"@, r1);
    assert(",\"nombre\":"@.len() == 10);
    assert(",\"nombre\":"@[0] == ',');
    assert(r2[0] == ',');
    assert(!es_digito(','));
    lema_u32(t.id, r2);
    lema_tras_literal(",\"nombre\":"@, r3);
    lema_cadena(t.nombre, r4);
    lema_tras_literal(",\"descripcion_detallada\":"@, r5);
    lema_opc(t.descripcion, r6);
    lema_tras_literal(",\"fecha_creacion\":"@, r7);
    lema_cadena(t.fecha_creacion, r8);
    lema_tras_literal(",\"estado\":"@, r9);
    lema_cadena(nombre_estado(t.estado), r10);
    crate::modelos::lema_estado_de_nombre(t.estado);
    lema_tras_literal(",\"fecha_finalizacion\":"@, r11);
    lema_opc(t.fecha_finalizacion, r12);
    lema_tras_literal("}"@, resto);
    assert(analizar_tarea(ent) == Some((t, resto)));
    assert("{\"id\":"@.len() == 6);
    assert(ent.len() == render_tarea(t).len() + resto.len());
}

/// Leer una lista recién escrita devuelve las tareas originales, si lo
/// que sigue no empieza por coma.
#[verifier::rlimit(100)]
proof fn lema_lista(ts: Seq<TareaVista>, resto: Seq<char>)
    requires
        ts.len() >= 1,
        resto.len() > 0 ==> resto[0] != ',',
    ensures
        analizar_lista(render_lista(ts) + resto) == Some((ts, resto)),
    decreases ts.len(),
{
    let ent = render_lista(ts) + resto;
    if ts.len() == 1 {
        lema_tarea(ts[0], resto);
        assert(ent =~= render_tarea(ts[0]) + resto);
        assert(seq![ts[0]] =~= ts);
    } else {
        let cola = render_lista(ts.drop_first()) + resto;
        let conla = seq![','] + cola;
        assert(ent =~= render_tarea(ts[0]) + conla);
        lema_tarea(ts[0], conla);
        assert(conla[0] == ',');
        assert(conla.len() < ent.len());
        assert(conla.drop_first() =~= cola);
        lema_lista(ts.drop_first(), resto);
        assert(seq![ts[0]] + ts.drop_first() =~= ts);
    }
}

/// Ley: leer lo escrito reproduce la colección exacta, también la
/// vacía: mismos ids, nombres, descripciones, estados y fechas.
pub proof fn lema_guardar_y_cargar(ts: Seq<TareaVista>)
    ensures
        analizar_coleccion(render_coleccion(ts)) == Some(ts),
{
    let ent = render_coleccion(ts);
    if ts.len() == 0 {
        assert(ent[0] == '[');
        assert(ent.drop_first() =~= seq![']']);
    } else {
        assert(ent[0] == '[');
        let s1 = ent.drop_first();
        assert(s1 =~= render_lista(ts) + seq![']']);
        lema_lista(ts, seq![']']);
        assert(render_lista(ts).len() >= 1) by {
            lema_render_lista_largo(ts);
        }
        assert(!(s1.len() == 1 && s1[0] == ']')) by {
            if s1.len() == 1 {
                assert(render_lista(ts).len() == 0);
            }
        }
    }
}

/// Una lista escrita nunca queda vacía.
proof fn lema_render_lista_largo(ts: Seq<TareaVista>)
    requires
        ts.len() >= 1,
    ensures
        render_lista(ts).len() >= 1,
    decreases ts.len(),
{
    lema_tarea(ts[0], Seq::empty());
}

// ---------------------------------------------------------------------
// Escritura ejecutable.
// ---------------------------------------------------------------------

/// Escribir un carácter más alarga el cuerpo con su escape.
proof fn lema_render_texto_extiende(s: Seq<char>, c: char)
    ensures
        render_texto(s.push(c)) == render_texto(s) + escape_car(c),
    decreases s.len(),
{
    if s.len() == 0 {
        assert(s.push(c)[0] == c);
        assert(s.push(c).drop_first() =~= s);
        assert(render_texto(s.push(c)) == escape_car(c) + render_texto(s));
        assert(escape_car(c) + render_texto(s) =~= render_texto(s) + escape_car(c));
    } else {
        lema_render_texto_extiende(s.drop_first(), c);
        assert(s.push(c)[0] == s[0]);
        assert(s.push(c).drop_first() =~= s.drop_first().push(c));
        assert(escape_car(s[0]) + (render_texto(s.drop_first()) + escape_car(c)) =~= (escape_car(
            s[0],
        ) + render_texto(s.drop_first())) + escape_car(c));
    }
}

/// Escribir una tarea más alarga la lista con una coma y su registro.
proof fn lema_render_lista_extiende(s: Seq<TareaVista>, t: TareaVista)
    requires
        s.len() >= 1,
    ensures
        render_lista(s.push(t)) == render_lista(s) + seq![','] + render_tarea(t),
    decreases s.len(),
{
    if s.len() == 1 {
        assert(s.push(t)[0] == s[0]);
        assert(s.push(t).drop_first() =~= seq![t]);
        assert(render_lista(seq![t]) == render_tarea(seq![t][0]));
        assert(seq![t][0] == t);
    } else {
        lema_render_lista_extiende(s.drop_first(), t);
        assert(s.push(t)[0] == s[0]);
        assert(s.push(t).drop_first() =~= s.drop_first().push(t));
        assert(render_tarea(s[0]) + seq![','] + (render_lista(s.drop_first()) + seq![',']
            + render_tarea(t)) =~= (render_tarea(s[0]) + seq![','] + render_lista(s.drop_first()))
            + seq![','] + render_tarea(t));
    }
}

/// Cifra ejecutable de un valor entre 0 y 9.
fn cifra(n: u32) -> (c: char)
    requires
        n < 10,
    ensures
        c == digito(n as int),
{
    if n == 0 {
        '0'
    } else if n == 1 {
        '1'
    } else if n == 2 {
        '2'
    } else if n == 3 {
        '3'
    } else if n == 4 {
        '4'
    } else if n == 5 {
        '5'
    } else if n == 6 {
        '6'
    } else if n == 7 {
        '7'
    } else if n == 8 {
        '8'
    } else {
        '9'
    }
}

/// Añade un literal fijo al final de lo escrito.
fn escribir_literal(sal: &mut Vec<char>, lit: &str)
    ensures
        final(sal)@ == old(sal)@ + lit@,
{
    let mut l = caracteres(lit);
    sal.append(&mut l);
}

/// Añade un número en decimal al final de lo escrito.
fn escribir_nat(sal: &mut Vec<char>, n: u32)
    ensures
        final(sal)@ == old(sal)@ + render_nat(n as int),
    decreases n,
{
    if n < 10 {
        sal.push(cifra(n));
        proof {
            assert(sal@ =~= old(sal)@ + render_nat(n as int));
        }
    } else {
        escribir_nat(sal, n / 10);
        sal.push(cifra(n % 10));
        proof {
            assert(sal@ =~= old(sal)@ + render_nat(n as int));
        }
    }
}

/// Añade el cuerpo escapado de un texto al final de lo escrito.
fn escribir_texto(sal: &mut Vec<char>, s: &str)
    ensures
        final(sal)@ == old(sal)@ + render_texto(s@),
{
    let v = caracteres(s);
    proof {
        assert(v@.take(0) =~= Seq::<char>::empty());
        assert(old(sal)@ + render_texto(v@.take(0)) =~= old(sal)@);
    }
    let mut i: usize = 0;
    while i < v.len()
        invariant
            i <= v@.len(),
            v@ == s@,
            sal@ == old(sal)@ + render_texto(v@.take(i as int)),
        decreases v@.len() - i,
    {
        let c = v[i];
        proof {
            lema_render_texto_extiende(v@.take(i as int), c);
            assert(v@.take(i as int).push(c) =~= v@.take(i + 1));
        }
        if c == '"' {
            sal.push('\\');
            sal.push('"');
            proof {
                assert(sal@ =~= old(sal)@ + render_texto(v@.take(i + 1)));
            }
        } else if c == '\\' {
            sal.push('\\');
            sal.push('\\');
            proof {
                assert(sal@ =~= old(sal)@ + render_texto(v@.take(i + 1)));
            }
        } else {
            sal.push(c);
            proof {
                assert(sal@ =~= old(sal)@ + render_texto(v@.take(i + 1)));
            }
        }
        i += 1;
    }
    proof {
        assert(v@.take(v@.len() as int) =~= s@);
    }
}

/// Añade un texto entre comillas al final de lo escrito.
fn escribir_cadena(sal: &mut Vec<char>, s: &str)
    ensures
        final(sal)@ == old(sal)@ + render_cadena(s@),
{
    sal.push('"');
    escribir_texto(sal, s);
    sal.push('"');
    proof {
        assert(sal@ =~= old(sal)@ + render_cadena(s@));
    }
}

/// Añade un campo opcional al final de lo escrito.
fn escribir_opc(sal: &mut Vec<char>, o: &Option<String>)
    ensures
        final(sal)@ == old(sal)@ + render_opc(crate::modelos::vista_opcional(*o)),
{
    match o {
        None => {
            escribir_literal(sal, "null");
        },
        Some(s) => {
            escribir_cadena(sal, s.as_str());
        },
    }
}

/// Añade el registro de una tarea al final de lo escrito.
fn escribir_tarea(sal: &mut Vec<char>, t: &Tarea)
    ensures
        final(sal)@ == old(sal)@ + render_tarea(t@),
{
    escribir_literal(sal, "{\"id\":");
    escribir_nat(sal, t.id);
    escribir_literal(sal, ",\"nombre\":");
    escribir_cadena(sal, t.nombre.as_str());
    escribir_literal(sal, ",\"descripcion_detallada\":");
    escribir_opc(sal, &t.descripcion);
    escribir_literal(sal, ",\"fecha_creacion\":");
    escribir_cadena(sal, t.fecha_creacion.as_str());
    escribir_literal(sal, ",\"estado\":");
    let nombre = t.estado.nombre();
    escribir_cadena(sal, nombre.as_str());
    escribir_literal(sal, ",\"fecha_finalizacion\":");
    escribir_opc(sal, &t.fecha_finalizacion);
    escribir_literal(sal, "}");
    proof {
        assert(sal@ =~= old(sal)@ + render_tarea(t@));
    }
}

/// Escribe la colección completa en su forma de texto.
pub fn save_tasks(tareas: &Vec<Tarea>) -> (r: String)
    ensures
        r@ == render_coleccion(vistas(tareas@)),
{
    let ghost todas = vistas(tareas@);
    let mut sal: Vec<char> = Vec::new();
    sal.push('[');
    if tareas.len() > 0 {
        escribir_tarea(&mut sal, &tareas[0]);
        proof {
            assert(todas.take(1)[0] == todas[0]);
            assert(render_lista(todas.take(1)) == render_tarea(todas[0]));
            assert(sal@ =~= seq!['['] + render_lista(todas.take(1)));
        }
        let mut i: usize = 1;
        while i < tareas.len()
            invariant
                1 <= i <= tareas@.len(),
                todas == vistas(tareas@),
                todas.len() == tareas@.len(),
                sal@ == seq!['['] + render_lista(todas.take(i as int)),
            decreases tareas@.len() - i,
        {
            sal.push(',');
            escribir_tarea(&mut sal, &tareas[i]);
            proof {
                lema_render_lista_extiende(todas.take(i as int), todas[i as int]);
                assert(todas.take(i as int).push(todas[i as int]) =~= todas.take(i + 1));
                assert(sal@ =~= seq!['['] + render_lista(todas.take(i + 1)));
            }
            i += 1;
        }
        proof {
            assert(todas.take(todas.len() as int) =~= todas);
        }
    }
    sal.push(']');
    proof {
        if todas.len() == 0 {
            assert(sal@ =~= render_coleccion(todas));
        } else {
            assert(sal@ =~= render_coleccion(todas));
        }
    }
    texto_de(&sal)
}

// ---------------------------------------------------------------------
// Lectura ejecutable.
// ---------------------------------------------------------------------

/// Resultado de un cuerpo con un prefijo ya leído delante.
pub open spec fn con_prefijo(pre: Seq<char>, o: Option<(Seq<char>, Seq<char>)>) -> Option<
    (Seq<char>, Seq<char>),
> {
    match o {
        Some(p) => Some((pre + p.0, p.1)),
        None => None,
    }
}

/// Anteponer dos prefijos seguidos es anteponer su concatenación.
proof fn lema_con_prefijo(a: Seq<char>, b: Seq<char>, o: Option<(Seq<char>, Seq<char>)>)
    ensures
        con_prefijo(a, con_prefijo(b, o)) == con_prefijo(a + b, o),
{
    match o {
        Some(p) => {
            assert(a + (b + p.0) =~= (a + b) + p.0);
        },
        None => {},
    }
}

/// Anteponer el prefijo vacío no cambia nada.
proof fn lema_con_prefijo_nada(o: Option<(Seq<char>, Seq<char>)>)
    ensures
        con_prefijo(Seq::empty(), o) == o,
{
    match o {
        Some(p) => {
            assert(Seq::<char>::empty() + p.0 =~= p.0);
        },
        None => {},
    }
}

/// El carácter es una cifra decimal.
fn es_cifra(c: char) -> (r: bool)
    ensures
        r == es_digito(c),
{
    let d = c as u32;
    48 <= d && d <= 57
}

/// Lee un literal fijo en la posición dada.
fn leer_literal(v: &Vec<char>, pos: usize, lit: &Vec<char>) -> (r: Option<usize>)
    requires
        pos <= v@.len(),
    ensures
        match r {
            Some(p) => p == pos + lit@.len() && p <= v@.len() && tras_literal(
                v@.skip(pos as int),
                lit@,
            ) == Some(v@.skip(p as int)),
            None => tras_literal(v@.skip(pos as int), lit@) is None,
        },
{
    let ghost s = v@.skip(pos as int);
    if v.len() - pos < lit.len() {
        proof {
            assert(lit@.len() > s.len());
        }
        return None;
    }
    let mut j: usize = 0;
    while j < lit.len()
        invariant
            j <= lit@.len(),
            pos + lit@.len() <= v@.len(),
            v@.len() <= usize::MAX,
            s == v@.skip(pos as int),
            s.len() == v@.len() - pos,
            forall|k: int| 0 <= k < j ==> s[k] == lit@[k],
        decreases lit@.len() - j,
    {
        if v[pos + j] != lit[j] {
            proof {
                assert(s[j as int] == v@[pos + j]);
                assert(s.take(lit@.len() as int)[j as int] == s[j as int]);
                assert(s.take(lit@.len() as int) != lit@);
            }
            return None;
        }
        j += 1;
    }
    proof {
        assert(s.take(lit@.len() as int) =~= lit@);
        assert(s.skip(lit@.len() as int) =~= v@.skip(pos + lit@.len()));
    }
    Some(pos + lit.len())
}

/// Leer cifras solo hace crecer el acumulador.
proof fn lema_consumir_crece(s: Seq<char>, acc: int)
    requires
        acc >= 0,
    ensures
        consumir_digitos(s, acc).0 >= acc,
    decreases s.len(),
{
    if s.len() > 0 && es_digito(s[0]) {
        lema_consumir_crece(s.drop_first(), acc * 10 + valor_digito(s[0]));
    }
}

/// Lee un número decimal que cabe en u32.
fn leer_u32(v: &Vec<char>, pos: usize) -> (r: Option<(u32, usize)>)
    requires
        pos <= v@.len(),
    ensures
        match r {
            Some(q) => pos < q.1 <= v@.len() && analizar_u32(v@.skip(pos as int)) == Some(
                (q.0, v@.skip(q.1 as int)),
            ),
            None => analizar_u32(v@.skip(pos as int)) is None,
        },
{
    let ghost s = v@.skip(pos as int);
    if pos >= v.len() {
        return None;
    }
    let c0 = v[pos];
    proof {
        assert(s[0] == v@[pos as int]);
    }
    if !es_cifra(c0) {
        return None;
    }
    if c0 == '0' && pos + 1 < v.len() {
        if es_cifra(v[pos + 1]) {
            proof {
                assert(s[1] == v@[pos + 1]);
            }
            return None;
        }
    }
    let mut acc: u64 = c0 as u32 as u64 - 48;
    let mut p: usize = pos + 1;
    proof {
        assert(s.drop_first() =~= v@.skip(pos + 1));
        assert(consumir_digitos(s, 0) == consumir_digitos(v@.skip(pos + 1), valor_digito(c0)));
    }
    while p < v.len() && es_cifra(v[p])
        invariant
            pos < p <= v@.len(),
            s == v@.skip(pos as int),
            acc <= u32::MAX,
            consumir_digitos(s, 0) == consumir_digitos(v@.skip(p as int), acc as int),
        decreases v@.len() - p,
    {
        let d = v[p] as u32 - 48;
        let nuevo: u64 = acc * 10 + d as u64;
        proof {
            assert(v@.skip(p as int)[0] == v@[p as int]);
            assert(v@.skip(p as int).drop_first() =~= v@.skip(p + 1));
            assert(consumir_digitos(v@.skip(p as int), acc as int) == consumir_digitos(
                v@.skip(p + 1),
                nuevo as int,
            ));
        }
        if nuevo > u32::MAX as u64 {
            proof {
                lema_consumir_crece(v@.skip(p + 1), nuevo as int);
            }
            return None;
        }
        acc = nuevo;
        p += 1;
    }
    proof {
        if p < v@.len() {
            assert(v@.skip(p as int)[0] == v@[p as int]);
        }
        assert(consumir_digitos(v@.skip(p as int), acc as int) == (acc as int, v@.skip(p as int)));
    }
    Some((acc as u32, p))
}

/// Lee un cuerpo entre comillas desde la posición que sigue a la
/// comilla de apertura, deshaciendo los escapes.
fn leer_cuerpo(v: &Vec<char>, pos: usize) -> (r: Option<(Vec<char>, usize)>)
    requires
        pos <= v@.len(),
    ensures
        match r {
            Some(q) => pos < q.1 <= v@.len() && analizar_cuerpo(v@.skip(pos as int)) == Some(
                (q.0@, v@.skip(q.1 as int)),
            ),
            None => analizar_cuerpo(v@.skip(pos as int)) is None,
        },
{
    let ghost s = v@.skip(pos as int);
    let mut contenido: Vec<char> = Vec::new();
    let mut p: usize = pos;
    proof {
        lema_con_prefijo_nada(analizar_cuerpo(s));
        assert(contenido@ =~= Seq::<char>::empty());
    }
    while p < v.len()
        invariant
            pos <= p <= v@.len(),
            s == v@.skip(pos as int),
            analizar_cuerpo(s) == con_prefijo(contenido@, analizar_cuerpo(v@.skip(p as int))),
        decreases v@.len() - p,
    {
        let c = v[p];
        proof {
            assert(v@.skip(p as int)[0] == v@[p as int]);
        }
        if c == '"' {
            proof {
                assert(v@.skip(p as int).drop_first() =~= v@.skip(p + 1));
                assert(analizar_cuerpo(v@.skip(p as int)) == Some(
                    (Seq::<char>::empty(), v@.skip(p + 1)),
                ));
                assert(contenido@ + Seq::<char>::empty() =~= contenido@);
            }
            return Some((contenido, p + 1));
        } else if c == '\\' {
            if p + 1 >= v.len() {
                proof {
                    assert(v@.skip(p as int).len() == 1);
                }
                return None;
            }
            let e = v[p + 1];
            proof {
                assert(v@.skip(p as int)[1] == v@[p + 1]);
            }
            if e == '"' || e == '\\' {
                let ghost antes = contenido@;
                contenido.push(e);
                proof {
                    assert(v@.skip(p as int).skip(2) =~= v@.skip(p + 2));
                    assert(analizar_cuerpo(v@.skip(p as int)) == con_prefijo(
                        seq![e],
                        analizar_cuerpo(v@.skip(p + 2)),
                    ));
                    lema_con_prefijo(antes, seq![e], analizar_cuerpo(v@.skip(p + 2)));
                    assert(antes + seq![e] =~= contenido@);
                }
                p += 2;
            } else {
                return None;
            }
        } else {
            let ghost antes = contenido@;
            contenido.push(c);
            proof {
                assert(v@.skip(p as int).drop_first() =~= v@.skip(p + 1));
                assert(analizar_cuerpo(v@.skip(p as int)) == con_prefijo(
                    seq![c],
                    analizar_cuerpo(v@.skip(p + 1)),
                ));
                lema_con_prefijo(antes, seq![c], analizar_cuerpo(v@.skip(p + 1)));
                assert(antes + seq![c] =~= contenido@);
            }
            p += 1;
        }
    }
    proof {
        assert(v@.skip(p as int).len() == 0);
    }
    None
}

/// Lee un texto entre comillas, comilla de apertura incluida.
fn leer_cadena(v: &Vec<char>, pos: usize) -> (r: Option<(Vec<char>, usize)>)
    requires
        pos <= v@.len(),
    ensures
        match r {
            Some(q) => pos < q.1 <= v@.len() && analizar_cadena(v@.skip(pos as int)) == Some(
                (q.0@, v@.skip(q.1 as int)),
            ),
            None => analizar_cadena(v@.skip(pos as int)) is None,
        },
{
    if pos >= v.len() {
        return None;
    }
    proof {
        assert(v@.skip(pos as int)[0] == v@[pos as int]);
    }
    if v[pos] != '"' {
        return None;
    }
    proof {
        assert(v@.skip(pos as int).drop_first() =~= v@.skip(pos + 1));
    }
    leer_cuerpo(v, pos + 1)
}

/// Lee un campo de texto opcional: un texto entre comillas o null.
fn leer_opc(v: &Vec<char>, pos: usize) -> (r: Option<(Option<String>, usize)>)
    requires
        pos <= v@.len(),
    ensures
        match r {
            Some(q) => pos < q.1 <= v@.len() && analizar_opc(v@.skip(pos as int)) == Some(
                (crate::modelos::vista_opcional(q.0), v@.skip(q.1 as int)),
            ),
            None => analizar_opc(v@.skip(pos as int)) is None,
        },
{
    let ghost s = v@.skip(pos as int);
    if pos < v.len() && es_comilla(v[pos]) {
        proof {
            assert(s[0] == v@[pos as int]);
            assert(s.drop_first() =~= v@.skip(pos + 1));
        }
        match leer_cuerpo(v, pos + 1) {
            None => None,
            Some((cuerpo, p)) => Some((Some(texto_de(&cuerpo)), p)),
        }
    } else {
        proof {
            if pos < v@.len() {
                assert(s[0] == v@[pos as int]);
            }
        }
        let nulo = caracteres("null");
        proof {
            reveal_strlit("null");
            assert("null"@.len() == 4);
        }
        match leer_literal(v, pos, &nulo) {
            None => None,
            Some(p) => Some((None, p)),
        }
    }
}

/// El carácter es la comilla doble.
fn es_comilla(c: char) -> (r: bool)
    ensures
        r == (c == '"'),
{
    c == '"'
}

/// Lee el nombre de un estado entre comillas y lo reconoce.
fn leer_estado(v: &Vec<char>, pos: usize) -> (r: Option<(Estado, usize)>)
    requires
        pos <= v@.len(),
    ensures
        match r {
            Some(q) => pos < q.1 <= v@.len() && match analizar_cadena(v@.skip(pos as int)) {
                Some(par) => estado_de(par.0) == Some(q.0) && par.1 == v@.skip(q.1 as int),
                None => false,
            },
            None => match analizar_cadena(v@.skip(pos as int)) {
                Some(par) => estado_de(par.0) is None,
                None => true,
            },
        },
{
    match leer_cadena(v, pos) {
        None => None,
        Some((cuerpo, p)) => {
            if iguales(&cuerpo, &caracteres("pendiente")) {
                Some((Estado::Pendiente, p))
            } else if iguales(&cuerpo, &caracteres("en proceso")) {
                Some((Estado::EnProceso, p))
            } else if iguales(&cuerpo, &caracteres("finalizada")) {
                Some((Estado::Finalizada, p))
            } else {
                None
            }
        },
    }
}

/// Lee el registro completo de una tarea.
fn leer_tarea(v: &Vec<char>, pos: usize) -> (r: Option<(Tarea, usize)>)
    requires
        pos <= v@.len(),
    ensures
        match r {
            Some(q) => pos < q.1 <= v@.len() && analizar_tarea(v@.skip(pos as int)) == Some(
                (q.0@, v@.skip(q.1 as int)),
            ),
            None => analizar_tarea(v@.skip(pos as int)) is None,
        },
{
    let p1 = match leer_literal(v, pos, &caracteres("{\"id\":")) {
        None => {
            return None;
        },
        Some(p) => p,
    };
    proof {
        reveal_strlit("{\"id\":");
        assert("{\"id\":"@.len() == 6);
    }
    let (id, p2) = match leer_u32(v, p1) {
        None => {
            return None;
        },
        Some(q) => q,
    };
    let p3 = match leer_literal(v, p2, &caracteres(",\"nombre\":")) {
        None => {
            return None;
        },
        Some(p) => p,
    };
    let (nombre_v, p4) = match leer_cadena(v, p3) {
        None => {
            return None;
        },
        Some(q) => q,
    };
    let p5 = match leer_literal(v, p4, &caracteres(",\"descripcion_detallada\":")) {
        None => {
            return None;
        },
        Some(p) => p,
    };
    let (descripcion, p6) = match leer_opc(v, p5) {
        None => {
            return None;
        },
        Some(q) => q,
    };
    let p7 = match leer_literal(v, p6, &caracteres(",\"fecha_creacion\":")) {
        None => {
            return None;
        },
        Some(p) => p,
    };
    let (fecha_v, p8) = match leer_cadena(v, p7) {
        None => {
            return None;
        },
        Some(q) => q,
    };
    let p9 = match leer_literal(v, p8, &caracteres(",\"estado\":")) {
        None => {
            return None;
        },
        Some(p) => p,
    };
    let (estado, p10) = match leer_estado(v, p9) {
        None => {
            return None;
        },
        Some(q) => q,
    };
    let p11 = match leer_literal(v, p10, &caracteres(",\"fecha_finalizacion\":")) {
        None => {
            return None;
        },
        Some(p) => p,
    };
    let (fecha_finalizacion, p12) = match leer_opc(v, p11) {
        None => {
            return None;
        },
        Some(q) => q,
    };
    let p13 = match leer_literal(v, p12, &caracteres("}")) {
        None => {
            return None;
        },
        Some(p) => p,
    };
    let tarea = Tarea {
        id,
        nombre: texto_de(&nombre_v),
        descripcion,
        fecha_creacion: texto_de(&fecha_v),
        estado,
        fecha_finalizacion,
    };
    proof {
        assert(analizar_tarea(v@.skip(pos as int)) == Some((tarea@, v@.skip(p13 as int))));
    }
    Some((tarea, p13))
}

/// Resultado de una lista con tareas ya leídas delante.
pub open spec fn con_tareas(pre: Seq<TareaVista>, o: Option<(Seq<TareaVista>, Seq<char>)>) -> Option<
    (Seq<TareaVista>, Seq<char>),
> {
    match o {
        Some(p) => Some((pre + p.0, p.1)),
        None => None,
    }
}

/// Anteponer dos grupos seguidos es anteponer su concatenación.
proof fn lema_con_tareas(a: Seq<TareaVista>, b: Seq<TareaVista>, o: Option<
    (Seq<TareaVista>, Seq<char>),
>)
    ensures
        con_tareas(a, con_tareas(b, o)) == con_tareas(a + b, o),
{
    match o {
        Some(p) => {
            assert(a + (b + p.0) =~= (a + b) + p.0);
        },
        None => {},
    }
}

/// Anteponer el grupo vacío no cambia nada.
proof fn lema_con_tareas_nada(o: Option<(Seq<TareaVista>, Seq<char>)>)
    ensures
        con_tareas(Seq::empty(), o) == o,
{
    match o {
        Some(p) => {
            assert(Seq::<TareaVista>::empty() + p.0 =~= p.0);
        },
        None => {},
    }
}

/// Lee la colección completa desde su forma de texto. El contenido
/// vacío es la colección vacía; cualquier otro contenido que no siga el
/// formato exacto se rechaza con CargaInvalida.
pub fn load_tasks(contenido: &str) -> (r: Result<Vec<Tarea>, ErrorTarea>)
    ensures
        match r {
            Ok(ts) => (contenido@.len() == 0 && vistas(ts@) == Seq::<TareaVista>::empty())
                || analizar_coleccion(contenido@) == Some(vistas(ts@)),
            Err(e) => e is CargaInvalida && contenido@.len() > 0 && analizar_coleccion(contenido@)
                is None,
        },
{
    let v = caracteres(contenido);
    if v.len() == 0 {
        let vacia: Vec<Tarea> = Vec::new();
        proof {
            assert(vistas(vacia@) =~= Seq::<TareaVista>::empty());
        }
        return Ok(vacia);
    }
    if v[0] != '[' {
        return Err(ErrorTarea::CargaInvalida);
    }
    if v.len() == 2 && v[1] == ']' {
        let vacia: Vec<Tarea> = Vec::new();
        proof {
            assert(v@.drop_first()[0] == v@[1]);
            assert(vistas(vacia@) =~= Seq::<TareaVista>::empty());
        }
        return Ok(vacia);
    }
    proof {
        if v@.len() == 2 {
            assert(v@.drop_first()[0] == v@[1]);
        }
        assert(!(v@.drop_first().len() == 1 && v@.drop_first()[0] == ']'));
        assert(v@.drop_first() =~= v@.skip(1));
    }
    let mut ts: Vec<Tarea> = Vec::new();
    let mut pos: usize = 1;
    let mut seguir = true;
    let mut fallo = false;
    proof {
        lema_con_tareas_nada(analizar_lista(v@.skip(1)));
        assert(vistas(ts@) =~= Seq::<TareaVista>::empty());
    }
    while seguir
        invariant
            1 <= pos <= v@.len(),
            seguir ==> !fallo,
            seguir ==> analizar_lista(v@.skip(1)) == con_tareas(
                vistas(ts@),
                analizar_lista(v@.skip(pos as int)),
            ),
            !seguir && !fallo ==> analizar_lista(v@.skip(1)) == Some(
                (vistas(ts@), v@.skip(pos as int)),
            ),
            !seguir && fallo ==> analizar_lista(v@.skip(1)) is None,
        decreases v@.len() - pos, (if seguir { 1int } else { 0int }),
    {
        match leer_tarea(&v, pos) {
            None => {
                proof {
                    assert(analizar_lista(v@.skip(pos as int)) is None);
                }
                fallo = true;
                seguir = false;
            },
            Some((t, p)) => {
                let ghost tv = t@;
                let ghost pre = vistas(ts@);
                ts.push(t);
                proof {
                    assert(vistas(ts@) =~= pre.push(tv));
                    assert(pre + seq![tv] =~= vistas(ts@));
                }
                if p < v.len() && es_coma(v[p]) {
                    proof {
                        assert(v@.skip(p as int)[0] == v@[p as int]);
                        assert(v@.skip(p as int).len() < v@.skip(pos as int).len());
                        assert(v@.skip(p as int).drop_first() =~= v@.skip(p + 1));
                        assert(analizar_lista(v@.skip(pos as int)) == con_tareas(
                            seq![tv],
                            analizar_lista(v@.skip(p + 1)),
                        ));
                        lema_con_tareas(pre, seq![tv], analizar_lista(v@.skip(p + 1)));
                    }
                    pos = p + 1;
                } else {
                    proof {
                        if p < v@.len() {
                            assert(v@.skip(p as int)[0] == v@[p as int]);
                        }
                        assert(analizar_lista(v@.skip(pos as int)) == Some(
                            (seq![tv], v@.skip(p as int)),
                        ));
                        assert(con_tareas(pre, Some((seq![tv], v@.skip(p as int)))) == Some(
                            (vistas(ts@), v@.skip(p as int)),
                        ));
                    }
                    pos = p;
                    seguir = false;
                }
            },
        }
    }
    if fallo {
        return Err(ErrorTarea::CargaInvalida);
    }
    if pos == v.len() - 1 && es_corchete_cierre(v[pos]) {
        proof {
            assert(v@.skip(pos as int).len() == 1);
            assert(v@.skip(pos as int)[0] == v@[pos as int]);
            assert(analizar_coleccion(v@) == Some(vistas(ts@)));
        }
        Ok(ts)
    } else {
        proof {
            if pos < v@.len() {
                assert(v@.skip(pos as int)[0] == v@[pos as int]);
            }
        }
        Err(ErrorTarea::CargaInvalida)
    }
}

/// El carácter es la coma.
fn es_coma(c: char) -> (r: bool)
    ensures
        r == (c == ','),
{
    c == ','
}

/// El carácter es el corchete de cierre.
fn es_corchete_cierre(c: char) -> (r: bool)
    ensures
        r == (c == ']'),
{
    c == ']'
}

} // verus!
