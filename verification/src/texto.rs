//! Paso entre texto y sucesiones de caracteres.

use vstd::prelude::*;

verus! {

use vstd::std_specs::iter::IteratorSpec;

/// Los caracteres del texto, en orden, como vector.
pub fn caracteres(s: &str) -> (v: Vec<char>)
    ensures
        v@ == s@,
{
    broadcast use vstd::string::axiom_spec_iter;
    broadcast use vstd::string::next_postcondition;

    let mut it = s.chars();
    let mut v: Vec<char> = Vec::new();
    let mut fin = false;
    while !fin
        invariant
            it.obeys_prophetic_iter_laws(),
            IteratorSpec::decrease(&it) is Some,
            !fin ==> v@ + IteratorSpec::remaining(&it) == s@,
            fin ==> v@ == s@,
        decreases (if fin { 0nat } else { IteratorSpec::decrease(&it)->0 + 1 }),
    {
        match it.next() {
            None => {
                proof {
                    assert(v@ + IteratorSpec::remaining(&it) =~= v@);
                }
                fin = true;
            },
            Some(c) => {
                v.push(c);
                proof {
                    assert(v@ + IteratorSpec::remaining(&it) =~= s@);
                }
            },
        }
    }
    v
}

/// Se apoya en el impl FromIterator<char> de String de std: concatena
/// los caracteres dados, en orden.
#[verifier::external_body]
pub fn texto_de(v: &Vec<char>) -> (r: String)
    ensures
        r@ == v@,
{
    v.iter().collect()
}

/// Compara dos sucesiones de caracteres elemento a elemento.
pub fn iguales(a: &Vec<char>, b: &Vec<char>) -> (r: bool)
    ensures
        r == (a@ == b@),
{
    if a.len() != b.len() {
        proof {
            assert(a@ != b@) by {
                if a@ == b@ {
                    assert(a@.len() == b@.len());
                }
            }
        }
        return false;
    }
    let mut i: usize = 0;
    while i < a.len()
        invariant
            a@.len() == b@.len(),
            i <= a@.len(),
            forall|j: int| 0 <= j < i ==> a@[j] == b@[j],
        decreases a@.len() - i,
    {
        if a[i] != b[i] {
            return false;
        }
        i += 1;
    }
    proof {
        assert(a@ =~= b@);
    }
    true
}

} // verus!
