use vstd::prelude::*;
pub use crate::atom::Closure;
use crate::atom::{Atom, UpvalueRef, Value, view_seq, lemma_view_push};

verus! {

/// The names as sequences of characters.
pub open spec fn names_view(names: Seq<String>) -> Seq<Seq<char>> {
    names.map_values(|s: String| s@)
}

/// The first position at which `s` stands among `names`, if any.
pub open spec fn name_index(names: Seq<Seq<char>>, s: Seq<char>) -> Option<int> {
    if exists|i: int| 0 <= i < names.len() && names[i] == s {
        Some(
            choose|i: int|
                0 <= i < names.len() && names[i] == s && forall|j: int|
                    0 <= j < i ==> names[j] != s,
        )
    } else {
        None
    }
}

/// A value with every symbol named in `names` replaced by a reference to its
/// slot, in nested lists too.
pub open spec fn rewrite(v: Value, names: Seq<Seq<char>>) -> Value
    decreases v,
{
    match v {
        Value::Symbol(s) => match name_index(names, s) {
            Some(i) => Value::Upvalue(i, names[i]),
            None => v,
        },
        Value::List(l) => Value::List(rewrite_seq(l, names)),
        _ => v,
    }
}

pub open spec fn rewrite_seq(l: Seq<Value>, names: Seq<Seq<char>>) -> Seq<Value>
    decreases l,
{
    Seq::new(l.len(), |i: int| if 0 <= i < l.len() { rewrite(l[i], names) } else { Value::Nil })
}

/// The slots of a freshly compiled closure: one symbol per name.
pub open spec fn placeholders(names: Seq<Seq<char>>) -> Seq<Value> {
    Seq::new(names.len(), |i: int| Value::Symbol(names[i]))
}

/// The value in slot `i`, or `Nil` where there is none.
pub open spec fn slot(upvalues: Option<Seq<Value>>, i: int) -> Value {
    match upvalues {
        Some(u) => if 0 <= i < u.len() {
            u[i]
        } else {
            Value::Nil
        },
        None => Value::Nil,
    }
}

/// The value an atom stands for in a closure: its slot for an upvalue
/// reference, itself otherwise.
pub open spec fn resolved(c: Closure, v: Value) -> Value {
    match v {
        Value::Upvalue(i, _) => slot(c.upvalues_view(), i),
        _ => v,
    }
}

/// The first position of `s` among `names`.
fn find_name(names: &Vec<String>, s: &String) -> (r: Option<usize>)
    ensures
        match r {
            Some(i) => name_index(names_view(names@), s@) == Some(i as int) && i < names@.len(),
            None => name_index(names_view(names@), s@) is None,
        },
{
    let ghost nv = names_view(names@);
    let mut i: usize = 0;
    while i < names.len()
        invariant
            i <= names@.len(),
            nv == names_view(names@),
            forall|j: int| 0 <= j < i ==> nv[j] != s@,
        decreases names.len() - i,
    {
        if names[i] == *s {
            let ghost k = choose|k: int|
                0 <= k < nv.len() && nv[k] == s@ && forall|j: int| 0 <= j < k ==> nv[j] != s@;
            assert(0 <= i < nv.len() && nv[i as int] == s@ && forall|j: int|
                0 <= j < i ==> nv[j] != s@);
            assert(k == i);
            return Some(i);
        }
        i += 1;
    }
    None
}

/// Replaces each symbol named in `names` with a reference to its slot.
fn upvalueize_symbols(code: &Vec<Atom>, names: &Vec<String>) -> (r: Vec<Atom>)
    ensures
        view_seq(r@) == rewrite_seq(view_seq(code@), names_view(names@)),
    decreases code,
{
    let ghost nv = names_view(names@);
    let mut out: Vec<Atom> = Vec::new();
    let mut i: usize = 0;
    while i < code.len()
        invariant
            i <= code@.len(),
            nv == names_view(names@),
            view_seq(out@) == rewrite_seq(view_seq(code@), nv).take(i as int),
        decreases code.len() - i,
    {
        proof {
            assert(decreases_to!(code => code[i as int]));
        }
        let a = match &code[i] {
            Atom::Symbol(s) => match find_name(names, s) {
                Some(k) => Atom::Upvalue(UpvalueRef(k, names[k].clone())),
                None => Atom::Symbol(s.clone()),
            },
            Atom::List(l) => Atom::List(upvalueize_symbols(l, names)),
            other => other.duplicate(),
        };
        assert(a@ == rewrite(code@[i as int]@, nv));
        proof {
            lemma_view_push(out@, a);
        }
        out.push(a);
        assert(view_seq(out@) =~= rewrite_seq(view_seq(code@), nv).take(i + 1));
        i += 1;
    }
    assert(rewrite_seq(view_seq(code@), nv).take(i as int) =~= rewrite_seq(view_seq(code@), nv));
    out
}

impl Closure {
    /// Builds a closure over `code` whose parameters are `upvalue_symbols`.
    /// Without parameters the closure is thin and `code` stays as it is.
    pub fn compile(code: Vec<Atom>, upvalue_symbols: &Vec<String>) -> (r: Closure)
        ensures
            upvalue_symbols@.len() == 0 ==> r.upvalues is None && r.code_view() == view_seq(
                code@,
            ),
            upvalue_symbols@.len() > 0 ==> r.upvalues_view() == Some(
                placeholders(names_view(upvalue_symbols@)),
            ) && r.code_view() == rewrite_seq(view_seq(code@), names_view(upvalue_symbols@)),
    {
        if upvalue_symbols.len() == 0 {
            return Closure::compile_thin(code);
        }
        let ghost nv = names_view(upvalue_symbols@);
        let mut slots: Vec<Atom> = Vec::new();
        let mut i: usize = 0;
        while i < upvalue_symbols.len()
            invariant
                i <= upvalue_symbols@.len(),
                nv == names_view(upvalue_symbols@),
                view_seq(slots@) == placeholders(nv).take(i as int),
            decreases upvalue_symbols.len() - i,
        {
            let a = Atom::Symbol(upvalue_symbols[i].clone());
            proof {
                lemma_view_push(slots@, a);
            }
            slots.push(a);
            assert(view_seq(slots@) =~= placeholders(nv).take(i + 1));
            i += 1;
        }
        assert(placeholders(nv).take(i as int) =~= placeholders(nv));
        Closure { upvalues: Some(slots), code: upvalueize_symbols(&code, upvalue_symbols) }
    }

    /// A closure with no upvalue slots over `code`.
    pub fn compile_thin(code: Vec<Atom>) -> (r: Closure)
        ensures
            r.upvalues is None,
            r.code_view() == view_seq(code@),
    {
        Closure { upvalues: None, code }
    }

    /// Replaces an upvalue reference by the value of its slot; any other atom
    /// is returned as it is.
    pub fn resolve(&self, atom: Atom) -> (r: Atom)
        ensures
            r@ == resolved(*self, atom@),
    {
        match atom {
            Atom::Upvalue(upvalue_ref) => self.resolve_ref(&upvalue_ref),
            _ => atom,
        }
    }

    /// The value of the slot that `upvalue_ref` names, or `Nil` where there
    /// is no such slot.
    pub fn resolve_ref(&self, upvalue_ref: &UpvalueRef) -> (r: Atom)
        ensures
            r@ == slot(self.upvalues_view(), upvalue_ref.0 as int),
    {
        if let Some(upvalues) = &self.upvalues {
            if upvalue_ref.0 < upvalues.len() {
                return upvalues[upvalue_ref.0].duplicate();
            }
        }
        Atom::Nil
    }
}

} // verus!
