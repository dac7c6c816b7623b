use vstd::prelude::*;
use crate::atom::{NativeFunction, Value};
use crate::semantics::{
    Machine, bind, eval, eval_atom, eval_each, factors, global_call, global_name, global_or_self,
    if_call, lookup, native, resolve_each, resolve_item,
};

verus! {

/// `b` keeps every element of `a` at its position and may add more after.
pub open spec fn grows<T>(a: Seq<T>, b: Seq<T>) -> bool {
    &&& a.len() <= b.len()
    &&& forall|i: int| 0 <= i < a.len() ==> #[trigger] b[i] == a[i]
}

/// The machine `b` is `a` with bindings and printed values added, none
/// changed or taken away.
pub open spec fn extends(a: Machine, b: Machine) -> bool {
    grows(a.globals, b.globals) && grows(a.printed, b.printed)
}

/// Evaluating a call list never changes or removes a global binding, nor
/// anything printed: it can only add. In particular, calling a closure that
/// is stored in the globals leaves the stored closure as it was, so a second
/// call starts from the same value as the first.
pub proof fn lemma_eval_extends(m: Machine, ups: Option<Seq<Value>>, list: Seq<Value>, fuel: nat)
    ensures
        extends(m, eval(m, ups, list, fuel).1),
    decreases fuel, 0nat, 0nat,
{
    if list.len() > 0 && fuel > 0 {
        let params = list.subrange(1, list.len() as int);
        match global_or_self(m, list[0]) {
            Value::Closure(cu, code) => lemma_eval_extends(m, bind(cu, params), code, (fuel - 1) as nat),
            Value::Native(f) => lemma_native_extends(m, ups, f, params, (fuel - 1) as nat),
            _ => {},
        }
    }
}

/// Resolving or evaluating one atom only adds to the machine.
pub proof fn lemma_eval_atom_extends(m: Machine, ups: Option<Seq<Value>>, a: Value, fuel: nat)
    ensures
        extends(m, eval_atom(m, ups, a, fuel).1),
    decreases fuel, 2nat, 0nat,
{
    if let Value::List(l) = a {
        let (rl, m1) = resolve_each(m, ups, l, false, fuel, l.len() as nat);
        lemma_resolve_each_extends(m, ups, l, false, fuel, l.len() as nat);
        lemma_eval_extends(m1, ups, rl, fuel);
    }
}

proof fn lemma_resolve_item_extends(
    m: Machine,
    ups: Option<Seq<Value>>,
    a: Value,
    each: bool,
    fuel: nat,
)
    ensures
        extends(m, resolve_item(m, ups, a, each, fuel).1),
    decreases fuel, 1nat, 0nat,
{
    if let Value::List(l) = a {
        if each && fuel > 0 {
            let (rl, m1) = resolve_each(m, ups, l, true, (fuel - 1) as nat, l.len() as nat);
            lemma_resolve_each_extends(m, ups, l, true, (fuel - 1) as nat, l.len() as nat);
            lemma_eval_extends(m1, ups, rl, (fuel - 1) as nat);
        }
    }
}

/// Resolving parameters in order only adds to the machine.
pub proof fn lemma_resolve_each_extends(
    m: Machine,
    ups: Option<Seq<Value>>,
    l: Seq<Value>,
    each: bool,
    fuel: nat,
    n: nat,
)
    ensures
        extends(m, resolve_each(m, ups, l, each, fuel, n).1),
    decreases fuel, 1nat, n,
{
    if n > 0 && n <= l.len() {
        let (prev, m1) = resolve_each(m, ups, l, each, fuel, (n - 1) as nat);
        lemma_resolve_each_extends(m, ups, l, each, fuel, (n - 1) as nat);
        lemma_resolve_item_extends(m1, ups, l[n - 1], each, fuel);
    }
}

proof fn lemma_eval_each_extends(
    m: Machine,
    ups: Option<Seq<Value>>,
    l: Seq<Value>,
    fuel: nat,
    n: nat,
)
    ensures
        extends(m, eval_each(m, ups, l, fuel, n).1),
    decreases fuel, 1nat, n,
{
    if n > 0 && n <= l.len() {
        let (prev, m1) = eval_each(m, ups, l, fuel, (n - 1) as nat);
        lemma_eval_each_extends(m, ups, l, fuel, (n - 1) as nat);
        if let Value::List(sub) = l[n - 1] {
            lemma_eval_extends(m1, ups, sub, fuel);
        }
    }
}

proof fn lemma_factors_extends(
    m: Machine,
    ups: Option<Seq<Value>>,
    l: Seq<Value>,
    fuel: nat,
    n: nat,
)
    ensures
        extends(m, factors(m, ups, l, fuel, n).1),
    decreases fuel, 1nat, n,
{
    if n > 0 && n <= l.len() {
        let (prev, m1) = factors(m, ups, l, fuel, (n - 1) as nat);
        lemma_factors_extends(m, ups, l, fuel, (n - 1) as nat);
        if let Value::List(sub) = l[n - 1] {
            lemma_eval_extends(m1, ups, sub, fuel);
        }
    }
}

/// A call of a builtin only adds to the machine.
pub proof fn lemma_native_extends(
    m: Machine,
    ups: Option<Seq<Value>>,
    f: NativeFunction,
    p: Seq<Value>,
    fuel: nat,
)
    ensures
        extends(m, native(m, ups, f, p, fuel).1),
    decreases fuel, 4nat, 0nat,
{
    match f {
        NativeFunction::If => lemma_if_extends(m, ups, p, fuel),
        NativeFunction::Lambda => {
            lemma_resolve_each_extends(m, ups, p, false, fuel, p.len() as nat);
        },
        NativeFunction::Print | NativeFunction::Sum | NativeFunction::Eq => {
            lemma_resolve_each_extends(m, ups, p, true, fuel, p.len() as nat);
        },
        NativeFunction::Type | NativeFunction::Resolve => {
            lemma_resolve_each_extends(m, ups, p, false, fuel, p.len() as nat);
        },
        NativeFunction::Eval => {
            lemma_eval_each_extends(m, ups, p, fuel, p.len() as nat);
        },
        NativeFunction::Product => {
            let (r, m1) = resolve_each(m, ups, p, true, fuel, p.len() as nat);
            lemma_resolve_each_extends(m, ups, p, true, fuel, p.len() as nat);
            lemma_factors_extends(m1, ups, r, fuel, r.len() as nat);
        },
        NativeFunction::Global => lemma_global_extends(m, ups, p, fuel),
        NativeFunction::Neg => {
            lemma_eval_atom_extends(
                m,
                ups,
                if p.len() > 0 {
                    p[0]
                } else {
                    Value::Nil
                },
                fuel,
            );
        },
        _ => {},
    }
}

proof fn lemma_if_extends(m: Machine, ups: Option<Seq<Value>>, p: Seq<Value>, fuel: nat)
    ensures
        extends(m, if_call(m, ups, p, fuel).1),
    decreases fuel, 3nat, 0nat,
{
    if p.len() > 0 {
        let (c, m1) = eval_atom(m, ups, p[0], fuel);
        lemma_eval_atom_extends(m, ups, p[0], fuel);
        if let Ok(cv) = c {
            let k: int = if cv == Value::Bool(false) || cv == Value::Nil {
                2
            } else {
                1
            };
            if k < p.len() {
                lemma_eval_atom_extends(m1, ups, p[k], fuel);
            }
        }
    }
}

proof fn lemma_global_extends(m: Machine, ups: Option<Seq<Value>>, p: Seq<Value>, fuel: nat)
    ensures
        extends(m, global_call(m, ups, p, fuel).1),
    decreases fuel, 3nat, 0nat,
{
    if global_name(ups, p) is Some && p.len() >= 2 {
        lemma_eval_atom_extends(m, ups, p[1], fuel);
    }
}


/// Bindings added after `a` under other names leave the value of `name` as
/// it was.
pub proof fn lemma_lookup_unchanged(
    a: Seq<(Seq<char>, Value)>,
    b: Seq<(Seq<char>, Value)>,
    name: Seq<char>,
)
    requires
        grows(a, b),
        forall|i: int| a.len() <= i < b.len() ==> (#[trigger] b[i]).0 != name,
    ensures
        lookup(b, name) == lookup(a, name),
    decreases b.len(),
{
    if b.len() == a.len() {
        assert(b =~= a);
    } else {
        assert(b.last() == b[b.len() - 1]);
        lemma_lookup_unchanged(a, b.drop_last(), name);
    }
}

/// A global binding survives any evaluation that does not bind its name
/// again: a closure stored under a name is the same value before and after
/// it is called, so each call starts from fresh slots.
pub proof fn lemma_binding_survives(
    m: Machine,
    ups: Option<Seq<Value>>,
    list: Seq<Value>,
    fuel: nat,
    name: Seq<char>,
)
    requires
        forall|i: int|
            m.globals.len() <= i < eval(m, ups, list, fuel).1.globals.len() ==> (#[trigger] eval(
                m,
                ups,
                list,
                fuel,
            ).1.globals[i]).0 != name,
    ensures
        lookup(eval(m, ups, list, fuel).1.globals, name) == lookup(m.globals, name),
{
    lemma_eval_extends(m, ups, list, fuel);
    lemma_lookup_unchanged(m.globals, eval(m, ups, list, fuel).1.globals, name);
}

} // verus!
