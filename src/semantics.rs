use vstd::prelude::*;
use crate::atom::{NativeFunction, Value, VmError, kind_name, SCALE};
use crate::closure::{placeholders, rewrite_seq, slot};

verus! {

/// The machine's state: the global bindings, in the order they were made
/// (a later binding of a name hides the earlier ones), and what the printing
/// primitives have emitted.
pub struct Machine {
    pub globals: Seq<(Seq<char>, Value)>,
    pub printed: Seq<Value>,
}

/// What an evaluation yields, with the machine state after it.
pub type Outcome = (Result<Value, VmError>, Machine);

/// The value globally bound to `name`: its latest binding.
pub open spec fn lookup(globals: Seq<(Seq<char>, Value)>, name: Seq<char>) -> Option<Value>
    decreases globals.len(),
{
    if globals.len() == 0 {
        None
    } else if globals.last().0 == name {
        Some(globals.last().1)
    } else {
        lookup(globals.drop_last(), name)
    }
}

pub open spec fn bind_global(m: Machine, name: Seq<char>, v: Value) -> Machine {
    Machine { globals: m.globals.push((name, v)), printed: m.printed }
}

pub open spec fn emit(m: Machine, v: Value) -> Machine {
    Machine { globals: m.globals, printed: m.printed.push(v) }
}

/// A symbol's global value, or the symbol itself where it is unbound.
pub open spec fn global_or_self(m: Machine, v: Value) -> Value {
    match v {
        Value::Symbol(s) => match lookup(m.globals, s) {
            Some(g) => g,
            None => v,
        },
        _ => v,
    }
}

/// An upvalue reference replaced by its slot in `ups`.
pub open spec fn resolve_in(ups: Option<Seq<Value>>, v: Value) -> Value {
    match v {
        Value::Upvalue(i, _) => slot(ups, i),
        _ => v,
    }
}

/// The slots of a closure called with `params`: each slot that has a
/// parameter at its position takes it, unevaluated.
pub open spec fn bind(ups: Option<Seq<Value>>, params: Seq<Value>) -> Option<Seq<Value>> {
    match ups {
        Some(u) => Some(
            Seq::new(u.len(), |i: int| if i < params.len() { params[i] } else { u[i] }),
        ),
        None => None,
    }
}

pub open spec fn error_atom(r: Result<Value, VmError>) -> Value {
    match r {
        Ok(v) => v,
        Err(e) => Value::Error(e),
    }
}

pub open spec fn is_list(v: Value) -> bool {
    v is List
}

pub open spec fn clamp(x: int) -> i64 {
    if x > i64::MAX {
        i64::MAX
    } else if x < i64::MIN {
        i64::MIN
    } else {
        x as i64
    }
}

/// The number an atom counts as in arithmetic: anything else counts as zero.
pub open spec fn num_of(v: Value) -> int {
    match v {
        Value::Number(n) => n,
        _ => 0,
    }
}

pub open spec fn abs(x: int) -> int {
    if x < 0 {
        -x
    } else {
        x
    }
}

/// The fixed-point product, truncated toward zero and saturated.
pub open spec fn fix_mul(a: int, b: int) -> i64 {
    let m = (abs(a) * abs(b)) / (SCALE as int);
    clamp(if (a < 0) != (b < 0) { -m } else { m })
}

pub open spec fn neg_fixed(n: int) -> i64 {
    clamp(-n)
}

/// The saturated sum of the first `n` values, counted as numbers.
pub open spec fn sum_of(p: Seq<Value>, n: int) -> i64
    decreases n,
{
    if n <= 0 {
        0
    } else {
        clamp(sum_of(p, n - 1) + num_of(p[n - 1]))
    }
}

/// The product fold of the first `n` values, seeded with zero.
pub open spec fn product_of(p: Seq<Value>, n: int) -> i64
    decreases n,
{
    if n <= 0 {
        0
    } else {
        fix_mul(product_of(p, n - 1) as int, num_of(p[n - 1]))
    }
}

/// Whether all values equal the first one.
pub open spec fn all_equal(p: Seq<Value>) -> bool {
    forall|i: int| 1 <= i < p.len() ==> crate::atom::value_eq(p[0], #[trigger] p[i])
}

/// Every upvalue reference replaced by its slot, inside nested lists too.
pub open spec fn resolve_upvalues(ups: Option<Seq<Value>>, l: Seq<Value>) -> Seq<Value>
    decreases l,
{
    Seq::new(
        l.len(),
        |i: int|
            if 0 <= i < l.len() {
                match l[i] {
                    Value::List(sub) => Value::List(resolve_upvalues(ups, sub)),
                    v => resolve_in(ups, v),
                }
            } else {
                Value::Nil
            },
    )
}

/// The closure value that compiling `code` over `names` gives.
pub open spec fn compiled(code: Seq<Value>, names: Seq<Seq<char>>) -> Value {
    if names.len() == 0 {
        Value::Closure(None, code)
    } else {
        Value::Closure(Some(placeholders(names)), rewrite_seq(code, names))
    }
}

pub open spec fn symbol_names(l: Seq<Value>) -> Seq<Seq<char>> {
    Seq::new(
        l.len(),
        |i: int|
            match l[i] {
                Value::Symbol(s) => s,
                _ => Seq::empty(),
            },
    )
}

/// Evaluating a call list.
pub open spec fn eval(m: Machine, ups: Option<Seq<Value>>, list: Seq<Value>, fuel: nat) -> Outcome
    decreases fuel, 0nat, 0nat,
{
    if list.len() == 0 {
        (Err(VmError::NonEvaluable), m)
    } else if fuel == 0 {
        (Err(VmError::TooDeep), m)
    } else {
        let params = list.subrange(1, list.len() as int);
        match global_or_self(m, list[0]) {
            Value::Closure(cu, code) => eval(m, bind(cu, params), code, (fuel - 1) as nat),
            Value::Native(f) => native(m, ups, f, params, (fuel - 1) as nat),
            _ => (Err(VmError::NotAFunction), m),
        }
    }
}

/// Resolving, or evaluating, one atom: a list is resolved and called, a
/// symbol takes its global value, an upvalue its slot.
pub open spec fn eval_atom(m: Machine, ups: Option<Seq<Value>>, a: Value, fuel: nat) -> Outcome
    decreases fuel, 2nat, 0nat,
{
    match a {
        Value::List(l) => {
            let (rl, m1) = resolve_each(m, ups, l, false, fuel, l.len() as nat);
            eval(m1, ups, rl, fuel)
        },
        Value::Symbol(_) => (Ok(global_or_self(m, a)), m),
        Value::Upvalue(i, _) => (Ok(slot(ups, i)), m),
        _ => (Ok(a), m),
    }
}

/// Resolving one parameter; with `each`, a list is resolved and called, and
/// an error it raises becomes an error atom.
pub open spec fn resolve_item(
    m: Machine,
    ups: Option<Seq<Value>>,
    a: Value,
    each: bool,
    fuel: nat,
) -> (Value, Machine)
    decreases fuel, 1nat, 0nat,
{
    match a {
        Value::List(l) => if each {
            if fuel == 0 {
                (Value::Error(VmError::TooDeep), m)
            } else {
                let (rl, m1) = resolve_each(m, ups, l, true, (fuel - 1) as nat, l.len() as nat);
                let (r, m2) = eval(m1, ups, rl, (fuel - 1) as nat);
                (error_atom(r), m2)
            }
        } else {
            (a, m)
        },
        Value::Upvalue(i, _) => (slot(ups, i), m),
        Value::Symbol(_) => (global_or_self(m, a), m),
        _ => (a, m),
    }
}

/// Resolving the first `n` parameters in order.
pub open spec fn resolve_each(
    m: Machine,
    ups: Option<Seq<Value>>,
    l: Seq<Value>,
    each: bool,
    fuel: nat,
    n: nat,
) -> (Seq<Value>, Machine)
    decreases fuel, 1nat, n,
{
    if n == 0 || n > l.len() {
        (Seq::empty(), m)
    } else {
        let (prev, m1) = resolve_each(m, ups, l, each, fuel, (n - 1) as nat);
        let (v, m2) = resolve_item(m1, ups, l[n - 1], each, fuel);
        (prev.push(v), m2)
    }
}

/// Calling each of the first `n` lists, errors becoming error atoms.
pub open spec fn eval_each(
    m: Machine,
    ups: Option<Seq<Value>>,
    l: Seq<Value>,
    fuel: nat,
    n: nat,
) -> (Seq<Value>, Machine)
    decreases fuel, 1nat, n,
{
    if n == 0 || n > l.len() {
        (Seq::empty(), m)
    } else {
        let (prev, m1) = eval_each(m, ups, l, fuel, (n - 1) as nat);
        match l[n - 1] {
            Value::List(sub) => {
                let (r, m2) = eval(m1, ups, sub, fuel);
                (prev.push(error_atom(r)), m2)
            },
            v => (prev.push(Value::Error(VmError::InvalidUsage)), m1),
        }
    }
}

/// The factors of a product: a list left after resolution is called again,
/// an error giving `Nil`.
pub open spec fn factors(
    m: Machine,
    ups: Option<Seq<Value>>,
    l: Seq<Value>,
    fuel: nat,
    n: nat,
) -> (Seq<Value>, Machine)
    decreases fuel, 1nat, n,
{
    if n == 0 || n > l.len() {
        (Seq::empty(), m)
    } else {
        let (prev, m1) = factors(m, ups, l, fuel, (n - 1) as nat);
        match l[n - 1] {
            Value::List(sub) => {
                let (r, m2) = eval(m1, ups, sub, fuel);
                (
                    prev.push(
                        match r {
                            Ok(v) => v,
                            Err(_) => Value::Nil,
                        },
                    ),
                    m2,
                )
            },
            v => (prev.push(v), m1),
        }
    }
}

/// Dispatching a call to a builtin.
pub open spec fn native(
    m: Machine,
    ups: Option<Seq<Value>>,
    f: NativeFunction,
    p: Seq<Value>,
    fuel: nat,
) -> Outcome
    decreases fuel, 4nat, 0nat,
{
    match f {
        NativeFunction::If => if_call(m, ups, p, fuel),
        NativeFunction::Lambda => lambda_call(m, ups, p, fuel),
        NativeFunction::Quote => (Ok(Value::List(p)), m),
        NativeFunction::Printd => (Ok(Value::Nil), emit(m, Value::List(p))),
        NativeFunction::Print => {
            let (r, m1) = resolve_each(m, ups, p, true, fuel, p.len() as nat);
            (Ok(Value::Nil), emit(m1, Value::List(r)))
        },
        NativeFunction::Eval => if exists|i: int| 0 <= i < p.len() && !is_list(#[trigger] p[i]) {
            (Err(VmError::InvalidUsage), m)
        } else {
            let (r, m1) = eval_each(m, ups, p, fuel, p.len() as nat);
            (Ok(Value::List(r)), m1)
        },
        NativeFunction::Type => {
            let (r, m1) = resolve_each(m, ups, p, false, fuel, p.len() as nat);
            (Ok(Value::List(Seq::new(r.len(), |i: int| Value::Str(kind_name(r[i]))))), m1)
        },
        NativeFunction::Global => global_call(m, ups, p, fuel),
        NativeFunction::Resolve => {
            let (r, m1) = resolve_each(m, ups, p, false, fuel, p.len() as nat);
            (Ok(Value::List(r)), m1)
        },
        NativeFunction::Sum => {
            let (r, m1) = resolve_each(m, ups, p, true, fuel, p.len() as nat);
            (Ok(Value::Number(sum_of(r, r.len() as int) as int)), m1)
        },
        NativeFunction::Product => {
            let (r, m1) = resolve_each(m, ups, p, true, fuel, p.len() as nat);
            let (f2, m2) = factors(m1, ups, r, fuel, r.len() as nat);
            (Ok(Value::Number(product_of(f2, f2.len() as int) as int)), m2)
        },
        NativeFunction::Eq => {
            let (r, m1) = resolve_each(m, ups, p, true, fuel, p.len() as nat);
            (Ok(Value::Bool(all_equal(r))), m1)
        },
        NativeFunction::Neg => {
            let (r, m1) = eval_atom(
                m,
                ups,
                if p.len() > 0 {
                    p[0]
                } else {
                    Value::Nil
                },
                fuel,
            );
            match r {
                Ok(Value::Number(n)) => (Ok(Value::Number(neg_fixed(n) as int)), m1),
                _ => (r, m1),
            }
        },
        NativeFunction::MapEach => (Ok(Value::Nil), m),
    }
}

/// `if`: the condition is evaluated; `false` and `nil` are falsy; the chosen
/// branch, where present, is evaluated.
pub open spec fn if_call(m: Machine, ups: Option<Seq<Value>>, p: Seq<Value>, fuel: nat) -> Outcome
    decreases fuel, 3nat, 0nat,
{
    if p.len() == 0 {
        (Err(VmError::InvalidUsage), m)
    } else {
        let (c, m1) = eval_atom(m, ups, p[0], fuel);
        match c {
            Err(e) => (Err(e), m1),
            Ok(cv) => {
                let k: int = if cv == Value::Bool(false) || cv == Value::Nil {
                    2
                } else {
                    1
                };
                if k < p.len() {
                    eval_atom(m1, ups, p[k], fuel)
                } else {
                    (Ok(Value::Nil), m1)
                }
            },
        }
    }
}

/// `lambda`: a list of parameter symbols and a body, both resolved; the
/// body's upvalues are taken from the current context before compiling.
pub open spec fn lambda_call(
    m: Machine,
    ups: Option<Seq<Value>>,
    p: Seq<Value>,
    fuel: nat,
) -> Outcome
    decreases fuel, 3nat, 0nat,
{
    let (r, m1) = resolve_each(m, ups, p, false, fuel, p.len() as nat);
    if r.len() < 2 {
        (Err(VmError::InvalidUsage), m1)
    } else {
        match (r[0], r[1]) {
            (Value::List(names), Value::List(source)) => if exists|i: int|
                0 <= i < names.len() && !(#[trigger] names[i] is Symbol) {
                (Err(VmError::InvalidUsage), m1)
            } else {
                (Ok(compiled(resolve_upvalues(ups, source), symbol_names(names))), m1)
            },
            _ => (Err(VmError::InvalidUsage), m1),
        }
    }
}

/// The name that `global` binds: a symbol, or an upvalue holding one.
pub open spec fn global_name(ups: Option<Seq<Value>>, p: Seq<Value>) -> Option<Seq<char>> {
    if p.len() == 0 {
        None
    } else {
        match p[0] {
            Value::Symbol(s) => Some(s),
            Value::Upvalue(i, _) => match slot(ups, i) {
                Value::Symbol(s) => Some(s),
                _ => None,
            },
            _ => None,
        }
    }
}

/// `global`: binds a name to the value of its second parameter.
pub open spec fn global_call(m: Machine, ups: Option<Seq<Value>>, p: Seq<Value>, fuel: nat) -> Outcome
    decreases fuel, 3nat, 0nat,
{
    match global_name(ups, p) {
        None => (Err(VmError::NotASymbol), m),
        Some(name) => if p.len() < 2 {
            (Err(VmError::InvalidUsage), m)
        } else {
            let (r, m1) = eval_atom(m, ups, p[1], fuel);
            match r {
                Ok(v) => (Ok(Value::Nil), bind_global(m1, name, v)),
                Err(e) => (Err(e), m1),
            }
        },
    }
}

} // verus!
