use vstd::prelude::*;
use crate::atom::{
    Atom, Closure, NativeFunction, Value, VmError, view_seq, lemma_view_push, kind_name, SCALE,
};
use crate::closure::{names_view, slot};
use crate::semantics::{
    Machine, abs, all_equal, bind_global, clamp, compiled, emit, error_atom, eval, eval_atom,
    eval_each, factors, fix_mul, global_call, global_name, if_call, is_list, lambda_call, native,
    neg_fixed, num_of, product_of, resolve_each, resolve_in, resolve_item, sum_of, symbol_names,
};
use crate::vm::{NlispVm, res_view};

verus! {

/// A copy of each atom of a slice.
fn copy_slice(v: &[Atom]) -> (r: Vec<Atom>)
    ensures
        view_seq(r@) == view_seq(v@),
{
    let mut r: Vec<Atom> = Vec::new();
    let mut i: usize = 0;
    while i < v.len()
        invariant
            i <= v@.len(),
            view_seq(r@) == view_seq(v@).take(i as int),
        decreases v.len() - i,
    {
        let a = v[i].duplicate();
        proof {
            lemma_view_push(r@, a);
        }
        r.push(a);
        assert(view_seq(r@) =~= view_seq(v@).take(i + 1));
        i += 1;
    }
    assert(view_seq(v@).take(i as int) =~= view_seq(v@));
    r
}

/// Replaces every upvalue reference of `list`, in nested lists too, by its
/// slot in `context`.
fn resolve_upvalues(context: &Closure, list: &Vec<Atom>) -> (r: Vec<Atom>)
    ensures
        view_seq(r@) == crate::semantics::resolve_upvalues(context.upvalues_view(), view_seq(list@)),
    decreases list,
{
    let ghost target = crate::semantics::resolve_upvalues(context.upvalues_view(), view_seq(list@));
    let mut r: Vec<Atom> = Vec::new();
    let mut i: usize = 0;
    while i < list.len()
        invariant
            i <= list@.len(),
            target == crate::semantics::resolve_upvalues(context.upvalues_view(), view_seq(list@)),
            view_seq(r@) == target.take(i as int),
        decreases list.len() - i,
    {
        proof {
            assert(decreases_to!(list => list[i as int]));
        }
        let a = match &list[i] {
            Atom::List(sub) => Atom::List(resolve_upvalues(context, sub)),
            other => context.resolve(other.duplicate()),
        };
        proof {
            lemma_view_push(r@, a);
        }
        r.push(a);
        assert(view_seq(r@) =~= target.take(i + 1));
        i += 1;
    }
    assert(target.take(i as int) =~= target);
    r
}

/// Resolves one parameter; with `each`, a list is resolved and called, an
/// error it raises becoming an error atom.
fn resolve_one(vm: &mut NlispVm, context: &Closure, atom: &Atom, each: bool, fuel: u64) -> (r:
    Atom)
    ensures
        (r@, final(vm).model()) == resolve_item(
            old(vm).model(),
            context.upvalues_view(),
            atom@,
            each,
            fuel as nat,
        ),
    decreases fuel, 0nat,
{
    match atom {
        Atom::List(list) => {
            if each {
                if fuel == 0 {
                    Atom::Error(VmError::TooDeep)
                } else {
                    let resolved = resolve_classic(vm, context, list.as_slice(), true, fuel - 1);
                    match vm.evaluate_within(context, resolved.as_slice(), fuel - 1) {
                        Ok(a) => a,
                        Err(e) => Atom::Error(e),
                    }
                }
            } else {
                atom.duplicate()
            }
        },
        Atom::Upvalue(upvalue_ref) => context.resolve_ref(upvalue_ref),
        Atom::Symbol(symbol) => match vm.resolve(symbol) {
            Some(a) => a,
            None => atom.duplicate(),
        },
        _ => atom.duplicate(),
    }
}

/// Resolves each parameter in order: upvalues from the context, symbols
/// from the globals, and with `each` nested lists are called.
fn resolve_classic(vm: &mut NlispVm, context: &Closure, param: &[Atom], each: bool, fuel: u64) -> (r:
    Vec<Atom>)
    ensures
        (view_seq(r@), final(vm).model()) == resolve_each(
            old(vm).model(),
            context.upvalues_view(),
            view_seq(param@),
            each,
            fuel as nat,
            param@.len(),
        ),
    decreases fuel, 1nat,
{
    let ghost m0 = vm.model();
    let ghost ups = context.upvalues_view();
    let ghost p = view_seq(param@);
    let mut r: Vec<Atom> = Vec::new();
    let mut i: usize = 0;
    assert(view_seq(r@) =~= Seq::<Value>::empty());
    while i < param.len()
        invariant
            i <= param@.len(),
            m0 == old(vm).model(),
            ups == context.upvalues_view(),
            p == view_seq(param@),
            (view_seq(r@), vm.model()) == resolve_each(m0, ups, p, each, fuel as nat, i as nat),
        decreases param.len() - i,
    {
        let a = resolve_one(vm, context, &param[i], each, fuel);
        proof {
            lemma_view_push(r@, a);
        }
        r.push(a);
        i += 1;
    }
    r
}

/// Resolves or evaluates one atom: a list is resolved and called, a symbol
/// takes its global value, an upvalue its slot; anything else is kept.
fn evaluate_atom(vm: &mut NlispVm, context: &Closure, atom: &Atom, fuel: u64) -> (r: Result<
    Atom,
    VmError,
>)
    ensures
        (res_view(r), final(vm).model()) == eval_atom(
            old(vm).model(),
            context.upvalues_view(),
            atom@,
            fuel as nat,
        ),
    decreases fuel, 2nat,
{
    match atom {
        Atom::List(list) => {
            let resolved = resolve_classic(vm, context, list.as_slice(), false, fuel);
            vm.evaluate_within(context, resolved.as_slice(), fuel)
        },
        Atom::Symbol(symbol) => match vm.resolve(symbol) {
            Some(a) => Ok(a),
            None => Ok(atom.duplicate()),
        },
        Atom::Upvalue(upvalue_ref) => Ok(context.resolve_ref(upvalue_ref)),
        _ => Ok(atom.duplicate()),
    }
}

/// Dispatches a call to the builtin `f` with raw parameters.
pub fn call_native(
    vm: &mut NlispVm,
    context: &Closure,
    f: NativeFunction,
    param: &[Atom],
    fuel: u64,
) -> (r: Result<Atom, VmError>)
    ensures
        (res_view(r), final(vm).model()) == native(
            old(vm).model(),
            context.upvalues_view(),
            f,
            view_seq(param@),
            fuel as nat,
        ),
    decreases fuel, 4nat,
{
    match f {
        NativeFunction::If => if_function(vm, context, param, fuel),
        NativeFunction::Lambda => lambda_function(vm, context, param, fuel),
        NativeFunction::Quote => quote_function(vm, context, param, fuel),
        NativeFunction::Printd => printd_function(vm, context, param, fuel),
        NativeFunction::Print => print_function(vm, context, param, fuel),
        NativeFunction::Eval => eval_function(vm, context, param, fuel),
        NativeFunction::Type => type_function(vm, context, param, fuel),
        NativeFunction::Global => global_function(vm, context, param, fuel),
        NativeFunction::Resolve => resolve_function(vm, context, param, fuel),
        NativeFunction::Sum => sum_function(vm, context, param, fuel),
        NativeFunction::Product => product_function(vm, context, param, fuel),
        NativeFunction::Eq => eq_function(vm, context, param, fuel),
        NativeFunction::Neg => neg_function(vm, context, param, fuel),
        NativeFunction::MapEach => map_function(vm, context, param, fuel),
    }
}

/// `(if cond then else)`: evaluates the condition, then only the branch it
/// selects; a missing branch gives `Nil`.
pub fn if_function(vm: &mut NlispVm, context: &Closure, param: &[Atom], fuel: u64) -> (r: Result<
    Atom,
    VmError,
>)
    ensures
        (res_view(r), final(vm).model()) == if_call(
            old(vm).model(),
            context.upvalues_view(),
            view_seq(param@),
            fuel as nat,
        ),
    decreases fuel, 3nat,
{
    if param.len() == 0 {
        return Err(VmError::InvalidUsage);
    }
    let cond = match evaluate_atom(vm, context, &param[0], fuel) {
        Ok(a) => a,
        Err(e) => {
            return Err(e);
        },
    };
    let k: usize = match cond {
        Atom::Bool(false) | Atom::Nil => 2,
        _ => 1,
    };
    assert((k == 2) == (cond@ == Value::Bool(false) || cond@ == Value::Nil));
    if k < param.len() {
        evaluate_atom(vm, context, &param[k], fuel)
    } else {
        Ok(Atom::Nil)
    }
}

/// `(printd ...)`: records the raw parameters as printed.
pub fn printd_function(vm: &mut NlispVm, context: &Closure, param: &[Atom], fuel: u64) -> (r:
    Result<Atom, VmError>)
    ensures
        r is Ok && r->Ok_0@ == Value::Nil,
        final(vm).model() == emit(old(vm).model(), Value::List(view_seq(param@))),
{
    let l = Atom::List(copy_slice(param));
    proof {
        lemma_view_push(vm.printed@, l);
    }
    vm.printed.push(l);
    Ok(Atom::Nil)
}

/// `(print ...)`: records the resolved, evaluated parameters as printed.
pub fn print_function(vm: &mut NlispVm, context: &Closure, param: &[Atom], fuel: u64) -> (r:
    Result<Atom, VmError>)
    ensures
        (res_view(r), final(vm).model()) == native(
            old(vm).model(),
            context.upvalues_view(),
            NativeFunction::Print,
            view_seq(param@),
            fuel as nat,
        ),
    decreases fuel, 3nat,
{
    let resolved = resolve_classic(vm, context, param, true, fuel);
    let l = Atom::List(resolved);
    proof {
        lemma_view_push(vm.printed@, l);
    }
    vm.printed.push(l);
    Ok(Atom::Nil)
}

/// `(quote ...)`: the parameters as a list, neither resolved nor evaluated.
pub fn quote_function(vm: &mut NlispVm, context: &Closure, param: &[Atom], fuel: u64) -> (r:
    Result<Atom, VmError>)
    ensures
        r is Ok && r->Ok_0@ == Value::List(view_seq(param@)),
        final(vm).model() == old(vm).model(),
{
    Ok(Atom::List(copy_slice(param)))
}

/// `(lambda (names...) (body...))`: a closure over the body whose
/// parameters are the names; the body's upvalue references are first taken
/// from the current context.
pub fn lambda_function(vm: &mut NlispVm, context: &Closure, param: &[Atom], fuel: u64) -> (r:
    Result<Atom, VmError>)
    ensures
        (res_view(r), final(vm).model()) == lambda_call(
            old(vm).model(),
            context.upvalues_view(),
            view_seq(param@),
            fuel as nat,
        ),
    decreases fuel, 3nat,
{
    let p = resolve_classic(vm, context, param, false, fuel);
    if p.len() < 2 {
        return Err(VmError::InvalidUsage);
    }
    match (&p[0], &p[1]) {
        (Atom::List(upvalues), Atom::List(source)) => {
            let ghost nv = view_seq(upvalues@);
            assert(view_seq(p@)[0] == Value::List(nv));
            let mut names: Vec<String> = Vec::new();
            let mut i: usize = 0;
            while i < upvalues.len()
                invariant
                    view_seq(p@)[0] == Value::List(nv),
                    (view_seq(p@), vm.model()) == resolve_each(
                        old(vm).model(),
                        context.upvalues_view(),
                        view_seq(param@),
                        false,
                        fuel as nat,
                        param@.len(),
                    ),
                    i <= upvalues@.len(),
                    nv == view_seq(upvalues@),
                    forall|j: int| 0 <= j < i ==> nv[j] is Symbol,
                    names_view(names@) == symbol_names(nv).take(i as int),
                decreases upvalues.len() - i,
            {
                match &upvalues[i] {
                    Atom::Symbol(s) => {
                        let ghost before = names@;
                        assert(nv[i as int] == Value::Symbol(s@));
                        names.push(s.clone());
                        assert(names_view(names@) =~= names_view(before).push(s@));
                        assert(names_view(names@) =~= symbol_names(nv).take(i + 1));
                    },
                    _ => {
                        assert(!(nv[i as int] is Symbol));
                        assert(exists|j: int| 0 <= j < nv.len() && !(#[trigger] nv[j] is Symbol));
                        return Err(VmError::InvalidUsage);
                    },
                }
                i += 1;
            }
            assert(symbol_names(nv).take(i as int) =~= symbol_names(nv));
            let code = resolve_upvalues(context, source);
            let c = Closure::compile(code, &names);
            assert(Atom::Closure(c)@ == compiled(
                crate::semantics::resolve_upvalues(context.upvalues_view(), view_seq(source@)),
                symbol_names(nv),
            ));
            Ok(Atom::Closure(c))
        },
        _ => Err(VmError::InvalidUsage),
    }
}

/// `(eval (expr)...)`: calls each parameter, which must all be lists; each
/// error becomes an error atom of the resulting list.
pub fn eval_function(vm: &mut NlispVm, context: &Closure, param: &[Atom], fuel: u64) -> (r:
    Result<Atom, VmError>)
    ensures
        (res_view(r), final(vm).model()) == native(
            old(vm).model(),
            context.upvalues_view(),
            NativeFunction::Eval,
            view_seq(param@),
            fuel as nat,
        ),
    decreases fuel, 3nat,
{
    let ghost p = view_seq(param@);
    let mut i: usize = 0;
    while i < param.len()
        invariant
            i <= param@.len(),
            p == view_seq(param@),
            forall|j: int| 0 <= j < i ==> is_list(#[trigger] p[j]),
        decreases param.len() - i,
    {
        match &param[i] {
            Atom::List(_) => {},
            _ => {
                assert(!is_list(p[i as int]));
                return Err(VmError::InvalidUsage);
            },
        }
        i += 1;
    }
    let results = evaluate_each(vm, context, param, fuel);
    Ok(Atom::List(results))
}

/// Calls each list of `param` in turn, an error becoming an error atom.
fn evaluate_each(vm: &mut NlispVm, context: &Closure, param: &[Atom], fuel: u64) -> (r: Vec<Atom>)
    ensures
        (view_seq(r@), final(vm).model()) == eval_each(
            old(vm).model(),
            context.upvalues_view(),
            view_seq(param@),
            fuel as nat,
            param@.len(),
        ),
    decreases fuel, 1nat,
{
    let ghost m0 = vm.model();
    let ghost ups = context.upvalues_view();
    let ghost p = view_seq(param@);
    let mut r: Vec<Atom> = Vec::new();
    let mut i: usize = 0;
    assert(view_seq(r@) =~= Seq::<Value>::empty());
    while i < param.len()
        invariant
            i <= param@.len(),
            m0 == old(vm).model(),
            ups == context.upvalues_view(),
            p == view_seq(param@),
            (view_seq(r@), vm.model()) == eval_each(m0, ups, p, fuel as nat, i as nat),
        decreases param.len() - i,
    {
        let a = match &param[i] {
            Atom::List(list) => match vm.evaluate_within(context, list.as_slice(), fuel) {
                Ok(a) => a,
                Err(e) => Atom::Error(e),
            },
            _ => Atom::Error(VmError::InvalidUsage),
        };
        proof {
            lemma_view_push(r@, a);
        }
        r.push(a);
        i += 1;
    }
    r
}

/// `(type ...)`: the kind name of each resolved parameter, as strings.
pub fn type_function(vm: &mut NlispVm, context: &Closure, param: &[Atom], fuel: u64) -> (r:
    Result<Atom, VmError>)
    ensures
        (res_view(r), final(vm).model()) == native(
            old(vm).model(),
            context.upvalues_view(),
            NativeFunction::Type,
            view_seq(param@),
            fuel as nat,
        ),
    decreases fuel, 3nat,
{
    let p = resolve_classic(vm, context, param, false, fuel);
    let ghost target = Seq::new(p@.len(), |i: int| Value::Str(kind_name(view_seq(p@)[i])));
    let mut names: Vec<Atom> = Vec::new();
    let mut i: usize = 0;
    while i < p.len()
        invariant
            i <= p@.len(),
            target == Seq::new(p@.len(), |i: int| Value::Str(kind_name(view_seq(p@)[i]))),
            view_seq(names@) == target.take(i as int),
        decreases p.len() - i,
    {
        let a = Atom::String(p[i].get_type_str().to_owned());
        proof {
            lemma_view_push(names@, a);
        }
        names.push(a);
        assert(view_seq(names@) =~= target.take(i + 1));
        i += 1;
    }
    assert(target.take(i as int) =~= target);
    Ok(Atom::List(names))
}

/// `(global name value)`: binds the name (a symbol, or an upvalue holding
/// one) to the evaluated value.
pub fn global_function(vm: &mut NlispVm, context: &Closure, param: &[Atom], fuel: u64) -> (r:
    Result<Atom, VmError>)
    ensures
        (res_view(r), final(vm).model()) == global_call(
            old(vm).model(),
            context.upvalues_view(),
            view_seq(param@),
            fuel as nat,
        ),
    decreases fuel, 3nat,
{
    if param.len() == 0 {
        return Err(VmError::NotASymbol);
    }
    let symbol: String = match &param[0] {
        Atom::Symbol(s) => s.clone(),
        Atom::Upvalue(upvalue_ref) => match context.resolve_ref(upvalue_ref) {
            Atom::Symbol(s) => s,
            _ => {
                return Err(VmError::NotASymbol);
            },
        },
        _ => {
            return Err(VmError::NotASymbol);
        },
    };
    assert(global_name(context.upvalues_view(), view_seq(param@)) == Some(symbol@));
    if param.len() < 2 {
        return Err(VmError::InvalidUsage);
    }
    match evaluate_atom(vm, context, &param[1], fuel) {
        Ok(value) => {
            vm.add_symbol(symbol, value);
            Ok(Atom::Nil)
        },
        Err(e) => Err(e),
    }
}

/// `(resolve ...)`: the parameters with upvalues and globals resolved.
pub fn resolve_function(vm: &mut NlispVm, context: &Closure, param: &[Atom], fuel: u64) -> (r:
    Result<Atom, VmError>)
    ensures
        (res_view(r), final(vm).model()) == native(
            old(vm).model(),
            context.upvalues_view(),
            NativeFunction::Resolve,
            view_seq(param@),
            fuel as nat,
        ),
    decreases fuel, 3nat,
{
    Ok(Atom::List(resolve_classic(vm, context, param, false, fuel)))
}

fn negate(n: i64) -> (r: i64)
    ensures
        r == neg_fixed(n as int),
{
    if n == i64::MIN {
        i64::MAX
    } else {
        -n
    }
}

/// `(neg x)`: the opposite of an evaluated number; any other value is
/// returned as it is, and a missing parameter counts as `Nil`.
pub fn neg_function(vm: &mut NlispVm, context: &Closure, param: &[Atom], fuel: u64) -> (r:
    Result<Atom, VmError>)
    ensures
        (res_view(r), final(vm).model()) == native(
            old(vm).model(),
            context.upvalues_view(),
            NativeFunction::Neg,
            view_seq(param@),
            fuel as nat,
        ),
    decreases fuel, 3nat,
{
    let nil = Atom::Nil;
    let arg = if param.len() > 0 {
        &param[0]
    } else {
        &nil
    };
    match evaluate_atom(vm, context, arg, fuel) {
        Ok(Atom::Number(n)) => Ok(Atom::Number(negate(n))),
        other => other,
    }
}

fn saturating_sum(a: i64, b: i64) -> (r: i64)
    ensures
        r == clamp(a + b),
{
    let s: i128 = a as i128 + b as i128;
    if s > i64::MAX as i128 {
        i64::MAX
    } else if s < i64::MIN as i128 {
        i64::MIN
    } else {
        s as i64
    }
}

fn number_or_zero(a: &Atom) -> (r: i64)
    ensures
        r == num_of(a@),
{
    match a {
        Atom::Number(n) => *n,
        _ => 0,
    }
}

/// `(+ ...)`: the saturated sum of the resolved, evaluated parameters, each
/// non-number counting as zero.
pub fn sum_function(vm: &mut NlispVm, context: &Closure, param: &[Atom], fuel: u64) -> (r: Result<
    Atom,
    VmError,
>)
    ensures
        (res_view(r), final(vm).model()) == native(
            old(vm).model(),
            context.upvalues_view(),
            NativeFunction::Sum,
            view_seq(param@),
            fuel as nat,
        ),
    decreases fuel, 3nat,
{
    let p = resolve_classic(vm, context, param, true, fuel);
    let mut acc: i64 = 0;
    let mut i: usize = 0;
    while i < p.len()
        invariant
            i <= p@.len(),
            acc == sum_of(view_seq(p@), i as int),
        decreases p.len() - i,
    {
        acc = saturating_sum(acc, number_or_zero(&p[i]));
        i += 1;
    }
    Ok(Atom::Number(acc))
}

fn magnitude(a: i64) -> (r: u128)
    ensures
        r as int == abs(a as int),
{
    if a < 0 {
        (-(a as i128)) as u128
    } else {
        a as u128
    }
}

/// The fixed-point product, truncated toward zero and saturated.
fn fixed_product(a: i64, b: i64) -> (r: i64)
    ensures
        r == fix_mul(a as int, b as int),
{
    let ua = magnitude(a);
    let ub = magnitude(b);
    assert(ua * ub <= 0x4000_0000_0000_0000_0000_0000_0000_0000) by (nonlinear_arith)
        requires
            ua <= 0x8000_0000_0000_0000,
            ub <= 0x8000_0000_0000_0000,
    ;
    let m: u128 = ua * ub / (SCALE as u128);
    if (a < 0) != (b < 0) {
        if m > 0x8000_0000_0000_0000 {
            i64::MIN
        } else {
            (-(m as i128)) as i64
        }
    } else {
        if m > i64::MAX as u128 {
            i64::MAX
        } else {
            m as i64
        }
    }
}

/// Calls again each list left among the resolved factors, an error giving
/// `Nil`.
fn evaluate_factors(vm: &mut NlispVm, context: &Closure, param: &[Atom], fuel: u64) -> (r: Vec<
    Atom,
>)
    ensures
        (view_seq(r@), final(vm).model()) == factors(
            old(vm).model(),
            context.upvalues_view(),
            view_seq(param@),
            fuel as nat,
            param@.len(),
        ),
    decreases fuel, 1nat,
{
    let ghost m0 = vm.model();
    let ghost ups = context.upvalues_view();
    let ghost p = view_seq(param@);
    let mut r: Vec<Atom> = Vec::new();
    let mut i: usize = 0;
    assert(view_seq(r@) =~= Seq::<Value>::empty());
    while i < param.len()
        invariant
            i <= param@.len(),
            m0 == old(vm).model(),
            ups == context.upvalues_view(),
            p == view_seq(param@),
            (view_seq(r@), vm.model()) == factors(m0, ups, p, fuel as nat, i as nat),
        decreases param.len() - i,
    {
        let a = match &param[i] {
            Atom::List(list) => match vm.evaluate_within(context, list.as_slice(), fuel) {
                Ok(a) => a,
                Err(_) => Atom::Nil,
            },
            other => other.duplicate(),
        };
        proof {
            lemma_view_push(r@, a);
        }
        r.push(a);
        i += 1;
    }
    r
}

/// `(* ...)`: the product fold of the resolved, evaluated parameters,
/// seeded with zero.
pub fn product_function(vm: &mut NlispVm, context: &Closure, param: &[Atom], fuel: u64) -> (r:
    Result<Atom, VmError>)
    ensures
        (res_view(r), final(vm).model()) == native(
            old(vm).model(),
            context.upvalues_view(),
            NativeFunction::Product,
            view_seq(param@),
            fuel as nat,
        ),
    decreases fuel, 3nat,
{
    let p = resolve_classic(vm, context, param, true, fuel);
    let f = evaluate_factors(vm, context, p.as_slice(), fuel);
    let mut acc: i64 = 0;
    let mut i: usize = 0;
    while i < f.len()
        invariant
            i <= f@.len(),
            acc == product_of(view_seq(f@), i as int),
        decreases f.len() - i,
    {
        acc = fixed_product(acc, number_or_zero(&f[i]));
        i += 1;
    }
    Ok(Atom::Number(acc))
}

/// `(= ...)`: whether all resolved, evaluated parameters equal the first.
pub fn eq_function(vm: &mut NlispVm, context: &Closure, param: &[Atom], fuel: u64) -> (r: Result<
    Atom,
    VmError,
>)
    ensures
        (res_view(r), final(vm).model()) == native(
            old(vm).model(),
            context.upvalues_view(),
            NativeFunction::Eq,
            view_seq(param@),
            fuel as nat,
        ),
    decreases fuel, 3nat,
{
    let p = resolve_classic(vm, context, param, true, fuel);
    let ghost pv = view_seq(p@);
    if p.len() == 0 {
        return Ok(Atom::Bool(true));
    }
    let mut i: usize = 1;
    while i < p.len()
        invariant
            1 <= i <= p@.len(),
            pv == view_seq(p@),
            (pv, vm.model()) == resolve_each(
                old(vm).model(),
                context.upvalues_view(),
                view_seq(param@),
                true,
                fuel as nat,
                param@.len(),
            ),
            forall|j: int| 1 <= j < i ==> crate::atom::value_eq(pv[0], #[trigger] pv[j]),
        decreases p.len() - i,
    {
        if !p[0].same(&p[i]) {
            assert(pv[0] == p@[0]@ && pv[i as int] == p@[i as int]@);
            assert(!crate::atom::value_eq(pv[0], pv[i as int]));
            assert(!all_equal(pv));
            return Ok(Atom::Bool(false));
        }
        assert(pv[0] == p@[0]@ && pv[i as int] == p@[i as int]@);
        i += 1;
    }
    Ok(Atom::Bool(true))
}

/// `(map ...)`: not provided yet; gives `Nil`.
pub fn map_function(vm: &mut NlispVm, context: &Closure, param: &[Atom], fuel: u64) -> (r: Result<
    Atom,
    VmError,
>)
    ensures
        r is Ok && r->Ok_0@ == Value::Nil,
        final(vm).model() == old(vm).model(),
{
    Ok(Atom::Nil)
}

} // verus!
