use vstd::prelude::*;
use crate::atom::{Atom, Closure, NativeFunction, Value, VmError, view_seq, lemma_view_push};
use crate::semantics::{Machine, bind, eval, lookup};
use crate::primitives::call_native;

verus! {

/// How deeply evaluations may nest before `TooDeep` is raised.
pub const MAX_DEPTH: u64 = 1_000;

/// The evaluator: owns the global symbol table and what was printed.
pub struct NlispVm {
    pub globals: Vec<(String, Atom)>,
    pub printed: Vec<Atom>,
}

pub open spec fn res_view(r: Result<Atom, VmError>) -> Result<Value, VmError> {
    match r {
        Ok(a) => Ok(a@),
        Err(e) => Err(e),
    }
}

pub open spec fn globals_view(g: Seq<(String, Atom)>) -> Seq<(Seq<char>, Value)> {
    Seq::new(g.len(), |i: int| (g[i].0@, g[i].1@))
}

/// The bindings that every machine starts with.
pub open spec fn initial_globals() -> Seq<(Seq<char>, Value)> {
    seq![
        ("pi"@, Value::Number(3_141_592)),
        ("true"@, Value::Bool(true)),
        ("false"@, Value::Bool(false)),
        ("nil"@, Value::Nil),
        ("print"@, Value::Native(NativeFunction::Print)),
        ("printd"@, Value::Native(NativeFunction::Printd)),
        ("if"@, Value::Native(NativeFunction::If)),
        ("lambda"@, Value::Native(NativeFunction::Lambda)),
        ("quote"@, Value::Native(NativeFunction::Quote)),
        ("type"@, Value::Native(NativeFunction::Type)),
        ("global"@, Value::Native(NativeFunction::Global)),
        ("resolve"@, Value::Native(NativeFunction::Resolve)),
        ("eval"@, Value::Native(NativeFunction::Eval)),
        ("+"@, Value::Native(NativeFunction::Sum)),
        ("*"@, Value::Native(NativeFunction::Product)),
        ("="@, Value::Native(NativeFunction::Eq)),
        ("neg"@, Value::Native(NativeFunction::Neg)),
    ]
}

impl NlispVm {
    pub open spec fn model(&self) -> Machine {
        Machine { globals: globals_view(self.globals@), printed: view_seq(self.printed@) }
    }

    /// A machine with the constants and the builtins bound.
    pub fn new() -> (r: NlispVm)
        ensures
            r.model() == (Machine { globals: initial_globals(), printed: Seq::empty() }),
    {
        let mut vm = NlispVm { globals: Vec::new(), printed: Vec::new() };
        vm.add_builtin("pi", Atom::Number(3_141_592));
        vm.add_builtin("true", Atom::Bool(true));
        vm.add_builtin("false", Atom::Bool(false));
        vm.add_builtin("nil", Atom::Nil);
        vm.add_builtin("print", Atom::NativeFunction(NativeFunction::Print));
        vm.add_builtin("printd", Atom::NativeFunction(NativeFunction::Printd));
        vm.add_builtin("if", Atom::NativeFunction(NativeFunction::If));
        vm.add_builtin("lambda", Atom::NativeFunction(NativeFunction::Lambda));
        vm.add_builtin("quote", Atom::NativeFunction(NativeFunction::Quote));
        vm.add_builtin("type", Atom::NativeFunction(NativeFunction::Type));
        vm.add_builtin("global", Atom::NativeFunction(NativeFunction::Global));
        vm.add_builtin("resolve", Atom::NativeFunction(NativeFunction::Resolve));
        vm.add_builtin("eval", Atom::NativeFunction(NativeFunction::Eval));
        vm.add_builtin("+", Atom::NativeFunction(NativeFunction::Sum));
        vm.add_builtin("*", Atom::NativeFunction(NativeFunction::Product));
        vm.add_builtin("=", Atom::NativeFunction(NativeFunction::Eq));
        vm.add_builtin("neg", Atom::NativeFunction(NativeFunction::Neg));
        assert(vm.model().globals =~= initial_globals());
        assert(vm.model().printed =~= Seq::<Value>::empty());
        vm
    }

    fn add_builtin(&mut self, name: &str, value: Atom)
        ensures
            final(self).model() == (Machine {
                globals: old(self).model().globals.push((name@, value@)),
                printed: old(self).model().printed,
            }),
    {
        self.add_symbol(name.to_owned(), value);
    }

    /// Binds `name` globally to `value`, hiding any earlier binding.
    pub fn add_symbol(&mut self, name: String, value: Atom)
        ensures
            final(self).model() == (Machine {
                globals: old(self).model().globals.push((name@, value@)),
                printed: old(self).model().printed,
            }),
    {
        self.globals.push((name, value));
        assert(self.model().globals =~= old(self).model().globals.push((name@, value@)));
    }

    /// A copy of the value globally bound to `symbol`, if any.
    pub fn resolve(&self, symbol: &String) -> (r: Option<Atom>)
        ensures
            match r {
                Some(a) => lookup(self.model().globals, symbol@) == Some(a@),
                None => lookup(self.model().globals, symbol@) is None,
            },
    {
        let ghost g = self.model().globals;
        let mut i: usize = self.globals.len();
        assert(g.take(i as int) =~= g);
        while i > 0
            invariant
                i <= self.globals@.len(),
                g == self.model().globals,
                lookup(g, symbol@) == lookup(g.take(i as int), symbol@),
            decreases i,
        {
            i = i - 1;
            assert(g.take(i + 1).drop_last() =~= g.take(i as int));
            if self.globals[i].0 == *symbol {
                return Some(self.globals[i].1.duplicate());
            }
        }
        None
    }

    /// Evaluates a call list in `context`, within the default nesting limit.
    pub fn evaluate(&mut self, context: &Closure, list: &[Atom]) -> (r: Result<Atom, VmError>)
        ensures
            (res_view(r), final(self).model()) == eval(
                old(self).model(),
                context.upvalues_view(),
                view_seq(list@),
                MAX_DEPTH as nat,
            ),
    {
        self.evaluate_within(context, list, MAX_DEPTH)
    }

    /// Evaluates a call list in `context`, nesting at most `fuel` deep: the
    /// head is looked up globally where it is a symbol, then a closure is
    /// called with its slots bound to the raw parameters, or a builtin is
    /// handed them.
    pub fn evaluate_within(&mut self, context: &Closure, list: &[Atom], fuel: u64) -> (r: Result<
        Atom,
        VmError,
    >)
        ensures
            (res_view(r), final(self).model()) == eval(
                old(self).model(),
                context.upvalues_view(),
                view_seq(list@),
                fuel as nat,
            ),
        decreases fuel, 0nat,
    {
        if list.len() == 0 {
            return Err(VmError::NonEvaluable);
        }
        if fuel == 0 {
            return Err(VmError::TooDeep);
        }
        let (_, params) = list.split_at(1);
        assert(view_seq(params@) =~= view_seq(list@).subrange(1, list@.len() as int));
        let head = match &list[0] {
            Atom::Symbol(s) => match self.resolve(s) {
                Some(a) => a,
                None => list[0].duplicate(),
            },
            h => h.duplicate(),
        };
        match head {
            Atom::Closure(c) => {
                let frame = bind_frame(&c, params);
                self.evaluate_within(&frame, c.code.as_slice(), fuel - 1)
            },
            Atom::NativeFunction(f) => call_native(self, context, f, params, fuel - 1),
            _ => Err(VmError::NotAFunction),
        }
    }
}

impl Default for NlispVm {
    /// The same machine as [`NlispVm::new`].
    fn default() -> (r: NlispVm)
        ensures
            r.model() == (Machine { globals: initial_globals(), printed: Seq::empty() }),
    {
        NlispVm::new()
    }
}

/// A fresh frame for a call of `c`: each slot with a parameter at its
/// position takes that parameter; the code is left to the caller.
fn bind_frame(c: &Closure, params: &[Atom]) -> (r: Closure)
    ensures
        r.upvalues_view() == bind(c.upvalues_view(), view_seq(params@)),
{
    match &c.upvalues {
        None => Closure { upvalues: None, code: Vec::new() },
        Some(u) => {
            let ghost target = bind(c.upvalues_view(), view_seq(params@))->Some_0;
            let mut slots: Vec<Atom> = Vec::new();
            let mut i: usize = 0;
            while i < u.len()
                invariant
                    i <= u@.len(),
                    c.upvalues == Some(*u),
                    target == bind(c.upvalues_view(), view_seq(params@))->Some_0,
                    view_seq(slots@) == target.take(i as int),
                decreases u.len() - i,
            {
                let a = if i < params.len() {
                    params[i].duplicate()
                } else {
                    u[i].duplicate()
                };
                proof {
                    lemma_view_push(slots@, a);
                }
                slots.push(a);
                assert(view_seq(slots@) =~= target.take(i + 1));
                i += 1;
            }
            assert(target.take(i as int) =~= target);
            Closure { upvalues: Some(slots), code: Vec::new() }
        },
    }
}

} // verus!
