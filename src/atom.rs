use vstd::prelude::*;

verus! {

/// Numbers are fixed-point: a `Number(n)` stands for `n / SCALE`.
pub const SCALE: i64 = 1_000_000;

/// Errors raised while evaluating a list.
#[derive(Clone, Copy, Debug, PartialEq, Eq, Structural)]
pub enum VmError {
    /// An empty list was called.
    NonEvaluable,
    /// The head of a call is neither a closure nor a builtin.
    NotAFunction,
    /// A builtin got missing, malformed or wrongly typed parameters.
    InvalidUsage,
    /// A builtin needed a name and got something else.
    NotASymbol,
    /// The nesting of evaluations went past the machine's depth limit.
    TooDeep,
}

/// The builtin callables of the machine. Any two of them compare equal as
/// atoms.
#[derive(Clone, Copy, Debug, PartialEq, Eq, Structural)]
pub enum NativeFunction {
    Print,
    Printd,
    If,
    Lambda,
    Quote,
    Type,
    Global,
    Resolve,
    Eval,
    Sum,
    Product,
    Eq,
    Neg,
    /// Applying a function to each element of a list; not provided yet.
    MapEach,
}

/// Reference to the upvalue slot `0` of the enclosing closure, named `1`.
#[derive(Debug)]
pub struct UpvalueRef(pub usize, pub String);

/// A callable pairing a code body with its upvalue slots (`None`: a thin closure).
#[derive(Debug)]
pub struct Closure {
    pub upvalues: Option<Vec<Atom>>,
    pub code: Vec<Atom>,
}

/// The single value type of the language: syntax, data and runtime values.
/// Symbols and strings own their text; numbers are fixed-point (see
/// [`SCALE`]).
#[derive(Debug)]
pub enum Atom {
    Symbol(String),
    Number(i64),
    String(String),
    List(Vec<Atom>),
    Bool(bool),
    Nil,
    Error(VmError),
    Upvalue(UpvalueRef),
    Closure(Closure),
    NativeFunction(NativeFunction),
}

/// Mathematical model of an [`Atom`].
pub enum Value {
    Symbol(Seq<char>),
    Number(int),
    Str(Seq<char>),
    List(Seq<Value>),
    Bool(bool),
    Nil,
    Error(VmError),
    Upvalue(int, Seq<char>),
    Closure(Option<Seq<Value>>, Seq<Value>),
    Native(NativeFunction),
}

pub open spec fn view_seq(v: Seq<Atom>) -> Seq<Value>
    decreases v,
{
    Seq::new(v.len(), |i: int| if 0 <= i < v.len() { atom_view(v[i]) } else { Value::Nil })
}

pub open spec fn atom_view(a: Atom) -> Value
    decreases a,
{
    match a {
        Atom::Symbol(s) => Value::Symbol(s@),
        Atom::Number(n) => Value::Number(n as int),
        Atom::String(s) => Value::Str(s@),
        Atom::List(l) => Value::List(view_seq(l@)),
        Atom::Bool(b) => Value::Bool(b),
        Atom::Nil => Value::Nil,
        Atom::Error(e) => Value::Error(e),
        Atom::Upvalue(r) => Value::Upvalue(r.0 as int, r.1@),
        Atom::Closure(c) => Value::Closure(
            match c.upvalues {
                Some(u) => Some(view_seq(u@)),
                None => None,
            },
            view_seq(c.code@),
        ),
        Atom::NativeFunction(f) => Value::Native(f),
    }
}

impl View for Atom {
    type V = Value;

    open spec fn view(&self) -> Value {
        atom_view(*self)
    }
}


/// Structural equality of two values, where any two native functions are equal.
pub open spec fn value_eq(a: Value, b: Value) -> bool
    decreases a,
{
    match (a, b) {
        (Value::List(l), Value::List(r)) => seq_eq(l, r),
        (Value::Closure(lu, lc), Value::Closure(ru, rc)) => {
            &&& seq_eq(lc, rc)
            &&& match (lu, ru) {
                (Some(x), Some(y)) => seq_eq(x, y),
                (None, None) => true,
                _ => false,
            }
        },
        (Value::Native(_), Value::Native(_)) => true,
        _ => a == b,
    }
}

/// Two sequences of values of the same length, equal at each position.
pub open spec fn seq_eq(l: Seq<Value>, r: Seq<Value>) -> bool
    decreases l,
{
    &&& l.len() == r.len()
    &&& forall|i: int| 0 <= i < l.len() ==> value_eq(#[trigger] l[i], r[i])
}

/// The name of a value's kind, as the `type` primitive reports it.
pub open spec fn kind_name(v: Value) -> Seq<char> {
    match v {
        Value::Symbol(_) => "Symbol"@,
        Value::Number(_) => "Number"@,
        Value::Str(_) => "String"@,
        Value::List(_) => "List"@,
        Value::Bool(_) => "Bool"@,
        Value::Nil => "Nil"@,
        Value::Upvalue(_, _) => "Upvalue"@,
        Value::Closure(_, _) => "Closure"@,
        Value::Native(_) => "NativeFunction"@,
        Value::Error(VmError::NonEvaluable) => "Error:NonEvaluable"@,
        Value::Error(VmError::NotAFunction) => "Error:NotAFunction"@,
        Value::Error(VmError::InvalidUsage) => "Error:InvalidUsage"@,
        Value::Error(VmError::NotASymbol) => "Error:NotASymbol"@,
        Value::Error(VmError::TooDeep) => "Error:TooDeep"@,
    }
}

impl Atom {
    /// The name of this atom's kind.
    pub fn get_type_str(&self) -> (r: &'static str)
        ensures
            r@ == kind_name(self@),
    {
        match self {
            Atom::Symbol(_) => "Symbol",
            Atom::Number(_) => "Number",
            Atom::String(_) => "String",
            Atom::List(_) => "List",
            Atom::Bool(_) => "Bool",
            Atom::Nil => "Nil",
            Atom::Upvalue(_) => "Upvalue",
            Atom::Closure(_) => "Closure",
            Atom::NativeFunction(_) => "NativeFunction",
            Atom::Error(e) => match e {
                VmError::NonEvaluable => "Error:NonEvaluable",
                VmError::NotAFunction => "Error:NotAFunction",
                VmError::InvalidUsage => "Error:InvalidUsage",
                VmError::NotASymbol => "Error:NotASymbol",
                VmError::TooDeep => "Error:TooDeep",
            },
        }
    }

    /// A deep copy of this atom.
    pub fn duplicate(&self) -> (r: Atom)
        ensures
            r@ == self@,
        decreases self,
    {
        match self {
            Atom::Symbol(s) => Atom::Symbol(s.clone()),
            Atom::Number(n) => Atom::Number(*n),
            Atom::String(s) => Atom::String(s.clone()),
            Atom::List(l) => Atom::List(duplicate_vec(l)),
            Atom::Bool(b) => Atom::Bool(*b),
            Atom::Nil => Atom::Nil,
            Atom::Error(e) => Atom::Error(*e),
            Atom::Upvalue(r) => Atom::Upvalue(UpvalueRef(r.0, r.1.clone())),
            Atom::Closure(c) => Atom::Closure(c.duplicate()),
            Atom::NativeFunction(f) => Atom::NativeFunction(*f),
        }
    }

    /// Structural equality; any two native functions are equal.
    pub fn same(&self, other: &Atom) -> (r: bool)
        ensures
            r == value_eq(self@, other@),
        decreases self,
    {
        match (self, other) {
            (Atom::Symbol(a), Atom::Symbol(b)) => *a == *b,
            (Atom::Number(a), Atom::Number(b)) => *a == *b,
            (Atom::String(a), Atom::String(b)) => *a == *b,
            (Atom::List(a), Atom::List(b)) => same_vec(a, b),
            (Atom::Bool(a), Atom::Bool(b)) => *a == *b,
            (Atom::Nil, Atom::Nil) => true,
            (Atom::Error(a), Atom::Error(b)) => *a == *b,
            (Atom::Upvalue(a), Atom::Upvalue(b)) => a.0 == b.0 && a.1 == b.1,
            (Atom::Closure(a), Atom::Closure(b)) => {
                let up = match (&a.upvalues, &b.upvalues) {
                    (Some(x), Some(y)) => same_vec(x, y),
                    (None, None) => true,
                    _ => false,
                };
                let code = same_vec(&a.code, &b.code);
                assert(up == match (a.upvalues_view(), b.upvalues_view()) {
                    (Some(x), Some(y)) => seq_eq(x, y),
                    (None, None) => true,
                    _ => false,
                });
                up && code
            },
            (Atom::NativeFunction(_), Atom::NativeFunction(_)) => true,
            _ => false,
        }
    }
}

impl Closure {
    pub open spec fn upvalues_view(&self) -> Option<Seq<Value>> {
        match self.upvalues {
            Some(u) => Some(view_seq(u@)),
            None => None,
        }
    }

    pub open spec fn code_view(&self) -> Seq<Value> {
        view_seq(self.code@)
    }

    /// A deep copy of this closure.
    pub fn duplicate(&self) -> (r: Closure)
        ensures
            r.upvalues_view() == self.upvalues_view(),
            r.code_view() == self.code_view(),
        decreases self,
    {
        let upvalues = match &self.upvalues {
            Some(u) => Some(duplicate_vec(u)),
            None => None,
        };
        Closure { upvalues, code: duplicate_vec(&self.code) }
    }
}

/// Structural equality, where any two native functions are equal.
impl PartialEq for Atom {
    fn eq(&self, other: &Atom) -> (r: bool)
        ensures
            r == value_eq(self@, other@),
    {
        self.same(other)
    }
}

impl vstd::std_specs::cmp::PartialEqSpecImpl for Atom {
    open spec fn obeys_eq_spec() -> bool {
        true
    }

    open spec fn eq_spec(&self, other: &Atom) -> bool {
        value_eq(self@, other@)
    }
}

/// A deep copy.
impl Clone for Atom {
    fn clone(&self) -> (r: Atom)
        ensures
            r@ == self@,
    {
        self.duplicate()
    }
}

/// Appending an atom appends its model.
pub proof fn lemma_view_push(v: Seq<Atom>, a: Atom)
    ensures
        view_seq(v.push(a)) == view_seq(v).push(a@),
{
    assert(view_seq(v.push(a)) =~= view_seq(v).push(a@));
}

/// A deep copy of a sequence of atoms.
pub fn duplicate_vec(v: &Vec<Atom>) -> (r: Vec<Atom>)
    ensures
        view_seq(r@) == view_seq(v@),
    decreases v,
{
    let mut r: Vec<Atom> = Vec::new();
    let mut i: usize = 0;
    while i < v.len()
        invariant
            i <= v.len(),
            r@.len() == i,
            forall|j: int| 0 <= j < i ==> atom_view(#[trigger] r@[j]) == atom_view(v@[j]),
        decreases v.len() - i,
    {
        proof { assert(decreases_to!(v => v[i as int])); }
        r.push(v[i].duplicate());
        i += 1;
    }
    assert(view_seq(r@) =~= view_seq(v@));
    r
}

/// Position-wise structural equality of two sequences of atoms.
pub fn same_vec(a: &Vec<Atom>, b: &Vec<Atom>) -> (r: bool)
    ensures
        r == seq_eq(view_seq(a@), view_seq(b@)),
    decreases a,
{
    if a.len() != b.len() {
        return false;
    }
    let mut i: usize = 0;
    while i < a.len()
        invariant
            i <= a.len(),
            a.len() == b.len(),
            forall|j: int| 0 <= j < i ==> value_eq(atom_view(#[trigger] a@[j]), atom_view(b@[j])),
        decreases a.len() - i,
    {
        proof { assert(decreases_to!(a => a[i as int])); }
        if !a[i].same(&b[i]) {
            assert(!value_eq(view_seq(a@)[i as int], view_seq(b@)[i as int]));
            return false;
        }
        i += 1;
    }
    assert forall|j: int| 0 <= j < view_seq(a@).len() implies value_eq(
        #[trigger] view_seq(a@)[j],
        view_seq(b@)[j],
    ) by {
        assert(value_eq(atom_view(a@[j]), atom_view(b@[j])));
    }
    true
}

} // verus!
