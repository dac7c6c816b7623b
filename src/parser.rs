use vstd::prelude::*;
use vstd::string::StrSliceExecFns;
use crate::atom::{Atom, Value, view_seq, lemma_view_push};

verus! {

/// Why a text could not be read.
#[derive(Clone, Copy, Debug, PartialEq, Eq, Structural)]
pub enum ParseError {
    /// A character that no token can start or continue with, at this position.
    InvalidCharacter(usize),
    /// A number token that does not read as a number, ending at this position.
    NumberError(usize),
    IncompleteString,
    IncompleteList,
}

/// State of the scanner between two characters.
#[derive(Clone, Copy, Debug, PartialEq, Eq, Structural)]
pub enum ReadingState {
    /// Looking for the start of the next atom.
    Idle,
    /// Inside a symbol that started at this position.
    Symbol(usize),
    /// Inside a number that started at this position.
    Number(usize),
    /// Inside a string whose opening quote is at this position.
    Str(usize),
    /// Inside a list: its opening parenthesis, the parentheses still open
    /// within it, and whether a string is open.
    List { start: usize, depth: usize, in_string: bool },
}

/// Whether `c` has the Unicode `Alphabetic` property.
pub uninterp spec fn alphabetic(c: char) -> bool;

/// Whether `c` is in one of Unicode's numeric general categories.
pub uninterp spec fn numeric(c: char) -> bool;

/// Whether `c` has the Unicode `White_Space` property.
pub uninterp spec fn whitespace(c: char) -> bool;

/// Relies on `char::is_alphabetic`, the Unicode `Alphabetic` property.
#[verifier::external_body]
fn is_alphabetic(c: char) -> (r: bool)
    ensures
        r == alphabetic(c),
{
    c.is_alphabetic()
}

/// Relies on `char::is_numeric`, the Unicode numeric general categories.
#[verifier::external_body]
fn is_numeric(c: char) -> (r: bool)
    ensures
        r == numeric(c),
{
    c.is_numeric()
}

/// Relies on `char::is_whitespace`, the Unicode `White_Space` property.
#[verifier::external_body]
fn is_whitespace(c: char) -> (r: bool)
    ensures
        r == whitespace(c),
{
    c.is_whitespace()
}

/// ASCII punctuation: the printable ASCII characters that are neither
/// letters, digits nor the space.
pub open spec fn ascii_punctuation(c: char) -> bool {
    let u = c as u32;
    (33 <= u <= 47) || (58 <= u <= 64) || (91 <= u <= 96) || (123 <= u <= 126)
}

fn is_ascii_punctuation(c: char) -> (r: bool)
    ensures
        r == ascii_punctuation(c),
{
    let u = c as u32;
    (33 <= u && u <= 47) || (58 <= u && u <= 64) || (91 <= u && u <= 96) || (123 <= u && u
        <= 126)
}

/// A symbol starts on an alphabetic character or on punctuation other than
/// parentheses, the double quote, which opens a string, and the point, which
/// opens a number.
pub open spec fn symbol_start(c: char) -> bool {
    alphabetic(c) || (ascii_punctuation(c) && c != '(' && c != ')' && c != '"' && c != '.')
}

/// A symbol continues on alphanumeric characters (alphabetic or numeric) and
/// on punctuation other than parentheses.
pub open spec fn symbol_char(c: char) -> bool {
    alphabetic(c) || numeric(c) || (ascii_punctuation(c) && c != '(' && c != ')')
}

pub open spec fn number_char(c: char) -> bool {
    numeric(c) || c == '.'
}

pub open spec fn ascii_digit(c: char) -> bool {
    '0' <= c <= '9'
}

pub open spec fn pow10(k: nat) -> int
    decreases k,
{
    if k == 0 {
        1
    } else {
        10 * pow10((k - 1) as nat)
    }
}

/// Digits kept past the decimal point: numbers are fixed-point in millionths.
pub const FRACTION_DIGITS: usize = 6;

/// The ceiling at which a literal's running digits stop growing.
pub open spec fn digits_cap() -> int {
    i64::MAX + 1
}

/// Reading the first `n` characters of a number literal: the digits kept so
/// far (capped), whether the point was seen, the digits kept after it,
/// whether any digit was seen, and whether the text is well formed so far.
pub open spec fn read_number(t: Seq<char>, n: int) -> (int, bool, nat, bool, bool)
    decreases n,
{
    if n <= 0 {
        (0, false, 0, false, true)
    } else {
        let (acc, dot, frac, any, ok) = read_number(t, n - 1);
        let c = t[n - 1];
        if c == '.' {
            (acc, true, frac, any, ok && !dot)
        } else if ascii_digit(c) {
            if dot && frac >= FRACTION_DIGITS {
                (acc, dot, frac, true, ok)
            } else {
                let next = acc * 10 + (c as int - '0' as int);
                (
                    if next > digits_cap() {
                        digits_cap()
                    } else {
                        next
                    },
                    dot,
                    if dot {
                        frac + 1
                    } else {
                        frac
                    },
                    true,
                    ok,
                )
            }
        } else {
            (acc, dot, frac, any, false)
        }
    }
}

/// The fixed-point value of a number literal: ASCII digits with at most one
/// point and at least one digit, truncated past the kept fraction digits, and
/// within range.
pub open spec fn number_value(t: Seq<char>) -> Option<i64> {
    let (acc, dot, frac, any, ok) = read_number(t, t.len() as int);
    let v = acc * pow10((FRACTION_DIGITS - frac) as nat);
    if ok && any && frac <= FRACTION_DIGITS && v <= i64::MAX {
        Some(v as i64)
    } else {
        None
    }
}

/// The result of reading a whole text.
pub open spec fn parsed(s: Seq<char>) -> Result<Seq<Value>, ParseError>
    decreases s.len(), s.len() + 2,
{
    run(s, 0, ReadingState::Idle, Seq::empty())
}

/// Reading `s` from position `i` on, in state `st`, with `atoms` read so far.
pub open spec fn run(s: Seq<char>, i: int, st: ReadingState, atoms: Seq<Value>) -> Result<
    Seq<Value>,
    ParseError,
>
    decreases s.len(), s.len() - i + 1,
{
    if i >= s.len() || i < 0 {
        finish(s, st, atoms)
    } else {
        match step(s, i, st, atoms) {
            Ok((st2, atoms2)) => run(s, i + 1, st2, atoms2),
            Err(e) => Err(e),
        }
    }
}

/// What the end of the text does in state `st`.
pub open spec fn finish(s: Seq<char>, st: ReadingState, atoms: Seq<Value>) -> Result<
    Seq<Value>,
    ParseError,
> {
    match st {
        ReadingState::Idle => Ok(atoms),
        ReadingState::Symbol(start) => Ok(
            atoms.push(Value::Symbol(s.subrange(start as int, s.len() as int))),
        ),
        ReadingState::Number(start) => match number_value(
            s.subrange(start as int, s.len() as int),
        ) {
            Some(v) => Ok(atoms.push(Value::Number(v as int))),
            None => Err(ParseError::NumberError(s.len() as usize)),
        },
        ReadingState::Str(_) => Err(ParseError::IncompleteString),
        ReadingState::List { .. } => Err(ParseError::IncompleteList),
    }
}

/// One transition of the scanner on the character at `pos`.
pub open spec fn step(s: Seq<char>, pos: int, st: ReadingState, atoms: Seq<Value>) -> Result<
    (ReadingState, Seq<Value>),
    ParseError,
>
    decreases s.len(), 0int,
{
    let c = s[pos];
    match st {
        ReadingState::Idle => {
            if symbol_start(c) {
                Ok((ReadingState::Symbol(pos as usize), atoms))
            } else if number_char(c) {
                Ok((ReadingState::Number(pos as usize), atoms))
            } else if c == '(' {
                Ok((ReadingState::List { start: pos as usize, depth: 0, in_string: false }, atoms))
            } else if c == '"' {
                Ok((ReadingState::Str(pos as usize), atoms))
            } else if whitespace(c) {
                Ok((ReadingState::Idle, atoms))
            } else {
                Err(ParseError::InvalidCharacter(pos as usize))
            }
        },
        ReadingState::Symbol(start) => {
            if symbol_char(c) {
                Ok((st, atoms))
            } else if whitespace(c) {
                Ok((ReadingState::Idle, atoms.push(Value::Symbol(s.subrange(start as int, pos)))))
            } else {
                Err(ParseError::InvalidCharacter(pos as usize))
            }
        },
        ReadingState::Number(start) => {
            if number_char(c) {
                Ok((st, atoms))
            } else if whitespace(c) {
                match number_value(s.subrange(start as int, pos)) {
                    Some(v) => Ok((ReadingState::Idle, atoms.push(Value::Number(v as int)))),
                    None => Err(ParseError::NumberError(pos as usize)),
                }
            } else {
                Err(ParseError::InvalidCharacter(pos as usize))
            }
        },
        ReadingState::Str(start) => {
            if c == '"' {
                Ok((ReadingState::Idle, atoms.push(Value::Str(s.subrange(start + 1, pos)))))
            } else {
                Ok((st, atoms))
            }
        },
        ReadingState::List { start, depth, in_string } => {
            if !in_string && depth == 0 && c == ')' {
                if start < pos <= s.len() {
                    match parsed(s.subrange(start + 1, pos)) {
                        Ok(l) => Ok((ReadingState::Idle, atoms.push(Value::List(l)))),
                        Err(e) => Err(e),
                    }
                } else {
                    Err(ParseError::IncompleteList)
                }
            } else if !in_string && c == '(' {
                Ok((ReadingState::List { start, depth: (depth + 1) as usize, in_string }, atoms))
            } else if !in_string && c == ')' {
                Ok((ReadingState::List { start, depth: (depth - 1) as usize, in_string }, atoms))
            } else if c == '"' {
                Ok((ReadingState::List { start, depth, in_string: !in_string }, atoms))
            } else {
                Ok((st, atoms))
            }
        },
    }
}


proof fn lemma_pow10_small(j: nat)
    requires
        j <= FRACTION_DIGITS,
    ensures
        1 <= pow10(j) <= 1_000_000,
        j < FRACTION_DIGITS ==> pow10(j) <= 100_000,
{
    reveal_with_fuel(pow10, 7);
}

/// Reads a number literal in fixed point.
fn number_of(t: &str) -> (r: Option<i64>)
    ensures
        r == number_value(t@),
{
    let n = t.unicode_len();
    let cap: u128 = 9_223_372_036_854_775_808;
    let mut acc: u128 = 0;
    let mut dot = false;
    let mut frac: usize = 0;
    let mut any = false;
    let mut ok = true;
    let mut i: usize = 0;
    while i < n
        invariant
            n == t@.len(),
            i <= n,
            cap == digits_cap(),
            (acc as int, dot, frac as nat, any, ok) == read_number(t@, i as int),
            acc <= cap,
            frac <= FRACTION_DIGITS,
        decreases n - i,
    {
        let c = t.get_char(i);
        if c == '.' {
            ok = ok && !dot;
            dot = true;
        } else if '0' <= c && c <= '9' {
            if !(dot && frac >= FRACTION_DIGITS) {
                let next = acc * 10 + ((c as u32) - ('0' as u32)) as u128;
                acc = if next > cap {
                    cap
                } else {
                    next
                };
                if dot {
                    frac = frac + 1;
                }
            }
            any = true;
        } else {
            ok = false;
        }
        i = i + 1;
    }
    let mut v: u128 = acc;
    let mut j: usize = 0;
    while j < FRACTION_DIGITS - frac
        invariant
            frac <= FRACTION_DIGITS,
            j <= FRACTION_DIGITS - frac,
            acc <= cap,
            cap == digits_cap(),
            v as int == acc * pow10(j as nat),
        decreases FRACTION_DIGITS - frac - j,
    {
        proof {
            lemma_pow10_small(j as nat);
            let p = pow10(j as nat);
            assert(acc * p <= cap * 100_000) by (nonlinear_arith)
                requires
                    acc <= cap,
                    0 <= p <= 100_000,
            ;
            assert(acc * pow10((j + 1) as nat) == acc * p * 10) by (nonlinear_arith)
                requires
                    pow10((j + 1) as nat) == 10 * p,
            ;
        }
        v = v * 10;
        j = j + 1;
    }
    if ok && any && v <= i64::MAX as u128 {
        Some(v as i64)
    } else {
        None
    }
}


/// Positions that a state holds lie before the scanner's position.
pub open spec fn state_ok(st: ReadingState, pos: int) -> bool {
    match st {
        ReadingState::Idle => true,
        ReadingState::Symbol(start) => start < pos,
        ReadingState::Number(start) => start < pos,
        ReadingState::Str(start) => start < pos,
        ReadingState::List { start, depth, .. } => start < pos && depth < pos,
    }
}

/// Parses a text into the sequence of its top-level atoms.
pub fn parse(input: &str) -> (r: Result<Vec<Atom>, ParseError>)
    ensures
        match r {
            Ok(v) => parsed(input@) == Ok::<Seq<Value>, ParseError>(view_seq(v@)),
            Err(e) => parsed(input@) == Err::<Seq<Value>, ParseError>(e),
        },
    decreases input@.len(),
{
    let n = input.unicode_len();
    let mut atoms: Vec<Atom> = Vec::new();
    let mut state = ReadingState::Idle;
    let mut pos: usize = 0;
    assert(view_seq(atoms@) =~= Seq::<Value>::empty());
    while pos < n
        invariant
            n == input@.len(),
            pos <= n,
            state_ok(state, pos as int),
            parsed(input@) == run(input@, pos as int, state, view_seq(atoms@)),
        decreases n - pos,
    {
        let c = input.get_char(pos);
        let ghost s = input@;
        let ghost before = view_seq(atoms@);
        let ghost st0 = state;
        assert(run(s, pos as int, st0, before) == match step(s, pos as int, st0, before) {
            Ok((st2, atoms2)) => run(s, pos + 1, st2, atoms2),
            Err(e) => Err(e),
        });
        state = match state {
            ReadingState::Idle => {
                if is_alphabetic(c) || (is_ascii_punctuation(c) && c != '(' && c != ')' && c
                    != '"' && c != '.') {
                    ReadingState::Symbol(pos)
                } else if is_numeric(c) || c == '.' {
                    ReadingState::Number(pos)
                } else if c == '(' {
                    ReadingState::List { start: pos, depth: 0, in_string: false }
                } else if c == '"' {
                    ReadingState::Str(pos)
                } else if is_whitespace(c) {
                    ReadingState::Idle
                } else {
                    return Err(ParseError::InvalidCharacter(pos));
                }
            },
            ReadingState::Symbol(start) => {
                if is_alphabetic(c) || is_numeric(c) || (is_ascii_punctuation(c) && c != '('
                    && c != ')') {
                    ReadingState::Symbol(start)
                } else if is_whitespace(c) {
                    let a = Atom::Symbol(input.substring_char(start, pos).to_owned());
                    proof {
                        lemma_view_push(atoms@, a);
                    }
                    atoms.push(a);
                    ReadingState::Idle
                } else {
                    return Err(ParseError::InvalidCharacter(pos));
                }
            },
            ReadingState::Number(start) => {
                if is_numeric(c) || c == '.' {
                    ReadingState::Number(start)
                } else if is_whitespace(c) {
                    match number_of(input.substring_char(start, pos)) {
                        Some(v) => {
                            let a = Atom::Number(v);
                            proof {
                                lemma_view_push(atoms@, a);
                            }
                            atoms.push(a);
                            ReadingState::Idle
                        },
                        None => {
                            return Err(ParseError::NumberError(pos));
                        },
                    }
                } else {
                    return Err(ParseError::InvalidCharacter(pos));
                }
            },
            ReadingState::Str(start) => {
                if c == '"' {
                    let a = Atom::String(input.substring_char(start + 1, pos).to_owned());
                    proof {
                        lemma_view_push(atoms@, a);
                    }
                    atoms.push(a);
                    ReadingState::Idle
                } else {
                    ReadingState::Str(start)
                }
            },
            ReadingState::List { start, depth, in_string } => {
                if !in_string && depth == 0 && c == ')' {
                    match parse(input.substring_char(start + 1, pos)) {
                        Ok(list) => {
                            let a = Atom::List(list);
                            proof {
                                lemma_view_push(atoms@, a);
                            }
                            atoms.push(a);
                            ReadingState::Idle
                        },
                        Err(e) => {
                            return Err(e);
                        },
                    }
                } else if !in_string && c == '(' {
                    ReadingState::List { start, depth: depth + 1, in_string }
                } else if !in_string && c == ')' {
                    ReadingState::List { start, depth: depth - 1, in_string }
                } else if c == '"' {
                    ReadingState::List { start, depth, in_string: !in_string }
                } else {
                    ReadingState::List { start, depth, in_string }
                }
            },
        };
        assert(step(s, pos as int, st0, before) == Ok::<(ReadingState, Seq<Value>), ParseError>((state, view_seq(atoms@))));
        pos = pos + 1;
    }
    match state {
        ReadingState::Idle => {},
        ReadingState::Symbol(start) => {
            let a = Atom::Symbol(input.substring_char(start, n).to_owned());
            proof {
                lemma_view_push(atoms@, a);
            }
            atoms.push(a);
        },
        ReadingState::Number(start) => {
            match number_of(input.substring_char(start, n)) {
                Some(v) => {
                    let a = Atom::Number(v);
                    proof {
                        lemma_view_push(atoms@, a);
                    }
                    atoms.push(a);
                },
                None => {
                    return Err(ParseError::NumberError(n));
                },
            }
        },
        ReadingState::Str(_) => {
            return Err(ParseError::IncompleteString);
        },
        ReadingState::List { .. } => {
            return Err(ParseError::IncompleteList);
        },
    }
    Ok(atoms)
}

} // verus!
