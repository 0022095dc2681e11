//! The runtime value model: a closed union of integer, floating-point,
//! text, boolean and null values, with its canonical textual rendering.
//!
//! A floating-point value is carried as its IEEE-754 bit pattern (`u64`);
//! the library never computes with it. Arithmetic on and rendering of such
//! values is requested from the caller (see [`crate::machine`]).

use vstd::prelude::*;

use crate::chars::chars_to_string;
use crate::chars::str_to_chars;

verus! {

/// A runtime value held by a register or a stack slot.
#[derive(Debug)]
pub enum Value {
    Int(i64),
    /// The IEEE-754 bit pattern of a 64-bit floating-point value.
    Float(u64),
    Text(String),
    Bool(bool),
    Null,
}

/// The mathematical model of a [`Value`].
#[verifier::ext_equal]
pub enum ValueV {
    Int(i64),
    Float(u64),
    Text(Seq<char>),
    Bool(bool),
    Null,
}

impl View for Value {
    type V = ValueV;

    open spec fn view(&self) -> ValueV {
        match self {
            Value::Int(i) => ValueV::Int(*i),
            Value::Float(b) => ValueV::Float(*b),
            Value::Text(s) => ValueV::Text(s@),
            Value::Bool(b) => ValueV::Bool(*b),
            Value::Null => ValueV::Null,
        }
    }
}

impl Clone for Value {
    fn clone(&self) -> (r: Value)
        ensures
            r@ == self@,
    {
        match self {
            Value::Int(i) => Value::Int(*i),
            Value::Float(b) => Value::Float(*b),
            Value::Text(s) => Value::Text(s.clone()),
            Value::Bool(b) => Value::Bool(*b),
            Value::Null => Value::Null,
        }
    }
}

impl PartialEq for Value {
    /// Value identity: same variant and same payload. Two floating-point
    /// values are equal exactly when their bit patterns are equal.
    fn eq(&self, other: &Value) -> (r: bool) {
        match self {
            Value::Int(a) => match other {
                Value::Int(b) => *a == *b,
                _ => false,
            },
            Value::Float(a) => match other {
                Value::Float(b) => *a == *b,
                _ => false,
            },
            Value::Text(a) => match other {
                Value::Text(b) => *a == *b,
                _ => false,
            },
            Value::Bool(a) => match other {
                Value::Bool(b) => *a == *b,
                _ => false,
            },
            Value::Null => match other {
                Value::Null => true,
                _ => false,
            },
        }
    }
}

impl vstd::std_specs::cmp::PartialEqSpecImpl for Value {
    open spec fn obeys_eq_spec() -> bool {
        true
    }

    open spec fn eq_spec(&self, other: &Value) -> bool {
        self@ == other@
    }
}

/// The decimal digit for `d`.
pub open spec fn spec_digit_char(d: nat) -> char {
    if d == 0 {
        '0'
    } else if d == 1 {
        '1'
    } else if d == 2 {
        '2'
    } else if d == 3 {
        '3'
    } else if d == 4 {
        '4'
    } else if d == 5 {
        '5'
    } else if d == 6 {
        '6'
    } else if d == 7 {
        '7'
    } else if d == 8 {
        '8'
    } else {
        '9'
    }
}

fn digit_char(d: u64) -> (c: char)
    requires
        d < 10,
    ensures
        c == spec_digit_char(d as nat),
{
    if d == 0 {
        '0'
    } else if d == 1 {
        '1'
    } else if d == 2 {
        '2'
    } else if d == 3 {
        '3'
    } else if d == 4 {
        '4'
    } else if d == 5 {
        '5'
    } else if d == 6 {
        '6'
    } else if d == 7 {
        '7'
    } else if d == 8 {
        '8'
    } else {
        '9'
    }
}

/// The decimal digits of `n`, most significant first, with no leading zero
/// except for `n == 0` itself.
pub open spec fn spec_dec_digits(n: nat) -> Seq<char>
    decreases n,
{
    if n < 10 {
        seq![spec_digit_char(n)]
    } else {
        spec_dec_digits(n / 10).push(spec_digit_char(n % 10))
    }
}

/// The natural decimal form of a signed integer.
pub open spec fn spec_int_str(i: int) -> Seq<char> {
    if i < 0 {
        seq!['-'] + spec_dec_digits((-i) as nat)
    } else {
        spec_dec_digits(i as nat)
    }
}

fn dec_digits(n: u64) -> (r: Vec<char>)
    ensures
        r@ == spec_dec_digits(n as nat),
{
    let mut m = n;
    let mut r: Vec<char> = Vec::new();
    while m >= 10
        invariant
            spec_dec_digits(n as nat) == spec_dec_digits(m as nat) + r@,
        decreases m,
    {
        let ghost pre = r@;
        let d = m % 10;
        r.insert(0, digit_char(d));
        proof {
            assert(spec_dec_digits(m as nat) == spec_dec_digits((m as nat) / 10).push(
                spec_digit_char((m as nat) % 10),
            ));
            assert(m as nat / 10 == (m / 10) as nat);
            assert(spec_dec_digits((m / 10) as nat).push(spec_digit_char(d as nat)) + pre
                =~= spec_dec_digits((m / 10) as nat) + r@);
        }
        m = m / 10;
    }
    let ghost pre = r@;
    r.insert(0, digit_char(m));
    proof {
        assert(seq![spec_digit_char(m as nat)] + pre =~= r@);
        assert(spec_dec_digits(m as nat) + pre =~= r@);
    }
    r
}

/// Renders `i` in its natural decimal form.
pub fn int_to_string(i: i64) -> (s: String)
    ensures
        s@ == spec_int_str(i as int),
{
    if i >= 0 {
        let v = dec_digits(i as u64);
        chars_to_string(&v)
    } else {
        let mag: u64 = (-(i + 1)) as u64 + 1;
        proof {
            assert(mag as int == -(i as int));
        }
        let ds = dec_digits(mag);
        let mut v: Vec<char> = Vec::new();
        v.push('-');
        let mut k: usize = 0;
        while k < ds.len()
            invariant
                v@ == seq!['-'] + ds@.subrange(0, k as int),
                k <= ds@.len(),
            decreases ds@.len() - k,
        {
            v.push(ds[k]);
            k = k + 1;
            proof {
                assert(v@ =~= seq!['-'] + ds@.subrange(0, k as int));
            }
        }
        proof {
            assert(ds@.subrange(0, ds@.len() as int) =~= ds@);
        }
        chars_to_string(&v)
    }
}

/// Text rendering: every two-character sequence `\n` is expanded, left to
/// right, into a real line break.
pub open spec fn spec_expand_escapes(s: Seq<char>) -> Seq<char>
    decreases s.len(),
{
    if s.len() >= 2 && s[0] == '\\' && s[1] == 'n' {
        seq!['\n'] + spec_expand_escapes(s.skip(2))
    } else if s.len() > 0 {
        seq![s[0]] + spec_expand_escapes(s.skip(1))
    } else {
        Seq::empty()
    }
}

fn expand_escapes(v: &Vec<char>) -> (r: Vec<char>)
    ensures
        r@ == spec_expand_escapes(v@),
{
    let n = v.len();
    let mut r: Vec<char> = Vec::new();
    let mut i: usize = 0;
    proof {
        assert(v@.skip(0) =~= v@);
        assert(Seq::<char>::empty() + spec_expand_escapes(v@) =~= spec_expand_escapes(v@));
    }
    while i < n
        invariant
            n == v@.len(),
            i <= n,
            spec_expand_escapes(v@) == r@ + spec_expand_escapes(v@.skip(i as int)),
        decreases n - i,
    {
        let ghost pre = r@;
        let ghost rest = v@.skip(i as int);
        if v[i] == '\\' && i + 1 < n && v[i + 1] == 'n' {
            r.push('\n');
            proof {
                assert(rest[0] == v@[i as int]);
                assert(rest[1] == v@[i as int + 1]);
                assert(rest.skip(2) =~= v@.skip(i as int + 2));
                assert(spec_expand_escapes(rest) == seq!['\n'] + spec_expand_escapes(rest.skip(2)));
                assert(r@ =~= pre.push('\n'));
                assert(pre + (seq!['\n'] + spec_expand_escapes(v@.skip(i as int + 2))) =~= r@
                    + spec_expand_escapes(v@.skip(i as int + 2)));
            }
            i = i + 2;
        } else {
            r.push(v[i]);
            proof {
                assert(rest[0] == v@[i as int]);
                assert(rest.len() >= 2 ==> rest[1] == v@[i as int + 1]);
                assert(rest.skip(1) =~= v@.skip(i as int + 1));
                assert(spec_expand_escapes(rest) == seq![rest[0]] + spec_expand_escapes(
                    rest.skip(1),
                ));
                assert(pre + (seq![v@[i as int]] + spec_expand_escapes(v@.skip(i as int + 1)))
                    =~= r@ + spec_expand_escapes(v@.skip(i as int + 1)));
            }
            i = i + 1;
        }
    }
    proof {
        assert(v@.skip(n as int) =~= Seq::<char>::empty());
        assert(r@ + Seq::<char>::empty() =~= r@);
    }
    r
}

/// The canonical rendering of a value, for the values the library can render
/// itself: integers in decimal, text with `\n` escapes expanded, booleans as
/// `true`/`false`, null as `null`. A floating-point value renders as `None`;
/// its text must be requested from the caller.
pub open spec fn spec_render_plain(v: ValueV) -> Option<Seq<char>> {
    match v {
        ValueV::Int(i) => Some(spec_int_str(i as int)),
        ValueV::Float(_) => None,
        ValueV::Text(s) => Some(spec_expand_escapes(s)),
        ValueV::Bool(b) => Some(
            if b {
                "true"@
            } else {
                "false"@
            },
        ),
        ValueV::Null => Some("null"@),
    }
}

/// Renders every value but a floating-point one (see [`spec_render_plain`]).
pub fn render_plain(v: &Value) -> (r: Option<String>)
    ensures
        match r {
            Some(s) => spec_render_plain(v@) == Some(s@),
            None => v@ is Float,
        },
{
    match v {
        Value::Int(i) => Some(int_to_string(*i)),
        Value::Float(_) => None,
        Value::Text(s) => {
            let cs = str_to_chars(s.as_str());
            let e = expand_escapes(&cs);
            Some(chars_to_string(&e))
        },
        Value::Bool(b) => {
            if *b {
                Some(String::from_str("true"))
            } else {
                Some(String::from_str("false"))
            }
        },
        Value::Null => Some(String::from_str("null")),
    }
}

} // verus!
