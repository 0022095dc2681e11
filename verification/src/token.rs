//! The tokenizer and the literal classifier.
//!
//! One instruction line is split into whitespace-delimited tokens, except
//! that a space between double quotes is kept as part of one token; quote
//! characters themselves are kept. Quote balance is not validated: an odd
//! number of quotes leaves the rest of the line inside one token.
//!
//! A raw token is classified by a fixed precedence of rules: quoted text,
//! `true`/`false`, a token containing `.` (a floating-point literal, parsed
//! by the caller), a decimal integer, and otherwise an unknown literal,
//! which is fatal.

use vstd::prelude::*;

use crate::chars::chars_eq_str;
use crate::chars::lemma_seq_views_push;
use crate::chars::seq_views;
use crate::chars::chars_to_string;
use crate::chars::str_to_chars;
use crate::numparse::parse_i64;
use crate::numparse::spec_parse_i64;
use crate::value::Value;
use crate::value::ValueV;

verus! {

/// The tokenizer state after reading a prefix of the line: the finished
/// tokens, the token being built, and whether the position is inside quotes.
pub open spec fn spec_tok_state(s: Seq<char>) -> (Seq<Seq<char>>, Seq<char>, bool)
    decreases s.len(),
{
    if s.len() == 0 {
        (Seq::empty(), Seq::empty(), false)
    } else {
        let (ts, cur, q) = spec_tok_state(s.drop_last());
        let c = s.last();
        let q2 = if c == '"' {
            !q
        } else {
            q
        };
        if c == ' ' && !q2 {
            (ts.push(cur), Seq::<char>::empty(), q2)
        } else {
            (ts, cur.push(c), q2)
        }
    }
}

/// The tokens of one line: spaces outside quotes separate tokens, and the
/// trailing token is always produced, even when empty.
pub open spec fn spec_tokenize(s: Seq<char>) -> Seq<Seq<char>> {
    let (ts, cur, _) = spec_tok_state(s);
    ts.push(cur)
}

/// Splits a line at spaces that are not between double quotes, as
/// [`spec_tokenize`] describes.
pub fn split_whitespace_not_in_quotes(s: &str) -> (r: Vec<String>)
    ensures
        seq_views(r@) == spec_tokenize(s@),
{
    let v = str_to_chars(s);
    let toks = tokenize_chars(&v);
    let mut r: Vec<String> = Vec::new();
    let mut i: usize = 0;
    proof {
        assert(seq_views(r@) =~= seq_views(toks@).take(0));
    }
    while i < toks.len()
        invariant
            i <= toks@.len(),
            seq_views(toks@) == spec_tokenize(v@),
            v@ == s@,
            seq_views(r@) == seq_views(toks@).take(i as int),
        decreases toks@.len() - i,
    {
        let ghost pre = r@;
        let t = chars_to_string(&toks[i]);
        proof {
            assert(t@ == seq_views(toks@)[i as int]);
        }
        r.push(t);
        i = i + 1;
        proof {
            lemma_seq_views_push(pre, t);
            assert(seq_views(r@) =~= seq_views(toks@).take(i as int));
        }
    }
    proof {
        assert(seq_views(toks@).take(toks@.len() as int) =~= seq_views(toks@));
    }
    r
}

/// The tokenizer over a character vector.
pub fn tokenize_chars(v: &Vec<char>) -> (r: Vec<Vec<char>>)
    ensures
        seq_views(r@) == spec_tokenize(v@),
{
    let n = v.len();
    let mut tokens: Vec<Vec<char>> = Vec::new();
    let mut cur: Vec<char> = Vec::new();
    let mut inq = false;
    let mut i: usize = 0;
    proof {
        assert(v@.take(0) =~= Seq::<char>::empty());
        assert(seq_views(tokens@) =~= Seq::<Seq<char>>::empty());
    }
    while i < n
        invariant
            n == v@.len(),
            i <= n,
            spec_tok_state(v@.take(i as int)) == (seq_views(tokens@), cur@, inq),
        decreases n - i,
    {
        let c = v[i];
        proof {
            let t = v@.take(i as int + 1);
            assert(t.drop_last() =~= v@.take(i as int));
            assert(t.last() == v@[i as int]);
        }
        if c == '"' {
            inq = !inq;
        }
        if c == ' ' && !inq {
            let ghost pretoks = tokens@;
            let ghost precur = cur@;
            tokens.push(cur);
            cur = Vec::new();
            proof {
                lemma_seq_views_push(pretoks, tokens@.last());
                assert(seq_views(tokens@) == seq_views(pretoks).push(precur));
            }
        } else {
            cur.push(c);
        }
        i = i + 1;
    }
    proof {
        assert(v@.take(n as int) =~= v@);
    }
    let ghost pretoks = tokens@;
    let ghost precur = cur@;
    tokens.push(cur);
    proof {
        lemma_seq_views_push(pretoks, tokens@.last());
        assert(seq_views(tokens@) == seq_views(pretoks).push(precur));
    }
    tokens
}

/// The outcome of classifying one raw token.
#[derive(Debug)]
pub enum Classified {
    /// A value the library can produce itself.
    Val(Value),
    /// A token containing `.`: a floating-point literal, to be parsed by the
    /// caller; unparseable ones are fatal.
    FloatLit,
    /// None of the rules applied: fatal "unknown data type".
    Unknown,
}

/// The mathematical model of a [`Classified`].
pub enum ClassifiedV {
    Val(ValueV),
    FloatLit,
    Unknown,
}

impl View for Classified {
    type V = ClassifiedV;

    open spec fn view(&self) -> ClassifiedV {
        match self {
            Classified::Val(v) => ClassifiedV::Val(v@),
            Classified::FloatLit => ClassifiedV::FloatLit,
            Classified::Unknown => ClassifiedV::Unknown,
        }
    }
}

/// The classification rules, in order of precedence. A token of at least two
/// characters that starts and ends with a double quote is text with the
/// quotes stripped; `true` and `false` are booleans; a token containing `.`
/// is a floating-point literal; a token readable as a signed 64-bit decimal
/// integer is an integer; anything else is unknown.
pub open spec fn spec_classify(t: Seq<char>) -> ClassifiedV {
    if t.len() >= 2 && t[0] == '"' && t[t.len() - 1] == '"' {
        ClassifiedV::Val(ValueV::Text(t.subrange(1, t.len() - 1)))
    } else if t == "true"@ {
        ClassifiedV::Val(ValueV::Bool(true))
    } else if t == "false"@ {
        ClassifiedV::Val(ValueV::Bool(false))
    } else if t.contains('.') {
        ClassifiedV::FloatLit
    } else {
        match spec_parse_i64(t) {
            Some(i) => ClassifiedV::Val(ValueV::Int(i)),
            None => ClassifiedV::Unknown,
        }
    }
}

/// Classifies one raw token, as [`spec_classify`] describes.
pub fn determine_type(t: &Vec<char>) -> (r: Classified)
    ensures
        r@ == spec_classify(t@),
{
    let n = t.len();
    if n >= 2 && t[0] == '"' && t[n - 1] == '"' {
        let mut inner: Vec<char> = Vec::new();
        let mut i: usize = 1;
        while i < n - 1
            invariant
                n == t@.len(),
                n >= 2,
                1 <= i <= n - 1,
                inner@ == t@.subrange(1, i as int),
            decreases n - i,
        {
            inner.push(t[i]);
            i = i + 1;
            proof {
                assert(inner@ =~= t@.subrange(1, i as int));
            }
        }
        return Classified::Val(Value::Text(chars_to_string(&inner)));
    }
    if chars_eq_str(t, "true") {
        return Classified::Val(Value::Bool(true));
    }
    if chars_eq_str(t, "false") {
        return Classified::Val(Value::Bool(false));
    }
    let mut i: usize = 0;
    while i < n
        invariant
            n == t@.len(),
            i <= n,
            forall|j: int| 0 <= j < i ==> t@[j] != '.',
            !(t@.len() >= 2 && t@[0] == '"' && t@[t@.len() - 1] == '"'),
            t@ != "true"@,
            t@ != "false"@,
        decreases n - i,
    {
        if t[i] == '.' {
            proof {
                assert(t@.contains('.')) by {
                    assert(t@[i as int] == '.');
                }
            }
            return Classified::FloatLit;
        }
        i = i + 1;
    }
    proof {
        assert(!t@.contains('.')) by {
            if t@.contains('.') {
                let k = choose|k: int| 0 <= k < t@.len() && t@[k] == '.';
                assert(t@[k] != '.');
            }
        }
    }
    match parse_i64(t) {
        Some(i) => Classified::Val(Value::Int(i)),
        None => Classified::Unknown,
    }
}

} // verus!
