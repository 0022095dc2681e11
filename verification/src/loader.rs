//! The program loader: splits a source text into named function bodies.
//!
//! A function is declared by a line beginning with `fun ` followed by
//! exactly one name token; its body is every following non-empty,
//! non-comment line up to (but not including) a line starting with `end`,
//! each trimmed at its start; comment lines begin with `//`. A declaration
//! still open at the end of the source is closed there. A declaration line
//! with any other number of tokens is fatal. A later declaration of the
//! same name replaces the earlier one.

use vstd::prelude::*;

use crate::chars::chars_eq_str;
use crate::chars::chars_starts_with;
use crate::chars::chars_to_string;
use crate::chars::lemma_seq_views_push;
use crate::chars::lemma_seq_views_update;
use crate::chars::seq_views;
use crate::chars::spec_is_whitespace;
use crate::chars::spec_starts_with;
use crate::chars::spec_trim_start;
use crate::chars::str_to_chars;
use crate::chars::trim_start_chars;
use crate::chars::is_whitespace_char;
use crate::machine::spec_find_func;
use crate::machine::Function;
use crate::machine::FunctionV;
use crate::machine::RunError;
use crate::machine::RunErrorV;

verus! {

/// A segment with one trailing carriage return stripped: the form a line
/// takes when its line feed is removed.
pub open spec fn spec_strip_cr(l: Seq<char>) -> Seq<char> {
    if l.len() > 0 && l.last() == '\r' {
        l.drop_last()
    } else {
        l
    }
}

/// The line-splitting state after a prefix of the source: the non-empty
/// lines seen so far, and the segment being built.
pub open spec fn spec_src_state(s: Seq<char>) -> (Seq<Seq<char>>, Seq<char>)
    decreases s.len(),
{
    if s.len() == 0 {
        (Seq::empty(), Seq::empty())
    } else {
        let (ls, cur) = spec_src_state(s.drop_last());
        let c = s.last();
        if c == '\n' {
            let t = spec_strip_cr(cur);
            if t.len() > 0 {
                (ls.push(t), Seq::<char>::empty())
            } else {
                (ls, Seq::<char>::empty())
            }
        } else {
            (ls, cur.push(c))
        }
    }
}

/// The non-empty lines of a source text: split at line feeds, a carriage
/// return before a line feed stripped, empty lines dropped, and a final
/// line without a terminator kept as it stands.
pub open spec fn spec_source_lines(s: Seq<char>) -> Seq<Seq<char>> {
    let (ls, cur) = spec_src_state(s);
    if cur.len() > 0 {
        ls.push(cur)
    } else {
        ls
    }
}

/// Splits a source text into its non-empty lines, as [`spec_source_lines`]
/// describes.
pub fn source_lines(v: &Vec<char>) -> (r: Vec<Vec<char>>)
    ensures
        seq_views(r@) == spec_source_lines(v@),
{
    let n = v.len();
    let mut lines: Vec<Vec<char>> = Vec::new();
    let mut cur: Vec<char> = Vec::new();
    let mut i: usize = 0;
    proof {
        assert(v@.take(0) =~= Seq::<char>::empty());
        assert(seq_views(lines@) =~= Seq::<Seq<char>>::empty());
    }
    while i < n
        invariant
            n == v@.len(),
            i <= n,
            spec_src_state(v@.take(i as int)) == (seq_views(lines@), cur@),
        decreases n - i,
    {
        let c = v[i];
        proof {
            let t = v@.take(i as int + 1);
            assert(t.drop_last() =~= v@.take(i as int));
            assert(t.last() == v@[i as int]);
        }
        if c == '\n' {
            let keep = cur.len() > 0 && cur[cur.len() - 1] != '\r';
            if keep {
                let ghost pre = lines@;
                lines.push(cur);
                proof {
                    lemma_seq_views_push(pre, lines@.last());
                }
            } else if cur.len() > 0 {
                let mut t = cur;
                t.pop();
                if t.len() > 0 {
                    let ghost pre = lines@;
                    lines.push(t);
                    proof {
                        lemma_seq_views_push(pre, lines@.last());
                    }
                }
            }
            cur = Vec::new();
        } else {
            cur.push(c);
        }
        i = i + 1;
    }
    proof {
        assert(v@.take(n as int) =~= v@);
    }
    if cur.len() > 0 {
        let ghost pre = lines@;
        lines.push(cur);
        proof {
            lemma_seq_views_push(pre, lines@.last());
        }
    }
    lines
}

/// The whitespace-splitting state after a prefix of a line: the finished
/// tokens and the token being built. Runs of whitespace separate tokens and
/// produce no empty ones.
pub open spec fn spec_ws_state(s: Seq<char>) -> (Seq<Seq<char>>, Seq<char>)
    decreases s.len(),
{
    if s.len() == 0 {
        (Seq::empty(), Seq::empty())
    } else {
        let (ts, cur) = spec_ws_state(s.drop_last());
        let c = s.last();
        if spec_is_whitespace(c) {
            if cur.len() > 0 {
                (ts.push(cur), Seq::<char>::empty())
            } else {
                (ts, Seq::<char>::empty())
            }
        } else {
            (ts, cur.push(c))
        }
    }
}

/// The whitespace-separated tokens of a line.
pub open spec fn spec_split_ws(s: Seq<char>) -> Seq<Seq<char>> {
    let (ts, cur) = spec_ws_state(s);
    if cur.len() > 0 {
        ts.push(cur)
    } else {
        ts
    }
}

/// Splits a line at whitespace, as [`spec_split_ws`] describes.
pub fn split_ws(v: &Vec<char>) -> (r: Vec<Vec<char>>)
    ensures
        seq_views(r@) == spec_split_ws(v@),
{
    let n = v.len();
    let mut tokens: Vec<Vec<char>> = Vec::new();
    let mut cur: Vec<char> = Vec::new();
    let mut i: usize = 0;
    proof {
        assert(v@.take(0) =~= Seq::<char>::empty());
        assert(seq_views(tokens@) =~= Seq::<Seq<char>>::empty());
    }
    while i < n
        invariant
            n == v@.len(),
            i <= n,
            spec_ws_state(v@.take(i as int)) == (seq_views(tokens@), cur@),
        decreases n - i,
    {
        let c = v[i];
        proof {
            let t = v@.take(i as int + 1);
            assert(t.drop_last() =~= v@.take(i as int));
            assert(t.last() == v@[i as int]);
        }
        if is_whitespace_char(c) {
            if cur.len() > 0 {
                let ghost pre = tokens@;
                tokens.push(cur);
                cur = Vec::new();
                proof {
                    lemma_seq_views_push(pre, tokens@.last());
                }
            }
        } else {
            cur.push(c);
        }
        i = i + 1;
    }
    proof {
        assert(v@.take(n as int) =~= v@);
    }
    if cur.len() > 0 {
        let ghost pre = tokens@;
        tokens.push(cur);
        proof {
            lemma_seq_views_push(pre, tokens@.last());
        }
    }
    tokens
}

/// A function table with one function added: a function of the same name is
/// replaced in place, any other name is appended.
pub open spec fn spec_insert_func(fs: Seq<FunctionV>, f: FunctionV) -> Seq<FunctionV> {
    match spec_find_func(fs, f.name) {
        Some(i) => fs.update(i, f),
        None => fs.push(f),
    }
}

/// Adds one function to the table, as [`spec_insert_func`] describes.
fn insert_function(funcs: &mut Vec<Function>, f: Function)
    ensures
        seq_views(final(funcs)@) == spec_insert_func(seq_views(old(funcs)@), f@),
{
    let n = funcs.len();
    let name_chars = str_to_chars(f.name.as_str());
    let mut i: usize = 0;
    while i < n
        invariant
            n == funcs@.len(),
            i <= n,
            name_chars@ == f@.name,
            funcs@ == old(funcs)@,
            forall|j: int| 0 <= j < i ==> seq_views(funcs@)[j].name != f@.name,
        decreases n - i,
    {
        let g = &funcs[i];
        if chars_eq_str(&name_chars, g.name.as_str()) {
            proof {
                let fs = seq_views(funcs@);
                assert(name_chars@ == f@.name);
                assert(*g == funcs@[i as int]);
                assert(name_chars@ == g.name@);
                assert(fs[i as int] == funcs@[i as int]@);
                assert(funcs@[i as int]@.name == funcs@[i as int].name@);
                assert(fs[i as int].name == f@.name);
                assert((i as int) < fs.len() && fs[i as int].name == f@.name && (forall|j: int|
                    0 <= j < i as int ==> fs[j].name != f@.name));
                let k = choose|k: int|
                    0 <= k < fs.len() && fs[k].name == f@.name && (forall|j: int|
                        0 <= j < k ==> fs[j].name != f@.name);
                if k < i as int {
                    assert(fs[k].name != f@.name);
                }
                if k > i as int {
                    assert(fs[i as int].name != f@.name);
                }
                assert(k == i as int);
            }
            let ghost pre = funcs@;
            funcs.set(i, f);
            proof {
                lemma_seq_views_update(pre, i as int, funcs@[i as int]);
            }
            return ;
        }
        i = i + 1;
    }
    proof {
        let fs = seq_views(funcs@);
        if spec_find_func(fs, f@.name) is Some {
            let k = choose|k: int|
                0 <= k < fs.len() && fs[k].name == f@.name && (forall|j: int|
                    0 <= j < k ==> fs[j].name != f@.name);
            assert(fs[k].name != f@.name);
        }
    }
    let ghost pre = funcs@;
    funcs.push(f);
    proof {
        lemma_seq_views_push(pre, funcs@.last());
    }
}

/// The loader's state after some lines: the finished functions, the
/// declaration being collected, and the first bad declaration line, if any.
#[verifier::ext_equal]
pub struct LoadStateV {
    pub funcs: Seq<FunctionV>,
    pub cur: Option<FunctionV>,
    pub err: Option<Seq<char>>,
}

/// One line's effect on the loader's state.
pub open spec fn spec_load_step(st: LoadStateV, line: Seq<char>) -> LoadStateV {
    if st.err is Some {
        st
    } else {
        match st.cur {
            None => {
                if spec_starts_with(line, "fun "@) {
                    let parts = spec_split_ws(line);
                    if parts.len() != 2 {
                        LoadStateV { err: Some(line), ..st }
                    } else {
                        LoadStateV {
                            cur: Some(FunctionV { name: parts[1], body: Seq::empty() }),
                            ..st
                        }
                    }
                } else {
                    st
                }
            },
            Some(f) => {
                if spec_starts_with(line, "end"@) {
                    LoadStateV { funcs: spec_insert_func(st.funcs, f), cur: None, ..st }
                } else if spec_starts_with(spec_trim_start(line), "//"@) {
                    st
                } else {
                    LoadStateV {
                        cur: Some(
                            FunctionV { name: f.name, body: f.body.push(spec_trim_start(line)) },
                        ),
                        ..st
                    }
                }
            },
        }
    }
}

/// The loader's state after the first `i` lines.
pub open spec fn spec_load_state(lines: Seq<Seq<char>>, i: int) -> LoadStateV
    decreases i,
{
    if i <= 0 {
        LoadStateV { funcs: Seq::empty(), cur: None, err: None }
    } else {
        spec_load_step(spec_load_state(lines, i - 1), lines[i - 1])
    }
}

/// The function table a line list loads to, or the first bad declaration
/// line. A declaration still open at the end is closed there.
pub open spec fn spec_load(lines: Seq<Seq<char>>) -> Result<Seq<FunctionV>, Seq<char>> {
    let st = spec_load_state(lines, lines.len() as int);
    match st.err {
        Some(l) => Err(l),
        None => match st.cur {
            Some(f) => Ok(spec_insert_func(st.funcs, f)),
            None => Ok(st.funcs),
        },
    }
}

/// An error, once entered, stays.
proof fn lemma_load_err_sticky(lines: Seq<Seq<char>>, i: int, j: int)
    requires
        0 <= i <= j,
        spec_load_state(lines, i).err is Some,
    ensures
        spec_load_state(lines, j).err == spec_load_state(lines, i).err,
    decreases j - i,
{
    if j > i {
        lemma_load_err_sticky(lines, i, j - 1);
    }
}

/// Extracts the function table from a source text, as
/// [`spec_source_lines`] and [`spec_load`] describe.
pub fn parse_functions(code: &str) -> (r: Result<Vec<Function>, RunError>)
    ensures
        match r {
            Ok(fs) => spec_load(spec_source_lines(code@)) == Ok::<_, Seq<char>>(seq_views(fs@)),
            Err(e) => (match spec_load(spec_source_lines(code@)) {
                Err(line) => e@ == (RunErrorV::BadDeclaration { line }),
                Ok(_) => false,
            }),
        },
{
    let cs = str_to_chars(code);
    let lines = source_lines(&cs);
    let ghost linesv = seq_views(lines@);
    let n = lines.len();
    let mut funcs: Vec<Function> = Vec::new();
    let mut cur: Option<Function> = None;
    let mut i: usize = 0;
    proof {
        assert(seq_views(funcs@) =~= Seq::<FunctionV>::empty());
    }
    while i < n
        invariant
            n == lines@.len(),
            i <= n,
            linesv == seq_views(lines@),
            linesv == spec_source_lines(code@),
            linesv.len() == n,
            spec_load_state(linesv, i as int) == (LoadStateV {
                funcs: seq_views(funcs@),
                cur: match cur {
                    Some(f) => Some(f@),
                    None => None,
                },
                err: None,
            }),
        decreases n - i,
    {
        let ghost stpre = spec_load_state(linesv, i as int);
        let line = &lines[i];
        proof {
            assert(linesv[i as int] == lines@[i as int]@);
            assert(spec_load_state(linesv, i as int + 1) == spec_load_step(
                stpre,
                linesv[i as int],
            ));
        }
        let taken = cur;
        cur = None;
        match taken {
            None => {
                if chars_starts_with(line, "fun ") {
                    let parts = split_ws(line);
                    proof {
                        assert(seq_views(parts@) == spec_split_ws(lines@[i as int]@));
                        assert(seq_views(parts@).len() == parts@.len());
                    }
                    if parts.len() != 2 {
                        let bad = chars_to_string(line);
                        proof {
                            assert(spec_load_state(linesv, i as int + 1).err == Some(
                                linesv[i as int],
                            ));
                            lemma_load_err_sticky(linesv, i as int + 1, linesv.len() as int);
                            assert(spec_load_state(linesv, linesv.len() as int).err == Some(
                                linesv[i as int],
                            ));
                            assert(spec_load(linesv) == Err::<Seq<FunctionV>, _>(
                                linesv[i as int],
                            ));
                            assert(bad@ == linesv[i as int]);
                        }
                        return Err(RunError::BadDeclaration { line: bad });
                    }
                    proof {
                        assert(seq_views(parts@)[1] == parts@[1]@);
                    }
                    let name = chars_to_string(&parts[1]);
                    cur = Some(Function { name, body: Vec::new() });
                    proof {
                        assert(seq_views(Seq::<String>::empty()) =~= Seq::<Seq<char>>::empty());
                    }
                }
            },
            Some(f) => {
                if chars_starts_with(line, "end") {
                    insert_function(&mut funcs, f);
                } else {
                    let trimmed = trim_start_chars(line);
                    if chars_starts_with(&trimmed, "//") {
                        cur = Some(f);
                    } else {
                        let mut f2 = f;
                        let ghost prebody = f2.body@;
                        let text = chars_to_string(&trimmed);
                        f2.body.push(text);
                        proof {
                            lemma_seq_views_push(prebody, f2.body@.last());
                        }
                        cur = Some(f2);
                    }
                }
            },
        }
        i = i + 1;
    }
    proof {
        assert(linesv.len() == n);
    }
    match cur {
        Some(f) => {
            insert_function(&mut funcs, f);
            Ok(funcs)
        },
        None => Ok(funcs),
    }
}

} // verus!
