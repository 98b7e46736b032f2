//! `no-broad-except`: catching `Exception` or `BaseException`, alone or in a tuple.
use vstd::prelude::*;

use crate::diagnostic::{finding, findings, Diagnostic, Finding};
use crate::rules::no_bare_except::{exception_type, find_exception_type, is_broad_type, too_broad_message};
use crate::rules::{emit, report};
use crate::syntax::{text, SyntaxNode};
use crate::text::{
    append_str, chars_eq, chars_of, lemma_split_by_step, skip_end, skip_start, split_by, trim,
    trim_bounds, trim_end, trim_start, Trimmed,
};

verus! {

#[derive(Clone, Copy)]
pub struct NoBroadExcept;

pub open spec fn comma() -> spec_fn(char) -> bool {
    |c: char| c == ','
}

/// The first of `ms[i..]` that, trimmed, is a broad exception type; trimmed.
pub open spec fn first_broad_member(ms: Seq<Seq<char>>, i: int) -> Option<Seq<char>>
    decreases ms.len() - i,
{
    if i < 0 || i >= ms.len() {
        None
    } else if is_broad_type(trim(ms[i])) {
        Some(trim(ms[i]))
    } else {
        first_broad_member(ms, i + 1)
    }
}

/// The members of a parenthesized type list: the text without its leading
/// `(`s and trailing `)`s, split at commas.
pub open spec fn tuple_members(t: Seq<char>) -> Seq<Seq<char>> {
    split_by(trim_end(trim_start(t, Trimmed::Char('(')), Trimmed::Char(')')), comma())
}

/// The broad type a caught-type text names, directly or as a member of a tuple.
pub open spec fn broad_type_named(t: Seq<char>) -> Option<Seq<char>> {
    if is_broad_type(t) {
        Some(t)
    } else if t.len() > 0 && t[0] == '(' {
        first_broad_member(tuple_members(t), 0)
    } else {
        None
    }
}

/// An `except` clause that names a broad type is reported once, for the first such type.
pub open spec fn no_broad_except_findings(n: SyntaxNode, src: Seq<u8>) -> Seq<Finding> {
    match exception_type(n, src) {
        Some(t) => match broad_type_named(text(t, src)) {
            Some(b) => seq![finding("no-broad-except"@, n.line, n.col, too_broad_message(b))],
            None => Seq::empty(),
        },
        None => Seq::empty(),
    }
}

/// Which broad type, if any, the characters `s` are: 1 for `Exception`, 2 for `BaseException`.
fn broad_kind(s: &[char]) -> (r: u8)
    ensures
        r <= 2,
        r == 1 <==> s@ == "Exception"@,
        r == 2 <==> s@ == "BaseException"@,
        r == 0 <==> !is_broad_type(s@),
{
    let e = chars_of("Exception");
    let b = chars_of("BaseException");
    if chars_eq(s, e.as_slice()) {
        proof {
            reveal_strlit("Exception");
            reveal_strlit("BaseException");
            assert("Exception"@.len() == 9);
            assert("BaseException"@.len() == 13);
        }
        1
    } else if chars_eq(s, b.as_slice()) {
        2
    } else {
        0
    }
}

/// The first comma-separated member of `s` that trims to a broad type, as its kind.
fn first_broad_in(s: &[char]) -> (r: u8)
    ensures
        r <= 2,
        r == 0 <==> first_broad_member(split_by(s@, comma()), 0) is None,
        r == 1 <==> first_broad_member(split_by(s@, comma()), 0) == Some("Exception"@),
        r == 2 <==> first_broad_member(split_by(s@, comma()), 0) == Some("BaseException"@),
{
    let ghost ms = split_by(s@, comma());
    let n = s.len();
    let mut p: usize = 0;
    let mut k: usize = 0;
    assert(s@.skip(0) =~= s@);
    loop
        invariant
            0 <= p <= n,
            n == s@.len(),
            ms == split_by(s@, comma()),
            0 <= k <= ms.len(),
            k <= p,
            ms.skip(k as int) == split_by(s@.skip(p as int), comma()),
            first_broad_member(ms, 0) == first_broad_member(ms, k as int),
        decreases n - p,
    {
        let mut j = p;
        while j < n && s[j] != ','
            invariant
                p <= j <= n,
                n == s@.len(),
                forall|t: int| p <= t < j ==> !comma()(#[trigger] s@[t]),
            decreases n - j,
        {
            j = j + 1;
        }
        proof {
            lemma_split_by_step(s@, comma(), p as int, j as int);
            assert(ms.skip(k as int).len() == ms.len() - k);
            assert(ms.skip(k as int)[0] == ms[k as int]);
        }
        let (a, b) = trim_bounds(s, p, j);
        let kind = broad_kind(&s[a..b]);
        proof {
            assert(s@.subrange(p as int, j as int) == ms[k as int]) by {
                if j < n {
                } else {
                    assert(s@.skip(p as int) =~= s@.subrange(p as int, j as int));
                }
            }
        }
        if kind != 0 {
            return kind;
        }
        if j == n {
            assert(ms.len() == k + 1);
            assert(first_broad_member(ms, k + 1) is None);
            return 0;
        }
        assert(ms.skip(k + 1) =~= ms.skip(k as int).skip(1));
        assert(split_by(s@.skip(p as int), comma()).skip(1) =~= split_by(s@.skip(j + 1), comma()));
        p = j + 1;
        k = k + 1;
    }
}

impl NoBroadExcept {
    pub fn check(&self, node: &SyntaxNode, src: &[u8], out: &mut Vec<Diagnostic>)
        ensures
            findings(final(out)@) == findings(old(out)@) + no_broad_except_findings(*node, src@),
    {
        let tnode = match find_exception_type(node, src) {
            Some(tn) => tn,
            None => {
                assert(findings(out@) =~= findings(out@) + Seq::<Finding>::empty());
                return;
            },
        };
        let t = tnode.text_or_empty(src);
        let ts = t.as_slice();
        let mut kind = broad_kind(ts);
        if kind == 0 && t.len() > 0 && t[0] == '(' {
            let a = skip_start(ts, 0, t.len(), &Trimmed::Char('('));
            let b = skip_end(ts, a, t.len(), &Trimmed::Char(')'));
            proof {
                assert(t@.subrange(0, t@.len() as int) =~= t@);
            }
            kind = first_broad_in(&ts[a..b]);
            assert(ts@.subrange(a as int, b as int) == trim_end(trim_start(t@, Trimmed::Char('(')), Trimmed::Char(')')));
            assert(broad_type_named(t@) == first_broad_member(tuple_members(t@), 0));
            assert(tuple_members(t@) == split_by(ts@.subrange(a as int, b as int), comma()));
            assert(kind == 1 ==> broad_type_named(t@) == Some("Exception"@));
            assert(kind == 2 ==> broad_type_named(t@) == Some("BaseException"@));
        } else {
            assert(kind == 1 ==> broad_type_named(t@) == Some("Exception"@));
            assert(kind == 2 ==> broad_type_named(t@) == Some("BaseException"@));
        }
        if kind == 0 {
            assert(findings(out@) =~= findings(out@) + Seq::<Finding>::empty());
            return;
        }
        let name: &'static str = if kind == 1 { "Exception" } else { "BaseException" };
        assert(broad_type_named(t@) == Some(name@));
        let mut m: Vec<char> = Vec::new();
        append_str(&mut m, "`except ");
        append_str(&mut m, name);
        append_str(&mut m, "` is too broad; catch specific exception types");
        let d = report("no-broad-except", node, &m);
        let ghost before = findings(out@);
        emit(out, d);
        assert(findings(out@) =~= before + no_broad_except_findings(*node, src@));
    }
}

} // verus!
