//! `no-assert`: `assert` statements vanish under `python -O`.
use vstd::prelude::*;

use crate::diagnostic::{finding, findings, Diagnostic, Finding};
use crate::rules::{emit, report};
use crate::syntax::SyntaxNode;
use crate::text::{
    after_last, append_str, chars_of, ends_with, ends_with_chars, lemma_last_index_scan,
    occurs_at, occurs_at_chars, starts_with, starts_with_chars,
};

verus! {

#[derive(Clone, Copy)]
pub struct NoAssert;

pub open spec fn no_assert_message() -> Seq<char> {
    "Avoid `assert` in production code; use `if not ...: raise ValueError(...)` instead"@
}

/// Every `assert` statement is reported.
pub open spec fn no_assert_findings(n: SyntaxNode) -> Seq<Finding> {
    seq![finding("no-assert"@, n.line, n.col, no_assert_message())]
}

impl NoAssert {
    pub fn check(&self, node: &SyntaxNode, out: &mut Vec<Diagnostic>)
        ensures
            findings(final(out)@) == findings(old(out)@) + no_assert_findings(*node),
    {
        let mut m: Vec<char> = Vec::new();
        append_str(&mut m, "Avoid `assert` in production code; use `if not ...: raise ValueError(...)` instead");
        let d = report("no-assert", node, &m);
        let ghost before = findings(out@);
        emit(out, d);
        assert(findings(out@) =~= before + no_assert_findings(*node));
    }
}

pub open spec fn slash() -> spec_fn(char) -> bool {
    |c: char| c == '/'
}

pub open spec fn backslash() -> spec_fn(char) -> bool {
    |c: char| c == '\\'
}

pub open spec fn is_path_sep(c: char) -> bool {
    c == '/' || c == '\\'
}

/// The last component of a path, whichever of `/` and `\` separates them.
pub open spec fn file_name(path: Seq<char>) -> Seq<char> {
    after_last(after_last(path, slash()), backslash())
}

/// `name` is one whole component of `path`, bounded by separators or the ends.
pub open spec fn component_at(path: Seq<char>, name: Seq<char>, i: int) -> bool {
    &&& occurs_at(path, name, i)
    &&& (i == 0 || is_path_sep(path[i - 1]))
    &&& (i + name.len() == path.len() || is_path_sep(path[i + name.len()]))
}

pub open spec fn has_component(path: Seq<char>, name: Seq<char>) -> bool {
    exists|i: int| component_at(path, name, i)
}

/// A path looks like a test file: its file name starts with `test_` or ends
/// with `_test.py`, or one of its components is `tests`, `test` or `testing`.
pub open spec fn is_test_path(path: Seq<char>) -> bool {
    ||| starts_with(file_name(path), "test_"@)
    ||| ends_with(file_name(path), "_test.py"@)
    ||| has_component(path, "tests"@)
    ||| has_component(path, "test"@)
    ||| has_component(path, "testing"@)
}

/// Index just past the last `c` in `s`, 0 when there is none.
fn after_last_index(s: &[char], c: char, Ghost(pred): Ghost<spec_fn(char) -> bool>) -> (r: usize)
    requires
        forall|x: char| #[trigger] pred(x) == (x == c),
    ensures
        r <= s@.len(),
        s@.skip(r as int) == after_last(s@, pred),
{
    let mut k = s.len();
    while k > 0
        invariant
            0 <= k <= s@.len(),
            forall|x: char| #[trigger] pred(x) == (x == c),
            forall|j: int| k <= j < s@.len() ==> !pred(#[trigger] s@[j]),
        decreases k,
    {
        if s[k - 1] == c {
            proof { lemma_last_index_scan(s@, pred, k as int, s@.len() as int); }
            return k;
        }
        k = k - 1;
    }
    proof {
        lemma_last_index_scan(s@, pred, 0, s@.len() as int);
        assert(s@.skip(0) =~= s@);
    }
    0
}

fn is_sep_char(c: char) -> (r: bool)
    ensures
        r == is_path_sep(c),
{
    c == '/' || c == '\\'
}

fn has_component_chars(path: &[char], name: &[char]) -> (r: bool)
    ensures
        r == has_component(path@, name@),
{
    let n = path.len();
    let mut i: usize = 0;
    while i <= n
        invariant
            n == path@.len(),
            0 <= i <= n + 1,
            forall|j: int| 0 <= j < i ==> !component_at(path@, name@, j),
        decreases n + 1 - i,
    {
        let left = i == 0 || is_sep_char(path[i - 1]);
        if left && occurs_at_chars(path, name, i) {
            let e = i + name.len();
            let right = e == n || is_sep_char(path[e]);
            if right {
                assert(component_at(path@, name@, i as int));
                return true;
            }
        }
        if i == n {
            assert forall|j: int| !component_at(path@, name@, j) by {
                if 0 <= j && j <= n {
                } else if j > n {
                    assert(!occurs_at(path@, name@, j));
                }
            }
            return false;
        }
        i = i + 1;
    }
    false
}

/// Whether `path` looks like the path of a test file.
pub fn is_test_file(path: &str) -> (r: bool)
    ensures
        r == is_test_path(path@),
{
    let cs = chars_of(path);
    let a = after_last_index(cs.as_slice(), '/', Ghost(slash()));
    let first = &cs.as_slice()[a..cs.len()];
    assert(first@ == cs@.skip(a as int));
    let b = after_last_index(first, '\\', Ghost(backslash()));
    let name = &first[b..first.len()];
    assert(name@ == first@.skip(b as int));
    let test_prefix = chars_of("test_");
    let test_suffix = chars_of("_test.py");
    if starts_with_chars(name, test_prefix.as_slice()) || ends_with_chars(name, test_suffix.as_slice()) {
        return true;
    }
    let tests = chars_of("tests");
    let test = chars_of("test");
    let testing = chars_of("testing");
    has_component_chars(cs.as_slice(), tests.as_slice())
        || has_component_chars(cs.as_slice(), test.as_slice())
        || has_component_chars(cs.as_slice(), testing.as_slice())
}

} // verus!
