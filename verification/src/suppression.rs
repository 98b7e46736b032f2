//! Inline suppression: a `# pyguard: ignore` (or `# slopcop: ignore`)
//! comment silences the findings reported on its own line, all of them or
//! the rules it lists.
use vstd::prelude::*;

use crate::diagnostic::{findings, Diagnostic, Finding};
use crate::rules::no_broad_except::comma;
use crate::text::{
    chars_eq, chars_of, find, find_chars, occurs_at, first_index_from, lemma_find_from,
    lemma_first_index_scan, lemma_split_by_step, skip_start, split_all, split_by, trim,
    trim_bounds, trim_start, Trimmed,
};

verus! {

pub open spec fn newline_char() -> spec_fn(char) -> bool {
    |c: char| c == '\n'
}

pub open spec fn close_bracket() -> spec_fn(char) -> bool {
    |c: char| c == ']'
}

/// `l` without one trailing carriage return.
pub open spec fn strip_cr(l: Seq<char>) -> Seq<char> {
    if l.len() > 0 && l.last() == '\r' {
        l.drop_last()
    } else {
        l
    }
}

/// The lines of `s` as `str::lines` yields them: the pieces between `\n`s,
/// each without the `\r` of a `\r\n` ending, and no empty last line after a
/// final `\n`.
pub open spec fn source_lines(s: Seq<char>) -> Seq<Seq<char>> {
    let ps = split_by(s, newline_char());
    let n: int = if ps.len() > 0 && ps.last().len() == 0 {
        ps.len() - 1
    } else {
        ps.len() as int
    };
    Seq::new(n as nat, |i: int| if i < ps.len() - 1 { strip_cr(ps[i]) } else { ps[i] })
}

/// The text of the 1-based line `line` of `s`; empty for line 0 and past the end.
pub open spec fn line_text(s: Seq<char>, line: usize) -> Seq<char> {
    let ls = source_lines(s);
    if 1 <= line <= ls.len() {
        ls[line - 1]
    } else {
        Seq::empty()
    }
}

/// One of `items`, trimmed, is `id`.
pub open spec fn lists(items: Seq<Seq<char>>, id: Seq<char>) -> bool {
    exists|k: int| 0 <= k < items.len() && trim(#[trigger] items[k]) == id
}

/// What the first `marker` on `line` says of rule `id`: with nothing but
/// whitespace after it, every rule is suppressed; with `[a, b, ...]` after it
/// (up to the first `]`), the rules listed are.
pub open spec fn suppressed_by(line: Seq<char>, marker: Seq<char>, id: Seq<char>) -> bool {
    match find(line, marker) {
        None => false,
        Some(i) => {
            let rest = trim_start(line.skip(i + marker.len()), Trimmed::Whitespace);
            if rest.len() == 0 {
                true
            } else if rest[0] != '[' {
                false
            } else {
                match first_index_from(rest, close_bracket(), 0) {
                    None => false,
                    Some(j) => lists(split_by(rest.subrange(1, j), comma()), id),
                }
            }
        }
    }
}

pub open spec fn pyguard_marker() -> Seq<char> {
    "# pyguard: ignore"@
}

/// The second accepted marker: the one that the rules' advice texts print.
pub open spec fn slopcop_marker() -> Seq<char> {
    "# slopcop: ignore"@
}

/// `line` suppresses rule `id`.
pub open spec fn suppresses(line: Seq<char>, id: Seq<char>) -> bool {
    suppressed_by(line, pyguard_marker(), id) || suppressed_by(line, slopcop_marker(), id)
}

/// A finding is suppressed by the line of `source` it was reported on.
pub open spec fn is_suppressed_in(f: Finding, source: Seq<char>) -> bool {
    suppresses(line_text(source, f.line), f.rule_id)
}

/// The findings of `fs` that `source` does not suppress, in their order.
pub open spec fn unsuppressed(fs: Seq<Finding>, source: Seq<char>) -> Seq<Finding>
    decreases fs.len(),
{
    if fs.len() == 0 {
        fs
    } else {
        let rest = unsuppressed(fs.drop_last(), source);
        if is_suppressed_in(fs.last(), source) {
            rest
        } else {
            rest.push(fs.last())
        }
    }
}

/// Whether one comma-separated item of `s`, trimmed, is `id`.
fn lists_exec(s: &[char], id: &[char]) -> (r: bool)
    ensures
        r == lists(split_by(s@, comma()), id@),
{
    let ghost ms = split_by(s@, comma());
    let n = s.len();
    let mut p: usize = 0;
    let mut k: usize = 0;
    assert(s@.skip(0) =~= s@);
    loop
        invariant
            0 <= p <= n,
            n == s@.len(),
            ms == split_by(s@, comma()),
            0 <= k <= ms.len(),
            k <= p,
            ms.skip(k as int) == split_by(s@.skip(p as int), comma()),
            forall|t: int| 0 <= t < k ==> trim(#[trigger] ms[t]) != id@,
        decreases n - p,
    {
        let mut j = p;
        while j < n && s[j] != ','
            invariant
                p <= j <= n,
                n == s@.len(),
                forall|t: int| p <= t < j ==> !comma()(#[trigger] s@[t]),
            decreases n - j,
        {
            j = j + 1;
        }
        proof {
            lemma_split_by_step(s@, comma(), p as int, j as int);
            assert(ms.skip(k as int).len() == ms.len() - k);
            assert(ms.skip(k as int)[0] == ms[k as int]);
        }
        let (a, b) = trim_bounds(s, p, j);
        proof {
            assert(s@.subrange(p as int, j as int) == ms[k as int]) by {
                if j == n {
                    assert(s@.skip(p as int) =~= s@.subrange(p as int, j as int));
                }
            }
        }
        if chars_eq(&s[a..b], id) {
            assert(trim(ms[k as int]) == id@);
            return true;
        }
        if j == n {
            assert(ms.len() == k + 1);
            return false;
        }
        assert(ms.skip(k + 1) =~= ms.skip(k as int).skip(1));
        assert(split_by(s@.skip(p as int), comma()).skip(1) =~= split_by(s@.skip(j + 1), comma()));
        p = j + 1;
        k = k + 1;
    }
}

/// Whether the first `marker` on `line` suppresses rule `id`.
fn suppressed_by_exec(line: &[char], marker: &str, id: &[char]) -> (r: bool)
    ensures
        r == suppressed_by(line@, marker@, id@),
{
    let m = chars_of(marker);
    let i = match find_chars(line, m.as_slice()) {
        None => return false,
        Some(i) => i,
    };
    proof {
        lemma_find_from(line@, m@, 0);
        assert(occurs_at(line@, m@, i as int));
    }
    let n = line.len();
    let start = i + m.len();
    let a = skip_start(line, start, n, &Trimmed::Whitespace);
    let ghost rest = trim_start(line@.skip(start as int), Trimmed::Whitespace);
    assert(line@.subrange(start as int, n as int) =~= line@.skip(start as int));
    assert(rest == line@.subrange(a as int, n as int));
    if a == n {
        return true;
    }
    assert(rest[0] == line@[a as int]);
    if line[a] != '[' {
        return false;
    }
    let mut j = a + 1;
    while j < n && line[j] != ']'
        invariant
            a < j <= n,
            n == line@.len(),
            line@[a as int] == '[',
            forall|t: int| a <= t < j ==> !close_bracket()(#[trigger] line@[t]),
        decreases n - j,
    {
        j = j + 1;
    }
    proof {
        assert forall|t: int| 0 <= t < j - a implies !close_bracket()(#[trigger] rest[t]) by {
            assert(rest[t] == line@[a + t]);
        }
        if j < n {
            assert(rest[j - a] == line@[j as int]);
        }
        lemma_first_index_scan(rest, close_bracket(), 0, j - a);
    }
    if j == n {
        return false;
    }
    assert(rest.subrange(1, j - a) =~= line@.subrange(a + 1, j as int));
    lists_exec(&line[a + 1..j], id)
}

/// Whether `line` suppresses rule `id`.
fn suppresses_exec(line: &[char], id: &[char]) -> (r: bool)
    ensures
        r == suppresses(line@, id@),
{
    suppressed_by_exec(line, "# pyguard: ignore", id) || suppressed_by_exec(
        line,
        "# slopcop: ignore",
        id,
    )
}

/// Whether the source line `line` suppresses rule `rule_id` with a
/// `# pyguard: ignore` or `# slopcop: ignore` comment: bare, every rule;
/// `[rule-a, rule-b]`, the rules listed. Of each marker only its first
/// occurrence on the line counts, and the line suppresses the rule when
/// either marker does.
pub fn is_suppressed(line: &str, rule_id: &str) -> (r: bool)
    ensures
        r == suppresses(line@, rule_id@),
{
    let l = chars_of(line);
    let id = chars_of(rule_id);
    suppresses_exec(l.as_slice(), id.as_slice())
}


/// Drops the diagnostics that an inline `# pyguard: ignore` or
/// `# slopcop: ignore` comment on their line of `source` suppresses; the
/// others keep their order.
pub fn filter_suppressed(diagnostics: Vec<Diagnostic>, source: &str) -> (r: Vec<Diagnostic>)
    ensures
        findings(r@) == unsuppressed(findings(diagnostics@), source@),
{
    let s = chars_of(source);
    let bounds = split_all(s.as_slice(), '\n', Ghost(newline_char()));
    let ghost ps = split_by(s@, newline_char());
    let ghost ls = source_lines(s@);
    assert(ps.len() >= 1);
    let count = bounds.len();
    let last = bounds[count - 1];
    assert(s@.subrange(bounds@[count - 1].0 as int, bounds@[count - 1].1 as int) == ps[count - 1]);
    let nlines = if last.0 == last.1 {
        count - 1
    } else {
        count
    };
    assert(ls.len() == nlines);
    let mut out: Vec<Diagnostic> = Vec::new();
    let mut i: usize = 0;
    while i < diagnostics.len()
        invariant
            0 <= i <= diagnostics@.len(),
            s@ == source@,
            ps == split_by(s@, newline_char()),
            ls == source_lines(s@),
            ls.len() == nlines,
            count == ps.len(),
            count == bounds@.len(),
            nlines <= count,
            forall|k: int|
                0 <= k < bounds@.len() ==> bounds@[k].0 <= bounds@[k].1 <= s@.len() && s@.subrange(
                    #[trigger] bounds@[k].0 as int,
                    bounds@[k].1 as int,
                ) == ps[k],
            findings(out@) == unsuppressed(findings(diagnostics@).take(i as int), source@),
        decreases diagnostics@.len() - i,
    {
        let d = &diagnostics[i];
        let line: &[char] = if d.line >= 1 && d.line <= nlines {
            let k = d.line - 1;
            let (a, b0) = bounds[k];
            assert(s@.subrange(bounds@[k as int].0 as int, bounds@[k as int].1 as int) == ps[k as int]);
            let b = if k + 1 < count && b0 > a && s[b0 - 1] == '\r' {
                b0 - 1
            } else {
                b0
            };
            assert(s@.subrange(a as int, b as int) == ls[k as int]) by {
                if k + 1 < count {
                    if b0 > a && s@[b0 - 1] == '\r' {
                        assert(s@.subrange(a as int, b as int) =~= ps[k as int].drop_last());
                    }
                }
            }
            &s.as_slice()[a..b]
        } else {
            assert(s@.subrange(0, 0) =~= Seq::<char>::empty());
            &s.as_slice()[0..0]
        };
        assert(line@ == line_text(source@, d.line));
        let id = chars_of(d.rule_id);
        let ghost fs = findings(diagnostics@);
        assert(fs.take(i + 1).drop_last() =~= fs.take(i as int));
        assert(fs.take(i + 1).last() == d@);
        if !suppresses_exec(line, id.as_slice()) {
            let ghost before = findings(out@);
            out.push(d.duplicate());
            assert(findings(out@) =~= before.push(d@));
        }
        i = i + 1;
    }
    assert(findings(diagnostics@).take(i as int) =~= findings(diagnostics@));
    out
}

} // verus!
