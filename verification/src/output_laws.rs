//! What inline comments suppress, the order findings are shown in, when a
//! run fails, and which configuration a project uses.
use vstd::prelude::*;
use vstd::utf8::*;

use crate::config::{discovered, pyguard_table, Pyproject};
use crate::diagnostic::Finding;
use crate::report::{by_position, run_fails};
use crate::rules::no_broad_except::comma;
use crate::suppression::{pyguard_marker, slopcop_marker, suppresses};
use crate::text::{
    find, is_whitespace, lemma_find_from, lemma_find_scan, lemma_first_index_scan,
    occurs_at, split_by, trim, trim_start, Trimmed,
};

verus! {

// ---------------------------------------------------------------------------
// Suppression comments
// ---------------------------------------------------------------------------

/// The items joined with `,` between them.
pub open spec fn comma_joined(items: Seq<Seq<char>>) -> Seq<char>
    decreases items.len(),
{
    if items.len() <= 1 {
        if items.len() == 1 {
            items[0]
        } else {
            Seq::empty()
        }
    } else {
        items[0] + seq![','] + comma_joined(items.drop_first())
    }
}

pub open spec fn free_of(s: Seq<char>, c: char) -> bool {
    forall|j: int| 0 <= j < s.len() ==> #[trigger] s[j] != c
}

/// `m` first occurs in `line` at index `i`.
pub open spec fn first_at(line: Seq<char>, m: Seq<char>, i: int) -> bool {
    &&& occurs_at(line, m, i)
    &&& forall|k: int| 0 <= k < i ==> !occurs_at(line, m, k)
}

pub open spec fn absent(line: Seq<char>, m: Seq<char>) -> bool {
    forall|k: int| !occurs_at(line, m, k)
}

pub open spec fn all_blank(w: Seq<char>) -> bool {
    forall|j: int| 0 <= j < w.len() ==> is_whitespace(#[trigger] w[j])
}

proof fn lemma_first_marker(line: Seq<char>, m: Seq<char>, i: int)
    requires
        first_at(line, m, i),
    ensures
        find(line, m) == Some(i),
{
    lemma_find_scan(line, m, 0, i);
}

proof fn lemma_absent_marker(line: Seq<char>, m: Seq<char>)
    requires
        absent(line, m),
    ensures
        find(line, m) is None,
{
    lemma_find_from(line, m, 0);
}

proof fn lemma_trim_blank(w: Seq<char>, x: Seq<char>)
    requires
        all_blank(w),
        x.len() > 0,
        !is_whitespace(x[0]),
    ensures
        trim_start(w + x, Trimmed::Whitespace) == x,
    decreases w.len(),
{
    if w.len() == 0 {
        assert(w + x =~= x);
    } else {
        assert((w + x).drop_first() =~= w.drop_first() + x);
        lemma_trim_blank(w.drop_first(), x);
    }
}

proof fn lemma_split_commas(items: Seq<Seq<char>>)
    requires
        items.len() >= 1,
        forall|i: int| 0 <= i < items.len() ==> free_of(#[trigger] items[i], ','),
    ensures
        split_by(comma_joined(items), comma()) == items,
    decreases items.len(),
{
    let s = comma_joined(items);
    let c = comma();
    assert(free_of(items[0], ','));
    if items.len() == 1 {
        assert forall|t: int| 0 <= t < s.len() implies !c(#[trigger] s[t]) by {}
        crate::text::lemma_split_by_step(s, c, 0, s.len() as int);
        assert(s.skip(0) =~= s);
        assert(items =~= seq![items[0]]);
    } else {
        let tail = items.drop_first();
        assert forall|i: int| 0 <= i < tail.len() implies free_of(#[trigger] tail[i], ',') by {
            assert(tail[i] == items[i + 1]);
        }
        lemma_split_commas(tail);
        let k = items[0].len() as int;
        assert forall|t: int| 0 <= t < k implies !c(#[trigger] s[t]) by {
            assert(s[t] == items[0][t]);
        }
        assert(s[k] == ',');
        crate::text::lemma_split_by_step(s, c, 0, k);
        assert(s.skip(0) =~= s);
        assert(s.subrange(0, k) =~= items[0]);
        assert(s.skip(k + 1) =~= comma_joined(tail));
        assert(seq![items[0]] + tail =~= items);
    }
}

/// A line whose first marker (`# pyguard: ignore` or `# slopcop: ignore`)
/// is followed by nothing but whitespace suppresses every rule.
pub proof fn law_blanket_marker(line: Seq<char>, a: Seq<char>, m: Seq<char>, w: Seq<char>, id: Seq<char>)
    requires
        m == pyguard_marker() || m == slopcop_marker(),
        line == a + m + w,
        first_at(line, m, a.len() as int),
        all_blank(w),
    ensures
        suppresses(line, id),
{
    lemma_first_marker(line, m, a.len() as int);
    let rest = line.skip(a.len() as int + m.len() as int);
    assert(rest =~= w);
    lemma_trim_blank_all(w);
}

proof fn lemma_trim_blank_all(w: Seq<char>)
    requires
        all_blank(w),
    ensures
        trim_start(w, Trimmed::Whitespace).len() == 0,
    decreases w.len(),
{
    if w.len() > 0 {
        lemma_trim_blank_all(w.drop_first());
    }
}

/// A line whose first marker is followed by `[a, b, ...]` suppresses exactly
/// the rules listed, whitespace around the names aside (where the other
/// marker does not occur on the line).
pub proof fn law_listed_rules(
    line: Seq<char>,
    a: Seq<char>,
    m: Seq<char>,
    w: Seq<char>,
    items: Seq<Seq<char>>,
    tail: Seq<char>,
    id: Seq<char>,
)
    requires
        m == pyguard_marker() && absent(line, slopcop_marker()) || m == slopcop_marker() && absent(
            line,
            pyguard_marker(),
        ),
        line == a + m + w + seq!['['] + comma_joined(items) + seq![']'] + tail,
        first_at(line, m, a.len() as int),
        all_blank(w),
        items.len() >= 1,
        forall|i: int| 0 <= i < items.len() ==> free_of(#[trigger] items[i], ',') && free_of(items[i], ']'),
    ensures
        suppresses(line, id) <==> exists|k: int| 0 <= k < items.len() && trim(#[trigger] items[k]) == id,
{
    if m == pyguard_marker() {
        lemma_absent_marker(line, slopcop_marker());
    } else {
        lemma_absent_marker(line, pyguard_marker());
    }
    lemma_first_marker(line, m, a.len() as int);
    let body = comma_joined(items);
    let x = seq!['['] + body + seq![']'] + tail;
    let rest = line.skip(a.len() as int + m.len() as int);
    assert(rest =~= w + x);
    assert(!is_whitespace(x[0]));
    lemma_trim_blank(w, x);
    lemma_no_bracket(items);
    let cb = crate::suppression::close_bracket();
    assert forall|t: int| 0 <= t < body.len() + 1 implies !cb(#[trigger] x[t]) by {
        if t > 0 {
            assert(x[t] == body[t - 1]);
        }
    }
    assert(x[body.len() as int + 1] == ']');
    lemma_first_index_scan(x, cb, 0, body.len() as int + 1);
    assert(x.subrange(1, body.len() as int + 1) =~= body);
    lemma_split_commas(items);
}

proof fn lemma_no_bracket(items: Seq<Seq<char>>)
    requires
        forall|i: int| 0 <= i < items.len() ==> free_of(#[trigger] items[i], ']'),
    ensures
        free_of(comma_joined(items), ']'),
    decreases items.len(),
{
    if items.len() > 1 {
        let tail = items.drop_first();
        assert forall|i: int| 0 <= i < tail.len() implies free_of(#[trigger] tail[i], ']') by {
            assert(tail[i] == items[i + 1]);
        }
        lemma_no_bracket(tail);
        let s = comma_joined(items);
        let k = items[0].len() as int;
        assert(free_of(items[0], ']'));
        assert forall|j: int| 0 <= j < s.len() implies #[trigger] s[j] != ']' by {
            if j < k {
                assert(s[j] == items[0][j]);
            } else if j > k {
                assert(s[j] == comma_joined(tail)[j - k - 1]);
            }
        }
    } else if items.len() == 1 {
        assert(free_of(items[0], ']'));
    }
}

/// A line with neither marker suppresses nothing.
pub proof fn law_no_marker(line: Seq<char>, id: Seq<char>)
    requires
        absent(line, pyguard_marker()),
        absent(line, slopcop_marker()),
    ensures
        !suppresses(line, id),
{
    lemma_absent_marker(line, pyguard_marker());
    lemma_absent_marker(line, slopcop_marker());
}

// ---------------------------------------------------------------------------
// Display order
// ---------------------------------------------------------------------------

/// Two findings are shown by path first (bytewise), then by line, then by
/// column: `b` reported before `a` is still shown after it.
pub proof fn law_position_order(a: Finding, b: Finding)
    requires
        ({
            let pa = encode_utf8(a.path);
            let pb = encode_utf8(b.path);
            ||| a.path == b.path && a.line < b.line
            ||| a.path == b.path && a.line == b.line && a.col < b.col
            ||| pa.len() < pb.len() && pb.subrange(0, pa.len() as int) == pa
            ||| exists|k: int|
                0 <= k < pa.len() && k < pb.len() && pa.subrange(0, k) == pb.subrange(0, k) && #[trigger] pa[k]
                    < pb[k]
        }),
    ensures
        by_position(seq![b, a]) == seq![a, b],
        by_position(seq![a, b]) == seq![a, b],
{
    let pa = encode_utf8(a.path);
    let pb = encode_utf8(b.path);
    if pa.len() < pb.len() && pb.subrange(0, pa.len() as int) == pa {
        lemma_prefix_less(pa, pb);
    } else if exists|k: int|
        0 <= k < pa.len() && k < pb.len() && pa.subrange(0, k) == pb.subrange(0, k) && #[trigger] pa[k] < pb[k] {
        let k = choose|k: int|
            0 <= k < pa.len() && k < pb.len() && pa.subrange(0, k) == pb.subrange(0, k) && #[trigger] pa[k]
                < pb[k];
        lemma_first_difference(pa, pb, k);
    }
    lemma_not_both(a, b);
    lemma_two(b, a);
    lemma_two(a, b);
}

/// Display order of two findings.
proof fn lemma_two(x: Finding, y: Finding)
    ensures
        by_position(seq![x, y]) == if crate::report::position_less(y, x) {
            seq![y, x]
        } else {
            seq![x, y]
        },
{
    let e = Seq::<Finding>::empty();
    assert(seq![x].drop_last() =~= e);
    assert(seq![x].last() == x);
    assert(by_position(e) == e);
    assert(by_position(seq![x]) == crate::report::insert_by_position(e, x));
    assert(crate::report::insert_by_position(e, x) == seq![x]);
    assert(seq![x, y].drop_last() =~= seq![x]);
    assert(seq![x, y].last() == y);
    assert(by_position(seq![x, y]) == crate::report::insert_by_position(seq![x], y));
    if crate::report::position_less(y, x) {
        assert(crate::report::insert_by_position(seq![x], y) == crate::report::insert_by_position(e, y).push(x));
        assert(crate::report::insert_by_position(e, y) == seq![y]);
        assert(seq![y].push(x) =~= seq![y, x]);
    } else {
        assert(seq![x].push(y) =~= seq![x, y]);
    }
}

proof fn lemma_not_both(a: Finding, b: Finding)
    requires
        crate::report::position_less(a, b),
    ensures
        !crate::report::position_less(b, a),
{
    let pa = encode_utf8(a.path);
    let pb = encode_utf8(b.path);
    lemma_lex_asym(pa, pb);
    if pa == pb {
        lemma_lex_irrefl(pa);
    }
}

proof fn lemma_lex_irrefl(x: Seq<u8>)
    ensures
        !crate::report::lex_less(x, x),
    decreases x.len(),
{
    if x.len() > 0 {
        lemma_lex_irrefl(x.drop_first());
    }
}

proof fn lemma_lex_asym(x: Seq<u8>, y: Seq<u8>)
    ensures
        crate::report::lex_less(x, y) ==> !crate::report::lex_less(y, x),
    decreases x.len(),
{
    if x.len() > 0 && y.len() > 0 && x[0] == y[0] {
        lemma_lex_asym(x.drop_first(), y.drop_first());
    }
}

proof fn lemma_prefix_less(x: Seq<u8>, y: Seq<u8>)
    requires
        x.len() < y.len(),
        y.subrange(0, x.len() as int) == x,
    ensures
        crate::report::lex_less(x, y),
    decreases x.len(),
{
    if x.len() > 0 {
        assert(y[0] == y.subrange(0, x.len() as int)[0]);
        assert(y.drop_first().subrange(0, x.drop_first().len() as int) =~= x.drop_first());
        lemma_prefix_less(x.drop_first(), y.drop_first());
    }
}

proof fn lemma_first_difference(x: Seq<u8>, y: Seq<u8>, k: int)
    requires
        0 <= k < x.len(),
        k < y.len(),
        x.subrange(0, k) == y.subrange(0, k),
        x[k] < y[k],
    ensures
        crate::report::lex_less(x, y),
    decreases k,
{
    if k > 0 {
        assert(x[0] == x.subrange(0, k)[0]);
        assert(y[0] == y.subrange(0, k)[0]);
        assert(x.drop_first().subrange(0, k - 1) =~= y.drop_first().subrange(0, k - 1)) by {
            assert forall|j: int| 0 <= j < k - 1 implies x.drop_first()[j] == y.drop_first()[j] by {
                assert(x[j + 1] == x.subrange(0, k)[j + 1]);
                assert(y[j + 1] == y.subrange(0, k)[j + 1]);
            }
        }
        lemma_first_difference(x.drop_first(), y.drop_first(), k - 1);
    }
}

/// Findings at the same place are shown in the order they were reported.
pub proof fn law_same_place_keeps_order(a: Finding, b: Finding)
    requires
        a.path == b.path,
        a.line == b.line,
        a.col == b.col,
    ensures
        by_position(seq![a, b]) == seq![a, b],
{
    lemma_lex_irrefl(encode_utf8(a.path));
    lemma_two(a, b);
}

// ---------------------------------------------------------------------------
// Whether a run fails
// ---------------------------------------------------------------------------

/// A run with no findings passes; one with an error fails, whatever counts;
/// counting only errors never fails a run that counting everything passes;
/// and warnings alone fail a run only when they count.
pub proof fn law_run_outcome(errors: nat, warnings: nat, errors_only: bool)
    ensures
        errors == 0 && warnings == 0 ==> !run_fails(errors, warnings, errors_only),
        errors > 0 ==> run_fails(errors, warnings, errors_only),
        run_fails(errors, warnings, true) ==> run_fails(errors, warnings, false),
        errors == 0 && warnings > 0 ==> (run_fails(errors, warnings, errors_only) <==> !errors_only),
{
}

// ---------------------------------------------------------------------------
// Configuration discovery
// ---------------------------------------------------------------------------

/// The nearest `pyproject.toml` with a `[tool.pyguard]` table decides the
/// configuration: files nearer without one, and all files farther, do not
/// matter.
pub proof fn law_nearest_table_wins(found: Seq<Option<Pyproject>>, i: int, c: Seq<Seq<char>>)
    requires
        0 <= i < found.len(),
        pyguard_table(found[i]) == Some(c),
        forall|j: int| 0 <= j < i ==> #[trigger] pyguard_table(found[j]) is None,
    ensures
        discovered(found) == c,
    decreases i,
{
    if i > 0 {
        let rest = found.drop_first();
        assert forall|j: int| 0 <= j < i - 1 implies #[trigger] pyguard_table(rest[j]) is None by {
            assert(rest[j] == found[j + 1]);
            assert(pyguard_table(found[j + 1]) is None);
        }
        assert(pyguard_table(found[0]) is None);
        law_nearest_table_wins(rest, i - 1, c);
    }
}

/// Where no file has a `[tool.pyguard]` table, nothing is excluded.
pub proof fn law_no_table_no_exclusions(found: Seq<Option<Pyproject>>)
    requires
        forall|j: int| 0 <= j < found.len() ==> #[trigger] pyguard_table(found[j]) is None,
    ensures
        discovered(found) == Seq::<Seq<char>>::empty(),
    decreases found.len(),
{
    if found.len() > 0 {
        let rest = found.drop_first();
        assert forall|j: int| 0 <= j < rest.len() implies #[trigger] pyguard_table(rest[j]) is None by {
            assert(rest[j] == found[j + 1]);
            assert(pyguard_table(found[j + 1]) is None);
        }
        assert(pyguard_table(found[0]) is None);
        law_no_table_no_exclusions(rest);
    }
}

// ---------------------------------------------------------------------------
// Which line a finding is suppressed by
// ---------------------------------------------------------------------------

/// The lines, each followed by `\n`.
pub open spec fn newline_joined(lines: Seq<Seq<char>>) -> Seq<char>
    decreases lines.len(),
{
    if lines.len() == 0 {
        Seq::empty()
    } else {
        lines[0] + seq!['\n'] + newline_joined(lines.drop_first())
    }
}

proof fn lemma_split_newlines(lines: Seq<Seq<char>>, last: Seq<char>)
    requires
        forall|i: int| 0 <= i < lines.len() ==> free_of(#[trigger] lines[i], '\n'),
        free_of(last, '\n'),
    ensures
        split_by(newline_joined(lines) + last, crate::suppression::newline_char()) == lines + seq![last],
    decreases lines.len(),
{
    let nl = crate::suppression::newline_char();
    if lines.len() == 0 {
        assert(newline_joined(lines) + last =~= last);
        assert forall|t: int| 0 <= t < last.len() implies !nl(#[trigger] last[t]) by {}
        crate::text::lemma_split_by_step(last, nl, 0, last.len() as int);
        assert(last.skip(0) =~= last);
        assert(lines + seq![last] =~= seq![last]);
    } else {
        let tail = lines.drop_first();
        assert forall|i: int| 0 <= i < tail.len() implies free_of(#[trigger] tail[i], '\n') by {
            assert(tail[i] == lines[i + 1]);
        }
        lemma_split_newlines(tail, last);
        let s = newline_joined(lines) + last;
        let k = lines[0].len() as int;
        assert(s =~= lines[0] + seq!['\n'] + (newline_joined(tail) + last));
        assert(free_of(lines[0], '\n'));
        assert forall|t: int| 0 <= t < k implies !nl(#[trigger] s[t]) by {
            assert(s[t] == lines[0][t]);
        }
        assert(s[k] == '\n');
        crate::text::lemma_split_by_step(s, nl, 0, k);
        assert(s.skip(0) =~= s);
        assert(s.subrange(0, k) =~= lines[0]);
        assert(s.skip(k + 1) =~= newline_joined(tail) + last);
        assert(seq![lines[0]] + (tail + seq![last]) =~= lines + seq![last]);
    }
}

/// A finding is suppressed by the comment on its own line, the line as
/// `str::lines` gives it (without the `\r` of a `\r\n` ending), and by no
/// other line.
pub proof fn law_suppressed_by_own_line(f: Finding, lines: Seq<Seq<char>>, last: Seq<char>)
    requires
        forall|i: int| 0 <= i < lines.len() ==> free_of(#[trigger] lines[i], '\n'),
        free_of(last, '\n'),
        1 <= f.line <= lines.len(),
    ensures
        crate::suppression::is_suppressed_in(f, newline_joined(lines) + last) == suppresses(
            crate::suppression::strip_cr(lines[f.line - 1]),
            f.rule_id,
        ),
{
    lemma_split_newlines(lines, last);
}

} // verus!
