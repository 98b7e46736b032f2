//! Summing up a run over many files: the order findings are shown in, the
//! counts by severity, the closing line and whether the run fails.
use vstd::prelude::*;
use vstd::utf8::*;

use crate::diagnostic::{findings, Diagnostic, Finding, Severity};
use crate::text::{append_chars, append_str, decimal, decimal_chars, string_of};

verus! {

/// `a` comes before `b` in lexicographic byte order.
pub open spec fn lex_less(a: Seq<u8>, b: Seq<u8>) -> bool
    decreases a.len(),
{
    if a.len() == 0 {
        b.len() > 0
    } else if b.len() == 0 {
        false
    } else if a[0] != b[0] {
        a[0] < b[0]
    } else {
        lex_less(a.drop_first(), b.drop_first())
    }
}

/// Finding `a` is shown before finding `b`: by path (as `String`s order,
/// bytewise), then line, then column.
pub open spec fn position_less(a: Finding, b: Finding) -> bool {
    let pa = encode_utf8(a.path);
    let pb = encode_utf8(b.path);
    ||| lex_less(pa, pb)
    ||| pa == pb && a.line < b.line
    ||| pa == pb && a.line == b.line && a.col < b.col
}

/// `s`, which is ordered, with `f` put after every element not shown after it.
pub open spec fn insert_by_position(s: Seq<Finding>, f: Finding) -> Seq<Finding>
    decreases s.len(),
{
    if s.len() == 0 {
        seq![f]
    } else if position_less(f, s.last()) {
        insert_by_position(s.drop_last(), f).push(s.last())
    } else {
        s.push(f)
    }
}

/// `fs` in display order; findings at the same place keep their order
/// (a stable sort).
pub open spec fn by_position(fs: Seq<Finding>) -> Seq<Finding>
    decreases fs.len(),
{
    if fs.len() == 0 {
        fs
    } else {
        insert_by_position(by_position(fs.drop_last()), fs.last())
    }
}

/// How the byte strings `a` and `b` compare: -1, 0 or 1.
fn bytes_order(a: &[u8], b: &[u8]) -> (r: i8)
    ensures
        r == -1 <==> lex_less(a@, b@),
        r == 0 <==> a@ == b@,
        r == 1 <==> lex_less(b@, a@),
        -1 <= r <= 1,
{
    let mut i: usize = 0;
    assert(a@.skip(0) =~= a@);
    assert(b@.skip(0) =~= b@);
    while i < a.len() && i < b.len() && a[i] == b[i]
        invariant
            0 <= i <= a@.len(),
            i <= b@.len(),
            a@.take(i as int) == b@.take(i as int),
            lex_less(a@, b@) == lex_less(a@.skip(i as int), b@.skip(i as int)),
            lex_less(b@, a@) == lex_less(b@.skip(i as int), a@.skip(i as int)),
        decreases a@.len() - i,
    {
        assert(a@.skip(i as int).drop_first() =~= a@.skip(i + 1));
        assert(b@.skip(i as int).drop_first() =~= b@.skip(i + 1));
        assert(a@.take(i + 1) =~= a@.take(i as int).push(a@[i as int]));
        assert(b@.take(i + 1) =~= b@.take(i as int).push(b@[i as int]));
        i = i + 1;
    }
    if i == a.len() && i == b.len() {
        assert(a@ =~= a@.take(i as int));
        assert(b@ =~= b@.take(i as int));
        return 0;
    }
    if i == a.len() {
        assert(a@.skip(i as int).len() == 0);
        assert(a@ != b@);
        return -1;
    }
    if i == b.len() {
        assert(b@.skip(i as int).len() == 0);
        assert(a@.len() != b@.len());
        return 1;
    }
    assert(a@.skip(i as int)[0] == a@[i as int]);
    assert(b@.skip(i as int)[0] == b@[i as int]);
    assert(a@[i as int] != b@[i as int]);
    assert(a@ != b@) by {
        if a@ == b@ {
            assert(a@[i as int] == b@[i as int]);
        }
    }
    if a[i] < b[i] {
        -1
    } else {
        1
    }
}

/// Whether `a` is shown before `b`.
fn shown_before(a: &Diagnostic, b: &Diagnostic) -> (r: bool)
    ensures
        r == position_less(a@, b@),
{
    let o = bytes_order(a.path.as_str().as_bytes(), b.path.as_str().as_bytes());
    if o != 0 {
        return o < 0;
    }
    a.line < b.line || (a.line == b.line && a.col < b.col)
}

/// Inserting `f` where a scan from the end stops: past every element that
/// `f` is shown before.
proof fn lemma_insert_by_position(s: Seq<Finding>, f: Finding, p: int)
    requires
        0 <= p <= s.len(),
        forall|k: int| p <= k < s.len() ==> position_less(f, #[trigger] s[k]),
        p == 0 || !position_less(f, s[p - 1]),
    ensures
        insert_by_position(s, f) == s.insert(p, f),
    decreases s.len(),
{
    if s.len() == 0 {
        assert(s.insert(p, f) =~= seq![f]);
    } else if p == s.len() {
        assert(s.insert(p, f) =~= s.push(f));
    } else {
        assert(position_less(f, s[s.len() - 1]));
        let init = s.drop_last();
        assert forall|k: int| p <= k < init.len() implies position_less(f, #[trigger] init[k]) by {
            assert(init[k] == s[k]);
        }
        if p > 0 {
            assert(init[p - 1] == s[p - 1]);
        }
        lemma_insert_by_position(init, f, p);
        assert(init.insert(p, f).push(s.last()) =~= s.insert(p, f));
    }
}

/// Sorts diagnostics for display: by path, then line, then column; the
/// diagnostics at one place keep their order.
pub fn sort_by_position(ds: &Vec<Diagnostic>) -> (r: Vec<Diagnostic>)
    ensures
        findings(r@) == by_position(findings(ds@)),
{
    let mut out: Vec<Diagnostic> = Vec::new();
    let mut i: usize = 0;
    while i < ds.len()
        invariant
            0 <= i <= ds@.len(),
            findings(out@) == by_position(findings(ds@).take(i as int)),
        decreases ds@.len() - i,
    {
        let d = &ds[i];
        let mut p = out.len();
        while p > 0 && shown_before(d, &out[p - 1])
            invariant
                0 <= p <= out@.len(),
                forall|k: int| p <= k < out@.len() ==> position_less(d@, #[trigger] findings(out@)[k]),
            decreases p,
        {
            p = p - 1;
        }
        let ghost before = findings(out@);
        proof {
            if p > 0 {
                assert(before[p - 1] == out@[p - 1]@);
            }
            lemma_insert_by_position(before, d@, p as int);
            let fs = findings(ds@);
            assert(fs.take(i + 1).drop_last() =~= fs.take(i as int));
            assert(fs.take(i + 1).last() == d@);
        }
        out.insert(p, d.duplicate());
        assert(findings(out@) =~= before.insert(p as int, d@));
        i = i + 1;
    }
    assert(findings(ds@).take(i as int) =~= findings(ds@));
    out
}

/// The number of findings of `fs` with severity `s`.
pub open spec fn count_severity(fs: Seq<Finding>, s: Severity) -> nat
    decreases fs.len(),
{
    if fs.len() == 0 {
        0
    } else {
        count_severity(fs.drop_last(), s) + if fs.last().severity == s {
            1nat
        } else {
            0nat
        }
    }
}

/// The number of errors and of warnings among `ds`.
pub fn severity_counts(ds: &[Diagnostic]) -> (r: (usize, usize))
    ensures
        r.0 == count_severity(findings(ds@), Severity::Error),
        r.1 == count_severity(findings(ds@), Severity::Warning),
{
    let mut errors: usize = 0;
    let mut warnings: usize = 0;
    let mut i: usize = 0;
    while i < ds.len()
        invariant
            0 <= i <= ds@.len(),
            errors == count_severity(findings(ds@).take(i as int), Severity::Error),
            warnings == count_severity(findings(ds@).take(i as int), Severity::Warning),
            errors + warnings <= i,
        decreases ds@.len() - i,
    {
        let fs = Ghost(findings(ds@));
        assert(fs@.take(i + 1).drop_last() =~= fs@.take(i as int));
        assert(fs@.take(i + 1).last() == ds@[i as int]@);
        match ds[i].severity {
            Severity::Error => errors = errors + 1,
            Severity::Warning => warnings = warnings + 1,
        }
        i = i + 1;
    }
    assert(findings(ds@).take(i as int) =~= findings(ds@));
    (errors, warnings)
}

/// A run fails when it found errors, or, unless only errors are to count,
/// warnings.
pub open spec fn run_fails(errors: nat, warnings: nat, errors_only: bool) -> bool {
    if errors_only {
        errors > 0
    } else {
        errors + warnings > 0
    }
}

/// Whether a run with these counts fails (exit status 1).
pub fn has_violations(errors: usize, warnings: usize, errors_only: bool) -> (r: bool)
    ensures
        r == run_fails(errors as nat, warnings as nat, errors_only),
{
    if errors_only {
        errors > 0
    } else {
        errors > 0 || warnings > 0
    }
}

/// The plural ending for a count of `n`.
pub open spec fn plural(n: nat) -> Seq<char> {
    if n == 1 {
        ""@
    } else {
        "s"@
    }
}

/// The closing line of a run's text output.
pub open spec fn summary(errors: nat, warnings: nat, files: nat) -> Seq<char> {
    let total = errors + warnings;
    "\nFound "@ + decimal(total) + " violation"@ + plural(total) + " ("@ + decimal(errors) + " error"@
        + plural(errors) + ", "@ + decimal(warnings) + " warning"@ + plural(warnings) + ") across "@
        + decimal(files) + " file"@ + plural(files) + "."@
}

fn append_plural(v: &mut Vec<char>, n: usize)
    ensures
        final(v)@ == old(v)@ + plural(n as nat),
{
    if n == 1 {
        assert(old(v)@ + ""@ =~= old(v)@) by {
            reveal_strlit("");
        }
    } else {
        append_str(v, "s");
    }
}

/// The closing line for these counts; none when nothing was found.
pub fn summary_line(errors: usize, warnings: usize, files: usize) -> (r: Option<String>)
    requires
        errors + warnings <= usize::MAX,
    ensures
        r is None <==> errors + warnings == 0,
        r matches Some(s) ==> s@ == summary(errors as nat, warnings as nat, files as nat),
{
    let total = errors + warnings;
    if total == 0 {
        return None;
    }
    let mut v: Vec<char> = Vec::new();
    append_str(&mut v, "\nFound ");
    let t = decimal_chars(total);
    append_chars(&mut v, t.as_slice());
    append_str(&mut v, " violation");
    append_plural(&mut v, total);
    append_str(&mut v, " (");
    let e = decimal_chars(errors);
    append_chars(&mut v, e.as_slice());
    append_str(&mut v, " error");
    append_plural(&mut v, errors);
    append_str(&mut v, ", ");
    let w = decimal_chars(warnings);
    append_chars(&mut v, w.as_slice());
    append_str(&mut v, " warning");
    append_plural(&mut v, warnings);
    append_str(&mut v, ") across ");
    let f = decimal_chars(files);
    append_chars(&mut v, f.as_slice());
    append_str(&mut v, " file");
    append_plural(&mut v, files);
    append_str(&mut v, ".");
    assert(v@ =~= summary(errors as nat, warnings as nat, files as nat));
    Some(string_of(&v))
}


proof fn lemma_lex_less_asym(a: Seq<u8>, b: Seq<u8>)
    ensures
        !(lex_less(a, b) && lex_less(b, a)),
    decreases a.len(),
{
    if a.len() > 0 && b.len() > 0 && a[0] == b[0] {
        lemma_lex_less_asym(a.drop_first(), b.drop_first());
    }
}

proof fn lemma_lex_less_total(a: Seq<u8>, b: Seq<u8>)
    ensures
        a != b ==> lex_less(a, b) || lex_less(b, a),
    decreases a.len(),
{
    if a.len() > 0 && b.len() > 0 && a[0] == b[0] {
        lemma_lex_less_total(a.drop_first(), b.drop_first());
        if a.drop_first() == b.drop_first() {
            assert(a =~= seq![a[0]] + a.drop_first());
            assert(b =~= seq![b[0]] + b.drop_first());
        }
    } else if a.len() == 0 && b.len() == 0 {
        assert(a =~= b);
    }
}

proof fn lemma_lex_less_trans(a: Seq<u8>, b: Seq<u8>, c: Seq<u8>)
    requires
        lex_less(a, b),
        lex_less(b, c),
    ensures
        lex_less(a, c),
    decreases a.len(),
{
    if a.len() > 0 && b.len() > 0 && c.len() > 0 && a[0] == b[0] && b[0] == c[0] {
        lemma_lex_less_trans(a.drop_first(), b.drop_first(), c.drop_first());
    }
}

/// Position order is a strict order whose incomparable elements share a place.
proof fn lemma_position_order(a: Finding, b: Finding, c: Finding)
    ensures
        !(position_less(a, b) && position_less(b, a)),
        !position_less(a, b) && !position_less(b, c) ==> !position_less(a, c),
{
    let (pa, pb, pc) = (encode_utf8(a.path), encode_utf8(b.path), encode_utf8(c.path));
    lemma_lex_less_asym(pa, pb);
    lemma_lex_less_total(pa, pb);
    lemma_lex_less_total(pb, pc);
    lemma_lex_less_total(pa, pc);
    lemma_lex_less_asym(pa, pc);
    lemma_lex_less_asym(pb, pc);
    if lex_less(pc, pb) && lex_less(pb, pa) {
        lemma_lex_less_trans(pc, pb, pa);
    }
    if lex_less(pc, pb) && pb == pa {
    }
    if lex_less(pa, pb) && lex_less(pb, pc) {
        lemma_lex_less_trans(pa, pb, pc);
    }
}

/// No element of `s` is shown before an earlier one.
pub open spec fn ordered_by_position(s: Seq<Finding>) -> bool {
    forall|i: int, j: int| 0 <= i < j < s.len() ==> !position_less(#[trigger] s[j], #[trigger] s[i])
}

proof fn lemma_insert_by_position_multiset(s: Seq<Finding>, f: Finding)
    ensures
        insert_by_position(s, f).to_multiset() == s.to_multiset().insert(f),
    decreases s.len(),
{
    broadcast use vstd::seq_lib::group_to_multiset_ensures;
    if s.len() == 0 {
        assert(seq![f] =~= s.push(f));
    } else if position_less(f, s.last()) {
        lemma_insert_by_position_multiset(s.drop_last(), f);
        assert(s.drop_last().push(s.last()) =~= s);
        assert(s.to_multiset() =~= s.drop_last().to_multiset().insert(s.last()));
        assert(s.drop_last().to_multiset().insert(f).insert(s.last()) =~= s.drop_last().to_multiset().insert(
            s.last(),
        ).insert(f));
    }
}

proof fn lemma_insert_by_position_ordered(s: Seq<Finding>, f: Finding)
    requires
        ordered_by_position(s),
    ensures
        ordered_by_position(insert_by_position(s, f)),
    decreases s.len(),
{
    broadcast use vstd::seq_lib::group_to_multiset_ensures;
    if s.len() == 0 {
    } else if position_less(f, s.last()) {
        let init = s.drop_last();
        let last = s.last();
        assert(ordered_by_position(init)) by {
            assert forall|i: int, j: int| 0 <= i < j < init.len() implies !position_less(
                #[trigger] init[j],
                #[trigger] init[i],
            ) by {
                assert(init[i] == s[i] && init[j] == s[j]);
            }
        }
        lemma_insert_by_position_ordered(init, f);
        lemma_insert_by_position_multiset(init, f);
        let t = insert_by_position(init, f);
        assert forall|i: int, j: int| 0 <= i < j < t.push(last).len() implies !position_less(
            #[trigger] t.push(last)[j],
            #[trigger] t.push(last)[i],
        ) by {
            if j == t.len() {
                let x = t[i];
                assert(t.to_multiset().count(x) > 0);
                if x == f {
                    lemma_position_order(f, last, f);
                } else {
                    assert(init.to_multiset().count(x) > 0);
                    assert(init.contains(x));
                    let k = choose|k: int| 0 <= k < init.len() && init[k] == x;
                    assert(s[k] == x);
                    assert(s[s.len() - 1] == last);
                }
            } else {
                assert(t.push(last)[i] == t[i] && t.push(last)[j] == t[j]);
            }
        }
    } else {
        let last = s.last();
        assert forall|i: int, j: int| 0 <= i < j < s.push(f).len() implies !position_less(
            #[trigger] s.push(f)[j],
            #[trigger] s.push(f)[i],
        ) by {
            if j == s.len() {
                assert(s.push(f)[i] == s[i]);
                if i < s.len() - 1 {
                    assert(s[s.len() - 1] == last);
                    assert(!position_less(last, s[i]));
                    lemma_position_order(f, last, s[i]);
                }
            } else {
                assert(s.push(f)[i] == s[i] && s.push(f)[j] == s[j]);
            }
        }
    }
}

/// Display order shows every finding once and never one before a finding it
/// comes after.
pub proof fn law_by_position_sorts(fs: Seq<Finding>)
    ensures
        ordered_by_position(by_position(fs)),
        by_position(fs).to_multiset() == fs.to_multiset(),
    decreases fs.len(),
{
    broadcast use vstd::seq_lib::group_to_multiset_ensures;
    if fs.len() > 0 {
        law_by_position_sorts(fs.drop_last());
        lemma_insert_by_position_ordered(by_position(fs.drop_last()), fs.last());
        lemma_insert_by_position_multiset(by_position(fs.drop_last()), fs.last());
        assert(fs.drop_last().push(fs.last()) =~= fs);
    } else {
        assert(fs.to_multiset() =~= by_position(fs).to_multiset());
    }
}


/// Every finding is either an error or a warning.
pub proof fn law_counts_cover_all(fs: Seq<Finding>)
    ensures
        count_severity(fs, Severity::Error) + count_severity(fs, Severity::Warning) == fs.len(),
    decreases fs.len(),
{
    if fs.len() > 0 {
        law_counts_cover_all(fs.drop_last());
    }
}

} // verus!
