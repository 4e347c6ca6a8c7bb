//! Reconstruction of a file's full resulting content from an edit tool's
//! replacement request, for the two edit schemas the adapters handle: a
//! single `old_string`/`new_string` replacement (optionally replacing every
//! occurrence), and a batch of targeted, non-overlapping replacements that
//! are all located against the original content.
use vstd::prelude::*;

use crate::text::{
    as_ints, chars_of, contains, contains_chars, matches_at, occurrences, occurrences_exec,
    occurrences_from, push_all, push_range, replace_chars, splice_one, string_of, advance,
    decimal, debug_quote, debug_quoted, push_decimal, push_str,
};

verus! {

/// Why a single replacement could not be applied.
#[derive(Debug, Clone, Copy, PartialEq, Eq, Structural)]
pub enum EditError {
    /// `old_string` does not occur in the file.
    OldStringNotFound,
    /// `old_string` occurs `count` (more than one) times and every
    /// occurrence was not asked to be replaced.
    OldStringAmbiguous { count: usize },
}

/// The outcome of replacing `old` by `new` in `content`: with
/// `replace_all`, every leftmost non-overlapping occurrence (at least one
/// must exist); without it, the single occurrence, which must be unique.
pub open spec fn edit_outcome(content: Seq<char>, old: Seq<char>, new: Seq<char>, replace_all: bool) -> Result<
    Seq<char>,
    EditError,
> {
    let occ = occurrences(content, old);
    if replace_all {
        if !contains(content, old) {
            Err(EditError::OldStringNotFound)
        } else {
            Ok(crate::text::replace_all(content, old, new))
        }
    } else if occ.len() == 0 {
        Err(EditError::OldStringNotFound)
    } else if occ.len() == 1 {
        Ok(splice_one(content, occ[0], occ[0] + old.len(), new))
    } else {
        Err(EditError::OldStringAmbiguous { count: occ.len() as usize })
    }
}

/// Every recorded occurrence really is an occurrence, and they come in
/// increasing order without overlapping.
pub proof fn lemma_occurrences_from_match(s: Seq<char>, pat: Seq<char>, pos: int)
    ensures
        forall|k: int|
            0 <= k < occurrences_from(s, pat, pos).len() ==> {
                &&& matches_at(s, pat, #[trigger] occurrences_from(s, pat, pos)[k])
                &&& occurrences_from(s, pat, pos)[k] >= pos
            },
    decreases s.len() + 1 - pos,
{
    if pos < 0 || pos > s.len() {
    } else if matches_at(s, pat, pos) {
        lemma_occurrences_from_match(s, pat, pos + advance(pat));
        let rest = occurrences_from(s, pat, pos + advance(pat));
        assert(occurrences_from(s, pat, pos) == seq![pos] + rest);
        assert forall|k: int| 0 <= k < occurrences_from(s, pat, pos).len() implies {
            &&& matches_at(s, pat, #[trigger] occurrences_from(s, pat, pos)[k])
            &&& occurrences_from(s, pat, pos)[k] >= pos
        } by {
            if k > 0 {
                assert(occurrences_from(s, pat, pos)[k] == rest[k - 1]);
            }
        }
    } else {
        lemma_occurrences_from_match(s, pat, pos + 1);
        assert(occurrences_from(s, pat, pos) == occurrences_from(s, pat, pos + 1));
    }
}

/// Occurrences exist exactly when the pattern is contained.
pub proof fn lemma_occurrences_nonempty(s: Seq<char>, pat: Seq<char>, pos: int)
    requires
        0 <= pos,
        forall|j: int| 0 <= j < pos ==> !matches_at(s, pat, j),
    ensures
        (occurrences_from(s, pat, pos).len() > 0) == contains(s, pat),
    decreases s.len() + 1 - pos,
{
    lemma_occurrences_from_match(s, pat, pos);
    if occurrences_from(s, pat, pos).len() > 0 {
        assert(matches_at(s, pat, occurrences_from(s, pat, pos)[0]));
    } else if pos > s.len() {
        assert forall|j: int| !matches_at(s, pat, j) by {
            if j >= pos {
                assert(j + pat.len() > s.len());
            }
        }
    } else if matches_at(s, pat, pos) {
    } else {
        lemma_occurrences_nonempty(s, pat, pos + 1);
    }
}

/// Reconstructs the content that replacing `old_string` by `new_string`
/// in `current_content` produces: every occurrence when `replace_all` is
/// set (at least one must exist), otherwise the single occurrence, which
/// must be unique; an error rather than a guess in every other case.
pub fn apply_edit(current_content: &str, old_string: &str, new_string: &str, replace_all: bool) -> (res:
    Result<String, EditError>)
    ensures
        match edit_outcome(current_content@, old_string@, new_string@, replace_all) {
            Ok(t) => res matches Ok(r) && r@ == t,
            Err(e) => res == Err::<String, EditError>(e),
        },
{
    let content = chars_of(current_content);
    let old = chars_of(old_string);
    let new = chars_of(new_string);
    let occ = occurrences_exec(&content, &old);
    proof {
        lemma_occurrences_nonempty(content@, old@, 0);
        lemma_occurrences_from_match(content@, old@, 0);
    }
    if replace_all {
        if !contains_chars(&content, &old) {
            return Err(EditError::OldStringNotFound);
        }
        let out = replace_chars(&content, &old, &new);
        return Ok(string_of(&out));
    }
    if occ.len() == 0 {
        return Err(EditError::OldStringNotFound);
    }
    if occ.len() > 1 {
        return Err(EditError::OldStringAmbiguous { count: occ.len() });
    }
    let start = occ[0];
    assert(as_ints(occ@)[0] == start as int);
    assert(matches_at(content@, old@, start as int));
    assert(start + old@.len() <= content@.len());
    let n = content.len();
    let end = start + old.len();
    let mut out: Vec<char> = Vec::new();
    push_range(&mut out, &content, 0, start);
    push_all(&mut out, &new);
    push_range(&mut out, &content, end, content.len());
    Ok(string_of(&out))
}

/// One located replacement: the characters `[start, end)` of the original
/// become `text`.
pub struct Span {
    pub start: int,
    pub end: int,
    pub text: Seq<char>,
}

/// Why a batch of replacements could not be applied.
pub enum PiEditFault {
    NotFound(Seq<char>),
    NotUnique(Seq<char>, nat),
    Overlap,
}

/// Why a batch of replacements could not be applied.
#[derive(Debug, PartialEq, Eq)]
pub enum PiEditError {
    /// An `oldText` does not occur in the original.
    OldTextNotFound(String),
    /// An `oldText` occurs `count` (more than one) times in the original.
    OldTextNotUnique { old_text: String, count: usize },
    /// Two located replacements overlap.
    Overlap,
}

impl View for PiEditError {
    type V = PiEditFault;

    open spec fn view(&self) -> PiEditFault {
        match self {
            PiEditError::OldTextNotFound(t) => PiEditFault::NotFound(t@),
            PiEditError::OldTextNotUnique { old_text, count } => PiEditFault::NotUnique(
                old_text@,
                *count as nat,
            ),
            PiEditError::Overlap => PiEditFault::Overlap,
        }
    }
}

/// The replacement pairs as character sequences.
pub open spec fn edit_views(edits: Seq<(String, String)>) -> Seq<(Seq<char>, Seq<char>)> {
    edits.map_values(|e: (String, String)| (e.0@, e.1@))
}

/// Locates each `(oldText, newText)` in turn; the first `oldText` that is
/// missing or not unique decides the failure.
pub open spec fn locate(orig: Seq<char>, edits: Seq<(Seq<char>, Seq<char>)>) -> Result<
    Seq<Span>,
    PiEditFault,
>
    decreases edits.len(),
{
    if edits.len() == 0 {
        Ok(Seq::empty())
    } else {
        match locate(orig, edits.drop_last()) {
            Err(f) => Err(f),
            Ok(spans) => {
                let old = edits.last().0;
                let occ = occurrences(orig, old);
                if occ.len() == 0 {
                    Err(PiEditFault::NotFound(old))
                } else if occ.len() == 1 {
                    Ok(spans.push(Span { start: occ[0], end: occ[0] + old.len(), text: edits.last().1 }))
                } else {
                    Err(PiEditFault::NotUnique(old, occ.len()))
                }
            },
        }
    }
}

/// Inserts `x` after every span that starts no later than it does.
pub open spec fn insert_span(sorted: Seq<Span>, x: Span) -> Seq<Span>
    decreases sorted.len(),
{
    if sorted.len() == 0 {
        seq![x]
    } else if sorted.last().start <= x.start {
        sorted.push(x)
    } else {
        insert_span(sorted.drop_last(), x).push(sorted.last())
    }
}

/// The spans stably sorted by start position.
pub open spec fn sort_spans(spans: Seq<Span>) -> Seq<Span>
    decreases spans.len(),
{
    if spans.len() == 0 {
        spans
    } else {
        insert_span(sort_spans(spans.drop_last()), spans.last())
    }
}

/// Some span of the sorted sequence starts before its predecessor ends.
pub open spec fn has_overlap(sorted: Seq<Span>) -> bool {
    exists|i: int| 1 <= i < sorted.len() && #[trigger] sorted[i].start < sorted[i - 1].end
}

/// The original from `cursor` on, with each sorted span replaced by its
/// text.
pub open spec fn splice_spans(orig: Seq<char>, sorted: Seq<Span>, cursor: int) -> Seq<char>
    decreases sorted.len(),
{
    if sorted.len() == 0 {
        orig.subrange(cursor, orig.len() as int)
    } else {
        orig.subrange(cursor, sorted[0].start) + sorted[0].text + splice_spans(
            orig,
            sorted.drop_first(),
            sorted[0].end,
        )
    }
}

/// The outcome of applying a batch of replacements to `orig`: each
/// `oldText` must occur exactly once in the original, no two located
/// replacements may overlap, and then all of them are applied at once.
pub open spec fn pi_edit_outcome(orig: Seq<char>, edits: Seq<(Seq<char>, Seq<char>)>) -> Result<
    Seq<char>,
    PiEditFault,
> {
    match locate(orig, edits) {
        Err(f) => Err(f),
        Ok(spans) => {
            let sorted = sort_spans(spans);
            if has_overlap(sorted) {
                Err(PiEditFault::Overlap)
            } else {
                Ok(splice_spans(orig, sorted, 0))
            }
        },
    }
}

/// A span lies within the original text.
pub open spec fn span_fits(orig: Seq<char>, x: Span) -> bool {
    0 <= x.start <= x.end <= orig.len()
}

/// A failure in a prefix of the batch is the failure of the whole batch.
proof fn lemma_locate_prefix_err(orig: Seq<char>, edits: Seq<(Seq<char>, Seq<char>)>, k: int)
    requires
        0 <= k <= edits.len(),
        locate(orig, edits.take(k)) is Err,
    ensures
        locate(orig, edits) == locate(orig, edits.take(k)),
    decreases edits.len() - k,
{
    if k < edits.len() {
        assert(edits.take(k + 1).drop_last() =~= edits.take(k));
        lemma_locate_prefix_err(orig, edits, k + 1);
    } else {
        assert(edits.take(k) =~= edits);
    }
}

/// Located spans all fit in the original.
proof fn lemma_locate_fits(orig: Seq<char>, edits: Seq<(Seq<char>, Seq<char>)>)
    ensures
        locate(orig, edits) matches Ok(spans) ==> spans.len() == edits.len() && forall|i: int|
            0 <= i < spans.len() ==> span_fits(orig, #[trigger] spans[i]),
    decreases edits.len(),
{
    if edits.len() > 0 {
        lemma_locate_fits(orig, edits.drop_last());
        lemma_occurrences_from_match(orig, edits.last().0, 0);
    }
}

/// Insertion keeps every element and adds `x`.
proof fn lemma_insert_span_fits(orig: Seq<char>, sorted: Seq<Span>, x: Span)
    requires
        span_fits(orig, x),
        forall|i: int| 0 <= i < sorted.len() ==> span_fits(orig, #[trigger] sorted[i]),
    ensures
        insert_span(sorted, x).len() == sorted.len() + 1,
        forall|i: int|
            0 <= i < insert_span(sorted, x).len() ==> span_fits(orig, #[trigger] insert_span(sorted, x)[i]),
    decreases sorted.len(),
{
    if sorted.len() > 0 && sorted.last().start > x.start {
        lemma_insert_span_fits(orig, sorted.drop_last(), x);
    }
}

/// Sorting keeps every span.
proof fn lemma_sort_spans_fits(orig: Seq<char>, spans: Seq<Span>)
    requires
        forall|i: int| 0 <= i < spans.len() ==> span_fits(orig, #[trigger] spans[i]),
    ensures
        sort_spans(spans).len() == spans.len(),
        forall|i: int|
            0 <= i < sort_spans(spans).len() ==> span_fits(orig, #[trigger] sort_spans(spans)[i]),
    decreases spans.len(),
{
    if spans.len() > 0 {
        lemma_sort_spans_fits(orig, spans.drop_last());
        lemma_insert_span_fits(orig, sort_spans(spans.drop_last()), spans.last());
    }
}

/// A located replacement: characters `[start, end)` of the original become
/// the `newText` of edit number `edit`.
#[derive(Clone, Copy)]
struct PiSpan {
    start: usize,
    end: usize,
    edit: usize,
}

spec fn span_view(p: PiSpan, ev: Seq<(Seq<char>, Seq<char>)>) -> Span {
    Span { start: p.start as int, end: p.end as int, text: ev[p.edit as int].1 }
}

spec fn spans_view(v: Seq<PiSpan>, ev: Seq<(Seq<char>, Seq<char>)>) -> Seq<Span> {
    v.map_values(|p: PiSpan| span_view(p, ev))
}

spec fn spans_index_ok(v: Seq<PiSpan>, n: int) -> bool {
    forall|i: int| 0 <= i < v.len() ==> (#[trigger] v[i]).edit < n
}

/// Inserts `x` into the stably sorted `sorted`.
fn insert_span_exec(sorted: &mut Vec<PiSpan>, x: PiSpan, Ghost(ev): Ghost<Seq<(Seq<char>, Seq<char>)>>)
    requires
        spans_index_ok(old(sorted)@, ev.len() as int),
        x.edit < ev.len(),
    ensures
        spans_view(final(sorted)@, ev) == insert_span(spans_view(old(sorted)@, ev), span_view(x, ev)),
        spans_index_ok(final(sorted)@, ev.len() as int),
    decreases old(sorted).len(),
{
    let ghost before = spans_view(sorted@, ev);
    if sorted.len() == 0 {
        sorted.push(x);
        assert(spans_view(sorted@, ev) =~= seq![span_view(x, ev)]);
        return;
    }
    let last = sorted.pop().unwrap();
    assert(spans_view(sorted@, ev) =~= before.drop_last());
    assert(span_view(last, ev) == before.last());
    if last.start <= x.start {
        sorted.push(last);
        sorted.push(x);
        assert(spans_view(sorted@, ev) =~= before.push(span_view(x, ev)));
    } else {
        let ghost mid = spans_view(sorted@, ev);
        insert_span_exec(sorted, x, Ghost(ev));
        let ghost inserted = spans_view(sorted@, ev);
        sorted.push(last);
        assert(spans_view(sorted@, ev) =~= inserted.push(span_view(last, ev)));
    }
}

/// Applies a batch of replacements, each located against the original
/// `original`: every `oldText` must occur exactly once there and no two
/// located replacements may overlap; then all of them are applied in one
/// pass. An error rather than a guess in every other case.
pub fn apply_pi_edits(original: &str, edits: &[(String, String)]) -> (res: Result<String, PiEditError>)
    ensures
        match pi_edit_outcome(original@, edit_views(edits@)) {
            Ok(t) => res matches Ok(r) && r@ == t,
            Err(f) => res matches Err(e) && e@ == f,
        },
{
    let ghost ev = edit_views(edits@);
    let orig = chars_of(original);
    let mut spans: Vec<PiSpan> = Vec::new();
    let mut i: usize = 0;
    assert(ev.take(0) =~= Seq::<(Seq<char>, Seq<char>)>::empty());
    assert(spans_view(spans@, ev) =~= Seq::<Span>::empty());
    while i < edits.len()
        invariant
            ev == edit_views(edits@),
            orig@ == original@,
            i <= edits.len(),
            spans@.len() == i,
            spans_index_ok(spans@, i as int),
            locate(orig@, ev.take(i as int)) == Ok::<Seq<Span>, PiEditFault>(spans_view(spans@, ev)),
        decreases edits.len() - i,
    {
        let old_text = &edits[i].0;
        let old = chars_of(old_text.as_str());
        let occ = occurrences_exec(&orig, &old);
        assert(ev.take(i + 1).drop_last() =~= ev.take(i as int));
        assert(ev.take(i + 1).last() == ev[i as int]);
        assert(ev[i as int].0 == old@);
        if occ.len() == 0 {
            proof {
                lemma_locate_prefix_err(orig@, ev, i + 1);
            }
            return Err(PiEditError::OldTextNotFound(old_text.clone()));
        }
        if occ.len() > 1 {
            proof {
                lemma_locate_prefix_err(orig@, ev, i + 1);
            }
            return Err(PiEditError::OldTextNotUnique { old_text: old_text.clone(), count: occ.len() });
        }
        proof {
            lemma_occurrences_from_match(orig@, old@, 0);
        }
        let start = occ[0];
        assert(as_ints(occ@)[0] == start as int);
        assert(matches_at(orig@, old@, start as int));
        assert(start + old@.len() <= orig@.len());
        let _n = orig.len();
        let ghost before = spans_view(spans@, ev);
        spans.push(PiSpan { start, end: start + old.len(), edit: i });
        assert(spans_view(spans@, ev) =~= before.push(
            Span { start: start as int, end: start + old@.len(), text: ev[i as int].1 },
        ));
        i += 1;
    }
    assert(ev.take(edits.len() as int) =~= ev);
    let ghost located = spans_view(spans@, ev);
    proof {
        lemma_locate_fits(orig@, ev);
        lemma_sort_spans_fits(orig@, located);
    }

    // Stable sort by start position.
    let mut sorted: Vec<PiSpan> = Vec::new();
    let mut k: usize = 0;
    assert(spans_view(sorted@, ev) =~= sort_spans(located.take(0)));
    while k < spans.len()
        invariant
            k <= spans.len(),
            spans_index_ok(spans@, ev.len() as int),
            spans_index_ok(sorted@, ev.len() as int),
            ev.len() == edits@.len(),
            located == spans_view(spans@, ev),
            spans_view(sorted@, ev) == sort_spans(located.take(k as int)),
        decreases spans.len() - k,
    {
        assert(located.take(k + 1).drop_last() =~= located.take(k as int));
        assert(located.take(k + 1).last() == span_view(spans@[k as int], ev));
        insert_span_exec(&mut sorted, spans[k], Ghost(ev));
        k += 1;
    }
    assert(located.take(spans.len() as int) =~= located);
    let ghost sv = sort_spans(located);
    assert(spans_view(sorted@, ev) == sv);

    // Reject overlapping replacements.
    let mut j: usize = 1;
    while j < sorted.len()
        invariant
            1 <= j,
            spans_view(sorted@, ev) == sv,
            sv == sort_spans(located),
            locate(orig@, ev) == Ok::<Seq<Span>, PiEditFault>(located),
            orig@ == original@,
            ev == edit_views(edits@),
            forall|m: int| 1 <= m < j && m < sv.len() ==> !(sv[m].start < sv[m - 1].end),
        decreases sorted.len() - j,
    {
        assert(sv[j as int] == span_view(sorted@[j as int], ev));
        assert(sv[j - 1] == span_view(sorted@[j - 1], ev));
        if sorted[j].start < sorted[j - 1].end {
            assert(sv[j as int].start < sv[j - 1].end);
            assert(has_overlap(sv));
            return Err(PiEditError::Overlap);
        }
        j += 1;
    }
    assert(!has_overlap(sv));

    // Apply every replacement in one pass over the original.
    let mut out: Vec<char> = Vec::new();
    let mut cursor: usize = 0;
    let mut m: usize = 0;
    assert(out@ + splice_spans(orig@, sv.skip(0), 0) =~= splice_spans(orig@, sv, 0)) by {
        assert(sv.skip(0) =~= sv);
    }
    while m < sorted.len()
        invariant
            m <= sorted.len(),
            spans_view(sorted@, ev) == sv,
            spans_index_ok(sorted@, ev.len() as int),
            ev == edit_views(edits@),
            orig@ == original@,
            !has_overlap(sv),
            sv == sort_spans(located),
            locate(orig@, ev) == Ok::<Seq<Span>, PiEditFault>(located),
            forall|q: int| 0 <= q < sv.len() ==> span_fits(orig@, #[trigger] sv[q]),
            cursor <= orig.len(),
            m > 0 ==> cursor == sv[m - 1].end,
            m == 0 ==> cursor == 0,
            out@ + splice_spans(orig@, sv.skip(m as int), cursor as int) == splice_spans(orig@, sv, 0),
        decreases sorted.len() - m,
    {
        let p = sorted[m];
        assert(sv[m as int] == span_view(p, ev));
        assert(span_fits(orig@, sv[m as int]));
        if m > 0 {
            assert(!(sv[m as int].start < sv[m - 1].end));
        }
        let text = chars_of(edits[p.edit].1.as_str());
        assert(text@ == ev[p.edit as int].1);
        let ghost before = out@;
        push_range(&mut out, &orig, cursor, p.start);
        push_all(&mut out, &text);
        assert(sv.skip(m as int).drop_first() =~= sv.skip(m + 1));
        assert(sv.skip(m as int)[0] == sv[m as int]);
        assert(before + splice_spans(orig@, sv.skip(m as int), cursor as int) =~= out@
            + splice_spans(orig@, sv.skip(m + 1), p.end as int));
        cursor = p.end;
        m += 1;
    }
    let ghost before = out@;
    push_range(&mut out, &orig, cursor, orig.len());
    assert(sv.skip(m as int) =~= Seq::<Span>::empty());
    assert(out@ =~= before + splice_spans(orig@, sv.skip(m as int), cursor as int));
    Ok(string_of(&out))
}

proof fn lemma_no_occurrences(s: Seq<char>, pat: Seq<char>, pos: int)
    requires
        forall|i: int| i >= pos ==> !matches_at(s, pat, i),
    ensures
        occurrences_from(s, pat, pos) == Seq::<int>::empty(),
    decreases s.len() + 1 - pos,
{
    if 0 <= pos <= s.len() {
        lemma_no_occurrences(s, pat, pos + 1);
    }
}

proof fn lemma_unique_occurrence(s: Seq<char>, pat: Seq<char>, pos: int, q: int)
    requires
        pat.len() > 0,
        0 <= pos <= q,
        matches_at(s, pat, q),
        forall|i: int| matches_at(s, pat, i) ==> i == q,
    ensures
        occurrences_from(s, pat, pos) == seq![q],
    decreases q - pos,
{
    if pos == q {
        lemma_no_occurrences(s, pat, q + pat.len());
        assert(seq![q] + Seq::<int>::empty() =~= seq![q]);
    } else {
        lemma_unique_occurrence(s, pat, pos + 1, q);
    }
}

/// A unique replacement is undone by the reverse replacement: when the new
/// text occurs exactly once in the result (overlapping occurrences
/// counted), replacing it by the old text gives the original content back.
pub proof fn law_unique_replacement_is_undone(content: Seq<char>, old: Seq<char>, new: Seq<char>)
    requires
        old.len() > 0,
        new.len() > 0,
        edit_outcome(content, old, new, false) is Ok,
        exists|q: int|
            matches_at(edit_outcome(content, old, new, false)->Ok_0, new, q) && forall|i: int|
                #[trigger] matches_at(edit_outcome(content, old, new, false)->Ok_0, new, i) ==> i == q,
    ensures
        edit_outcome(edit_outcome(content, old, new, false)->Ok_0, new, old, false) == Ok::<
            Seq<char>,
            EditError,
        >(content),
{
    let occ = occurrences(content, old);
    lemma_occurrences_from_match(content, old, 0);
    let p = occ[0];
    assert(matches_at(content, old, p));
    let r = edit_outcome(content, old, new, false)->Ok_0;
    assert(r == splice_one(content, p, p + old.len(), new));
    assert(r.subrange(p, p + new.len()) =~= new);
    assert(matches_at(r, new, p));
    let q = choose|q: int|
        matches_at(r, new, q) && forall|i: int| #[trigger] matches_at(r, new, i) ==> i == q;
    assert(q == p);
    lemma_unique_occurrence(r, new, 0, p);
    assert(occurrences(r, new) == seq![p]);
    assert(content.subrange(p, p + old.len()) == old);
    assert(splice_one(r, p, p + new.len(), old) =~= content);
}

/// One span per occurrence start, each `len` characters long, all
/// replaced by `rep`.
pub open spec fn replacement_spans(starts: Seq<int>, len: int, rep: Seq<char>) -> Seq<Span> {
    starts.map_values(|p: int| Span { start: p, end: p + len, text: rep })
}

proof fn lemma_replace_from_splices(s: Seq<char>, pat: Seq<char>, rep: Seq<char>, pos: int)
    requires
        pat.len() > 0,
        0 <= pos <= s.len(),
    ensures
        crate::text::replace_from(s, pat, rep, pos) == splice_spans(
            s,
            replacement_spans(occurrences_from(s, pat, pos), pat.len() as int, rep),
            pos,
        ),
    decreases s.len() + 1 - pos,
{
    let occ = occurrences_from(s, pat, pos);
    let sp = replacement_spans(occ, pat.len() as int, rep);
    if matches_at(s, pat, pos) {
        lemma_replace_from_splices(s, pat, rep, pos + pat.len());
        let rest = occurrences_from(s, pat, pos + pat.len());
        assert(occ == seq![pos] + rest);
        assert(sp.drop_first() =~= replacement_spans(rest, pat.len() as int, rep));
        assert(sp[0] == Span { start: pos, end: pos + pat.len(), text: rep });
        assert(s.subrange(pos, pos) =~= Seq::<char>::empty());
        assert(splice_spans(s, sp, pos) =~= rep + splice_spans(s, sp.drop_first(), pos + pat.len()));
    } else if pos < s.len() {
        lemma_replace_from_splices(s, pat, rep, pos + 1);
        assert(occ == occurrences_from(s, pat, pos + 1));
        lemma_occurrences_from_match(s, pat, pos + 1);
        if sp.len() == 0 {
            assert(s.subrange(pos, s.len() as int) =~= seq![s[pos]] + s.subrange(pos + 1, s.len() as int));
        } else {
            assert(sp[0].start == occ[0]);
            assert(occ[0] >= pos + 1);
            lemma_occurrences_from_match(s, pat, pos + 1);
            assert(matches_at(s, pat, occ[0]));
            assert(s.subrange(pos, sp[0].start) =~= seq![s[pos]] + s.subrange(pos + 1, sp[0].start));
            assert(splice_spans(s, sp, pos) =~= seq![s[pos]] + splice_spans(s, sp, pos + 1));
        }
    } else {
        assert(occ =~= Seq::<int>::empty()) by {
            reveal_with_fuel(occurrences_from, 2);
        }
        assert(sp =~= Seq::<Span>::empty());
        assert(s.subrange(pos, s.len() as int) =~= Seq::<char>::empty());
    }
}

/// Replacing every occurrence replaces each of them: for a non-empty
/// pattern, the result is the original with every leftmost,
/// non-overlapping occurrence of the pattern cut out and the replacement
/// put in its place, and the text between occurrences kept as it was.
pub proof fn law_replace_all_replaces_every_occurrence(s: Seq<char>, pat: Seq<char>, rep: Seq<char>)
    requires
        pat.len() > 0,
    ensures
        crate::text::replace_all(s, pat, rep) == splice_spans(
            s,
            replacement_spans(occurrences(s, pat), pat.len() as int, rep),
            0,
        ),
        edit_outcome(s, pat, rep, true) == if occurrences(s, pat).len() == 0 {
            Err::<Seq<char>, EditError>(EditError::OldStringNotFound)
        } else {
            Ok(splice_spans(s, replacement_spans(occurrences(s, pat), pat.len() as int, rep), 0))
        },
{
    lemma_replace_from_splices(s, pat, rep, 0);
    lemma_occurrences_nonempty(s, pat, 0);
}

/// A batch holding a single replacement behaves exactly as a single,
/// unique replacement: the same resulting text when it applies, and the
/// same failure (not found, or not unique with the same count) when it
/// does not.
pub proof fn law_single_batch_edit_is_a_unique_replacement(orig: Seq<char>, old: Seq<char>, new: Seq<char>)
    ensures
        match (pi_edit_outcome(orig, seq![(old, new)]), edit_outcome(orig, old, new, false)) {
            (Ok(a), Ok(b)) => a == b,
            (Err(PiEditFault::NotFound(o)), Err(EditError::OldStringNotFound)) => o == old,
            (Err(PiEditFault::NotUnique(o, n)), Err(EditError::OldStringAmbiguous { count })) => o
                == old && count == n as usize,
            _ => false,
        },
{
    let edits = seq![(old, new)];
    let occ = occurrences(orig, old);
    assert(edits.drop_last() =~= Seq::<(Seq<char>, Seq<char>)>::empty());
    assert(edits.last() == (old, new));
    reveal_with_fuel(locate, 2);
    if occ.len() == 1 {
        let x = Span { start: occ[0], end: occ[0] + old.len(), text: new };
        let spans = Seq::<Span>::empty().push(x);
        assert(locate(orig, edits) == Ok::<Seq<Span>, PiEditFault>(spans));
        assert(spans.drop_last() =~= Seq::<Span>::empty());
        reveal_with_fuel(sort_spans, 2);
        assert(sort_spans(spans) == insert_span(Seq::<Span>::empty(), x));
        let sorted = sort_spans(spans);
        assert(sorted =~= seq![x]);
        assert(!has_overlap(sorted));
        reveal_with_fuel(splice_spans, 2);
        assert(sorted.drop_first() =~= Seq::<Span>::empty());
        assert(splice_spans(orig, sorted, 0) == orig.subrange(0, x.start) + new + orig.subrange(
            x.end,
            orig.len() as int,
        ));
    }
}

/// Where an `oldText` that occurs exactly once is located, with its
/// replacement.
pub open spec fn span_of(orig: Seq<char>, e: (Seq<char>, Seq<char>)) -> Span {
    let occ = occurrences(orig, e.0);
    Span { start: occ[0], end: occ[0] + e.0.len(), text: e.1 }
}

/// Every `oldText` of the batch occurs exactly once in `orig`.
pub open spec fn all_unique(orig: Seq<char>, edits: Seq<(Seq<char>, Seq<char>)>) -> bool {
    forall|k: int| 0 <= k < edits.len() ==> occurrences(orig, #[trigger] edits[k].0).len() == 1
}

/// The located span of each replacement, in batch order.
pub open spec fn spans_of(orig: Seq<char>, edits: Seq<(Seq<char>, Seq<char>)>) -> Seq<Span> {
    edits.map_values(|e: (Seq<char>, Seq<char>)| span_of(orig, e))
}

/// Spans ordered by start.
pub open spec fn starts_sorted(s: Seq<Span>) -> bool {
    forall|i: int, j: int| 0 <= i < j < s.len() ==> s[i].start <= s[j].start
}

/// Spans in strictly increasing order of start.
pub open spec fn starts_strict(s: Seq<Span>) -> bool {
    forall|i: int, j: int| 0 <= i < j < s.len() ==> s[i].start < s[j].start
}

proof fn lemma_locate_all(orig: Seq<char>, edits: Seq<(Seq<char>, Seq<char>)>)
    ensures
        (locate(orig, edits) is Ok) == all_unique(orig, edits),
        all_unique(orig, edits) ==> locate(orig, edits) == Ok::<Seq<Span>, PiEditFault>(
            spans_of(orig, edits),
        ),
    decreases edits.len(),
{
    if edits.len() == 0 {
        assert(spans_of(orig, edits) =~= Seq::<Span>::empty());
    } else {
        let init = edits.drop_last();
        lemma_locate_all(orig, init);
        if all_unique(orig, edits) {
            assert forall|k: int| 0 <= k < init.len() implies occurrences(orig, #[trigger] init[k].0).len()
                == 1 by {
                assert(init[k] == edits[k]);
            }
            assert(occurrences(orig, edits[edits.len() - 1].0).len() == 1);
            assert(spans_of(orig, edits) =~= spans_of(orig, init).push(span_of(orig, edits.last())));
        } else {
            let k = choose|k: int| 0 <= k < edits.len() && occurrences(orig, #[trigger] edits[k].0).len() != 1;
            if k < init.len() {
                assert(init[k] == edits[k]);
            }
        }
    }
}

proof fn lemma_insert_span(sorted: Seq<Span>, x: Span)
    requires
        starts_sorted(sorted),
    ensures
        starts_sorted(insert_span(sorted, x)),
        insert_span(sorted, x).to_multiset() =~= sorted.to_multiset().insert(x),
    decreases sorted.len(),
{
    broadcast use vstd::seq_lib::group_to_multiset_ensures, vstd::multiset::group_multiset_axioms;

    if sorted.len() == 0 {
        assert(seq![x] =~= Seq::<Span>::empty().push(x));
        assert(sorted =~= Seq::<Span>::empty());
    } else if sorted.last().start <= x.start {
    } else {
        let init = sorted.drop_last();
        let last = sorted.last();
        lemma_insert_span(init, x);
        let r = insert_span(init, x);
        assert(sorted =~= init.push(last));
        assert forall|i: int| 0 <= i < r.len() implies r[i].start <= last.start by {
            assert(r.to_multiset().count(r[i]) > 0) by {
                assert(r.contains(r[i]));
            }
            if r[i] != x {
                assert(init.to_multiset().count(r[i]) > 0);
                assert(init.contains(r[i]));
                let j = choose|j: int| 0 <= j < init.len() && init[j] == r[i];
                assert(sorted[j] == init[j]);
            }
        }
        assert forall|i: int, j: int| 0 <= i < j < r.push(last).len() implies r.push(last)[i].start
            <= r.push(last)[j].start by {
            if j == r.len() {
                assert(r.push(last)[i] == r[i]);
            } else {
                assert(r.push(last)[i] == r[i] && r.push(last)[j] == r[j]);
            }
        }
    }
}

proof fn lemma_sort_spans(spans: Seq<Span>)
    ensures
        starts_sorted(sort_spans(spans)),
        sort_spans(spans).to_multiset() =~= spans.to_multiset(),
    decreases spans.len(),
{
    broadcast use vstd::seq_lib::group_to_multiset_ensures, vstd::multiset::group_multiset_axioms;

    if spans.len() > 0 {
        lemma_sort_spans(spans.drop_last());
        lemma_insert_span(sort_spans(spans.drop_last()), spans.last());
        assert(spans =~= spans.drop_last().push(spans.last()));
    }
}

proof fn lemma_same_multiset<A>(a: Seq<A>, b: Seq<A>)
    requires
        a.to_multiset() == b.to_multiset(),
    ensures
        a.len() == b.len(),
        forall|x: A| a.contains(x) <==> b.contains(x),
{
    vstd::seq_lib::to_multiset_len(a);
    vstd::seq_lib::to_multiset_len(b);
    assert forall|x: A| a.contains(x) <==> b.contains(x) by {
        vstd::seq_lib::to_multiset_contains(a, x);
        vstd::seq_lib::to_multiset_contains(b, x);
    }
}

proof fn lemma_sorted_unique(a: Seq<Span>, b: Seq<Span>)
    requires
        a.to_multiset() == b.to_multiset(),
        starts_strict(a),
        starts_sorted(b),
    ensures
        a == b,
    decreases a.len(),
{
    broadcast use vstd::seq_lib::group_to_multiset_ensures, vstd::multiset::group_multiset_axioms;

    lemma_same_multiset(a, b);
    if a.len() == 0 {
        assert(a =~= b);
    } else {
        assert(a.contains(a[0]));
        assert(b.contains(a[0]));
        let j = choose|j: int| 0 <= j < b.len() && b[j] == a[0];
        assert(b[0].start <= a[0].start);
        assert(b.contains(b[0]));
        assert(a.contains(b[0]));
        let i = choose|i: int| 0 <= i < a.len() && a[i] == b[0];
        if i > 0 {
            assert(a[0].start < a[i].start);
        }
        assert(b[0] == a[0]);
        assert(a.remove(0) =~= a.drop_first());
        assert(b.remove(0) =~= b.drop_first());
        lemma_sorted_unique(a.drop_first(), b.drop_first());
        assert forall|k: int| 0 <= k < a.len() implies a[k] == b[k] by {
            if k > 0 {
                assert(a[k] == a.drop_first()[k - 1] && b[k] == b.drop_first()[k - 1]);
            }
        }
        assert(a =~= b);
    }
}

proof fn lemma_spans_multiset(
    orig: Seq<char>,
    a: Seq<(Seq<char>, Seq<char>)>,
    b: Seq<(Seq<char>, Seq<char>)>,
)
    requires
        a.to_multiset() == b.to_multiset(),
    ensures
        spans_of(orig, a).to_multiset() == spans_of(orig, b).to_multiset(),
    decreases a.len(),
{
    broadcast use vstd::seq_lib::group_to_multiset_ensures, vstd::multiset::group_multiset_axioms;

    lemma_same_multiset(a, b);
    if a.len() == 0 {
        assert(spans_of(orig, a) =~= spans_of(orig, b));
    } else {
        let x = a[0];
        assert(a.contains(x));
        assert(b.contains(x));
        let j = choose|j: int| 0 <= j < b.len() && b[j] == x;
        let a1 = a.remove(0);
        let b1 = b.remove(j);
        lemma_spans_multiset(orig, a1, b1);
        let sa = spans_of(orig, a);
        let sb = spans_of(orig, b);
        assert(sa.remove(0) =~= spans_of(orig, a1));
        assert(sb.remove(j) =~= spans_of(orig, b1));
        assert(sa[0] == span_of(orig, x) && sb[j] == span_of(orig, x));
        assert(sa.contains(sa[0]) && sb.contains(sb[j]));
        assert(sa.to_multiset() =~= sa.remove(0).to_multiset().insert(span_of(orig, x)));
        assert(sb.to_multiset() =~= sb.remove(j).to_multiset().insert(span_of(orig, x)));
    }
}

proof fn lemma_chain(s: Seq<Span>, i: int, j: int)
    requires
        0 <= i < j < s.len(),
        !has_overlap(s),
        forall|k: int| 0 <= k < s.len() ==> #[trigger] s[k].start < s[k].end,
    ensures
        s[i].start < s[j].start,
    decreases j - i,
{
    assert(!(s[j].start < s[j - 1].end));
    if i < j - 1 {
        lemma_chain(s, i, j - 1);
    }
}

proof fn lemma_empty_not_unique(orig: Seq<char>)
    requires
        orig.len() > 0,
    ensures
        occurrences(orig, Seq::<char>::empty()).len() >= 2,
{
    reveal_with_fuel(occurrences_from, 3);
    let e = Seq::<char>::empty();
    assert(orig.subrange(0, 0) =~= e);
    assert(orig.subrange(1, 1) =~= e);
    assert(matches_at(orig, e, 0) && matches_at(orig, e, 1));
}

proof fn lemma_absent_from_empty(pat: Seq<char>)
    requires
        pat.len() > 0,
    ensures
        occurrences(Seq::<char>::empty(), pat).len() == 0,
{
    reveal_with_fuel(occurrences_from, 3);
}

proof fn lemma_spans_nonempty(
    orig: Seq<char>,
    edits: Seq<(Seq<char>, Seq<char>)>,
    sorted: Seq<Span>,
)
    requires
        orig.len() > 0,
        all_unique(orig, edits),
        sorted.to_multiset() == spans_of(orig, edits).to_multiset(),
    ensures
        forall|k: int| 0 <= k < sorted.len() ==> #[trigger] sorted[k].start < sorted[k].end,
{
    lemma_empty_not_unique(orig);
    let sp = spans_of(orig, edits);
    lemma_same_multiset(sorted, sp);
    assert forall|k: int| 0 <= k < sorted.len() implies #[trigger] sorted[k].start < sorted[k].end by {
        assert(sorted.contains(sorted[k]));
        assert(sp.contains(sorted[k]));
        let i = choose|i: int| 0 <= i < sp.len() && sp[i] == sorted[k];
        assert(occurrences(orig, edits[i].0).len() == 1);
        if edits[i].0.len() == 0 {
            assert(edits[i].0 =~= Seq::<char>::empty());
        }
    }
}

proof fn lemma_nonempty_file_order(
    orig: Seq<char>,
    edits1: Seq<(Seq<char>, Seq<char>)>,
    edits2: Seq<(Seq<char>, Seq<char>)>,
)
    requires
        orig.len() > 0,
        edits1.to_multiset() == edits2.to_multiset(),
        all_unique(orig, edits1),
        all_unique(orig, edits2),
    ensures
        sort_spans(spans_of(orig, edits1)) == sort_spans(spans_of(orig, edits2)) || (has_overlap(
            sort_spans(spans_of(orig, edits1)),
        ) && has_overlap(sort_spans(spans_of(orig, edits2)))),
{
    let sp1 = spans_of(orig, edits1);
    let sp2 = spans_of(orig, edits2);
    lemma_spans_multiset(orig, edits1, edits2);
    lemma_sort_spans(sp1);
    lemma_sort_spans(sp2);
    let s1 = sort_spans(sp1);
    let s2 = sort_spans(sp2);
    lemma_spans_nonempty(orig, edits1, s1);
    lemma_spans_nonempty(orig, edits2, s2);
    assert(s1.to_multiset() == s2.to_multiset());
    if !has_overlap(s1) {
        assert forall|i: int, j: int| 0 <= i < j < s1.len() implies s1[i].start < s1[j].start by {
            lemma_chain(s1, i, j);
        }
        lemma_sorted_unique(s1, s2);
    } else if !has_overlap(s2) {
        assert forall|i: int, j: int| 0 <= i < j < s2.len() implies s2[i].start < s2[j].start by {
            lemma_chain(s2, i, j);
        }
        lemma_sorted_unique(s2, s1);
    }
}

/// The order of a batch does not matter: two batches holding the same
/// replacements in any order both fail, or both give the same text. The
/// one exception is an empty file edited by several empty `oldText`s,
/// whose insertions then land in batch order.
pub proof fn law_batch_edit_ignores_order(
    orig: Seq<char>,
    edits1: Seq<(Seq<char>, Seq<char>)>,
    edits2: Seq<(Seq<char>, Seq<char>)>,
)
    requires
        edits1.to_multiset() == edits2.to_multiset(),
        !(orig.len() == 0 && edits1.len() >= 2 && forall|k: int|
            0 <= k < edits1.len() ==> (#[trigger] edits1[k]).0.len() == 0),
    ensures
        (pi_edit_outcome(orig, edits1) is Ok) == (pi_edit_outcome(orig, edits2) is Ok),
        pi_edit_outcome(orig, edits1) is Ok ==> pi_edit_outcome(orig, edits1) == pi_edit_outcome(orig, edits2),
{
    lemma_locate_all(orig, edits1);
    lemma_locate_all(orig, edits2);
    lemma_same_multiset(edits1, edits2);
    if all_unique(orig, edits1) != all_unique(orig, edits2) {
        if all_unique(orig, edits1) {
            let k = choose|k: int| 0 <= k < edits2.len() && occurrences(orig, #[trigger] edits2[k].0).len() != 1;
            assert(edits2.contains(edits2[k]));
            let j = choose|j: int| 0 <= j < edits1.len() && edits1[j] == edits2[k];
            assert(occurrences(orig, edits1[j].0).len() == 1);
        } else {
            let k = choose|k: int| 0 <= k < edits1.len() && occurrences(orig, #[trigger] edits1[k].0).len() != 1;
            assert(edits1.contains(edits1[k]));
            let j = choose|j: int| 0 <= j < edits2.len() && edits2[j] == edits1[k];
            assert(occurrences(orig, edits2[j].0).len() == 1);
        }
    }
    if all_unique(orig, edits1) {
        if orig.len() == 0 {
            if edits1.len() >= 2 {
                let k = choose|k: int| 0 <= k < edits1.len() && (#[trigger] edits1[k]).0.len() != 0;
                lemma_absent_from_empty(edits1[k].0);
                assert(orig =~= Seq::<char>::empty());
                assert(occurrences(orig, edits1[k].0).len() == 1);
            } else if edits1.len() == 1 {
                assert(edits2.contains(edits1[0]));
                assert(edits1 =~= edits2);
            } else {
                assert(edits1 =~= edits2);
            }
        } else {
            lemma_nonempty_file_order(orig, edits1, edits2);
        }
    }
}

impl EditError {
    /// The error text reported for this failure.
    pub fn message(&self) -> (r: String)
        ensures
            r@ == match self {
                EditError::OldStringNotFound => "old_string not found in file"@,
                EditError::OldStringAmbiguous { count } => "old_string appears "@ + decimal(
                    *count as nat,
                ) + " times in the file; ambiguous without replace_all"@,
            },
    {
        let mut out: Vec<char> = Vec::new();
        match self {
            EditError::OldStringNotFound => push_str(&mut out, "old_string not found in file"),
            EditError::OldStringAmbiguous { count } => {
                push_str(&mut out, "old_string appears ");
                push_decimal(&mut out, *count as u64);
                push_str(&mut out, " times in the file; ambiguous without replace_all");
            },
        }
        string_of(&out)
    }
}

impl PiEditError {
    /// The error text reported for this failure.
    pub fn message(&self) -> (r: String)
        ensures
            r@ == match self {
                PiEditError::OldTextNotFound(t) => "oldText not found in file: "@ + debug_quoted(t@),
                PiEditError::OldTextNotUnique { old_text, count } => "oldText appears "@ + decimal(
                    *count as nat,
                ) + " times in the file, must be unique: "@ + debug_quoted(old_text@),
                PiEditError::Overlap => "edits[] entries overlap, which the schema forbids"@,
            },
    {
        let mut out: Vec<char> = Vec::new();
        match self {
            PiEditError::OldTextNotFound(t) => {
                push_str(&mut out, "oldText not found in file: ");
                let q = debug_quote(t.as_str());
                push_str(&mut out, q.as_str());
            },
            PiEditError::OldTextNotUnique { old_text, count } => {
                push_str(&mut out, "oldText appears ");
                push_decimal(&mut out, *count as u64);
                push_str(&mut out, " times in the file, must be unique: ");
                let q = debug_quote(old_text.as_str());
                push_str(&mut out, q.as_str());
            },
            PiEditError::Overlap => push_str(&mut out, "edits[] entries overlap, which the schema forbids"),
        }
        string_of(&out)
    }
}

} // verus!
