//! The lab's final verdicts, computed deterministically from the audit
//! log: one per subject that appears in it, in the byte order of the
//! subject identifiers.
use vstd::prelude::*;

use crate::audit::{
    about, event_views, first_about, first_about_exec, lemma_first_about, AuditEvent, EventKind, EventView, Timestamp,
};
use crate::lab::{detection_text, lemma_detection_text_reports_presence};
use crate::text::{chars_of, contains, contains_text, string_of};

verus! {

/// The verdict for one technique.
#[derive(Debug, Clone, PartialEq, Eq)]
pub enum Verdict {
    Detected,
    Missed,
    Blocked { reason: String },
}

/// A verdict with its reason as characters.
pub enum VerdictView {
    Detected,
    Missed,
    Blocked(Seq<char>),
}

impl View for Verdict {
    type V = VerdictView;

    open spec fn view(&self) -> VerdictView {
        match self {
            Verdict::Detected => VerdictView::Detected,
            Verdict::Missed => VerdictView::Missed,
            Verdict::Blocked { reason } => VerdictView::Blocked(reason@),
        }
    }
}

/// The verdict for one technique, stamped with the time of its latest
/// event.
#[derive(Debug, Clone)]
pub struct VerdictRecord {
    pub technique_id: String,
    pub verdict: Verdict,
    pub timestamp: Timestamp,
}

/// `a` sorts strictly before `b`: character codes compared in order, a
/// proper prefix first. For UTF-8 text this is the byte order strings are
/// sorted in.
pub open spec fn lex_lt(a: Seq<char>, b: Seq<char>) -> bool
    decreases a.len(),
{
    if a.len() == 0 {
        b.len() > 0
    } else if b.len() == 0 {
        false
    } else if (a[0] as u32) < (b[0] as u32) {
        true
    } else if a[0] == b[0] {
        lex_lt(a.drop_first(), b.drop_first())
    } else {
        false
    }
}

pub proof fn lemma_lex_irreflexive(a: Seq<char>)
    ensures
        !lex_lt(a, a),
    decreases a.len(),
{
    if a.len() > 0 {
        lemma_lex_irreflexive(a.drop_first());
    }
}

pub proof fn lemma_lex_transitive(a: Seq<char>, b: Seq<char>, c: Seq<char>)
    requires
        lex_lt(a, b),
        lex_lt(b, c),
    ensures
        lex_lt(a, c),
    decreases a.len(),
{
    if a.len() > 0 && b.len() > 0 && c.len() > 0 && a[0] == b[0] && b[0] == c[0] {
        lemma_lex_transitive(a.drop_first(), b.drop_first(), c.drop_first());
    }
}

pub proof fn lemma_lex_total(a: Seq<char>, b: Seq<char>)
    requires
        a != b,
    ensures
        lex_lt(a, b) || lex_lt(b, a),
    decreases a.len(),
{
    if a.len() > 0 && b.len() > 0 && a[0] == b[0] {
        if a.drop_first() == b.drop_first() {
            assert(a =~= seq![a[0]] + a.drop_first());
            assert(b =~= seq![b[0]] + b.drop_first());
        }
        lemma_lex_total(a.drop_first(), b.drop_first());
    } else if a.len() == 0 && b.len() == 0 {
        assert(a =~= b);
    } else if a.len() > 0 && b.len() > 0 {
        vstd::utf8::char_u32_cast(a[0], a[0] as u32);
        vstd::utf8::char_u32_cast(b[0], b[0] as u32);
        assert((a[0] as u32) != (b[0] as u32));
    }
}

/// The sequence is strictly increasing.
pub open spec fn sorted_strict(ids: Seq<Seq<char>>) -> bool {
    forall|i: int, j: int| 0 <= i < j < ids.len() ==> lex_lt(#[trigger] ids[i], #[trigger] ids[j])
}

/// `s` is a non-empty subject of some event.
pub open spec fn is_subject(evs: Seq<EventView>, s: Seq<char>) -> bool {
    s.len() > 0 && exists|i: int| 0 <= i < evs.len() && (#[trigger] evs[i]).subject_id == s
}

/// The latest event about `id` that records `kind`.
pub open spec fn last_about(evs: Seq<EventView>, id: Seq<char>, kind: EventKind) -> Option<EventView>
    decreases evs.len(),
{
    if evs.len() == 0 {
        None
    } else if evs.last().subject_id == id && evs.last().kind == kind {
        Some(evs.last())
    } else {
        last_about(evs.drop_last(), id, kind)
    }
}

/// The time of the latest event about `id`.
pub open spec fn last_time(evs: Seq<EventView>, id: Seq<char>) -> Option<Timestamp>
    decreases evs.len(),
{
    if evs.len() == 0 {
        None
    } else if evs.last().subject_id == id {
        Some(evs.last().timestamp)
    } else {
        last_time(evs.drop_last(), id)
    }
}

/// The verdict the log supports for `id`: a capability denial, a blocked
/// execution or a failed execution blocks it (with that event's detail,
/// checked in that order); otherwise, for a technique that was granted or
/// executed, the latest detection check decides Detected (it found the
/// signal) or Missed, and without one it is blocked; with no capability or
/// execution event at all it is blocked.
pub open spec fn subject_verdict(evs: Seq<EventView>, id: Seq<char>) -> VerdictView {
    match first_about(evs, id, EventKind::CapabilityDenied) {
        Some(e) => VerdictView::Blocked(e.detail),
        None => match first_about(evs, id, EventKind::ExecutionBlocked) {
            Some(e) => VerdictView::Blocked(e.detail),
            None => match first_about(evs, id, EventKind::ExecutionFailed) {
                Some(e) => VerdictView::Blocked(e.detail),
                None => if first_about(evs, id, EventKind::CapabilityGranted) is Some || first_about(
                    evs,
                    id,
                    EventKind::ExecutionSucceeded,
                ) is Some {
                    match last_about(evs, id, EventKind::DetectionChecked) {
                        Some(e) => if contains(e.detail, "present: true"@) {
                            VerdictView::Detected
                        } else {
                            VerdictView::Missed
                        },
                        None => VerdictView::Blocked(
                            "capability was granted but no detection check was recorded"@,
                        ),
                    }
                } else {
                    VerdictView::Blocked(
                        "no capability decision or execution event found for this technique"@,
                    )
                },
            },
        },
    }
}

/// The subject identifiers of the records.
pub open spec fn record_ids(records: Seq<VerdictRecord>) -> Seq<Seq<char>> {
    records.map_values(|r: VerdictRecord| r.technique_id@)
}

/// The records are exactly the verdicts of the log: one per subject, in
/// increasing order, each with its subject's verdict and latest time.
pub open spec fn verdicts_of(evs: Seq<EventView>, records: Seq<VerdictRecord>) -> bool {
    let ids = record_ids(records);
    &&& sorted_strict(ids)
    &&& forall|s: Seq<char>| ids.contains(s) <==> is_subject(evs, s)
    &&& forall|i: int|
        0 <= i < records.len() ==> {
            &&& (#[trigger] records[i]).verdict@ == subject_verdict(evs, ids[i])
            &&& last_time(evs, ids[i]) == Some(records[i].timestamp)
        }
}

fn lex_less(a: &Vec<char>, b: &Vec<char>) -> (r: bool)
    ensures
        r == lex_lt(a@, b@),
{
    let mut i: usize = 0;
    assert(a@.skip(0) =~= a@ && b@.skip(0) =~= b@);
    loop
        invariant
            i <= a.len(),
            i <= b.len(),
            lex_lt(a@, b@) == lex_lt(a@.skip(i as int), b@.skip(i as int)),
        decreases a.len() - i,
    {
        if i == a.len() {
            return i < b.len();
        }
        if i == b.len() {
            return false;
        }
        assert(a@.skip(i as int)[0] == a@[i as int]);
        assert(b@.skip(i as int)[0] == b@[i as int]);
        if (a[i] as u32) < (b[i] as u32) {
            return true;
        }
        if a[i] != b[i] {
            return false;
        }
        assert(a@.skip(i as int).drop_first() =~= a@.skip(i + 1));
        assert(b@.skip(i as int).drop_first() =~= b@.skip(i + 1));
        i += 1;
    }
}

fn same_chars(a: &Vec<char>, b: &Vec<char>) -> (r: bool)
    ensures
        r == (a@ == b@),
{
    if a.len() != b.len() {
        return false;
    }
    let mut i: usize = 0;
    while i < a.len()
        invariant
            a.len() == b.len(),
            i <= a.len(),
            forall|j: int| 0 <= j < i ==> a@[j] == b@[j],
        decreases a.len() - i,
    {
        if a[i] != b[i] {
            assert(a@[i as int] != b@[i as int]);
            return false;
        }
        i += 1;
    }
    assert(a@ =~= b@);
    true
}

spec fn ids_view(v: Seq<Vec<char>>) -> Seq<Seq<char>> {
    v.map_values(|x: Vec<char>| x@)
}

/// Inserts `s` into the strictly increasing `ids`, unless it is present.
fn insert_id(ids: &mut Vec<Vec<char>>, s: Vec<char>)
    requires
        sorted_strict(ids_view(old(ids)@)),
    ensures
        sorted_strict(ids_view(final(ids)@)),
        forall|x: Seq<char>|
            ids_view(final(ids)@).contains(x) <==> (ids_view(old(ids)@).contains(x) || x == s@),
{
    let ghost old_ids = ids_view(ids@);
    let mut p: usize = 0;
    while p < ids.len() && lex_less(&ids[p], &s)
        invariant
            p <= ids.len(),
            ids_view(ids@) == old_ids,
            forall|k: int| 0 <= k < p ==> lex_lt(#[trigger] old_ids[k], s@),
        decreases ids.len() - p,
    {
        p += 1;
    }
    if p < ids.len() && same_chars(&ids[p], &s) {
        assert(old_ids.contains(s@)) by {
            assert(old_ids[p as int] == s@);
        }
        return;
    }
    proof {
        if p < old_ids.len() {
            assert(old_ids[p as int] != s@);
            lemma_lex_total(old_ids[p as int], s@);
            assert(lex_lt(s@, old_ids[p as int]));
            assert forall|k: int| p <= k < old_ids.len() implies lex_lt(s@, #[trigger] old_ids[k]) by {
                if k > p {
                    lemma_lex_transitive(s@, old_ids[p as int], old_ids[k]);
                }
            }
        }
    }
    ids.insert(p, s);
    let ghost new_ids = ids_view(ids@);
    assert(new_ids =~= old_ids.insert(p as int, s@));
    assert forall|i: int, j: int| 0 <= i < j < new_ids.len() implies lex_lt(
        #[trigger] new_ids[i],
        #[trigger] new_ids[j],
    ) by {
        if j < p {
        } else if j == p {
        } else if i < p {
            assert(new_ids[j] == old_ids[j - 1]);
            lemma_lex_transitive(old_ids[i], s@, old_ids[j - 1]);
        } else if i == p {
            assert(new_ids[j] == old_ids[j - 1]);
        } else {
            assert(new_ids[i] == old_ids[i - 1]);
            assert(new_ids[j] == old_ids[j - 1]);
        }
    }
    assert forall|x: Seq<char>| new_ids.contains(x) <==> (old_ids.contains(x) || x == s@) by {
        if new_ids.contains(x) {
            let i = choose|i: int| 0 <= i < new_ids.len() && new_ids[i] == x;
            if i < p {
                assert(old_ids[i] == x);
            } else if i > p {
                assert(old_ids[i - 1] == x);
            }
        }
        if old_ids.contains(x) {
            let i = choose|i: int| 0 <= i < old_ids.len() && old_ids[i] == x;
            if i < p {
                assert(new_ids[i] == x);
            } else {
                assert(new_ids[i + 1] == x);
            }
        }
        if x == s@ {
            assert(new_ids[p as int] == x);
        }
    }
}

/// Index of the latest event about `id` that records `kind`.
fn last_about_exec(events: &Vec<AuditEvent>, id: &Vec<char>, kind: EventKind) -> (r: Option<usize>)
    ensures
        match r {
            Some(i) => i < events.len() && last_about(event_views(events@), id@, kind) == Some(
                events@[i as int]@,
            ),
            None => last_about(event_views(events@), id@, kind) is None,
        },
{
    let ghost evs = event_views(events@);
    let mut i: usize = events.len();
    assert(evs.take(evs.len() as int) =~= evs);
    while i > 0
        invariant
            i <= events.len(),
            evs == event_views(events@),
            last_about(evs, id@, kind) == last_about(evs.take(i as int), id@, kind),
        decreases i,
    {
        let e = &events[i - 1];
        assert(evs.take(i as int).last() == e@);
        assert(evs.take(i as int).drop_last() =~= evs.take(i - 1));
        if e.kind == kind && same_chars(&chars_of(e.subject_id.as_str()), id) {
            return Some(i - 1);
        }
        i -= 1;
    }
    None
}

/// The time of the latest event about `id`.
fn last_time_exec(events: &Vec<AuditEvent>, id: &Vec<char>) -> (r: Option<Timestamp>)
    ensures
        r == last_time(event_views(events@), id@),
{
    let ghost evs = event_views(events@);
    let mut i: usize = events.len();
    assert(evs.take(evs.len() as int) =~= evs);
    while i > 0
        invariant
            i <= events.len(),
            evs == event_views(events@),
            last_time(evs, id@) == last_time(evs.take(i as int), id@),
        decreases i,
    {
        let e = &events[i - 1];
        assert(evs.take(i as int).last() == e@);
        assert(evs.take(i as int).drop_last() =~= evs.take(i - 1));
        if same_chars(&chars_of(e.subject_id.as_str()), id) {
            return Some(e.timestamp);
        }
        i -= 1;
    }
    None
}

/// The verdict the log supports for `id`.
fn verdict_for(events: &Vec<AuditEvent>, id: &str) -> (v: Verdict)
    ensures
        v@ == subject_verdict(event_views(events@), id@),
{
    if let Some(i) = first_about_exec(events, id, EventKind::CapabilityDenied) {
        return Verdict::Blocked { reason: events[i].detail.clone() };
    }
    if let Some(i) = first_about_exec(events, id, EventKind::ExecutionBlocked) {
        return Verdict::Blocked { reason: events[i].detail.clone() };
    }
    if let Some(i) = first_about_exec(events, id, EventKind::ExecutionFailed) {
        return Verdict::Blocked { reason: events[i].detail.clone() };
    }
    let granted = first_about_exec(events, id, EventKind::CapabilityGranted);
    let succeeded = first_about_exec(events, id, EventKind::ExecutionSucceeded);
    if granted.is_some() || succeeded.is_some() {
        let idc = chars_of(id);
        match last_about_exec(events, &idc, EventKind::DetectionChecked) {
            Some(j) => {
                if contains_text(events[j].detail.as_str(), "present: true") {
                    Verdict::Detected
                } else {
                    Verdict::Missed
                }
            },
            None => Verdict::Blocked {
                reason: String::from_str("capability was granted but no detection check was recorded"),
            },
        }
    } else {
        Verdict::Blocked {
            reason: String::from_str("no capability decision or execution event found for this technique"),
        }
    }
}

proof fn lemma_last_time_some(evs: Seq<EventView>, id: Seq<char>, i: int)
    requires
        0 <= i < evs.len(),
        evs[i].subject_id == id,
    ensures
        last_time(evs, id) is Some,
    decreases evs.len(),
{
    if evs.last().subject_id != id {
        assert(evs.drop_last()[i] == evs[i]);
        lemma_last_time_some(evs.drop_last(), id, i);
    }
}

/// Deterministic verdict computation over the whole audit log: one record
/// per non-empty subject identifier, in increasing byte order.
pub fn verify(events: &Vec<AuditEvent>) -> (records: Vec<VerdictRecord>)
    ensures
        verdicts_of(event_views(events@), records@),
{
    let ghost evs = event_views(events@);
    let mut ids: Vec<Vec<char>> = Vec::new();
    let mut k: usize = 0;
    while k < events.len()
        invariant
            k <= events.len(),
            evs == event_views(events@),
            sorted_strict(ids_view(ids@)),
            forall|x: Seq<char>|
                ids_view(ids@).contains(x) <==> (x.len() > 0 && exists|i: int|
                    0 <= i < k && (#[trigger] evs[i]).subject_id == x),
        decreases events.len() - k,
    {
        let s = chars_of(events[k].subject_id.as_str());
        assert(evs[k as int].subject_id == s@);
        let ghost before = ids_view(ids@);
        if s.len() > 0 {
            insert_id(&mut ids, s);
        }
        assert forall|x: Seq<char>|
            ids_view(ids@).contains(x) <==> (x.len() > 0 && exists|i: int|
                0 <= i < k + 1 && (#[trigger] evs[i]).subject_id == x) by {
            if x.len() > 0 && exists|i: int| 0 <= i < k + 1 && (#[trigger] evs[i]).subject_id == x {
                let i = choose|i: int| 0 <= i < k + 1 && (#[trigger] evs[i]).subject_id == x;
                if i < k {
                    assert(before.contains(x));
                }
            }
            if ids_view(ids@).contains(x) && !before.contains(x) {
                assert(evs[k as int].subject_id == x);
            }
        }
        k += 1;
    }
    let ghost all_ids = ids_view(ids@);
    let mut records: Vec<VerdictRecord> = Vec::new();
    let mut m: usize = 0;
    while m < ids.len()
        invariant
            m <= ids.len(),
            evs == event_views(events@),
            all_ids == ids_view(ids@),
            record_ids(records@) =~= all_ids.take(m as int),
            records@.len() == m,
            forall|i: int|
                0 <= i < m ==> {
                    &&& (#[trigger] records@[i]).verdict@ == subject_verdict(evs, all_ids[i])
                    &&& last_time(evs, all_ids[i]) == Some(records@[i].timestamp)
                },
            forall|x: Seq<char>| all_ids.contains(x) <==> is_subject(evs, x),
        decreases ids.len() - m,
    {
        let id = string_of(&ids[m]);
        assert(id@ == all_ids[m as int]);
        assert(all_ids.contains(id@));
        proof {
            let i = choose|i: int| 0 <= i < evs.len() && (#[trigger] evs[i]).subject_id == id@;
            lemma_last_time_some(evs, id@, i);
        }
        let verdict = verdict_for(events, id.as_str());
        let timestamp = match last_time_exec(events, &ids[m]) {
            Some(t) => t,
            None => Timestamp { secs: 0, nanos: 0 },
        };
        let ghost before = record_ids(records@);
        records.push(VerdictRecord { technique_id: id, verdict, timestamp });
        assert(record_ids(records@) =~= before.push(all_ids[m as int]));
        assert(all_ids.take(m + 1) =~= all_ids.take(m as int).push(all_ids[m as int]));
        m += 1;
    }
    assert(all_ids.take(m as int) =~= all_ids);
    records
}

/// The defender's check decides between Detected and Missed: for a
/// technique whose only events are an execution (or a grant) and then the
/// defender's check, the verdict is Detected when the defender found the
/// signal and Missed when it did not.
pub proof fn law_defender_check_decides_detection(
    prior: Seq<EventView>,
    id: Seq<char>,
    executed: EventView,
    check: EventView,
    present: bool,
)
    requires
        forall|i: int| 0 <= i < prior.len() ==> (#[trigger] prior[i]).subject_id != id,
        executed.subject_id == id,
        executed.kind == EventKind::ExecutionSucceeded || executed.kind == EventKind::CapabilityGranted,
        check.subject_id == id,
        check.kind == EventKind::DetectionChecked,
        check.detail == detection_text(id, present),
    ensures
        subject_verdict(prior.push(executed).push(check), id) == if present {
            VerdictView::Detected
        } else {
            VerdictView::Missed
        },
{
    let evs = prior.push(executed).push(check);
    assert(evs[evs.len() - 1] == check);
    assert(evs[evs.len() - 2] == executed);
    assert forall|i: int| 0 <= i < evs.len() && (#[trigger] evs[i]).subject_id == id implies i
        >= prior.len() by {
        if i < prior.len() {
            assert(evs[i] == prior[i]);
        }
    }
    lemma_first_about(evs, id, EventKind::CapabilityDenied);
    lemma_first_about(evs, id, EventKind::ExecutionBlocked);
    lemma_first_about(evs, id, EventKind::ExecutionFailed);
    lemma_first_about(evs, id, EventKind::CapabilityGranted);
    lemma_first_about(evs, id, EventKind::ExecutionSucceeded);
    assert(about(evs[evs.len() - 2], id, executed.kind));
    assert(evs.drop_last().last() == executed);
    assert(last_about(evs, id, EventKind::DetectionChecked) == Some(check));
    lemma_detection_text_reports_presence(id, present);
}

/// Detected and Missed are reachable only for a technique that was granted
/// or actually executed, never denied, blocked or failed, and that the
/// defender checked.
pub proof fn law_detection_verdicts_need_execution_and_check(evs: Seq<EventView>, id: Seq<char>)
    requires
        subject_verdict(evs, id) is Detected || subject_verdict(evs, id) is Missed,
    ensures
        first_about(evs, id, EventKind::CapabilityDenied) is None,
        first_about(evs, id, EventKind::ExecutionBlocked) is None,
        first_about(evs, id, EventKind::ExecutionFailed) is None,
        first_about(evs, id, EventKind::CapabilityGranted) is Some || first_about(
            evs,
            id,
            EventKind::ExecutionSucceeded,
        ) is Some,
        last_about(evs, id, EventKind::DetectionChecked) is Some,
{
}

} // verus!
