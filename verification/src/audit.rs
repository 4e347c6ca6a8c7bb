//! The shape of the append-only audit log: every capability grant or
//! denial, execution attempt, detection check and verdict is one event.
use vstd::prelude::*;

use crate::text::{
    lemma_zero_padded, pow10, push_str, push_zero_padded, push_zero_padded_u64, same_text, string_of, zero_padded,
};

verus! {

/// A point in time: whole seconds since the Unix epoch and the nanoseconds
/// past that second. Points are ordered by seconds, then nanoseconds.
#[derive(Debug, Clone, Copy, PartialEq, Eq, Structural)]
pub struct Timestamp {
    pub secs: i64,
    pub nanos: u32,
}

/// `a` is no later than `b`.
pub open spec fn not_after(a: Timestamp, b: Timestamp) -> bool {
    a.secs < b.secs || (a.secs == b.secs && a.nanos <= b.nanos)
}

impl Timestamp {
    /// Whether `self` is no later than `other`.
    pub fn is_not_after(&self, other: &Timestamp) -> (r: bool)
        ensures
            r == not_after(*self, *other),
    {
        self.secs < other.secs || (self.secs == other.secs && self.nanos <= other.nanos)
    }
}

/// What an audit event records.
#[derive(Debug, Clone, Copy, PartialEq, Eq, Structural)]
pub enum EventKind {
    CapabilityGranted,
    CapabilityDenied,
    ExecutionAttempted,
    ExecutionBlocked,
    /// A sandboxed execution ran and succeeded.
    ExecutionSucceeded,
    /// A sandboxed execution was attempted and did not succeed.
    ExecutionFailed,
    DetectionChecked,
    Verdict,
    /// Deny-pattern static analysis of a shell command found nothing.
    StaticAnalysisClean,
    /// Deny-pattern static analysis of a shell command matched a rule.
    StaticAnalysisFlagged,
    /// The sandbox dry-run write succeeded.
    SandboxDryRunSucceeded,
    /// The sandbox dry-run write was denied, before or inside the sandbox.
    SandboxDryRunDenied,
}

/// One logged occurrence, in full.
#[derive(Debug)]
pub struct AuditEvent {
    pub timestamp: Timestamp,
    /// The component that emitted the event.
    pub actor: String,
    /// The technique or proposal the event concerns; empty if none.
    pub subject_id: String,
    pub kind: EventKind,
    /// Human-readable reason or context.
    pub detail: String,
}

/// An audit event with its texts as characters.
pub struct EventView {
    pub timestamp: Timestamp,
    pub actor: Seq<char>,
    pub subject_id: Seq<char>,
    pub kind: EventKind,
    pub detail: Seq<char>,
}

impl View for AuditEvent {
    type V = EventView;

    open spec fn view(&self) -> EventView {
        EventView {
            timestamp: self.timestamp,
            actor: self.actor@,
            subject_id: self.subject_id@,
            kind: self.kind,
            detail: self.detail@,
        }
    }
}

impl Clone for AuditEvent {
    fn clone(&self) -> (r: Self)
        ensures
            r@ == self@,
    {
        AuditEvent {
            timestamp: self.timestamp,
            actor: self.actor.clone(),
            subject_id: self.subject_id.clone(),
            kind: self.kind,
            detail: self.detail.clone(),
        }
    }
}

/// The key an event is stored under: its time in nanoseconds and the
/// store's own sequence number for it, each zero-padded to twenty
/// characters, then its subject. The store walks events in key order,
/// which is time order and, within one instant, the order they were
/// logged in.
pub open spec fn event_key_spec(nanos: int, seq: int, subject_id: Seq<char>) -> Seq<char> {
    zero_padded(nanos, 20) + "-"@ + zero_padded(seq, 20) + "-"@ + subject_id
}

/// The key an event is stored under; see [`event_key_spec`].
pub fn event_key(nanos: i64, seq: u64, subject_id: &str) -> (k: String)
    ensures
        k@ == event_key_spec(nanos as int, seq as int, subject_id@),
{
    let mut out: Vec<char> = Vec::new();
    push_zero_padded(&mut out, nanos, 20);
    push_str(&mut out, "-");
    push_zero_padded_u64(&mut out, seq, 20);
    push_str(&mut out, "-");
    push_str(&mut out, subject_id);
    string_of(&out)
}

/// No event is lost to another: events logged with distinct sequence
/// numbers (or at distinct times) are stored under distinct keys,
/// whatever their subjects.
pub proof fn law_event_keys_are_distinct(
    nanos1: i64,
    seq1: u64,
    subject1: Seq<char>,
    nanos2: i64,
    seq2: u64,
    subject2: Seq<char>,
)
    requires
        nanos1 != nanos2 || seq1 != seq2,
    ensures
        event_key_spec(nanos1 as int, seq1 as int, subject1) != event_key_spec(
            nanos2 as int,
            seq2 as int,
            subject2,
        ),
{
    assert(pow10(19) == 10000000000000000000nat && pow10(20) == 100000000000000000000nat) by {
        reveal_with_fuel(pow10, 21);
    }
    lemma_zero_padded(nanos1 as int);
    lemma_zero_padded(nanos2 as int);
    lemma_zero_padded(seq1 as int);
    lemma_zero_padded(seq2 as int);
    let k1 = event_key_spec(nanos1 as int, seq1 as int, subject1);
    let k2 = event_key_spec(nanos2 as int, seq2 as int, subject2);
    if k1 == k2 {
        reveal_strlit("-");
        assert(k1.subrange(0, 20) =~= zero_padded(nanos1 as int, 20));
        assert(k2.subrange(0, 20) =~= zero_padded(nanos2 as int, 20));
        assert(k1.subrange(21, 41) =~= zero_padded(seq1 as int, 20));
        assert(k2.subrange(21, 41) =~= zero_padded(seq2 as int, 20));
    }
}

/// The events as views.
pub open spec fn event_views(events: Seq<AuditEvent>) -> Seq<EventView> {
    events.map_values(|e: AuditEvent| e@)
}


/// `e` concerns `subject` and records `kind`.
pub open spec fn about(e: EventView, subject: Seq<char>, kind: EventKind) -> bool {
    e.subject_id == subject && e.kind == kind
}

/// The earliest event about `subject` that records `kind`.
pub open spec fn first_about(evs: Seq<EventView>, subject: Seq<char>, kind: EventKind) -> Option<
    EventView,
>
    decreases evs.len(),
{
    if evs.len() == 0 {
        None
    } else if about(evs[0], subject, kind) {
        Some(evs[0])
    } else {
        first_about(evs.drop_first(), subject, kind)
    }
}

/// `first_about` finds an event exactly when one exists, and what it finds
/// is the earliest such event.
pub proof fn lemma_first_about(evs: Seq<EventView>, subject: Seq<char>, kind: EventKind)
    ensures
        (first_about(evs, subject, kind) is Some) == (exists|i: int|
            0 <= i < evs.len() && about(#[trigger] evs[i], subject, kind)),
        first_about(evs, subject, kind) matches Some(e) ==> exists|i: int|
            0 <= i < evs.len() && evs[i] == e && about(e, subject, kind) && forall|j: int|
                0 <= j < i ==> !about(#[trigger] evs[j], subject, kind),
    decreases evs.len(),
{
    if evs.len() > 0 {
        let rest = evs.drop_first();
        lemma_first_about(rest, subject, kind);
        if !about(evs[0], subject, kind) {
            if exists|i: int| 0 <= i < evs.len() && about(#[trigger] evs[i], subject, kind) {
                let i = choose|i: int| 0 <= i < evs.len() && about(#[trigger] evs[i], subject, kind);
                assert(rest[i - 1] == evs[i]);
            }
            if first_about(evs, subject, kind) is Some {
                let e = first_about(evs, subject, kind)->0;
                let i = choose|i: int|
                    0 <= i < rest.len() && rest[i] == e && about(e, subject, kind) && forall|j: int|
                        0 <= j < i ==> !about(#[trigger] rest[j], subject, kind);
                assert(evs[i + 1] == e);
                assert forall|j: int| 0 <= j < i + 1 implies !about(#[trigger] evs[j], subject, kind) by {
                    if j > 0 {
                        assert(evs[j] == rest[j - 1]);
                    }
                }
            }
        }
    }
}

/// Index of the earliest event about `subject` that records `kind`.
pub fn first_about_exec(events: &Vec<AuditEvent>, subject: &str, kind: EventKind) -> (r: Option<
    usize,
>)
    ensures
        match r {
            Some(i) => i < events.len() && first_about(event_views(events@), subject@, kind) == Some(
                events@[i as int]@,
            ),
            None => first_about(event_views(events@), subject@, kind) is None,
        },
{
    let ghost evs = event_views(events@);
    let mut i: usize = 0;
    assert(evs.skip(0) =~= evs);
    while i < events.len()
        invariant
            i <= events.len(),
            evs == event_views(events@),
            first_about(evs, subject@, kind) == first_about(evs.skip(i as int), subject@, kind),
        decreases events.len() - i,
    {
        let e = &events[i];
        assert(evs.skip(i as int)[0] == e@);
        assert(evs.skip(i as int).drop_first() =~= evs.skip(i + 1));
        if e.kind == kind && same_text(e.subject_id.as_str(), subject) {
            return Some(i);
        }
        i += 1;
    }
    None
}

/// `not_after` is the order of time: a point in an earlier second is
/// strictly before any point in a later second, whatever the nanoseconds;
/// within one second the nanoseconds decide.
pub proof fn law_not_after_is_time_order(a: Timestamp, b: Timestamp)
    ensures
        a.secs < b.secs ==> not_after(a, b) && !not_after(b, a),
        a.secs == b.secs ==> (not_after(a, b) <==> a.nanos <= b.nanos),
        not_after(a, b) || not_after(b, a),
        not_after(a, b) && not_after(b, a) ==> a == b,
{
}

/// For points whose nanoseconds lie within their second, `not_after` is
/// the comparison of the instants they stand for.
pub proof fn law_not_after_compares_instants(a: Timestamp, b: Timestamp)
    requires
        a.nanos < 1_000_000_000,
        b.nanos < 1_000_000_000,
    ensures
        not_after(a, b) <==> a.secs * 1_000_000_000 + a.nanos <= b.secs * 1_000_000_000 + b.nanos,
{
    if a.secs < b.secs {
        assert(a.secs * 1_000_000_000 + 1_000_000_000 <= b.secs * 1_000_000_000) by (nonlinear_arith)
            requires
                a.secs < b.secs,
        ;
    } else if b.secs < a.secs {
        assert(b.secs * 1_000_000_000 + 1_000_000_000 <= a.secs * 1_000_000_000) by (nonlinear_arith)
            requires
                b.secs < a.secs,
        ;
    }
}

} // verus!
