//! Threat-intel ingestion for the lab's technique queue: structured
//! technique references from allowlisted sources only, and the synthetic
//! proving technique, which is deliberately not threat intel at all.
use vstd::prelude::*;

use crate::scope::{listed, list_contains, ScopeConfig};
use crate::text::{chars_of, is_space, is_space_char, push_range, string_of};

verus! {

/// The fixed content the synthetic proving technique writes.
pub const MARKER_CONTENT: &'static str = "synthetic-proving-technique-executed";

/// The synthetic proving technique's ID; deliberately not a real ATT&CK
/// ID.
pub const SYNTHETIC_TECHNIQUE_ID: &'static str = "SYNTH-0001";

/// The `source` of the synthetic proving technique.
pub const SYNTHETIC_SOURCE: &'static str = "synthetic-proving";

/// The `source` of every ingested Atomic Red Team test.
pub const ATOMIC_RED_TEAM_SOURCE: &'static str = "atomic-red-team";

/// One ingested, ready-to-queue atomic test. The queue key is `guid`,
/// since one technique file holds several tests.
#[derive(Debug, PartialEq, Eq)]
pub struct Technique {
    /// ATT&CK technique ID, e.g. "T1059".
    pub id: String,
    /// The atomic test's own stable identifier.
    pub guid: String,
    pub name: String,
    pub description: String,
    pub source: String,
    /// The exact, unmodified command text, never rewritten.
    pub test_command: String,
    /// The first supported platform, e.g. "windows".
    pub platform: String,
}

impl Clone for Technique {
    fn clone(&self) -> (r: Self)
        ensures
            r == *self,
    {
        Technique {
            id: self.id.clone(),
            guid: self.guid.clone(),
            name: self.name.clone(),
            description: self.description.clone(),
            source: self.source.clone(),
            test_command: self.test_command.clone(),
            platform: self.platform.clone(),
        }
    }
}

/// Builds the synthetic proving technique. It is NOT a real attack
/// technique: it exists only to prove the execution-and-capture path end
/// to end, by writing [`MARKER_CONTENT`] into the lab's declared target
/// directory. Its `test_command` is descriptive metadata, never shell
/// text.
pub fn synthetic_proving_technique() -> (t: Technique)
    ensures
        t.id@ == SYNTHETIC_TECHNIQUE_ID@,
        t.guid@ == "synthetic-proving-marker-write"@,
        t.name@ == "Synthetic Proving Technique — Marker File Write"@,
        t.description@ == "NOT a real attack technique. Exists solely to prove the attacker->sandbox execution-and-capture mechanism works end to end. Writes a fixed marker string to a file inside the declared lab target directory."@,
        t.source@ == SYNTHETIC_SOURCE@,
        t.test_command@ == "(synthetic, not literal shell text) write marker \"synthetic-proving-technique-executed\""@,
        t.platform@ == "wasm"@,
{
    Technique {
        id: String::from_str(SYNTHETIC_TECHNIQUE_ID),
        guid: String::from_str("synthetic-proving-marker-write"),
        name: String::from_str("Synthetic Proving Technique — Marker File Write"),
        description: String::from_str(
            "NOT a real attack technique. Exists solely to prove the attacker->sandbox execution-and-capture mechanism works end to end. Writes a fixed marker string to a file inside the declared lab target directory.",
        ),
        source: String::from_str(SYNTHETIC_SOURCE),
        test_command: String::from_str(
            "(synthetic, not literal shell text) write marker \"synthetic-proving-technique-executed\"",
        ),
        platform: String::from_str("wasm"),
    }
}

/// `s` without leading whitespace.
pub open spec fn trim_start(s: Seq<char>) -> Seq<char>
    decreases s.len(),
{
    if s.len() > 0 && is_space(s[0]) {
        trim_start(s.drop_first())
    } else {
        s
    }
}

/// `s` without trailing whitespace.
pub open spec fn trim_end(s: Seq<char>) -> Seq<char>
    decreases s.len(),
{
    if s.len() > 0 && is_space(s.last()) {
        trim_end(s.drop_last())
    } else {
        s
    }
}

/// `s` without leading and trailing Unicode whitespace.
pub open spec fn trim(s: Seq<char>) -> Seq<char> {
    trim_end(trim_start(s))
}

/// `s` without leading and trailing Unicode whitespace.
pub fn trim_text(s: &str) -> (r: String)
    ensures
        r@ == trim(s@),
{
    let cs = chars_of(s);
    let mut a: usize = 0;
    assert(cs@.skip(0) =~= cs@);
    while a < cs.len() && is_space_char(cs[a])
        invariant
            a <= cs.len(),
            trim_start(cs@) == trim_start(cs@.skip(a as int)),
        decreases cs.len() - a,
    {
        assert(cs@.skip(a as int).drop_first() =~= cs@.skip(a + 1));
        a += 1;
    }
    let mut b: usize = cs.len();
    let ghost front = cs@.skip(a as int);
    assert(front.len() == 0 || !is_space(front[0]));
    assert(trim_start(cs@) == front);
    assert(cs@.subrange(a as int, b as int) =~= front);
    while b > a && is_space_char(cs[b - 1])
        invariant
            a <= b <= cs.len(),
            front == cs@.skip(a as int),
            trim_end(front) == trim_end(cs@.subrange(a as int, b as int)),
        decreases b - a,
    {
        assert(cs@.subrange(a as int, b as int).drop_last() =~= cs@.subrange(a as int, b - 1));
        b -= 1;
    }
    let mut out: Vec<char> = Vec::new();
    push_range(&mut out, &cs, a, b);
    assert(out@ =~= cs@.subrange(a as int, b as int));
    string_of(&out)
}

/// One parsed atomic test: the fields of an `atomic_tests` entry that
/// ingestion reads. `command` is the executor's command, absent for a
/// manual-only test.
#[derive(Debug, Clone, PartialEq, Eq)]
pub struct AtomicTest {
    pub name: String,
    pub auto_generated_guid: String,
    pub description: String,
    pub supported_platforms: Vec<String>,
    pub command: Option<String>,
}

/// The technique an atomic test of `attack_technique` becomes, if it has a
/// runnable command: the command verbatim, the description trimmed, the
/// first supported platform (empty if none).
pub open spec fn technique_of(t: Technique, attack_technique: Seq<char>, a: AtomicTest) -> bool {
    &&& a.command matches Some(c) && t.test_command@ == c@
    &&& t.id@ == attack_technique
    &&& t.guid@ == a.auto_generated_guid@
    &&& t.name@ == a.name@
    &&& t.description@ == trim(a.description@)
    &&& t.source@ == ATOMIC_RED_TEAM_SOURCE@
    &&& t.platform@ == if a.supported_platforms@.len() > 0 {
        a.supported_platforms@[0]@
    } else {
        Seq::empty()
    }
}

/// Nothing ingested can pass for the synthetic proving technique: every
/// technique made from an atomic test carries the Atomic Red Team source,
/// which differs from the synthetic source.
pub proof fn law_ingested_techniques_are_never_synthetic(t: Technique, attack_technique: Seq<char>, a: AtomicTest)
    requires
        technique_of(t, attack_technique, a),
    ensures
        t.source@ != SYNTHETIC_SOURCE@,
{
    reveal_strlit("atomic-red-team");
    reveal_strlit("synthetic-proving");
    assert(ATOMIC_RED_TEAM_SOURCE@.len() != SYNTHETIC_SOURCE@.len());
}

/// The atomic tests that have a runnable command, in order.
pub open spec fn runnable(tests: Seq<AtomicTest>) -> Seq<AtomicTest> {
    tests.filter(|a: AtomicTest| a.command is Some)
}

/// Outcome of fetching one declared category's atomics definition.
/// `not_found_upstream` says the category has no top-level definition,
/// an honest negative result rather than an error.
#[derive(Debug, Clone, PartialEq, Eq)]
pub struct FetchOutcome {
    pub category: String,
    pub techniques: Vec<Technique>,
    pub not_found_upstream: bool,
}

/// The outcome for a category with no top-level definition upstream.
pub fn not_found_outcome(category: &str) -> (o: FetchOutcome)
    ensures
        o.category@ == category@,
        o.techniques@.len() == 0,
        o.not_found_upstream,
{
    FetchOutcome { category: String::from_str(category), techniques: Vec::new(), not_found_upstream: true }
}

/// The techniques of a parsed atomics file of `attack_technique`: one per
/// test with a runnable command, in order; tests without one are skipped.
pub fn techniques_from_atomics(attack_technique: &str, tests: &Vec<AtomicTest>) -> (out: Vec<Technique>)
    ensures
        out@.len() == runnable(tests@).len(),
        forall|i: int|
            0 <= i < out@.len() ==> technique_of(#[trigger] out@[i], attack_technique@, runnable(tests@)[i]),
{
    let mut out: Vec<Technique> = Vec::new();
    let mut i: usize = 0;
    assert(tests@.take(0).filter(|a: AtomicTest| a.command is Some) =~= Seq::<AtomicTest>::empty());
    while i < tests.len()
        invariant
            i <= tests.len(),
            out@.len() == runnable(tests@.take(i as int)).len(),
            forall|k: int|
                0 <= k < out@.len() ==> technique_of(
                    #[trigger] out@[k],
                    attack_technique@,
                    runnable(tests@.take(i as int))[k],
                ),
        decreases tests.len() - i,
    {
        let t = &tests[i];
        assert(tests@.take(i + 1).drop_last() =~= tests@.take(i as int));
        assert(tests@.take(i + 1).last() == tests@[i as int]);
        let ghost pre = runnable(tests@.take(i as int));
        reveal_with_fuel(Seq::filter, 1);
        match &t.command {
            Some(command) => {
                let platform = if t.supported_platforms.len() > 0 {
                    t.supported_platforms[0].clone()
                } else {
                    String::new()
                };
                let technique = Technique {
                    id: String::from_str(attack_technique),
                    guid: t.auto_generated_guid.clone(),
                    name: t.name.clone(),
                    description: trim_text(t.description.as_str()),
                    source: String::from_str(ATOMIC_RED_TEAM_SOURCE),
                    test_command: command.clone(),
                    platform,
                };
                out.push(technique);
                assert(runnable(tests@.take(i + 1)) == pre.push(tests@[i as int]));
            },
            None => {
                assert(runnable(tests@.take(i + 1)) == pre);
            },
        }
        i += 1;
    }
    assert(tests@.take(tests.len() as int) =~= tests@);
    out
}

/// The outcome for a category whose atomics file was found and parsed.
pub fn found_outcome(category: &str, attack_technique: &str, tests: &Vec<AtomicTest>) -> (o: FetchOutcome)
    ensures
        o.category@ == category@,
        !o.not_found_upstream,
        o.techniques@.len() == runnable(tests@).len(),
        forall|i: int|
            0 <= i < o.techniques@.len() ==> technique_of(
                #[trigger] o.techniques@[i],
                attack_technique@,
                runnable(tests@)[i],
            ),
{
    FetchOutcome {
        category: String::from_str(category),
        techniques: techniques_from_atomics(attack_technique, tests),
        not_found_upstream: false,
    }
}

/// Full result of one ingestion run, explicit about what was skipped and
/// why: an excluded or not-found category is a fact to report, not an
/// error.
#[derive(Debug, Clone, PartialEq, Eq)]
pub struct IngestReport {
    pub ingested: Vec<Technique>,
    /// Allowed categories that are also excluded: never fetched.
    pub excluded_by_scope: Vec<String>,
    /// Allowed, non-excluded categories with no definition upstream.
    pub not_found_upstream: Vec<String>,
}

impl IngestReport {
    /// An empty report.
    pub fn new() -> (r: IngestReport)
        ensures
            r.ingested@.len() == 0,
            r.excluded_by_scope@.len() == 0,
            r.not_found_upstream@.len() == 0,
    {
        IngestReport { ingested: Vec::new(), excluded_by_scope: Vec::new(), not_found_upstream: Vec::new() }
    }

    /// Records what fetching `category` found: nothing found (or no
    /// runnable test) is an honest negative result; otherwise every
    /// technique is ingested, and returned for the queue.
    pub fn record_fetch(&mut self, category: &str, outcome: FetchOutcome) -> (queued: Vec<Technique>)
        ensures
            if outcome.not_found_upstream || outcome.techniques@.len() == 0 {
                &&& final(self).not_found_upstream@.len() == old(self).not_found_upstream@.len() + 1
                &&& final(self).not_found_upstream@.last()@ == category@
                &&& final(self).not_found_upstream@.drop_last() == old(self).not_found_upstream@
                &&& final(self).ingested@ == old(self).ingested@
                &&& queued@.len() == 0
            } else {
                &&& final(self).ingested@ == old(self).ingested@ + outcome.techniques@
                &&& final(self).not_found_upstream@ == old(self).not_found_upstream@
                &&& queued@ == outcome.techniques@
            },
            final(self).excluded_by_scope@ == old(self).excluded_by_scope@,
    {
        if outcome.not_found_upstream || outcome.techniques.len() == 0 {
            self.not_found_upstream.push(String::from_str(category));
            return Vec::new();
        }
        let mut i: usize = 0;
        while i < outcome.techniques.len()
            invariant
                i <= outcome.techniques.len(),
                self.ingested@ == old(self).ingested@ + outcome.techniques@.take(i as int),
                self.not_found_upstream@ == old(self).not_found_upstream@,
                self.excluded_by_scope@ == old(self).excluded_by_scope@,
            decreases outcome.techniques.len() - i,
        {
            let ghost before = self.ingested@;
            self.ingested.push(outcome.techniques[i].clone());
            assert(self.ingested@ =~= before.push(outcome.techniques@[i as int]));
            assert(outcome.techniques@.take(i + 1) =~= outcome.techniques@.take(i as int).push(
                outcome.techniques@[i as int],
            ));
            i += 1;
        }
        assert(outcome.techniques@.take(i as int) =~= outcome.techniques@);
        assert(self.ingested@ =~= old(self).ingested@ + outcome.techniques@);
        outcome.techniques
    }

    /// Records a category skipped because it is excluded.
    pub fn record_excluded(&mut self, category: &str)
        ensures
            final(self).excluded_by_scope@.len() == old(self).excluded_by_scope@.len() + 1,
            final(self).excluded_by_scope@.last()@ == category@,
            final(self).excluded_by_scope@.drop_last() == old(self).excluded_by_scope@,
            final(self).ingested@ == old(self).ingested@,
            final(self).not_found_upstream@ == old(self).not_found_upstream@,
    {
        self.excluded_by_scope.push(String::from_str(category));
        assert(self.excluded_by_scope@.drop_last() =~= old(self).excluded_by_scope@);
    }
}

/// Ingestion may run only if Atomic Red Team is an allowed source.
pub fn ingest_allowed(scope: &ScopeConfig) -> (r: Result<(), String>)
    ensures
        r is Ok == listed(scope.techniques.allowed_sources@, ATOMIC_RED_TEAM_SOURCE@),
        r matches Err(e) ==> e@
            == "atomic-red-team is not in lab/scope.toml's [techniques].allowed_sources — refusing to ingest"@,
{
    if scope.allows_source(ATOMIC_RED_TEAM_SOURCE) {
        Ok(())
    } else {
        Err(
            String::from_str(
                "atomic-red-team is not in lab/scope.toml's [techniques].allowed_sources — refusing to ingest",
            ),
        )
    }
}

/// Whether an allowed category is skipped for being excluded; exclusions
/// always win, and an excluded category is never fetched.
pub fn is_excluded(scope: &ScopeConfig, category: &str) -> (r: bool)
    ensures
        r == listed(scope.exclusions.technique_categories@, category@),
{
    list_contains(&scope.exclusions.technique_categories, category)
}

/// An ingested technique carries its atomic test's identity: its name is
/// the test's name and its guid the test's guid, whatever the test's
/// description; its command is the test's command verbatim, its id the
/// technique being ingested, and its source Atomic Red Team.
pub proof fn law_ingested_technique_keeps_its_test_identity(t: Technique, attack_technique: Seq<char>, a: AtomicTest)
    requires
        technique_of(t, attack_technique, a),
    ensures
        t.name@ == a.name@,
        t.guid@ == a.auto_generated_guid@,
        t.id@ == attack_technique,
        a.command is Some && t.test_command@ == a.command->0@,
        t.source@ == "atomic-red-team"@,
{
}

} // verus!
