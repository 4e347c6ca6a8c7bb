//! The lab's capability broker: the entire grant decision for one
//! technique category, from data checks against the declared scope.
use vstd::prelude::*;

use crate::audit::Timestamp;
use crate::decision::{CapabilityDecision, DecisionView};
use crate::gate_policy::{outcome_view, path_starts_with, path_starts_with_exec};
use crate::scope::{category_in_scope, in_window, listed, list_contains, ScopeConfig, Target};
use crate::text::{push_str, same_text, string_of};

verus! {

/// The text `chrono` displays for a UTC point in time, e.g.
/// `2025-01-01 00:00:00 UTC`.
pub uninterp spec fn time_display(secs: i64, nanos: u32) -> Seq<char>;

/// Displays `t` as a UTC date and time, through `chrono`'s `Display` for
/// `DateTime<Utc>`; a point outside `chrono`'s range displays as the empty
/// text.
#[verifier::external_body]
pub fn timestamp_text(t: Timestamp) -> (r: String)
    ensures
        r@ == time_display(t.secs, t.nanos),
{
    match chrono::DateTime::<chrono::Utc>::from_timestamp(t.secs, t.nanos) {
        Some(dt) => dt.to_string(),
        None => String::new(),
    }
}

/// Where an attempt's target path resolves, next to where the scope's
/// declared targets resolve. Resolving reads the filesystem, so the
/// caller resolves and hands the outcomes in (canonical, symlink-free
/// paths, or the resolution error's text). `declared` runs parallel to the
/// scope's `[[environment.targets]]`: entry `i` is the resolved
/// `<workspace root>/<identifier>` of target `i`; entries for targets that
/// are not `local-directory` ones are never consulted.
#[derive(Debug, PartialEq, Eq)]
pub struct TargetResolution {
    /// The target path as the attempt gives it.
    pub path: String,
    pub resolved: Result<String, String>,
    pub declared: Vec<Result<String, String>>,
}

/// The resolved target lies at or under the resolved directory of some
/// declared `local-directory` target.
pub open spec fn inside_declared_target(
    targets: Seq<Target>,
    declared: Seq<Result<Seq<char>, Seq<char>>>,
    resolved: Seq<char>,
) -> bool {
    exists|i: int|
        0 <= i < targets.len() && i < declared.len() && holds_target(#[trigger] targets[i], declared[i], resolved)
}

/// `resolved` lies inside declared target `t`, whose directory resolved
/// as `d`: `t` is a `local-directory` target and `d` resolved.
pub open spec fn holds_target(t: Target, d: Result<Seq<char>, Seq<char>>, resolved: Seq<char>) -> bool {
    &&& t.kind@ == "local-directory"@
    &&& match d {
        Ok(dir) => path_starts_with(resolved, dir),
        Err(_) => false,
    }
}

/// The declared targets' resolutions as characters.
pub open spec fn declared_view(declared: Seq<Result<String, String>>) -> Seq<Result<Seq<char>, Seq<char>>> {
    declared.map_values(|r: Result<String, String>| outcome_view(r))
}

/// The path-containment check of an attempt's target: it must resolve,
/// and inside a declared `local-directory` target; `None` when it passes.
pub open spec fn target_denial(scope: ScopeConfig, t: TargetResolution) -> Option<Seq<char>> {
    match outcome_view(t.resolved) {
        Err(e) => Some("target path "@ + t.path@ + " could not be resolved: "@ + e),
        Ok(r) => if inside_declared_target(scope.environment.targets@, declared_view(t.declared@), r) {
            None
        } else {
            Some(
                "target path "@ + t.path@ + " resolves to "@ + r
                    + " which is outside every declared local-directory target in lab/scope.toml's [[environment.targets]]"@,
            )
        },
    }
}

/// The broker's decision: outside the validity window everything is
/// denied; then an excluded category is denied; then a category not
/// declared allowed is denied; then an attempt whose target path does not
/// resolve inside a declared `local-directory` target is denied;
/// everything else is granted. The order only decides which reason is
/// reported.
pub open spec fn broker_decision(
    scope: ScopeConfig,
    category: Seq<char>,
    target: Option<TargetResolution>,
    now: Timestamp,
) -> DecisionView {
    if !in_window(scope, now) {
        DecisionView::Denied(
            "lab scope validity window does not cover "@ + time_display(now.secs, now.nanos)
                + " — the scope is expired, not yet active, or (per lab/scope.toml's header) still an unpopulated placeholder"@,
        )
    } else if listed(scope.exclusions.technique_categories@, category) {
        DecisionView::Denied(
            "category "@ + category + " is explicitly excluded in lab/scope.toml's [exclusions]"@,
        )
    } else if !listed(scope.techniques.allowed_categories@, category) {
        DecisionView::Denied(
            "category "@ + category
                + " is not listed in lab/scope.toml's [techniques].allowed_categories"@,
        )
    } else {
        match target {
            Some(t) => match target_denial(scope, t) {
                Some(reason) => DecisionView::Denied(reason),
                None => DecisionView::Granted,
            },
            None => DecisionView::Granted,
        }
    }
}

/// The broker grants exactly the categories that are declared allowed and
/// not excluded, only inside the validity window, and only for an attempt
/// whose target path (if it has one) resolves inside a declared
/// `local-directory` target: an excluded category is never granted
/// whatever the allow list says, outside the window nothing is, and no
/// target outside the declared directories is.
pub proof fn law_broker_grants_only_in_scope_and_in_window(
    scope: ScopeConfig,
    category: Seq<char>,
    target: Option<TargetResolution>,
    now: Timestamp,
)
    ensures
        broker_decision(scope, category, target, now) is Granted <==> {
            &&& in_window(scope, now)
            &&& category_in_scope(scope, category)
            &&& target matches Some(t) ==> (outcome_view(t.resolved) matches Ok(r)
                && inside_declared_target(scope.environment.targets@, declared_view(t.declared@), r))
        },
{
}

/// Whether `resolved` lies inside a declared `local-directory` target.
fn inside_declared(scope: &ScopeConfig, declared: &Vec<Result<String, String>>, resolved: &str) -> (r: bool)
    ensures
        r == inside_declared_target(scope.environment.targets@, declared_view(declared@), resolved@),
{
    let targets = &scope.environment.targets;
    let ghost dv = declared_view(declared@);
    let mut i: usize = 0;
    while i < targets.len() && i < declared.len()
        invariant
            i <= targets.len(),
            i <= declared.len(),
            dv == declared_view(declared@),
            targets@ == scope.environment.targets@,
            forall|j: int|
                0 <= j < i ==> !holds_target(#[trigger] targets@[j], dv[j], resolved@),
        decreases targets.len() - i,
    {
        assert(dv[i as int] == outcome_view(declared@[i as int]));
        if same_text(targets[i].kind.as_str(), "local-directory") {
            if let Ok(d) = &declared[i] {
                if path_starts_with_exec(resolved, d.as_str()) {
                    return true;
                }
            }
        }
        i += 1;
    }
    false
}

/// The containment check of an attempt's target, with its denial reason.
fn check_target(scope: &ScopeConfig, t: &TargetResolution) -> (r: Option<String>)
    ensures
        match target_denial(*scope, *t) {
            Some(reason) => r matches Some(x) && x@ == reason,
            None => r is None,
        },
{
    let mut out: Vec<char> = Vec::new();
    match &t.resolved {
        Err(e) => {
            push_str(&mut out, "target path ");
            push_str(&mut out, t.path.as_str());
            push_str(&mut out, " could not be resolved: ");
            push_str(&mut out, e.as_str());
            Some(string_of(&out))
        },
        Ok(r) => {
            if inside_declared(scope, &t.declared, r.as_str()) {
                None
            } else {
                push_str(&mut out, "target path ");
                push_str(&mut out, t.path.as_str());
                push_str(&mut out, " resolves to ");
                push_str(&mut out, r.as_str());
                push_str(
                    &mut out,
                    " which is outside every declared local-directory target in lab/scope.toml's [[environment.targets]]",
                );
                Some(string_of(&out))
            }
        },
    }
}

/// Deterministic capability evaluation of one technique category against
/// the declared scope at time `now`, for an attempt aimed at `target` (if
/// any).
pub fn evaluate(scope: &ScopeConfig, category: &str, target: Option<&TargetResolution>, now: Timestamp) -> (d:
    CapabilityDecision)
    ensures
        d@ == broker_decision(
            *scope,
            category@,
            match target {
                Some(t) => Some(*t),
                None => None,
            },
            now,
        ),
{
    let mut out: Vec<char> = Vec::new();
    if !scope.is_temporally_valid(now) {
        push_str(&mut out, "lab scope validity window does not cover ");
        let shown = timestamp_text(now);
        push_str(&mut out, shown.as_str());
        push_str(
            &mut out,
            " — the scope is expired, not yet active, or (per lab/scope.toml's header) still an unpopulated placeholder",
        );
        return CapabilityDecision::Denied { reason: string_of(&out) };
    }
    if list_contains(&scope.exclusions.technique_categories, category) {
        push_str(&mut out, "category ");
        push_str(&mut out, category);
        push_str(&mut out, " is explicitly excluded in lab/scope.toml's [exclusions]");
        return CapabilityDecision::Denied { reason: string_of(&out) };
    }
    if !list_contains(&scope.techniques.allowed_categories, category) {
        push_str(&mut out, "category ");
        push_str(&mut out, category);
        push_str(&mut out, " is not listed in lab/scope.toml's [techniques].allowed_categories");
        return CapabilityDecision::Denied { reason: string_of(&out) };
    }
    if let Some(t) = target {
        if let Some(reason) = check_target(scope, t) {
            return CapabilityDecision::Denied { reason };
        }
    }
    CapabilityDecision::Granted
}

} // verus!
