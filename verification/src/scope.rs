//! The declared lab boundary that every lab capability grant is derived
//! from: the environment, the allowed techniques and sources, the
//! exclusions, and an optional validity window.
use vstd::prelude::*;

use crate::audit::{not_after, Timestamp};
use crate::text::same_text;

verus! {

/// The whole declared scope.
#[derive(Debug, Clone)]
pub struct ScopeConfig {
    pub environment: Environment,
    pub techniques: Techniques,
    pub exclusions: Exclusions,
    /// `None` means open-ended.
    pub validity: Option<Validity>,
}

/// The lab environment.
#[derive(Debug, Clone)]
pub struct Environment {
    pub name: String,
    /// `None` when the environment has no cloud account at all.
    pub account: Option<Account>,
    /// `None` when there is no network boundary to declare.
    pub network: Option<Network>,
    pub targets: Vec<Target>,
}

#[derive(Debug, Clone)]
pub struct Account {
    pub provider: String,
    pub account_id: String,
    pub region: String,
}

#[derive(Debug, Clone)]
pub struct Network {
    pub vpc_id: String,
    pub allowed_cidrs: Vec<String>,
}

/// One declared target; `kind` is its declared `type`.
#[derive(Debug, Clone)]
pub struct Target {
    pub id: String,
    pub kind: String,
    pub identifier: String,
    pub description: String,
}

#[derive(Debug, Clone)]
pub struct Techniques {
    pub allowed_categories: Vec<String>,
    pub allowed_sources: Vec<String>,
}

#[derive(Debug, Clone)]
pub struct Exclusions {
    pub technique_categories: Vec<String>,
    pub targets: Vec<String>,
    pub notes: String,
}

impl Default for Exclusions {
    fn default() -> (e: Exclusions)
        ensures
            e.technique_categories@.len() == 0,
            e.targets@.len() == 0,
            e.notes@.len() == 0,
    {
        Exclusions { technique_categories: Vec::new(), targets: Vec::new(), notes: String::new() }
    }
}

/// The window within which the scope is in force, both ends included.
#[derive(Debug, Clone, Copy)]
pub struct Validity {
    pub starts_at: Timestamp,
    pub ends_at: Timestamp,
}

/// `s` is one of the texts in `v`.
pub open spec fn listed(v: Seq<String>, s: Seq<char>) -> bool {
    exists|i: int| 0 <= i < v.len() && (#[trigger] v[i])@ == s
}

/// Whether `s` is one of the texts in `v`.
pub fn list_contains(v: &Vec<String>, s: &str) -> (r: bool)
    ensures
        r == listed(v@, s@),
{
    let mut i: usize = 0;
    while i < v.len()
        invariant
            i <= v.len(),
            forall|j: int| 0 <= j < i ==> (#[trigger] v@[j])@ != s@,
        decreases v.len() - i,
    {
        if same_text(v[i].as_str(), s) {
            return true;
        }
        i += 1;
    }
    false
}

/// The category is allowed and not excluded: exclusions always win.
pub open spec fn category_in_scope(scope: ScopeConfig, category: Seq<char>) -> bool {
    listed(scope.techniques.allowed_categories@, category) && !listed(
        scope.exclusions.technique_categories@,
        category,
    )
}

/// `now` lies within the validity window, or there is none.
pub open spec fn in_window(scope: ScopeConfig, now: Timestamp) -> bool {
    match scope.validity {
        None => true,
        Some(v) => not_after(v.starts_at, now) && not_after(now, v.ends_at),
    }
}

impl ScopeConfig {
    /// A category is in scope only if it is both declared allowed and not
    /// explicitly excluded.
    pub fn allows_category(&self, category: &str) -> (r: bool)
        ensures
            r == category_in_scope(*self, category@),
    {
        list_contains(&self.techniques.allowed_categories, category) && !list_contains(
            &self.exclusions.technique_categories,
            category,
        )
    }

    /// Whether `source` is a declared allowed source.
    pub fn allows_source(&self, source: &str) -> (r: bool)
        ensures
            r == listed(self.techniques.allowed_sources@, source@),
    {
        list_contains(&self.techniques.allowed_sources, source)
    }

    /// Whether `now` lies within the validity window (always, for an
    /// open-ended scope).
    pub fn is_temporally_valid(&self, now: Timestamp) -> (r: bool)
        ensures
            r == in_window(*self, now),
    {
        match &self.validity {
            None => true,
            Some(v) => v.starts_at.is_not_after(&now) && now.is_not_after(&v.ends_at),
        }
    }
}

/// Any time in a second strictly between the window's ends lies inside
/// the window, whatever its nanoseconds; any time in a second before the
/// start or after the end lies outside it.
pub proof fn law_window_is_decided_by_time(scope: ScopeConfig, now: Timestamp)
    requires
        scope.validity is Some,
    ensures
        scope.validity->0.starts_at.secs < now.secs < scope.validity->0.ends_at.secs ==> in_window(scope, now),
        now.secs < scope.validity->0.starts_at.secs ==> !in_window(scope, now),
        now.secs > scope.validity->0.ends_at.secs ==> !in_window(scope, now),
{
}

} // verus!
