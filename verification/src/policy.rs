//! Policies: named rule sets gating advancement or continued deployment
//! of a release, and the vulnerability findings they are evaluated
//! against.

use vstd::prelude::*;
use crate::env::fresh_id;

verus! {

/// Severity of a vulnerability finding, ordered
/// Low < Medium < High < Critical.
#[derive(Debug, Clone, Copy, PartialEq, Eq, PartialOrd, Ord, Structural)]
pub enum VulnerabilityLevel {
    Low,
    Medium,
    High,
    Critical,
}

impl VulnerabilityLevel {
    /// Numeric rank of this severity: Low 0, Medium 1, High 2, Critical 3.
    /// Severities compare by rank.
    pub open spec fn rank(self) -> int {
        match self {
            VulnerabilityLevel::Low => 0,
            VulnerabilityLevel::Medium => 1,
            VulnerabilityLevel::High => 2,
            VulnerabilityLevel::Critical => 3,
        }
    }

    /// Whether this severity is at least `other`.
    pub fn at_least(self, other: VulnerabilityLevel) -> (r: bool)
        ensures
            r == (self.rank() >= other.rank()),
    {
        let a: u32 = match self {
            VulnerabilityLevel::Low => 0,
            VulnerabilityLevel::Medium => 1,
            VulnerabilityLevel::High => 2,
            VulnerabilityLevel::Critical => 3,
        };
        let b: u32 = match other {
            VulnerabilityLevel::Low => 0,
            VulnerabilityLevel::Medium => 1,
            VulnerabilityLevel::High => 2,
            VulnerabilityLevel::Critical => 3,
        };
        a >= b
    }
}

/// A discovered security finding, attached to the runtime evidence of a
/// deployed release.  `discovered_at` is seconds since the Unix epoch.
#[derive(Debug, Clone, PartialEq)]
pub struct Vulnerability {
    pub id: String,
    pub severity: VulnerabilityLevel,
    pub description: String,
    pub discovered_at: i64,
}

/// One evaluable policy condition.
///
/// `MaxAge` bounds the age of an attestation, in seconds.
/// `ApprovedIdentities` requires a signature from one of the named
/// signers.  `RequiredClaims` names claims an attestation must carry
/// (recorded but not evaluated by either evaluation context).
/// `VulnerabilityThreshold(level, max_count)` bounds how many findings of
/// severity at least `level` a deployed release may carry.
#[derive(Debug, Clone, PartialEq)]
pub enum PolicyRule {
    MaxAge(u64),
    ApprovedIdentities(Vec<String>),
    RequiredClaims(Vec<(String, String)>),
    VulnerabilityThreshold(VulnerabilityLevel, u32),
}

/// A named, ordered rule set, the phases it applies to, and the policies
/// it inherits from.  Parent policies are declared by id but not walked
/// during evaluation.
#[derive(Debug, Clone, PartialEq)]
pub struct Policy {
    pub id: String,
    pub name: String,
    pub rules: Vec<PolicyRule>,
    pub parent_policies: Vec<String>,
    pub applies_to: Vec<String>,
}

impl Policy {
    /// A new policy with a fresh identifier, no rules and no parents.
    pub fn new(name: String, applies_to: Vec<String>) -> (r: Policy)
        ensures
            r.name == name,
            r.rules@ =~= Seq::<PolicyRule>::empty(),
            r.parent_policies@ =~= Seq::<String>::empty(),
            r.applies_to == applies_to,
    {
        Policy {
            id: fresh_id(),
            name,
            rules: Vec::new(),
            parent_policies: Vec::new(),
            applies_to,
        }
    }

    /// Appends a rule; existing rules and everything else are kept.
    pub fn add_rule(&mut self, rule: PolicyRule)
        ensures
            final(self).rules@ == old(self).rules@.push(rule),
            final(self).id == old(self).id,
            final(self).name == old(self).name,
            final(self).parent_policies == old(self).parent_policies,
            final(self).applies_to == old(self).applies_to,
    {
        self.rules.push(rule);
    }

    /// Whether this policy applies to the phase with the given name.
    pub fn applies_to_phase(&self, phase_name: &str) -> (r: bool)
        ensures
            r == exists|i: int|
                0 <= i < self.applies_to@.len() && self.applies_to@[i]@ == phase_name@,
    {
        let mut i: usize = 0;
        while i < self.applies_to.len()
            invariant
                0 <= i <= self.applies_to@.len(),
                forall|j: int| 0 <= j < i ==> self.applies_to@[j]@ != phase_name@,
            decreases self.applies_to@.len() - i,
        {
            if crate::env::str_eq(self.applies_to[i].as_str(), phase_name) {
                return true;
            }
            i = i + 1;
        }
        false
    }
}

} // verus!
