//! The policy evaluator: decides whether evidence satisfies a policy.
//!
//! Two contexts exist.  Before a release advances, a policy is evaluated
//! against an attestation: every rule must hold, where `MaxAge` bounds
//! the attestation's age and `ApprovedIdentities` requires a signature
//! from an approved signer; rule kinds that are not meaningful against
//! an attestation pass vacuously.  While a release is deployed, a policy
//! is evaluated against the release itself: `VulnerabilityThreshold`
//! bounds the findings attached to the runtime evidence, a release
//! outside Deployed status fails unconditionally, and absent runtime
//! evidence passes.  Rule combination is strict conjunction.
//!
//! Evaluation is advisory: it never mutates lifecycle state, and a
//! caller chooses whether to invoke a transition on its verdict.

use vstd::prelude::*;
use crate::attestation::{Attestation, Signature};
use crate::env::{fresh_id, now_timestamp, str_eq};
use crate::phase::{PhaseDetails, RuntimeDetails};
use crate::policy::{Policy, PolicyRule, Vulnerability, VulnerabilityLevel};
use crate::sdlc_release::SDLCRelease;

verus! {

/// Whether `signer` is one of the approved identities.
pub open spec fn approved_contains(approved: Seq<String>, signer: Seq<char>) -> bool {
    exists|j: int| 0 <= j < approved.len() && approved[j]@ == signer
}

/// Whether at least one signature was made by an approved identity.
pub open spec fn has_approved_signer(approved: Seq<String>, sigs: Seq<Signature>) -> bool {
    exists|i: int| 0 <= i < sigs.len() && approved_contains(approved, sigs[i].signer@)
}

/// Whether one rule holds of an attestation at time `now` (seconds since
/// the Unix epoch).  `RequiredClaims` and `VulnerabilityThreshold` are
/// not meaningful against an attestation and hold vacuously.
pub open spec fn attestation_rule_passes(rule: PolicyRule, att: Attestation, now: int) -> bool {
    match rule {
        PolicyRule::MaxAge(max_age) => now - att.timestamp <= max_age,
        PolicyRule::ApprovedIdentities(approved) => has_approved_signer(
            approved@,
            att.signatures@,
        ),
        PolicyRule::RequiredClaims(..) => true,
        PolicyRule::VulnerabilityThreshold(..) => true,
    }
}

/// Whether every rule of a policy holds of an attestation at time `now`.
pub open spec fn attestation_passes(policy: Policy, att: Attestation, now: int) -> bool {
    forall|i: int|
        0 <= i < policy.rules@.len() ==> attestation_rule_passes(
            #[trigger] policy.rules@[i],
            att,
            now,
        )
}

/// How many findings have severity at least `level`.
pub open spec fn count_at_least(vulns: Seq<Vulnerability>, level: VulnerabilityLevel) -> nat
    decreases vulns.len(),
{
    if vulns.len() == 0 {
        0
    } else {
        count_at_least(vulns.drop_last(), level) + if vulns.last().severity.rank()
            >= level.rank() {
            1nat
        } else {
            0nat
        }
    }
}

/// The findings attached to a release's runtime evidence, if any.
pub open spec fn runtime_vulnerabilities(r: SDLCRelease) -> Option<Seq<Vulnerability>> {
    match r.phase_details {
        Some(d) => match d.runtime_details {
            Some(rd) => Some(rd.vulnerabilities@),
            None => None,
        },
        None => None,
    }
}

/// Whether one rule holds of a deployed release.  Only
/// `VulnerabilityThreshold` is meaningful here; it passes when no
/// runtime evidence is attached yet.
pub open spec fn runtime_rule_passes(rule: PolicyRule, r: SDLCRelease) -> bool {
    match rule {
        PolicyRule::VulnerabilityThreshold(level, max_count) => match runtime_vulnerabilities(r) {
            Some(vulns) => count_at_least(vulns, level) <= max_count,
            None => true,
        },
        PolicyRule::MaxAge(..) => true,
        PolicyRule::ApprovedIdentities(..) => true,
        PolicyRule::RequiredClaims(..) => true,
    }
}

/// Whether a release passes a policy's runtime check: it must be in
/// Deployed status and every rule must hold of it.
pub open spec fn release_passes_runtime(policy: Policy, r: SDLCRelease) -> bool {
    &&& r.state is Deployed
    &&& forall|i: int|
        0 <= i < policy.rules@.len() ==> runtime_rule_passes(#[trigger] policy.rules@[i], r)
}

/// Whether `signer` is one of the approved identities.
fn contains_identity(approved: &Vec<String>, signer: &str) -> (r: bool)
    ensures
        r == approved_contains(approved@, signer@),
{
    let mut j: usize = 0;
    while j < approved.len()
        invariant
            0 <= j <= approved@.len(),
            forall|k: int| 0 <= k < j ==> approved@[k]@ != signer@,
        decreases approved@.len() - j,
    {
        if str_eq(approved[j].as_str(), signer) {
            return true;
        }
        j = j + 1;
    }
    false
}

/// Whether at least one signature was made by an approved identity.
fn has_signer(approved: &Vec<String>, sigs: &Vec<Signature>) -> (r: bool)
    ensures
        r == has_approved_signer(approved@, sigs@),
{
    let mut i: usize = 0;
    while i < sigs.len()
        invariant
            0 <= i <= sigs@.len(),
            forall|k: int| 0 <= k < i ==> !approved_contains(approved@, sigs@[k].signer@),
        decreases sigs@.len() - i,
    {
        if contains_identity(approved, sigs[i].signer.as_str()) {
            return true;
        }
        i = i + 1;
    }
    false
}

/// How many findings have severity at least `level`.
fn count_vulnerabilities_at_least(vulns: &Vec<Vulnerability>, level: VulnerabilityLevel) -> (r:
    usize)
    ensures
        r == count_at_least(vulns@, level),
{
    let mut count: usize = 0;
    let mut i: usize = 0;
    while i < vulns.len()
        invariant
            0 <= i <= vulns@.len(),
            count <= i,
            count == count_at_least(vulns@.take(i as int), level),
        decreases vulns@.len() - i,
    {
        proof {
            assert(vulns@.take(i + 1 as int).drop_last() =~= vulns@.take(i as int));
            assert(vulns@.take(i + 1 as int).last() == vulns@[i as int]);
        }
        if vulns[i].severity.at_least(level) {
            count = count + 1;
        }
        i = i + 1;
    }
    proof {
        assert(vulns@.take(vulns@.len() as int) =~= vulns@);
    }
    count
}

/// Evaluates `policy` against `attestation` as of time `now` (seconds
/// since the Unix epoch): true exactly when every rule holds.
pub fn check_policy_at(policy: &Policy, attestation: &Attestation, now: i64) -> (r: bool)
    ensures
        r == attestation_passes(*policy, *attestation, now as int),
{
    let mut i: usize = 0;
    while i < policy.rules.len()
        invariant
            0 <= i <= policy.rules@.len(),
            forall|k: int|
                0 <= k < i ==> attestation_rule_passes(
                    #[trigger] policy.rules@[k],
                    *attestation,
                    now as int,
                ),
        decreases policy.rules@.len() - i,
    {
        let passes = match &policy.rules[i] {
            PolicyRule::MaxAge(max_age) => (now as i128) - (attestation.timestamp as i128) <= (
            *max_age as i128),
            PolicyRule::ApprovedIdentities(approved) => has_signer(
                approved,
                &attestation.signatures,
            ),
            PolicyRule::RequiredClaims(..) => true,
            PolicyRule::VulnerabilityThreshold(..) => true,
        };
        if !passes {
            return false;
        }
        i = i + 1;
    }
    true
}

/// Evaluates `policy` against `attestation` as of the current time.  The
/// clock is read from the environment: the result is the exact
/// evaluation at some instant, whichever instant the clock reported.
pub fn check_policy(policy: &Policy, attestation: &Attestation) -> (r: bool)
    ensures
        exists|now: i64| r == attestation_passes(*policy, *attestation, now as int),
{
    let now = now_timestamp();
    check_policy_at(policy, attestation, now)
}

/// Evaluates `policy` against a release's runtime evidence: true exactly
/// when the release is in Deployed status and every rule holds of it.
pub fn check_runtime_policy(policy: &Policy, release: &SDLCRelease) -> (r: bool)
    ensures
        r == release_passes_runtime(*policy, *release),
{
    let deployed = match &release.state {
        crate::state::ReleaseState::Deployed { .. } => true,
        _ => false,
    };
    if !deployed {
        return false;
    }
    let mut i: usize = 0;
    while i < policy.rules.len()
        invariant
            0 <= i <= policy.rules@.len(),
            forall|k: int|
                0 <= k < i ==> runtime_rule_passes(#[trigger] policy.rules@[k], *release),
        decreases policy.rules@.len() - i,
    {
        let passes = match &policy.rules[i] {
            PolicyRule::VulnerabilityThreshold(level, max_count) => {
                match &release.phase_details {
                    Some(d) => match &d.runtime_details {
                        Some(rd) => {
                            let count = count_vulnerabilities_at_least(
                                &rd.vulnerabilities,
                                *level,
                            );
                            (count as u64) <= (*max_count as u64)
                        },
                        None => true,
                    },
                    None => true,
                }
            },
            PolicyRule::MaxAge(..) => true,
            PolicyRule::ApprovedIdentities(..) => true,
            PolicyRule::RequiredClaims(..) => true,
        };
        if !passes {
            return false;
        }
        i = i + 1;
    }
    true
}

/// Attaches newly discovered findings to a release.  When runtime
/// evidence is already attached, the findings are appended to it and
/// everything else is kept; otherwise a fresh payload bag holding only
/// runtime evidence — a fresh runtime id, a heartbeat from the clock,
/// and the findings — replaces the release's payload bag.
pub fn update_release_vulnerabilities(release: SDLCRelease, vulnerabilities: Vec<Vulnerability>)
    -> (r: SDLCRelease)
    ensures
        r == (SDLCRelease { phase_details: r.phase_details, ..release }),
        runtime_vulnerabilities(release) matches Some(old_vulns) ==> {
            &&& runtime_vulnerabilities(r) == Some(old_vulns + vulnerabilities@)
            &&& (release.phase_details matches Some(d) ==> r.phase_details matches Some(d2)
                && d2 == (PhaseDetails { runtime_details: d2.runtime_details, ..d }))
            &&& (release.phase_details matches Some(d) && d.runtime_details matches Some(rd)
                ==> r.phase_details matches Some(d2) && d2.runtime_details matches Some(rd2)
                && rd2.runtime_id == rd.runtime_id && rd2.last_heartbeat == rd.last_heartbeat)
        },
        runtime_vulnerabilities(release) is None ==> {
            &&& r.phase_details matches Some(d2)
            &&& d2.development_details is None
            &&& d2.source_details is None
            &&& d2.build_details is None
            &&& d2.package_details is None
            &&& d2.deploy_details is None
            &&& d2.custom_details@.len() == 0
            &&& d2.runtime_details matches Some(rd2) && rd2.vulnerabilities == vulnerabilities
        },
{
    let mut release = release;
    let mut vulns = vulnerabilities;
    let had = match &release.phase_details {
        Some(d) => match &d.runtime_details {
            Some(..) => true,
            None => false,
        },
        None => false,
    };
    if had {
        match release.phase_details.take() {
            Some(mut d) => {
                match d.runtime_details.take() {
                    Some(mut rd) => {
                        rd.vulnerabilities.append(&mut vulns);
                        d.runtime_details = Some(rd);
                    },
                    None => {},
                }
                release.phase_details = Some(d);
            },
            None => {},
        }
    } else {
        let mut bag = PhaseDetails::new();
        bag.runtime_details = Some(
            RuntimeDetails {
                runtime_id: fresh_id(),
                last_heartbeat: now_timestamp(),
                vulnerabilities: vulns,
            },
        );
        release.phase_details = Some(bag);
    }
    release
}

/// Appending one finding raises the count of findings at severity at
/// least `level` by one when the finding reaches `level`, and leaves it
/// unchanged otherwise.
pub proof fn lemma_count_push(vulns: Seq<Vulnerability>, v: Vulnerability, level: VulnerabilityLevel)
    ensures
        count_at_least(vulns.push(v), level) == count_at_least(vulns, level) + if v.severity.rank()
            >= level.rank() {
            1nat
        } else {
            0nat
        },
{
    assert(vulns.push(v).drop_last() =~= vulns);
    assert(vulns.push(v).last() == v);
}

/// Policy evaluation is monotonic in vulnerability evidence.  Let
/// `after` be `before` with one more finding `v` appended to its runtime
/// evidence, everything else equal.  If `after` passes a policy's
/// runtime check, `before` already passed it — new evidence can only
/// narrow what passes, and removing the finding again restores whatever
/// verdict held before.  And when some `VulnerabilityThreshold(level,
/// max_count)` rule of the policy was already at capacity and `v`
/// reaches `level`, the appended finding makes the check fail.
pub proof fn lemma_vulnerability_monotonic(
    policy: Policy,
    before: SDLCRelease,
    after: SDLCRelease,
    v: Vulnerability,
)
    requires
        after.state == before.state,
        runtime_vulnerabilities(before) matches Some(old_vulns) && runtime_vulnerabilities(after)
            == Some(old_vulns.push(v)),
    ensures
        release_passes_runtime(policy, after) ==> release_passes_runtime(policy, before),
        forall|i: int|
            ({
                &&& 0 <= i < policy.rules@.len()
                &&& (#[trigger] policy.rules@[i]) matches PolicyRule::VulnerabilityThreshold(
                    level,
                    max_count,
                ) && v.severity.rank() >= level.rank() && count_at_least(
                    runtime_vulnerabilities(before)->Some_0,
                    level,
                ) >= max_count
            }) ==> !release_passes_runtime(policy, after),
{
    let old_vulns = runtime_vulnerabilities(before)->Some_0;
    let new_vulns = runtime_vulnerabilities(after)->Some_0;
    lemma_count_push(old_vulns, v, VulnerabilityLevel::Low);
    if release_passes_runtime(policy, after) {
        assert forall|i: int|
            0 <= i < policy.rules@.len() implies runtime_rule_passes(
            #[trigger] policy.rules@[i],
            before,
        ) by {
            match policy.rules@[i] {
                PolicyRule::VulnerabilityThreshold(level, max_count) => {
                    lemma_count_push(old_vulns, v, level);
                    assert(runtime_rule_passes(policy.rules@[i], after));
                },
                _ => {},
            }
        }
    }
    assert forall|i: int|
        ({
            &&& 0 <= i < policy.rules@.len()
            &&& (#[trigger] policy.rules@[i]) matches PolicyRule::VulnerabilityThreshold(
                level,
                max_count,
            ) && v.severity.rank() >= level.rank() && count_at_least(old_vulns, level)
                >= max_count
        }) implies !release_passes_runtime(policy, after) by {
        match policy.rules@[i] {
            PolicyRule::VulnerabilityThreshold(level, max_count) => {
                lemma_count_push(old_vulns, v, level);
                assert(!runtime_rule_passes(policy.rules@[i], after));
            },
            _ => {},
        }
    }
}

} // verus!
