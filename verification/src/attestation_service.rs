//! In-memory attestation storage: a CRUD-shaped collaborator keyed by
//! attestation id.

use vstd::prelude::*;
use crate::attestation::Attestation;
use crate::env::str_eq;

verus! {

/// Why an attestation operation failed.
#[derive(Debug, Clone, PartialEq)]
pub enum AttestationError {
    StorageError(String),
    RetrievalError(String),
    VerificationError(String),
}

impl AttestationError {
    /// A human-readable description of the failure.
    pub fn message(&self) -> (r: String)
        ensures
            self matches AttestationError::StorageError(s) ==> r@ == "Failed to store attestation: "@
                + s@,
            self matches AttestationError::RetrievalError(s) ==> r@
                == "Failed to retrieve attestation: "@ + s@,
            self matches AttestationError::VerificationError(s) ==> r@
                == "Failed to verify attestation: "@ + s@,
    {
        match self {
            AttestationError::StorageError(s) => String::from_str(
                "Failed to store attestation: ",
            ).concat(s.as_str()),
            AttestationError::RetrievalError(s) => String::from_str(
                "Failed to retrieve attestation: ",
            ).concat(s.as_str()),
            AttestationError::VerificationError(s) => String::from_str(
                "Failed to verify attestation: ",
            ).concat(s.as_str()),
        }
    }
}

/// The attestation stored under `id`, reading the store front to back.
pub open spec fn stored_attestation(s: Seq<Attestation>, id: Seq<char>) -> Option<Attestation>
    decreases s.len(),
{
    if s.len() == 0 {
        None
    } else if s[0].id@ == id {
        Some(s[0])
    } else {
        stored_attestation(s.drop_first(), id)
    }
}

/// The attestations whose subject names `release`, in storage order.
pub open spec fn attestations_for(s: Seq<Attestation>, release: Seq<char>) -> Seq<Attestation>
    decreases s.len(),
{
    if s.len() == 0 {
        Seq::empty()
    } else if s.last().subject.name@ == release {
        attestations_for(s.drop_last(), release).push(s.last())
    } else {
        attestations_for(s.drop_last(), release)
    }
}

/// No two stored attestations share an id.
pub open spec fn unique_ids(s: Seq<Attestation>) -> bool {
    forall|i: int, j: int| 0 <= i < j < s.len() ==> s[i].id@ != s[j].id@
}

/// The store after `a` is stored: the first entry sharing its id is
/// replaced, and when none does, `a` is appended.
pub open spec fn store_result(s: Seq<Attestation>, a: Attestation) -> Seq<Attestation>
    decreases s.len(),
{
    if s.len() == 0 {
        seq![a]
    } else if s[0].id@ == a.id@ {
        seq![a] + s.drop_first()
    } else {
        seq![s[0]] + store_result(s.drop_first(), a)
    }
}

/// An in-memory attestation store, for testing and for single-process
/// deployments.
pub struct InMemoryAttestationService {
    pub attestations: Vec<Attestation>,
}

impl InMemoryAttestationService {
    /// An empty store.
    pub fn new() -> (r: InMemoryAttestationService)
        ensures
            r.attestations@.len() == 0,
            unique_ids(r.attestations@),
    {
        InMemoryAttestationService { attestations: Vec::new() }
    }

    /// Stores an attestation under its id: the first stored entry
    /// sharing that id is replaced, and when none does, the attestation
    /// is appended, so every other entry stays exactly where it was and
    /// id-uniqueness of the store is preserved.  Storage never fails.
    pub fn store_attestation(&mut self, attestation: Attestation) -> (r: Result<
        (),
        AttestationError,
    >)
        ensures
            r is Ok,
            final(self).attestations@ == store_result(old(self).attestations@, attestation),
            stored_attestation(final(self).attestations@, attestation.id@) == Some(attestation),
            forall|k: Seq<char>|
                k != attestation.id@ ==> stored_attestation(final(self).attestations@, k)
                    == stored_attestation(old(self).attestations@, k),
            unique_ids(old(self).attestations@) ==> unique_ids(final(self).attestations@),
    {
        let found = find_attestation_index(&self.attestations, attestation.id.as_str());
        match found {
            Some(i) => {
                let ghost s = self.attestations@;
                let ghost key = attestation.id@;
                self.attestations.remove(i);
                self.attestations.insert(i, attestation);
                proof {
                    assert(self.attestations@ =~= s.update(i as int, attestation));
                    lemma_stored_update(s, i as int, attestation, key);
                    lemma_store_result_update(s, i as int, attestation);
                    if unique_ids(s) {
                        assert forall|p: int, q: int|
                            0 <= p < q < self.attestations@.len() implies self.attestations@[
                            p
                        ].id@ != self.attestations@[q].id@ by {
                            assert(self.attestations@[p].id@ == s[p].id@);
                            assert(self.attestations@[q].id@ == s[q].id@);
                        }
                    }
                }
            },
            None => {
                let ghost s = self.attestations@;
                let ghost key = attestation.id@;
                self.attestations.push(attestation);
                proof {
                    lemma_stored_absent(s, key);
                    lemma_stored_push(s, attestation, key);
                    lemma_store_result_push(s, attestation);
                }
            },
        }
        Ok(())
    }

    /// The attestation stored under `id`, if any.  Retrieval never
    /// fails.
    pub fn get_attestation(&self, id: &str) -> (r: Result<Option<&Attestation>, AttestationError>)
        ensures
            r matches Ok(found) && (match found {
                Some(a) => stored_attestation(self.attestations@, id@) == Some(*a),
                None => stored_attestation(self.attestations@, id@) is None,
            }),
    {
        let found = find_attestation_index(&self.attestations, id);
        proof {
            match found {
                Some(i) => {
                    lemma_stored_found(self.attestations@, i as int, id@);
                },
                None => {
                    lemma_stored_absent(self.attestations@, id@);
                },
            }
        }
        match found {
            Some(i) => Ok(Some(&self.attestations[i])),
            None => Ok(None),
        }
    }

    /// The attestations whose subject names the release, in storage
    /// order.  Retrieval never fails.
    pub fn get_attestations_for_release(&self, release_id: &str) -> (r: Result<
        Vec<&Attestation>,
        AttestationError,
    >)
        ensures
            r matches Ok(found) && found@.map_values(|a: &Attestation| *a) == attestations_for(
                self.attestations@,
                release_id@,
            ),
    {
        let mut out: Vec<&Attestation> = Vec::new();
        let mut i: usize = 0;
        while i < self.attestations.len()
            invariant
                0 <= i <= self.attestations@.len(),
                out@.map_values(|a: &Attestation| *a) == attestations_for(
                    self.attestations@.take(i as int),
                    release_id@,
                ),
            decreases self.attestations@.len() - i,
        {
            let ghost prefix = self.attestations@.take(i as int);
            proof {
                assert(self.attestations@.take(i + 1 as int).drop_last() =~= prefix);
                assert(self.attestations@.take(i + 1 as int).last() == self.attestations@[
                    i as int
                ]);
            }
            if str_eq(self.attestations[i].subject.name.as_str(), release_id) {
                out.push(&self.attestations[i]);
                proof {
                    assert(out@.map_values(|a: &Attestation| *a) =~= attestations_for(
                        self.attestations@.take(i + 1 as int),
                        release_id@,
                    ));
                }
            }
            i = i + 1;
        }
        proof {
            assert(self.attestations@.take(self.attestations@.len() as int)
                =~= self.attestations@);
        }
        Ok(out)
    }

    /// Signature verification is not implemented; every attestation is
    /// accepted.
    pub fn verify_attestation(&self, attestation: &Attestation) -> (r: Result<
        bool,
        AttestationError,
    >)
        ensures
            r == Ok::<bool, AttestationError>(true),
    {
        let _ = attestation;
        Ok(true)
    }
}

/// The index of the first attestation stored under `id`, if any.
fn find_attestation_index(s: &Vec<Attestation>, id: &str) -> (r: Option<usize>)
    ensures
        r matches Some(i) ==> i < s@.len() && s@[i as int].id@ == id@ && forall|j: int|
            0 <= j < i ==> s@[j].id@ != id@,
        r is None ==> forall|j: int| 0 <= j < s@.len() ==> s@[j].id@ != id@,
{
    let mut i: usize = 0;
    while i < s.len()
        invariant
            0 <= i <= s@.len(),
            forall|j: int| 0 <= j < i ==> s@[j].id@ != id@,
        decreases s@.len() - i,
    {
        if str_eq(s[i].id.as_str(), id) {
            return Some(i);
        }
        i = i + 1;
    }
    None
}

/// When the first entry sharing the incoming id sits at `i`, storing
/// replaces exactly that entry.
proof fn lemma_store_result_update(s: Seq<Attestation>, i: int, a: Attestation)
    requires
        0 <= i < s.len(),
        forall|j: int| 0 <= j < i ==> s[j].id@ != a.id@,
        s[i].id@ == a.id@,
    ensures
        store_result(s, a) == s.update(i, a),
    decreases i,
{
    if i == 0 {
        assert(store_result(s, a) =~= s.update(0, a));
    } else {
        let s2 = s.drop_first();
        assert forall|j: int| 0 <= j < i - 1 implies s2[j].id@ != a.id@ by {
            assert(s2[j] == s[j + 1]);
        }
        lemma_store_result_update(s2, i - 1, a);
        assert(store_result(s, a) =~= s.update(i, a)) by {
            assert(store_result(s, a) == seq![s[0]] + s2.update(i - 1, a));
        }
    }
}

/// When no stored entry shares the incoming id, storing appends.
proof fn lemma_store_result_push(s: Seq<Attestation>, a: Attestation)
    requires
        forall|j: int| 0 <= j < s.len() ==> s[j].id@ != a.id@,
    ensures
        store_result(s, a) == s.push(a),
    decreases s.len(),
{
    if s.len() == 0 {
        assert(store_result(s, a) =~= s.push(a));
    } else {
        let s2 = s.drop_first();
        assert forall|j: int| 0 <= j < s2.len() implies s2[j].id@ != a.id@ by {
            assert(s2[j] == s[j + 1]);
        }
        lemma_store_result_push(s2, a);
        assert(store_result(s, a) =~= s.push(a)) by {
            assert(store_result(s, a) == seq![s[0]] + s2.push(a));
        }
    }
}

/// The first entry stored under `id` is what lookup finds.
proof fn lemma_stored_found(s: Seq<Attestation>, i: int, id: Seq<char>)
    requires
        0 <= i < s.len(),
        s[i].id@ == id,
        forall|j: int| 0 <= j < i ==> s[j].id@ != id,
    ensures
        stored_attestation(s, id) == Some(s[i]),
    decreases i,
{
    if i > 0 {
        lemma_stored_found(s.drop_first(), i - 1, id);
    }
}

/// An id held by no entry has nothing stored under it.
proof fn lemma_stored_absent(s: Seq<Attestation>, id: Seq<char>)
    requires
        forall|j: int| 0 <= j < s.len() ==> s[j].id@ != id,
    ensures
        stored_attestation(s, id) is None,
    decreases s.len(),
{
    if s.len() != 0 {
        lemma_stored_absent(s.drop_first(), id);
    }
}

/// Updating the first entry stored under `id` with an attestation that
/// keeps that id changes what is stored under `id` and nothing else.
proof fn lemma_stored_update(s: Seq<Attestation>, i: int, a: Attestation, id: Seq<char>)
    requires
        0 <= i < s.len(),
        forall|j: int| 0 <= j < i ==> s[j].id@ != id,
        s[i].id@ == id,
        a.id@ == id,
    ensures
        stored_attestation(s.update(i, a), id) == Some(a),
        forall|k: Seq<char>| k != id ==> stored_attestation(s.update(i, a), k)
            == stored_attestation(s, k),
    decreases i,
{
    if i == 0 {
        assert(s.update(0, a)[0] == a);
        assert forall|k: Seq<char>| k != id implies stored_attestation(s.update(0, a), k)
            == stored_attestation(s, k) by {
            assert(s.update(0, a).drop_first() =~= s.drop_first());
        }
    } else {
        let s2 = s.drop_first();
        assert(s.update(i, a).drop_first() =~= s2.update(i - 1, a));
        lemma_stored_update(s2, i - 1, a, id);
        assert(s.update(i, a)[0] == s[0]);
        assert(stored_attestation(s.update(i, a), id) == Some(a));
        assert forall|k: Seq<char>| k != id implies stored_attestation(s.update(i, a), k)
            == stored_attestation(s, k) by {
            if s[0].id@ == k {
                assert(stored_attestation(s.update(i, a), k) == Some(s[0]));
                assert(stored_attestation(s, k) == Some(s[0]));
            } else {
                assert(stored_attestation(s.update(i, a), k) == stored_attestation(
                    s2.update(i - 1, a),
                    k,
                ));
                assert(stored_attestation(s, k) == stored_attestation(s2, k));
            }
        }
    }
}

/// Appending an attestation does not disturb what is stored under other
/// ids, and stores its own id when that id was absent.
proof fn lemma_stored_push(s: Seq<Attestation>, a: Attestation, id: Seq<char>)
    requires
        a.id@ == id,
    ensures
        forall|k: Seq<char>| k != id ==> stored_attestation(s.push(a), k) == stored_attestation(
            s,
            k,
        ),
        stored_attestation(s, id) is None ==> stored_attestation(s.push(a), id) == Some(a),
    decreases s.len(),
{
    if s.len() == 0 {
        assert(s.push(a)[0] == a);
        assert(s.push(a).drop_first() =~= Seq::<Attestation>::empty());
        assert forall|k: Seq<char>| k != id implies stored_attestation(s.push(a), k)
            == stored_attestation(s, k) by {
            assert(stored_attestation(Seq::<Attestation>::empty(), k) is None);
            assert(stored_attestation(s.push(a), k) == stored_attestation(
                s.push(a).drop_first(),
                k,
            ));
        }
    } else {
        let s2 = s.drop_first();
        assert(s.push(a)[0] == s[0]);
        assert(s.push(a).drop_first() =~= s2.push(a));
        lemma_stored_push(s2, a, id);
        if stored_attestation(s, id) is None {
            assert(s[0].id@ != id);
            assert(stored_attestation(s2, id) is None);
            assert(stored_attestation(s.push(a), id) == stored_attestation(s2.push(a), id));
        }
        assert forall|k: Seq<char>| k != id implies stored_attestation(s.push(a), k)
            == stored_attestation(s, k) by {
            if s[0].id@ == k {
                assert(stored_attestation(s.push(a), k) == Some(s[0]));
                assert(stored_attestation(s, k) == Some(s[0]));
            } else {
                assert(stored_attestation(s.push(a), k) == stored_attestation(s2.push(a), k));
                assert(stored_attestation(s, k) == stored_attestation(s2, k));
            }
        }
    }
}

} // verus!
