//! Proofs that an activity took place: how they are filed, and how an
//! oracle or the administrator settles the pending ones.

use vstd::prelude::*;

verus! {

/// How a proof is verified.
#[derive(Clone, Copy, Debug, PartialEq, Eq, Structural)]
pub enum VerificationMethod {
    ZKEmail,
    LinkedInOracle,
    Manual,
}

/// Where a proof stands.
#[derive(Clone, Copy, Debug, PartialEq, Eq, Structural)]
pub enum VerificationStatus {
    Pending,
    Verified,
    Rejected,
    Expired,
}

/// Why a proof could not be settled.
#[derive(Clone, Copy, Debug, PartialEq, Eq, Structural)]
pub enum VerificationError {
    /// The oracle is not registered.
    OracleNotRegistered,
    /// The oracle has been switched off.
    OracleNotActive,
    /// No proof has the given id.
    ProofNotFound,
    /// The proof is no longer pending.
    AlreadyProcessed,
    /// The proof is not of the method that this call settles.
    WrongMethod,
}

/// One filed proof.
#[derive(Debug)]
pub struct VerificationProof {
    pub id: u64,
    pub quest_id: u64,
    pub user: String,
    pub method: VerificationMethod,
    pub proof_hash: Vec<u8>,
    pub verification_data: String,
    pub timestamp: u64,
    pub status: VerificationStatus,
    pub verifier: Option<String>,
}

/// One registered oracle.
#[derive(Debug)]
pub struct Oracle {
    pub address: String,
    pub endpoint: String,
    pub reputation: u32,
    pub verifications_count: u64,
    pub is_active: bool,
}

/// The status that a proof of the given method is filed with: a proof by
/// ZK email verifies itself, every other waits.
pub open spec fn filed_status(method: VerificationMethod) -> VerificationStatus {
    if method == VerificationMethod::ZKEmail {
        VerificationStatus::Verified
    } else {
        VerificationStatus::Pending
    }
}

/// The status that a decision gives a pending proof.
pub open spec fn decided_status(accept: bool) -> VerificationStatus {
    if accept {
        VerificationStatus::Verified
    } else {
        VerificationStatus::Rejected
    }
}

/// The ids of the proofs of `user`, oldest first.
pub open spec fn ids_of_user(proofs: Seq<VerificationProof>, user: Seq<char>) -> Seq<u64>
    decreases proofs.len(),
{
    if proofs.len() == 0 {
        Seq::empty()
    } else if proofs.last().user@ == user {
        ids_of_user(proofs.drop_last(), user).push(proofs.last().id)
    } else {
        ids_of_user(proofs.drop_last(), user)
    }
}

/// The ids of the proofs for quest `quest_id`, oldest first.
pub open spec fn ids_of_quest(proofs: Seq<VerificationProof>, quest_id: u64) -> Seq<u64>
    decreases proofs.len(),
{
    if proofs.len() == 0 {
        Seq::empty()
    } else if proofs.last().quest_id == quest_id {
        ids_of_quest(proofs.drop_last(), quest_id).push(proofs.last().id)
    } else {
        ids_of_quest(proofs.drop_last(), quest_id)
    }
}

/// A pending proof after it was decided by `verifier`.
pub open spec fn decided(p: VerificationProof, accept: bool, verifier: String) -> VerificationProof {
    VerificationProof { status: decided_status(accept), verifier: Some(verifier), ..p }
}

/// An oracle after one more verification, which adds to its reputation if
/// the proof was found valid.
pub open spec fn credited(o: Oracle, is_valid: bool) -> Oracle {
    Oracle {
        verifications_count: (o.verifications_count + 1) as u64,
        reputation: (if is_valid {
            o.reputation + 1
        } else {
            o.reputation as int
        }) as u32,
        ..o
    }
}

/// An oracle as it is registered.
pub open spec fn fresh_oracle(address: String, endpoint: String) -> Oracle {
    Oracle { address, endpoint, reputation: 100, verifications_count: 0, is_active: true }
}

/// The registry's records as mathematical values.
pub struct VerificationState {
    pub proofs: Seq<VerificationProof>,
    pub oracles: Seq<Oracle>,
}

impl VerificationState {
    /// Whether a proof has this id.
    pub open spec fn has_proof(self, id: u64) -> bool {
        1 <= id <= self.proofs.len()
    }

    /// The proof with this id.
    pub open spec fn filed(self, id: u64) -> VerificationProof
        recommends
            self.has_proof(id),
    {
        self.proofs[id - 1]
    }

    /// Whether the oracle at position `i` has this address.
    pub open spec fn oracle_at(self, i: int, address: Seq<char>) -> bool {
        0 <= i < self.oracles.len() && self.oracles[i].address@ == address
    }

    /// Whether an oracle is registered under this address.
    pub open spec fn registered(self, address: Seq<char>) -> bool {
        exists|i: int| self.oracle_at(i, address)
    }

    /// Where the oracle registered under this address stands.
    pub open spec fn oracle_index(self, address: Seq<char>) -> int {
        choose|i: int| self.oracle_at(i, address)
    }

    /// The oracle registered under this address.
    pub open spec fn oracle(self, address: Seq<char>) -> Oracle
        recommends
            self.registered(address),
    {
        self.oracles[self.oracle_index(address)]
    }

    /// The invariant of the registry: proof ids count up from one, and no
    /// address has two oracles.
    pub open spec fn wf(self) -> bool {
        &&& self.proofs.len() <= u64::MAX
        &&& forall|i: int| 0 <= i < self.proofs.len() ==> (#[trigger] self.proofs[i]).id == i + 1
        &&& forall|i: int, j: int|
            0 <= i < j < self.oracles.len() ==> (#[trigger] self.oracles[i]).address@ != (
            #[trigger] self.oracles[j]).address@
    }

    /// What an oracle's answer to proof `id` comes to: the first failing
    /// precondition, or nothing to object.
    pub open spec fn oracle_check(self, id: u64, oracle: Seq<char>) -> Option<VerificationError> {
        if !self.registered(oracle) {
            Some(VerificationError::OracleNotRegistered)
        } else if !self.oracle(oracle).is_active {
            Some(VerificationError::OracleNotActive)
        } else if !self.has_proof(id) {
            Some(VerificationError::ProofNotFound)
        } else if self.filed(id).status != VerificationStatus::Pending {
            Some(VerificationError::AlreadyProcessed)
        } else if self.filed(id).method != VerificationMethod::LinkedInOracle {
            Some(VerificationError::WrongMethod)
        } else {
            None
        }
    }

    /// What the administrator's decision on proof `id` comes to: the first
    /// failing precondition, or nothing to object.
    pub open spec fn approval_check(self, id: u64) -> Option<VerificationError> {
        if !self.has_proof(id) {
            Some(VerificationError::ProofNotFound)
        } else if self.filed(id).method != VerificationMethod::Manual {
            Some(VerificationError::WrongMethod)
        } else if self.filed(id).status != VerificationStatus::Pending {
            Some(VerificationError::AlreadyProcessed)
        } else {
            None
        }
    }
}

/// The registry of proofs and oracles.
pub struct VerificationContract {
    proofs: Vec<VerificationProof>,
    oracles: Vec<Oracle>,
}

impl View for VerificationContract {
    type V = VerificationState;

    closed spec fn view(&self) -> VerificationState {
        VerificationState { proofs: self.proofs@, oracles: self.oracles@ }
    }
}

impl VerificationContract {
    /// A registry without proofs or oracles.
    pub fn initialize() -> (registry: VerificationContract)
        ensures
            registry@.wf(),
            registry@.proofs.len() == 0,
            registry@.oracles.len() == 0,
    {
        VerificationContract { proofs: Vec::new(), oracles: Vec::new() }
    }

    /// Where the oracle with this address stands, if it is registered.
    fn find_oracle(&self, address: &String) -> (found: Option<usize>)
        requires
            self@.wf(),
        ensures
            match found {
                Some(i) => i < self@.oracles.len() && self@.registered(address@) && self@.oracle_index(address@)
                    == i,
                None => !self@.registered(address@),
            },
    {
        let mut i: usize = 0;
        while i < self.oracles.len()
            invariant
                self@.wf(),
                i <= self.oracles@.len(),
                forall|j: int| 0 <= j < i ==> !self@.oracle_at(j, address@),
            decreases self.oracles@.len() - i,
        {
            if self.oracles[i].address == *address {
                proof {
                    lemma_oracle_is_unique(self@, i as int, address@);
                }
                return Some(i);
            }
            i = i + 1;
        }
        None
    }

    /// Registers an oracle, or registers it anew: it starts active, with
    /// a reputation of one hundred and no verifications.
    pub fn register_oracle(&mut self, oracle_address: String, endpoint: String)
        requires
            old(self)@.wf(),
        ensures
            final(self)@.wf(),
            final(self)@.proofs == old(self)@.proofs,
            final(self)@.oracles == (if old(self)@.registered(oracle_address@) {
                old(self)@.oracles.update(
                    old(self)@.oracle_index(oracle_address@),
                    fresh_oracle(oracle_address, endpoint),
                )
            } else {
                old(self)@.oracles.push(fresh_oracle(oracle_address, endpoint))
            }),
            final(self)@.registered(oracle_address@),
            final(self)@.oracle(oracle_address@) == fresh_oracle(oracle_address, endpoint),
    {
        let found = self.find_oracle(&oracle_address);
        let ghost address = oracle_address@;
        let ghost at: int = match found {
            Some(i) => i as int,
            None => self@.oracles.len() as int,
        };
        let oracle = Oracle {
            address: oracle_address,
            endpoint,
            reputation: 100,
            verifications_count: 0,
            is_active: true,
        };
        match found {
            Some(i) => {
                self.oracles.set(i, oracle);
            },
            None => {
                self.oracles.push(oracle);
            },
        }
        proof {
            lemma_oracles_stay_unique(old(self)@, self@, at, address);
            lemma_oracle_is_unique(self@, at, address);
        }
    }

    /// Files a proof under the next id.
    pub fn create_proof(
        &mut self,
        quest_id: u64,
        user: String,
        method: VerificationMethod,
        proof_hash: Vec<u8>,
        verification_data: String,
        status: VerificationStatus,
        verifier: Option<String>,
        now: u64,
    ) -> (id: u64)
        requires
            old(self)@.wf(),
            old(self)@.proofs.len() < u64::MAX,
        ensures
            final(self)@.wf(),
            id == old(self)@.proofs.len() + 1,
            final(self)@.oracles == old(self)@.oracles,
            final(self)@.proofs == old(self)@.proofs.push(
                VerificationProof {
                    id,
                    quest_id,
                    user,
                    method,
                    proof_hash,
                    verification_data,
                    timestamp: now,
                    status,
                    verifier,
                },
            ),
    {
        let new_proof_id: u64 = self.proofs.len() as u64 + 1;
        let record = VerificationProof {
            id: new_proof_id,
            quest_id,
            user,
            method,
            proof_hash,
            verification_data,
            timestamp: now,
            status,
            verifier,
        };
        self.proofs.push(record);
        proof {
            let s = old(self)@;
            let t = self@;
            assert(t.oracles == s.oracles);
            assert forall|i: int| 0 <= i < t.proofs.len() implies (#[trigger] t.proofs[i]).id == i + 1 by {
                if i < s.proofs.len() {
                    assert(t.proofs[i] == s.proofs[i]);
                }
            }
            assert forall|i: int, j: int| 0 <= i < j < t.oracles.len() implies (#[trigger] t.oracles[i]).address@
                != (#[trigger] t.oracles[j]).address@ by {
                assert(s.oracles[i].address@ != s.oracles[j].address@);
            }
        }
        new_proof_id
    }

    /// Files a proof by ZK email, which verifies itself.
    pub fn submit_zk_proof(
        &mut self,
        quest_id: u64,
        user: String,
        proof_hash: Vec<u8>,
        verification_data: String,
        now: u64,
    ) -> (id: u64)
        requires
            old(self)@.wf(),
            old(self)@.proofs.len() < u64::MAX,
        ensures
            final(self)@.wf(),
            id == old(self)@.proofs.len() + 1,
            final(self)@.oracles == old(self)@.oracles,
            final(self)@.proofs == old(self)@.proofs.push(
                VerificationProof {
                    id,
                    quest_id,
                    user,
                    method: VerificationMethod::ZKEmail,
                    proof_hash,
                    verification_data,
                    timestamp: now,
                    status: filed_status(VerificationMethod::ZKEmail),
                    verifier: None,
                },
            ),
    {
        self.create_proof(
            quest_id,
            user,
            VerificationMethod::ZKEmail,
            proof_hash,
            verification_data,
            VerificationStatus::Verified,
            None,
            now,
        )
    }

    /// Files a request to have a LinkedIn post checked by an oracle. The
    /// proof waits, with an empty hash, for the oracle's answer.
    pub fn request_linkedin_verification(
        &mut self,
        quest_id: u64,
        user: String,
        linkedin_post_url: String,
        now: u64,
    ) -> (id: u64)
        requires
            old(self)@.wf(),
            old(self)@.proofs.len() < u64::MAX,
        ensures
            final(self)@.wf(),
            id == old(self)@.proofs.len() + 1,
            final(self)@.oracles == old(self)@.oracles,
            final(self)@.proofs.len() == old(self)@.proofs.len() + 1,
            final(self)@.proofs.drop_last() == old(self)@.proofs,
            ({
                let p = final(self)@.filed(id);
                &&& p.id == id
                &&& p.quest_id == quest_id
                &&& p.user == user
                &&& p.method == VerificationMethod::LinkedInOracle
                &&& p.proof_hash@.len() == 0
                &&& p.verification_data == linkedin_post_url
                &&& p.timestamp == now
                &&& p.status == filed_status(VerificationMethod::LinkedInOracle)
                &&& p.verifier.is_none()
            }),
    {
        let id = self.create_proof(
            quest_id,
            user,
            VerificationMethod::LinkedInOracle,
            Vec::new(),
            linkedin_post_url,
            VerificationStatus::Pending,
            None,
            now,
        );
        proof {
            assert(self@.proofs.drop_last() =~= old(self)@.proofs);
        }
        id
    }

    /// Files a proof that waits for the administrator's decision.
    pub fn submit_manual_proof(
        &mut self,
        quest_id: u64,
        user: String,
        proof_hash: Vec<u8>,
        verification_data: String,
        now: u64,
    ) -> (id: u64)
        requires
            old(self)@.wf(),
            old(self)@.proofs.len() < u64::MAX,
        ensures
            final(self)@.wf(),
            id == old(self)@.proofs.len() + 1,
            final(self)@.oracles == old(self)@.oracles,
            final(self)@.proofs == old(self)@.proofs.push(
                VerificationProof {
                    id,
                    quest_id,
                    user,
                    method: VerificationMethod::Manual,
                    proof_hash,
                    verification_data,
                    timestamp: now,
                    status: filed_status(VerificationMethod::Manual),
                    verifier: None,
                },
            ),
    {
        self.create_proof(
            quest_id,
            user,
            VerificationMethod::Manual,
            proof_hash,
            verification_data,
            VerificationStatus::Pending,
            None,
            now,
        )
    }

    /// Takes an oracle's answer to a pending LinkedIn proof: the proof is
    /// verified or rejected, keeps the oracle's data as its hash, and the
    /// oracle is credited. Answers whether the quest engine is to be told,
    /// which is when the proof was found valid.
    pub fn verify_linkedin_post(
        &mut self,
        proof_id: u64,
        oracle: String,
        is_valid: bool,
        proof_data: Vec<u8>,
    ) -> (result: Result<bool, VerificationError>)
        requires
            old(self)@.wf(),
            old(self)@.registered(oracle@) ==> old(self)@.oracle(oracle@).verifications_count < u64::MAX
                && old(self)@.oracle(oracle@).reputation < u32::MAX,
        ensures
            final(self)@.wf(),
            match old(self)@.oracle_check(proof_id, oracle@) {
                Some(e) => result == Err::<bool, VerificationError>(e) && final(self)@ == old(self)@,
                None => {
                    &&& result == Ok::<bool, VerificationError>(is_valid)
                    &&& final(self)@.proofs == old(self)@.proofs.update(
                        proof_id - 1,
                        (VerificationProof {
                            proof_hash: proof_data,
                            ..decided(old(self)@.filed(proof_id), is_valid, oracle)
                        }),
                    )
                    &&& final(self)@.oracles == old(self)@.oracles.update(
                        old(self)@.oracle_index(oracle@),
                        credited(old(self)@.oracle(oracle@), is_valid),
                    )
                },
            },
    {
        let at = match self.find_oracle(&oracle) {
            Some(i) => i,
            None => {
                return Err(VerificationError::OracleNotRegistered);
            },
        };
        if !self.oracles[at].is_active {
            return Err(VerificationError::OracleNotActive);
        }
        if proof_id == 0 || proof_id > self.proofs.len() as u64 {
            return Err(VerificationError::ProofNotFound);
        }
        let idx: usize = (proof_id - 1) as usize;
        if self.proofs[idx].status != VerificationStatus::Pending {
            return Err(VerificationError::AlreadyProcessed);
        }
        if self.proofs[idx].method != VerificationMethod::LinkedInOracle {
            return Err(VerificationError::WrongMethod);
        }
        let ghost address = oracle@;
        let ghost verifier = oracle;
        let ghost data = proof_data;
        self.proofs[idx].status = if is_valid {
            VerificationStatus::Verified
        } else {
            VerificationStatus::Rejected
        };
        self.proofs[idx].proof_hash = proof_data;
        self.proofs[idx].verifier = Some(oracle);
        self.oracles[at].verifications_count = self.oracles[at].verifications_count + 1;
        if is_valid {
            self.oracles[at].reputation = self.oracles[at].reputation + 1;
        }
        proof {
            let s = old(self)@;
            let t = self@;
            assert(t.oracles =~= s.oracles.update(at as int, credited(s.oracle(address), is_valid)));
            assert(t.proofs =~= s.proofs.update(
                proof_id - 1,
                (VerificationProof { proof_hash: data, ..decided(s.filed(proof_id), is_valid, verifier) }),
            ));
            lemma_oracles_stay_unique(s, VerificationState { proofs: s.proofs, ..t }, at as int, address);
            assert forall|i: int| 0 <= i < t.proofs.len() implies (#[trigger] t.proofs[i]).id == i + 1 by {
                assert(s.proofs[i].id == i + 1);
            }
        }
        Ok(is_valid)
    }

    /// Takes the administrator's decision on a pending manual proof: the
    /// proof is verified or rejected, with the administrator as its
    /// verifier. Answers whether the quest engine is to be told, which is
    /// when the proof was approved.
    pub fn approve_manual_proof(&mut self, proof_id: u64, admin: String, approve: bool) -> (result: Result<
        bool,
        VerificationError,
    >)
        requires
            old(self)@.wf(),
        ensures
            final(self)@.wf(),
            final(self)@.oracles == old(self)@.oracles,
            match old(self)@.approval_check(proof_id) {
                Some(e) => result == Err::<bool, VerificationError>(e) && final(self)@ == old(self)@,
                None => {
                    &&& result == Ok::<bool, VerificationError>(approve)
                    &&& final(self)@.proofs == old(self)@.proofs.update(
                        proof_id - 1,
                        decided(old(self)@.filed(proof_id), approve, admin),
                    )
                },
            },
    {
        if proof_id == 0 || proof_id > self.proofs.len() as u64 {
            return Err(VerificationError::ProofNotFound);
        }
        let idx: usize = (proof_id - 1) as usize;
        if self.proofs[idx].method != VerificationMethod::Manual {
            return Err(VerificationError::WrongMethod);
        }
        if self.proofs[idx].status != VerificationStatus::Pending {
            return Err(VerificationError::AlreadyProcessed);
        }
        let ghost verifier = admin;
        self.proofs[idx].status = if approve {
            VerificationStatus::Verified
        } else {
            VerificationStatus::Rejected
        };
        self.proofs[idx].verifier = Some(admin);
        proof {
            let s = old(self)@;
            let t = self@;
            assert(t.oracles == s.oracles);
            assert(t.proofs =~= s.proofs.update(proof_id - 1, decided(s.filed(proof_id), approve, verifier)));
            assert forall|i: int| 0 <= i < t.proofs.len() implies (#[trigger] t.proofs[i]).id == i + 1 by {
                assert(s.proofs[i].id == i + 1);
            }
            assert forall|i: int, j: int| 0 <= i < j < t.oracles.len() implies (#[trigger] t.oracles[i]).address@
                != (#[trigger] t.oracles[j]).address@ by {
                assert(s.oracles[i].address@ != s.oracles[j].address@);
            }
        }
        Ok(approve)
    }

    /// How many proofs were filed so far, which is also the latest id.
    pub fn proof_count(&self) -> (count: u64)
        ensures
            count == self@.proofs.len(),
    {
        self.proofs.len() as u64
    }

    /// The proof with the given id, if there is one.
    pub fn get_proof(&self, proof_id: u64) -> (result: Option<&VerificationProof>)
        ensures
            self@.has_proof(proof_id) ==> result == Some(&self@.filed(proof_id)),
            !self@.has_proof(proof_id) ==> result.is_none(),
    {
        if proof_id == 0 || proof_id > self.proofs.len() as u64 {
            return None;
        }
        Some(&self.proofs[(proof_id - 1) as usize])
    }

    /// The oracle registered under the given address, if there is one.
    pub fn get_oracle(&self, oracle: &String) -> (result: Option<&Oracle>)
        requires
            self@.wf(),
        ensures
            self@.registered(oracle@) ==> result == Some(&self@.oracle(oracle@)),
            !self@.registered(oracle@) ==> result.is_none(),
    {
        match self.find_oracle(oracle) {
            Some(i) => Some(&self.oracles[i]),
            None => None,
        }
    }

    /// The ids of the proofs of `user`, oldest first.
    pub fn get_user_proofs(&self, user: &String) -> (ids: Vec<u64>)
        ensures
            ids@ == ids_of_user(self@.proofs, user@),
    {
        let mut ids: Vec<u64> = Vec::new();
        let mut i: usize = 0;
        while i < self.proofs.len()
            invariant
                i <= self.proofs@.len(),
                ids@ == ids_of_user(self.proofs@.take(i as int), user@),
            decreases self.proofs@.len() - i,
        {
            proof {
                assert(self.proofs@.take(i + 1).drop_last() =~= self.proofs@.take(i as int));
                assert(self.proofs@.take(i + 1).last() == self.proofs@[i as int]);
            }
            if self.proofs[i].user == *user {
                ids.push(self.proofs[i].id);
            }
            i = i + 1;
        }
        proof {
            assert(self.proofs@.take(i as int) =~= self.proofs@);
        }
        ids
    }

    /// The ids of the proofs for quest `quest_id`, oldest first.
    pub fn get_quest_proofs(&self, quest_id: u64) -> (ids: Vec<u64>)
        ensures
            ids@ == ids_of_quest(self@.proofs, quest_id),
    {
        let mut ids: Vec<u64> = Vec::new();
        let mut i: usize = 0;
        while i < self.proofs.len()
            invariant
                i <= self.proofs@.len(),
                ids@ == ids_of_quest(self.proofs@.take(i as int), quest_id),
            decreases self.proofs@.len() - i,
        {
            proof {
                assert(self.proofs@.take(i + 1).drop_last() =~= self.proofs@.take(i as int));
                assert(self.proofs@.take(i + 1).last() == self.proofs@[i as int]);
            }
            if self.proofs[i].quest_id == quest_id {
                ids.push(self.proofs[i].id);
            }
            i = i + 1;
        }
        proof {
            assert(self.proofs@.take(i as int) =~= self.proofs@);
        }
        ids
    }
}

/// Putting an oracle where the one of its address stood, or at the end if
/// the address was free, leaves no address registered twice; and so does
/// changing an oracle but for its address.
pub proof fn lemma_oracles_stay_unique(s: VerificationState, t: VerificationState, at: int, address: Seq<char>)
    requires
        s.wf(),
        t.proofs == s.proofs,
        0 <= at <= s.oracles.len(),
        at < s.oracles.len() ==> s.oracles[at].address@ == address && t.oracles.len() == s.oracles.len(),
        at == s.oracles.len() ==> !s.registered(address) && t.oracles.len() == s.oracles.len() + 1,
        t.oracles[at].address@ == address,
        forall|i: int| 0 <= i < s.oracles.len() && i != at ==> t.oracles[i] == s.oracles[i],
    ensures
        t.wf(),
{
    assert forall|i: int, j: int| 0 <= i < j < t.oracles.len() implies (#[trigger] t.oracles[i]).address@ != (
    #[trigger] t.oracles[j]).address@ by {
        if at < s.oracles.len() {
            assert(s.oracles[i].address@ != s.oracles[j].address@);
        } else if j == at {
            assert(!s.oracle_at(i, address));
        } else {
            assert(s.oracles[i].address@ != s.oracles[j].address@);
        }
    }
    assert forall|i: int| 0 <= i < t.proofs.len() implies (#[trigger] t.proofs[i]).id == i + 1 by {
        assert(s.proofs[i].id == i + 1);
    }
}

/// With no address registered twice, the oracle found under an address is
/// the oracle of that address.

pub proof fn lemma_oracle_is_unique(s: VerificationState, i: int, address: Seq<char>)
    requires
        forall|i: int, j: int|
            0 <= i < j < s.oracles.len() ==> (#[trigger] s.oracles[i]).address@ != (#[trigger] s.oracles[j]).address@,
        s.oracle_at(i, address),
    ensures
        s.registered(address),
        s.oracle_index(address) == i,
        s.oracle(address) == s.oracles[i],
{
    let k = choose|k: int| s.oracle_at(k, address);
    if k < i {
        assert(s.oracles[k].address@ != s.oracles[i].address@);
    }
    if i < k {
        assert(s.oracles[i].address@ != s.oracles[k].address@);
    }
}

} // verus!
