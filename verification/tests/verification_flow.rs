use quest_engine::verification::{
    VerificationContract, VerificationError, VerificationMethod, VerificationStatus,
};

fn s(text: &str) -> String {
    String::from(text)
}

#[test]
fn zk_proofs_verify_themselves() {
    let mut registry = VerificationContract::initialize();
    let id = registry.submit_zk_proof(4, s("GUSER"), vec![1, 2, 3], s("acme"), 77);
    assert_eq!(id, 1);
    let proof = registry.get_proof(1).unwrap();
    assert_eq!(proof.id, 1);
    assert_eq!(proof.quest_id, 4);
    assert_eq!(proof.user, "GUSER");
    assert_eq!(proof.method, VerificationMethod::ZKEmail);
    assert_eq!(proof.proof_hash, vec![1, 2, 3]);
    assert_eq!(proof.verification_data, "acme");
    assert_eq!(proof.timestamp, 77);
    assert_eq!(proof.status, VerificationStatus::Verified);
    assert_eq!(proof.verifier, None);
    assert!(registry.get_proof(0).is_none());
    assert!(registry.get_proof(2).is_none());
    assert_eq!(registry.proof_count(), 1);
}

#[test]
fn proofs_are_indexed_by_user_and_quest() {
    let mut registry = VerificationContract::initialize();
    assert_eq!(registry.submit_zk_proof(1, s("GA"), vec![], s("x"), 1), 1);
    assert_eq!(registry.submit_manual_proof(2, s("GB"), vec![9], s("y"), 2), 2);
    assert_eq!(registry.request_linkedin_verification(1, s("GB"), s("https://post"), 3), 3);
    assert_eq!(registry.submit_manual_proof(1, s("GA"), vec![], s("z"), 4), 4);
    assert_eq!(registry.get_user_proofs(&s("GA")), vec![1, 4]);
    assert_eq!(registry.get_user_proofs(&s("GB")), vec![2, 3]);
    assert_eq!(registry.get_user_proofs(&s("GC")), Vec::<u64>::new());
    assert_eq!(registry.get_quest_proofs(1), vec![1, 3, 4]);
    assert_eq!(registry.get_quest_proofs(2), vec![2]);
    assert_eq!(registry.get_quest_proofs(3), Vec::<u64>::new());
    let pending = registry.get_proof(3).unwrap();
    assert_eq!(pending.status, VerificationStatus::Pending);
    assert_eq!(pending.method, VerificationMethod::LinkedInOracle);
    assert!(pending.proof_hash.is_empty());
    assert_eq!(pending.verification_data, "https://post");
}

#[test]
fn an_oracle_settles_a_linkedin_proof_once() {
    let mut registry = VerificationContract::initialize();
    registry.register_oracle(s("GORACLE"), s("https://oracle"));
    let oracle = registry.get_oracle(&s("GORACLE")).unwrap();
    assert_eq!(oracle.address, "GORACLE");
    assert_eq!(oracle.endpoint, "https://oracle");
    assert_eq!((oracle.reputation, oracle.verifications_count, oracle.is_active), (100, 0, true));
    let id = registry.request_linkedin_verification(5, s("GU"), s("url"), 10);
    assert_eq!(registry.verify_linkedin_post(id, s("GORACLE"), true, vec![7, 7]), Ok(true));
    let proof = registry.get_proof(id).unwrap();
    assert_eq!(proof.status, VerificationStatus::Verified);
    assert_eq!(proof.proof_hash, vec![7, 7]);
    assert_eq!(proof.verifier, Some(s("GORACLE")));
    let oracle = registry.get_oracle(&s("GORACLE")).unwrap();
    assert_eq!((oracle.reputation, oracle.verifications_count), (101, 1));
    assert_eq!(
        registry.verify_linkedin_post(id, s("GORACLE"), false, vec![]),
        Err(VerificationError::AlreadyProcessed)
    );
    let second = registry.request_linkedin_verification(5, s("GU"), s("url2"), 11);
    assert_eq!(registry.verify_linkedin_post(second, s("GORACLE"), false, vec![1]), Ok(false));
    assert_eq!(registry.get_proof(second).unwrap().status, VerificationStatus::Rejected);
    let oracle = registry.get_oracle(&s("GORACLE")).unwrap();
    assert_eq!((oracle.reputation, oracle.verifications_count), (101, 2));
}

#[test]
fn oracle_answers_are_checked_in_order() {
    let mut registry = VerificationContract::initialize();
    let manual = registry.submit_manual_proof(1, s("GU"), vec![], s("d"), 1);
    assert_eq!(
        registry.verify_linkedin_post(manual, s("GNOBODY"), true, vec![]),
        Err(VerificationError::OracleNotRegistered)
    );
    registry.register_oracle(s("GO"), s("e"));
    assert_eq!(
        registry.verify_linkedin_post(9, s("GO"), true, vec![]),
        Err(VerificationError::ProofNotFound)
    );
    assert_eq!(
        registry.verify_linkedin_post(manual, s("GO"), true, vec![]),
        Err(VerificationError::WrongMethod)
    );
    let zk = registry.submit_zk_proof(1, s("GU"), vec![], s("d"), 2);
    assert_eq!(
        registry.verify_linkedin_post(zk, s("GO"), true, vec![]),
        Err(VerificationError::AlreadyProcessed)
    );
    assert_eq!(registry.get_oracle(&s("GO")).unwrap().verifications_count, 0);
    assert!(registry.get_oracle(&s("GNOBODY")).is_none());
}

#[test]
fn the_administrator_settles_manual_proofs() {
    let mut registry = VerificationContract::initialize();
    let manual = registry.submit_manual_proof(1, s("GU"), vec![5], s("d"), 1);
    let linked = registry.request_linkedin_verification(1, s("GU"), s("u"), 2);
    assert_eq!(registry.approve_manual_proof(3, s("GADMIN"), true), Err(VerificationError::ProofNotFound));
    assert_eq!(registry.approve_manual_proof(linked, s("GADMIN"), true), Err(VerificationError::WrongMethod));
    assert_eq!(registry.approve_manual_proof(manual, s("GADMIN"), false), Ok(false));
    let proof = registry.get_proof(manual).unwrap();
    assert_eq!(proof.status, VerificationStatus::Rejected);
    assert_eq!(proof.verifier, Some(s("GADMIN")));
    assert_eq!(proof.proof_hash, vec![5]);
    assert_eq!(
        registry.approve_manual_proof(manual, s("GADMIN"), true),
        Err(VerificationError::AlreadyProcessed)
    );
    let next = registry.submit_manual_proof(1, s("GU"), vec![], s("d"), 3);
    assert_eq!(registry.approve_manual_proof(next, s("GADMIN"), true), Ok(true));
    assert_eq!(registry.get_proof(next).unwrap().status, VerificationStatus::Verified);
}

#[test]
fn registering_anew_resets_the_oracle() {
    let mut registry = VerificationContract::initialize();
    registry.register_oracle(s("GA"), s("one"));
    registry.register_oracle(s("GB"), s("two"));
    let id = registry.request_linkedin_verification(1, s("GU"), s("u"), 1);
    assert_eq!(registry.verify_linkedin_post(id, s("GA"), true, vec![]), Ok(true));
    registry.register_oracle(s("GA"), s("three"));
    let a = registry.get_oracle(&s("GA")).unwrap();
    assert_eq!(a.endpoint, "three");
    assert_eq!((a.reputation, a.verifications_count, a.is_active), (100, 0, true));
    assert_eq!(registry.get_oracle(&s("GB")).unwrap().endpoint, "two");
}
