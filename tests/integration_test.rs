use onchain_proof::registry::OnChainProof;
use onchain_proof::types::{ProofData, ProofError, ProofEvent};

fn user() -> Vec<u8> {
    b"user".to_vec()
}

fn user2() -> Vec<u8> {
    b"user2".to_vec()
}

fn certify(
    reg: &mut OnChainProof,
    caller: &Vec<u8>,
    text: &[u8],
    id: &[u8],
    metadata: Option<&[u8]>,
) -> Result<ProofEvent, ProofError> {
    reg.certify_action(caller, 1000, text.to_vec(), id.to_vec(), metadata.map(|m| m.to_vec()))
}

#[test]
fn init_test() {
    let reg = OnChainProof::init();
    assert_eq!(reg.get_total_proofs(), 0);
    assert_eq!(reg.get_user_proof_count(&user()), 0);
    assert!(!reg.proof_exists(&b"TEST_CERT_001".to_vec()));
}

#[test]
fn certify_action_test() {
    let mut reg = OnChainProof::init();
    let r = certify(&mut reg, &user(), b"Test Certificate", b"TEST_CERT_001", None);
    assert!(r.is_ok());
    let id = b"TEST_CERT_001".to_vec();
    assert!(reg.get_proof(&user(), &id).is_some());
    assert_eq!(reg.get_user_proof_ids(&user()), vec![id.clone()]);
    assert_eq!(reg.get_proof_owner(&id), Some(user()));
    assert_eq!(reg.get_total_proofs(), 1);
    assert_eq!(reg.get_user_proof_count(&user()), 1);
}

#[test]
fn get_proof_test() {
    let mut reg = OnChainProof::init();
    let r = certify(&mut reg, &user(), b"Test Certificate", b"TEST_CERT_001", Some(b"test metadata"));
    assert!(r.is_ok());
    let p = reg.get_proof(&user(), &b"TEST_CERT_001".to_vec());
    assert_eq!(
        p,
        Some(ProofData {
            proof_text: b"Test Certificate".to_vec(),
            timestamp: 1000,
            proof_id: b"TEST_CERT_001".to_vec(),
            metadata: b"test metadata".to_vec(),
        })
    );
}

#[test]
fn multiple_proofs_test() {
    let mut reg = OnChainProof::init();
    assert!(certify(&mut reg, &user(), b"First Certificate", b"CERT_001", None).is_ok());
    assert!(certify(&mut reg, &user(), b"Second Certificate", b"CERT_002", None).is_ok());
    assert_eq!(reg.get_total_proofs(), 2);
    assert_eq!(reg.get_user_proof_count(&user()), 2);
}

#[test]
fn duplicate_proof_id_test() {
    let mut reg = OnChainProof::init();
    assert!(certify(&mut reg, &user(), b"First Certificate", b"DUPLICATE_ID", None).is_ok());
    let r = certify(&mut reg, &user2(), b"Second Certificate", b"DUPLICATE_ID", None);
    assert_eq!(r, Err(ProofError::DuplicateId));
    assert_eq!(ProofError::DuplicateId.message(), "Proof ID already exists");
    assert_eq!(reg.get_total_proofs(), 1);
    assert_eq!(reg.get_user_proof_count(&user()), 1);
    assert_eq!(reg.get_user_proof_count(&user2()), 0);
    assert_eq!(reg.get_proof_owner(&b"DUPLICATE_ID".to_vec()), Some(user()));
}

#[test]
fn update_proof_test() {
    let mut reg = OnChainProof::init();
    let id = b"UPDATE_TEST".to_vec();
    assert!(certify(&mut reg, &user(), b"Initial Certificate", b"UPDATE_TEST", None).is_ok());
    let r = reg.update_proof(
        &user(),
        &id,
        b"Updated Certificate".to_vec(),
        Some(b"new metadata".to_vec()),
    );
    assert_eq!(
        r,
        Ok(ProofEvent::ProofUpdated {
            owner: user(),
            proof_id: id.clone(),
            new_proof_text: b"Updated Certificate".to_vec(),
        })
    );
    let p = reg.get_proof(&user(), &id).unwrap();
    assert_eq!(p.proof_text, b"Updated Certificate".to_vec());
    assert_eq!(p.metadata, b"new metadata".to_vec());
    let r = reg.update_proof(&user2(), &id, b"Malicious Update".to_vec(), None);
    assert_eq!(r, Err(ProofError::Unauthorized));
    assert_eq!(ProofError::Unauthorized.message(), "Only proof owner can update");
    let p = reg.get_proof(&user(), &id).unwrap();
    assert_eq!(p.proof_text, b"Updated Certificate".to_vec());
}

#[test]
fn proof_text_validation_test() {
    let mut reg = OnChainProof::init();
    let r = certify(&mut reg, &user(), b"", b"EMPTY_TEXT", None);
    assert_eq!(r, Err(ProofError::InvalidLength));
    let r = certify(&mut reg, &user(), &[b'a'; 501], b"TOO_LONG", None);
    assert_eq!(r, Err(ProofError::InvalidLength));
    assert_eq!(
        ProofError::InvalidLength.message(),
        "Proof text must be between 1 and 500 characters"
    );
    let r = certify(&mut reg, &user(), b"Valid certificate text", b"VALID_CERT", None);
    assert!(r.is_ok());
    assert_eq!(reg.get_total_proofs(), 1);
    assert!(!reg.proof_exists(&b"EMPTY_TEXT".to_vec()));
    assert!(!reg.proof_exists(&b"TOO_LONG".to_vec()));
}

#[test]
fn get_user_proofs_test() {
    let mut reg = OnChainProof::init();
    assert!(certify(&mut reg, &user(), b"Certificate 1", b"CERT_1", None).is_ok());
    assert!(certify(&mut reg, &user(), b"Certificate 2", b"CERT_2", None).is_ok());
    let proofs = reg.get_user_proofs(&user());
    assert_eq!(proofs.len(), 2);
    assert_eq!(proofs[0].proof_text, b"Certificate 1".to_vec());
    assert_eq!(proofs[0].proof_id, b"CERT_1".to_vec());
    assert_eq!(proofs[1].proof_text, b"Certificate 2".to_vec());
    assert_eq!(proofs[1].proof_id, b"CERT_2".to_vec());
    let ids = reg.get_user_proof_ids(&user());
    assert_eq!(ids, vec![b"CERT_1".to_vec(), b"CERT_2".to_vec()]);
}
