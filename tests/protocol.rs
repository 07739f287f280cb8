use trackflow::session::{Action, HostSession, Phase, ProtocolError};
use trackflow::task::ProofResult;

fn proved_session(public_values: Vec<u8>) -> HostSession {
    let mut s = HostSession::new();
    assert_eq!(s.record_setup(), Ok(()));
    assert_eq!(s.record_proof(public_values), Ok(()));
    s
}

#[test]
fn new_session_asks_for_setup() {
    let s = HostSession::new();
    assert_eq!(s.phase(), Phase::Start);
    assert_eq!(s.next_action(), Action::RunSetup);
    assert_eq!(s.public_values(), Err(ProtocolError::OutOfOrder));
}

#[test]
fn verify_before_prove_is_refused() {
    let mut s = HostSession::new();
    assert_eq!(s.record_verification(true), Err(ProtocolError::OutOfOrder));
    assert_eq!(s.phase(), Phase::Start);
    assert_eq!(s.record_setup(), Ok(()));
    assert_eq!(s.next_action(), Action::RunProve);
    assert_eq!(s.record_verification(true), Err(ProtocolError::OutOfOrder));
    assert_eq!(s.phase(), Phase::KeysReady);
}

#[test]
fn prove_before_setup_is_refused() {
    let mut s = HostSession::new();
    assert_eq!(s.record_proof(vec![0; 8]), Err(ProtocolError::OutOfOrder));
    assert_eq!(s.phase(), Phase::Start);
}

#[test]
fn setup_twice_is_refused() {
    let mut s = HostSession::new();
    assert_eq!(s.record_setup(), Ok(()));
    assert_eq!(s.record_setup(), Err(ProtocolError::OutOfOrder));
    assert_eq!(s.phase(), Phase::KeysReady);
}

#[test]
fn report_before_verification_is_refused() {
    let s = proved_session(vec![3, 0, 0, 0, 2, 0, 0, 0]);
    assert_eq!(s.next_action(), Action::RunVerify);
    assert_eq!(s.public_values(), Err(ProtocolError::OutOfOrder));
}

#[test]
fn verified_proof_reports_counts() {
    let mut s = proved_session(vec![3, 0, 0, 0, 2, 0, 0, 0]);
    assert_eq!(s.record_verification(true), Ok(()));
    assert_eq!(s.next_action(), Action::Report);
    assert_eq!(s.public_values(), Ok(ProofResult { total_tasks: 3, completed_tasks: 2 }));
}

#[test]
fn rejected_proof_reports_nothing() {
    let mut s = proved_session(vec![3, 0, 0, 0, 2, 0, 0, 0]);
    assert_eq!(s.record_verification(false), Ok(()));
    assert_eq!(s.phase(), Phase::Rejected);
    assert_eq!(s.next_action(), Action::Stop);
    assert_eq!(s.public_values(), Err(ProtocolError::ProofRejected));
    assert_eq!(s.record_verification(true), Err(ProtocolError::OutOfOrder));
    assert_eq!(s.public_values(), Err(ProtocolError::ProofRejected));
}

#[test]
fn prover_failure_is_reported_distinctly() {
    let mut s = HostSession::new();
    assert_eq!(s.record_setup(), Ok(()));
    assert_eq!(s.record_failure(), Ok(()));
    assert_eq!(s.next_action(), Action::Stop);
    assert_eq!(s.public_values(), Err(ProtocolError::ProverFailed));
    assert_eq!(s.record_proof(vec![0; 8]), Err(ProtocolError::OutOfOrder));
}

#[test]
fn failure_after_proof_is_refused() {
    let mut s = proved_session(vec![0; 8]);
    assert_eq!(s.record_failure(), Err(ProtocolError::OutOfOrder));
    assert_eq!(s.phase(), Phase::Proved);
}

#[test]
fn malformed_public_values_are_reported() {
    let mut s = proved_session(vec![1, 2, 3]);
    assert_eq!(s.record_verification(true), Ok(()));
    assert_eq!(s.public_values(), Err(ProtocolError::MalformedPublicValues));
}
