use vstd::prelude::*;
use crate::task::ProofResult;
use crate::wire::{decode_public_values, result_of_public_values};

verus! {

/// Where a host session stands in the setup, prove, verify sequence.
#[derive(Clone, Copy, Debug, PartialEq, Eq, Structural)]
pub enum Phase {
    /// Nothing done yet.
    Start,
    /// The proving and verification keys exist.
    KeysReady,
    /// A proof was produced and awaits verification.
    Proved,
    /// The proof was checked against the verification key and holds.
    Verified,
    /// The proof failed verification: its claim is not trusted.
    Rejected,
    /// Setup or proving failed.
    Failed,
}

/// What the host has to do next.
#[derive(Clone, Copy, Debug, PartialEq, Eq, Structural)]
pub enum Action {
    RunSetup,
    RunProve,
    RunVerify,
    Report,
    Stop,
}

/// Why a session refused a step or has nothing to report.
#[derive(Clone, Copy, Debug, PartialEq, Eq, Structural)]
pub enum ProtocolError {
    /// The step does not follow the setup, prove, verify order.
    OutOfOrder,
    /// The proof failed verification.
    ProofRejected,
    /// Setup or proving failed.
    ProverFailed,
    /// The verified public values are not a pair of 32-bit counts.
    MalformedPublicValues,
}

/// The state of a session: its phase and the public values of its proof.
pub struct SessionView {
    pub phase: Phase,
    pub public_values: Seq<u8>,
}

/// The host side of one prove/verify run.
pub struct HostSession {
    phase: Phase,
    public_values: Vec<u8>,
}

impl View for HostSession {
    type V = SessionView;

    closed spec fn view(&self) -> SessionView {
        SessionView { phase: self.phase, public_values: self.public_values@ }
    }
}

/// The state of a new session.
pub open spec fn initial_view() -> SessionView {
    SessionView { phase: Phase::Start, public_values: Seq::empty() }
}

/// The action that a session in state `v` asks for.
pub open spec fn action_of(v: SessionView) -> Action {
    match v.phase {
        Phase::Start => Action::RunSetup,
        Phase::KeysReady => Action::RunProve,
        Phase::Proved => Action::RunVerify,
        Phase::Verified => Action::Report,
        _ => Action::Stop,
    }
}

/// The state after setup succeeded, or `None` where setup is out of order.
pub open spec fn setup_step(v: SessionView) -> Option<SessionView> {
    if v.phase == Phase::Start {
        Some(SessionView { phase: Phase::KeysReady, ..v })
    } else {
        None
    }
}

/// The state after a proof with public values `pv` was produced, or `None`
/// where proving is out of order.
pub open spec fn proof_step(v: SessionView, pv: Seq<u8>) -> Option<SessionView> {
    if v.phase == Phase::KeysReady {
        Some(SessionView { phase: Phase::Proved, public_values: pv })
    } else {
        None
    }
}

/// The state after setup or proving failed, or `None` where neither was due.
pub open spec fn failure_step(v: SessionView) -> Option<SessionView> {
    if v.phase == Phase::Start || v.phase == Phase::KeysReady {
        Some(SessionView { phase: Phase::Failed, ..v })
    } else {
        None
    }
}

/// The state after the proof was checked with outcome `valid`, or `None`
/// where there is no proof to check.
pub open spec fn verification_step(v: SessionView, valid: bool) -> Option<SessionView> {
    if v.phase == Phase::Proved {
        Some(SessionView { phase: if valid { Phase::Verified } else { Phase::Rejected }, ..v })
    } else {
        None
    }
}

/// What a session in state `v` may report.
pub open spec fn report_of(v: SessionView) -> Result<ProofResult, ProtocolError> {
    match v.phase {
        Phase::Verified => if v.public_values.len() == 8 {
            Ok(result_of_public_values(v.public_values))
        } else {
            Err(ProtocolError::MalformedPublicValues)
        },
        Phase::Rejected => Err(ProtocolError::ProofRejected),
        Phase::Failed => Err(ProtocolError::ProverFailed),
        _ => Err(ProtocolError::OutOfOrder),
    }
}

/// The outcome of a step method: the new state where the step was in order,
/// else `OutOfOrder` and the state unchanged.
pub open spec fn stepped(
    step: Option<SessionView>,
    before: SessionView,
    after: SessionView,
    r: Result<(), ProtocolError>,
) -> bool {
    match step {
        Some(w) => r is Ok && after == w,
        None => r == Err::<(), ProtocolError>(ProtocolError::OutOfOrder) && after == before,
    }
}

/// Counts are reported only from a verified proof, and a proof is checked only
/// once it exists: verification is refused in every phase but `Proved`, and a
/// report is refused in every phase but `Verified`.
pub proof fn lemma_report_needs_verification(v: SessionView, valid: bool)
    ensures
        verification_step(v, valid) is Some <==> v.phase == Phase::Proved,
        report_of(v) is Ok ==> v.phase == Phase::Verified,
        v.phase != Phase::Verified ==> report_of(v) is Err,
{
}

/// A run in order from a new session: verification and reporting before the
/// proof are refused; after setup, a proof with public values `pv` and a
/// successful verification, the report is the counts that `pv` encodes; after
/// a failed verification it is `ProofRejected`.
pub proof fn lemma_protocol_run(pv: Seq<u8>, valid: bool)
    requires
        pv.len() == 8,
    ensures
        verification_step(initial_view(), valid) is None,
        report_of(initial_view()) == Err::<ProofResult, ProtocolError>(ProtocolError::OutOfOrder),
        ({
            let keys = setup_step(initial_view())->Some_0;
            let proved = proof_step(keys, pv)->Some_0;
            let checked = verification_step(proved, valid)->Some_0;
            &&& setup_step(initial_view()) is Some
            &&& verification_step(keys, valid) is None
            &&& report_of(keys) == Err::<ProofResult, ProtocolError>(ProtocolError::OutOfOrder)
            &&& proof_step(keys, pv) is Some
            &&& report_of(proved) == Err::<ProofResult, ProtocolError>(ProtocolError::OutOfOrder)
            &&& verification_step(proved, valid) is Some
            &&& valid ==> report_of(checked) == Ok::<ProofResult, ProtocolError>(
                result_of_public_values(pv),
            )
            &&& !valid ==> report_of(checked) == Err::<ProofResult, ProtocolError>(
                ProtocolError::ProofRejected,
            )
        }),
{
}

impl HostSession {
    /// A session in which nothing has been done yet.
    pub fn new() -> (s: HostSession)
        ensures
            s@ == initial_view(),
    {
        HostSession { phase: Phase::Start, public_values: Vec::new() }
    }

    /// The current phase.
    pub fn phase(&self) -> (p: Phase)
        ensures
            p == self@.phase,
    {
        self.phase
    }

    /// The step that the host has to perform next.
    pub fn next_action(&self) -> (a: Action)
        ensures
            a == action_of(self@),
    {
        match self.phase {
            Phase::Start => Action::RunSetup,
            Phase::KeysReady => Action::RunProve,
            Phase::Proved => Action::RunVerify,
            Phase::Verified => Action::Report,
            _ => Action::Stop,
        }
    }

    /// Records that setup produced the keys.
    pub fn record_setup(&mut self) -> (r: Result<(), ProtocolError>)
        ensures
            stepped(setup_step(old(self)@), old(self)@, final(self)@, r),
    {
        if self.phase == Phase::Start {
            self.phase = Phase::KeysReady;
            Ok(())
        } else {
            Err(ProtocolError::OutOfOrder)
        }
    }

    /// Records that a proof was produced, with the public values it commits to.
    pub fn record_proof(&mut self, public_values: Vec<u8>) -> (r: Result<(), ProtocolError>)
        ensures
            stepped(proof_step(old(self)@, public_values@), old(self)@, final(self)@, r),
    {
        if self.phase == Phase::KeysReady {
            self.phase = Phase::Proved;
            self.public_values = public_values;
            Ok(())
        } else {
            Err(ProtocolError::OutOfOrder)
        }
    }

    /// Records that setup or proving failed.
    pub fn record_failure(&mut self) -> (r: Result<(), ProtocolError>)
        ensures
            stepped(failure_step(old(self)@), old(self)@, final(self)@, r),
    {
        if self.phase == Phase::Start || self.phase == Phase::KeysReady {
            self.phase = Phase::Failed;
            Ok(())
        } else {
            Err(ProtocolError::OutOfOrder)
        }
    }

    /// Records the outcome of checking the proof against the verification key.
    pub fn record_verification(&mut self, valid: bool) -> (r: Result<(), ProtocolError>)
        ensures
            stepped(verification_step(old(self)@, valid), old(self)@, final(self)@, r),
    {
        if self.phase == Phase::Proved {
            self.phase = if valid { Phase::Verified } else { Phase::Rejected };
            Ok(())
        } else {
            Err(ProtocolError::OutOfOrder)
        }
    }

    /// The committed counts, available only once the proof has been verified.
    pub fn public_values(&self) -> (r: Result<ProofResult, ProtocolError>)
        ensures
            r == report_of(self@),
    {
        match self.phase {
            Phase::Verified => match decode_public_values(self.public_values.as_slice()) {
                Some(res) => Ok(res),
                None => Err(ProtocolError::MalformedPublicValues),
            },
            Phase::Rejected => Err(ProtocolError::ProofRejected),
            Phase::Failed => Err(ProtocolError::ProverFailed),
            _ => Err(ProtocolError::OutOfOrder),
        }
    }
}

} // verus!
