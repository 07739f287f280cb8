use vstd::prelude::*;
use sha2::Digest;
use crate::task::{count_done, Task};

verus! {

/// SHA-256 of a byte sequence.
pub uninterp spec fn sha256_of(data: Seq<u8>) -> Seq<u8>;

/// ASCII decimal digits of `n`, most significant first, without leading zeros.
pub open spec fn decimal(n: nat) -> Seq<u8>
    decreases n,
{
    if n < 10 {
        seq![(48 + n) as u8]
    } else {
        decimal(n / 10).push((48 + n % 10) as u8)
    }
}

/// The bytes that the digest commits to: both counts in decimal, concatenated.
pub open spec fn digest_input_of(total: u32, completed: u32) -> Seq<u8> {
    decimal(total as nat) + decimal(completed as nat)
}

/// The digest of a pair of counts.
pub open spec fn digest_of(total: u32, completed: u32) -> Seq<u8> {
    sha256_of(digest_input_of(total, completed))
}

/// Statistics of a task list together with the digest of the counts.
pub struct TaskProof {
    pub total_tasks: u32,
    pub completed_tasks: u32,
    pub proof_hash: [u8; 32],
}

/// Why a task list could not be summarised.
#[derive(Clone, Copy, Debug, PartialEq, Eq, Structural)]
pub enum TaskError {
    /// The list has more tasks than a 32-bit count can hold.
    TooManyTasks,
}

/// Relies on sha2::Sha256::digest: the 32-byte SHA-256 of `data`.
#[verifier::external_body]
fn sha256(data: &[u8]) -> (r: [u8; 32])
    ensures
        r@ == sha256_of(data@),
{
    sha2::Sha256::digest(data).into()
}

/// ASCII decimal digits of `n`.
pub fn decimal_bytes(n: u32) -> (r: Vec<u8>)
    ensures
        r@ == decimal(n as nat),
    decreases n,
{
    if n < 10 {
        vec![48u8 + n as u8]
    } else {
        let mut v = decimal_bytes(n / 10);
        v.push(48u8 + (n % 10) as u8);
        v
    }
}

/// The bytes that the digest of `(total, completed)` is taken over.
pub fn digest_input(total: u32, completed: u32) -> (r: Vec<u8>)
    ensures
        r@ == digest_input_of(total, completed),
{
    let mut v = decimal_bytes(total);
    let mut w = decimal_bytes(completed);
    v.append(&mut w);
    v
}

/// The binding digest of a pair of counts.
pub fn stats_digest(total: u32, completed: u32) -> (r: [u8; 32])
    ensures
        r@ == digest_of(total, completed),
{
    let input = digest_input(total, completed);
    sha256(input.as_slice())
}

/// Summarises `tasks`: total and completed counts, and the digest of the two.
pub fn process_tasks(tasks: &Vec<Task>) -> (r: Result<TaskProof, TaskError>)
    ensures
        r is Err <==> tasks@.len() > u32::MAX,
        r is Err ==> r->Err_0 == TaskError::TooManyTasks,
        r matches Ok(p) ==> {
            &&& p.total_tasks == tasks@.len()
            &&& p.completed_tasks == count_done(tasks@)
            &&& p.proof_hash@ == digest_of(p.total_tasks, p.completed_tasks)
        },
{
    if tasks.len() > u32::MAX as usize {
        return Err(TaskError::TooManyTasks);
    }
    let stats = crate::task::task_stats(tasks);
    let proof_hash = stats_digest(stats.total_tasks, stats.completed_tasks);
    Ok(TaskProof {
        total_tasks: stats.total_tasks,
        completed_tasks: stats.completed_tasks,
        proof_hash,
    })
}

/// The digest of a pair of counts is fixed by the pair: two pairs whose
/// decimal concatenations agree, the same pair above all, have the same digest.
pub proof fn lemma_digest_deterministic(t1: u32, c1: u32, t2: u32, c2: u32)
    requires
        digest_input_of(t1, c1) == digest_input_of(t2, c2),
    ensures
        digest_of(t1, c1) == digest_of(t2, c2),
{
}

} // verus!
