use vstd::prelude::*;
use crate::task::{count_done, task_stats, ProofResult, TaskList};

verus! {

/// Little-endian bytes of a 32-bit value.
pub open spec fn le32(n: u32) -> Seq<u8> {
    seq![
        (n & 0xff) as u8,
        ((n >> 8u32) & 0xff) as u8,
        ((n >> 16u32) & 0xff) as u8,
        (n >> 24u32) as u8,
    ]
}

/// The 32-bit value whose little-endian bytes are `b0 b1 b2 b3`.
pub open spec fn from_le32(b0: u8, b1: u8, b2: u8, b3: u8) -> u32 {
    (b0 as u32) | ((b1 as u32) << 8u32) | ((b2 as u32) << 16u32) | ((b3 as u32) << 24u32)
}

/// The public values that a result is committed as: total, then completed.
pub open spec fn public_values_of(r: ProofResult) -> Seq<u8> {
    le32(r.total_tasks) + le32(r.completed_tasks)
}

/// The result that eight bytes of public values stand for.
pub open spec fn result_of_public_values(b: Seq<u8>) -> ProofResult
    recommends
        b.len() == 8,
{
    ProofResult {
        total_tasks: from_le32(b[0], b[1], b[2], b[3]),
        completed_tasks: from_le32(b[4], b[5], b[6], b[7]),
    }
}

proof fn lemma_le32_bytes(n: u32)
    ensures
        from_le32(
            (n & 0xff) as u8,
            ((n >> 8u32) & 0xff) as u8,
            ((n >> 16u32) & 0xff) as u8,
            (n >> 24u32) as u8,
        ) == n,
{
    assert(((n & 0xff) as u8) as u32 | (((((n >> 8u32) & 0xff) as u8) as u32) << 8u32) | (
    ((((n >> 16u32) & 0xff) as u8) as u32) << 16u32) | ((((n >> 24u32) as u8) as u32) << 24u32)
        == n) by (bit_vector);
}

proof fn lemma_from_le32_bytes(b0: u8, b1: u8, b2: u8, b3: u8)
    ensures
        le32(from_le32(b0, b1, b2, b3)) == seq![b0, b1, b2, b3],
{
    let n = from_le32(b0, b1, b2, b3);
    assert((n & 0xff) as u8 == b0 && ((n >> 8u32) & 0xff) as u8 == b1 && ((n >> 16u32)
        & 0xff) as u8 == b2 && (n >> 24u32) as u8 == b3) by (bit_vector)
        requires
            n == (b0 as u32) | ((b1 as u32) << 8u32) | ((b2 as u32) << 16u32) | ((b3 as u32)
                << 24u32),
    ;
    assert(le32(n) =~= seq![b0, b1, b2, b3]);
}

fn push_le32(out: &mut Vec<u8>, n: u32)
    ensures
        final(out)@ == old(out)@ + le32(n),
{
    out.push((n & 0xff) as u8);
    out.push(((n >> 8) & 0xff) as u8);
    out.push(((n >> 16) & 0xff) as u8);
    out.push((n >> 24) as u8);
    assert(final(out)@ =~= old(out)@ + le32(n));
}

/// Encodes a result as the public values of a proof.
pub fn encode_public_values(r: &ProofResult) -> (out: Vec<u8>)
    ensures
        out@ == public_values_of(*r),
{
    let mut out: Vec<u8> = Vec::new();
    push_le32(&mut out, r.total_tasks);
    push_le32(&mut out, r.completed_tasks);
    assert(out@ =~= public_values_of(*r));
    out
}

/// Reads a result back from the public values of a proof; `None` unless
/// there are exactly eight bytes.
pub fn decode_public_values(b: &[u8]) -> (r: Option<ProofResult>)
    ensures
        r is Some <==> b@.len() == 8,
        r is Some ==> r->Some_0 == result_of_public_values(b@),
{
    if b.len() != 8 {
        return None;
    }
    Some(ProofResult {
        total_tasks: (b[0] as u32) | ((b[1] as u32) << 8) | ((b[2] as u32) << 16) | ((b[3] as u32) << 24),
        completed_tasks: (b[4] as u32) | ((b[5] as u32) << 8) | ((b[6] as u32) << 16) | ((b[7] as u32) << 24),
    })
}

/// The computation that is proved: the statistics of the private task list,
/// written out as public values.
pub fn guest_output(input: &TaskList) -> (out: Vec<u8>)
    requires
        input.tasks@.len() <= u32::MAX,
    ensures
        out@ == public_values_of(
            ProofResult {
                total_tasks: input.tasks@.len() as u32,
                completed_tasks: count_done(input.tasks@) as u32,
            },
        ),
{
    let stats = task_stats(&input.tasks);
    encode_public_values(&stats)
}

/// Decoding the public values of a result gives the result back.
pub proof fn lemma_decode_encode(r: ProofResult)
    ensures
        public_values_of(r).len() == 8,
        result_of_public_values(public_values_of(r)) == r,
{
    lemma_le32_bytes(r.total_tasks);
    lemma_le32_bytes(r.completed_tasks);
}

/// Any eight bytes of public values are the encoding of the result they decode to.
pub proof fn lemma_encode_decode(b: Seq<u8>)
    requires
        b.len() == 8,
    ensures
        public_values_of(result_of_public_values(b)) == b,
{
    lemma_from_le32_bytes(b[0], b[1], b[2], b[3]);
    lemma_from_le32_bytes(b[4], b[5], b[6], b[7]);
    assert(public_values_of(result_of_public_values(b)) =~= b);
}

} // verus!
