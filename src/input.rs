use vstd::prelude::*;
use vstd::slice::{slice_subrange, slice_to_vec};
use vstd::utf8::{decode_utf8, encode_utf8, valid_utf8};
use crate::task::{count_done, lemma_count_done_bounded, stats_of, ProofResult, Task, TaskList};
use crate::wire::{guest_output, public_values_of};

verus! {

/// The value of the eight little-endian bytes of `b` that start at `pos`.
pub open spec fn le64_at(b: Seq<u8>, pos: int) -> nat {
    (b[pos] as nat) + 0x100 * (b[pos + 1] as nat) + 0x10000 * (b[pos + 2] as nat) + 0x1000000 * (
    b[pos + 3] as nat) + 0x100000000 * (b[pos + 4] as nat) + 0x10000000000 * (b[pos + 5] as nat)
        + 0x1000000000000 * (b[pos + 6] as nat) + 0x100000000000000 * (b[pos + 7] as nat)
}

/// Parses exactly `k` task records that fill all of `b`. A record is the
/// text's byte length as eight little-endian bytes, the text in UTF-8, and
/// one byte for the flag, 0 or 1. A record is given as its text's bytes and
/// its flag.
pub open spec fn parse_records(b: Seq<u8>, k: nat) -> Option<Seq<(Seq<u8>, bool)>>
    decreases k,
{
    if k == 0 {
        if b.len() == 0 {
            Some(Seq::empty())
        } else {
            None
        }
    } else if b.len() < 8 || b.len() < 9 + le64_at(b, 0) {
        None
    } else {
        let n = le64_at(b, 0) as int;
        let text = b.subrange(8, 8 + n);
        let flag = b[8 + n];
        if flag > 1 || !valid_utf8(text) {
            None
        } else {
            match parse_records(b.subrange(9 + n, b.len() as int), (k - 1) as nat) {
                Some(rest) => Some(seq![(text, flag == 1)] + rest),
                None => None,
            }
        }
    }
}

/// Parses a serialized task list: the number of tasks as eight little-endian
/// bytes, then that many records.
pub open spec fn parse_task_list(b: Seq<u8>) -> Option<Seq<(Seq<u8>, bool)>> {
    if b.len() < 8 {
        None
    } else {
        parse_records(b.subrange(8, b.len() as int), le64_at(b, 0))
    }
}

/// The record that stands for a task: its text in UTF-8 and its flag.
pub open spec fn record_of(t: Task) -> (Seq<u8>, bool) {
    (encode_utf8(t.text@), t.done)
}

/// Number of records whose flag is set.
pub open spec fn count_flags(recs: Seq<(Seq<u8>, bool)>) -> nat
    decreases recs.len(),
{
    if recs.len() == 0 {
        0
    } else {
        count_flags(recs.drop_last()) + if recs.last().1 { 1nat } else { 0nat }
    }
}

/// `acc` followed by the records of `rest`, where `rest` parsed.
pub open spec fn prefixed(
    acc: Seq<(Seq<u8>, bool)>,
    rest: Option<Seq<(Seq<u8>, bool)>>,
) -> Option<Seq<(Seq<u8>, bool)>> {
    match rest {
        Some(r) => Some(acc + r),
        None => None,
    }
}

/// Relies on String::from_utf8: it accepts exactly the valid UTF-8 byte
/// sequences and keeps their characters.
#[verifier::external_body]
fn string_from_utf8(v: Vec<u8>) -> (r: Option<String>)
    ensures
        r is Some <==> valid_utf8(v@),
        r is Some ==> r->Some_0@ == decode_utf8(v@),
{
    String::from_utf8(v).ok()
}

fn read_le64(b: &[u8], pos: usize) -> (r: u64)
    requires
        pos + 8 <= b@.len(),
    ensures
        r == le64_at(b@, pos as int),
{
    (b[pos] as u64) + (b[pos + 1] as u64) * 0x100 + (b[pos + 2] as u64) * 0x10000 + (b[pos + 3]
        as u64) * 0x1000000 + (b[pos + 4] as u64) * 0x100000000 + (b[pos + 5] as u64)
        * 0x10000000000 + (b[pos + 6] as u64) * 0x1000000000000 + (b[pos + 7] as u64)
        * 0x100000000000000
}

/// Decodes a serialized task list; `None` where `b` is not one.
pub fn decode_task_list(b: &[u8]) -> (r: Option<TaskList>)
    ensures
        match parse_task_list(b@) {
            None => r is None,
            Some(recs) => r is Some && r->Some_0.tasks@.map_values(|t: Task| record_of(t)) == recs,
        },
{
    if b.len() < 8 {
        return None;
    }
    let count = read_le64(b, 0);
    let mut pos: usize = 8;
    let mut left: u64 = count;
    let mut tasks: Vec<Task> = Vec::new();
    assert(b@.subrange(8, b@.len() as int) =~= b@.subrange(pos as int, b@.len() as int));
    while left > 0
        invariant
            8 <= pos <= b@.len(),
            parse_task_list(b@) == prefixed(
                tasks@.map_values(|t: Task| record_of(t)),
                parse_records(b@.subrange(pos as int, b@.len() as int), left as nat),
            ),
        decreases left,
    {
        let ghost sub = b@.subrange(pos as int, b@.len() as int);
        let rem = b.len() - pos;
        if rem < 8 {
            return None;
        }
        let n = read_le64(b, pos);
        assert(le64_at(sub, 0) == n);
        if n >= (rem - 8) as u64 {
            return None;
        }
        let n = n as usize;
        let flag = b[pos + 8 + n];
        assert(sub[8 + n as int] == flag);
        if flag > 1 {
            return None;
        }
        let text_bytes = slice_to_vec(slice_subrange(b, pos + 8, pos + 8 + n));
        assert(text_bytes@ =~= sub.subrange(8, 8 + n as int));
        let ghost text_seq = text_bytes@;
        let text = match string_from_utf8(text_bytes) {
            Some(s) => s,
            None => {
                return None;
            },
        };
        proof {
            vstd::utf8::decode_utf8_encode_utf8(text_seq);
            assert(sub.subrange(9 + n as int, sub.len() as int) =~= b@.subrange(
                (pos + 9 + n) as int,
                b@.len() as int,
            ));
        }
        let ghost acc = tasks@.map_values(|t: Task| record_of(t));
        tasks.push(Task { text, done: flag == 1 });
        proof {
            let rec = (text_seq, flag == 1);
            assert(tasks@.map_values(|t: Task| record_of(t)) =~= acc.push(rec));
            match parse_records(b@.subrange((pos + 9 + n) as int, b@.len() as int), (left - 1) as nat) {
                Some(rest) => {
                    assert(acc + (seq![rec] + rest) =~= acc.push(rec) + rest);
                },
                None => {},
            }
        }
        pos = pos + 9 + n;
        left = left - 1;
    }
    if pos != b.len() {
        return None;
    }
    proof {
        assert(tasks@.map_values(|t: Task| record_of(t)) + Seq::empty() =~= tasks@.map_values(
            |t: Task| record_of(t),
        ));
    }
    Some(TaskList { tasks })
}

/// The done count of a list is the number of set flags among its records.
pub proof fn lemma_count_done_records(tasks: Seq<Task>)
    ensures
        count_done(tasks) == count_flags(tasks.map_values(|t: Task| record_of(t))),
    decreases tasks.len(),
{
    if tasks.len() > 0 {
        let recs = tasks.map_values(|t: Task| record_of(t));
        assert(recs.drop_last() =~= tasks.drop_last().map_values(|t: Task| record_of(t)));
        lemma_count_done_records(tasks.drop_last());
    }
}

/// The proved computation on its raw input: decodes the serialized task
/// list and returns the public values of its statistics; `None`, and no
/// result at all, where the input is malformed or holds more tasks than a
/// 32-bit count.
pub fn guest_run(input: &[u8]) -> (r: Option<Vec<u8>>)
    ensures
        match parse_task_list(input@) {
            None => r is None,
            Some(recs) => {
                &&& r is Some <==> recs.len() <= u32::MAX
                &&& r is Some ==> r->Some_0@ == public_values_of(
                    ProofResult {
                        total_tasks: recs.len() as u32,
                        completed_tasks: count_flags(recs) as u32,
                    },
                )
            },
        },
{
    let list = match decode_task_list(input) {
        Some(l) => l,
        None => {
            return None;
        },
    };
    if list.tasks.len() > u32::MAX as usize {
        return None;
    }
    proof {
        lemma_count_done_records(list.tasks@);
    }
    Some(guest_output(&list))
}

/// The eight little-endian bytes of `n`.
pub open spec fn le64_bytes(n: nat) -> Seq<u8> {
    let q1 = n / 256;
    let q2 = q1 / 256;
    let q3 = q2 / 256;
    let q4 = q3 / 256;
    let q5 = q4 / 256;
    let q6 = q5 / 256;
    let q7 = q6 / 256;
    seq![
        (n % 256) as u8,
        (q1 % 256) as u8,
        (q2 % 256) as u8,
        (q3 % 256) as u8,
        (q4 % 256) as u8,
        (q5 % 256) as u8,
        (q6 % 256) as u8,
        (q7 % 256) as u8,
    ]
}

/// The bytes of one record.
pub open spec fn record_bytes(rec: (Seq<u8>, bool)) -> Seq<u8> {
    le64_bytes(rec.0.len()) + rec.0 + seq![if rec.1 { 1u8 } else { 0u8 }]
}

/// The bytes of a sequence of records, one after the other.
pub open spec fn records_bytes(recs: Seq<(Seq<u8>, bool)>) -> Seq<u8>
    decreases recs.len(),
{
    if recs.len() == 0 {
        Seq::empty()
    } else {
        records_bytes(recs.drop_last()) + record_bytes(recs.last())
    }
}

/// The serialized form of a task list: its count, then its records.
pub open spec fn task_list_bytes(recs: Seq<(Seq<u8>, bool)>) -> Seq<u8> {
    le64_bytes(recs.len()) + records_bytes(recs)
}

proof fn lemma_le64_bytes(n: nat, rest: Seq<u8>)
    requires
        n <= u64::MAX,
    ensures
        le64_at(le64_bytes(n) + rest, 0) == n,
{
    let b = le64_bytes(n) + rest;
    let q1 = n / 256;
    let q2 = q1 / 256;
    let q3 = q2 / 256;
    let q4 = q3 / 256;
    let q5 = q4 / 256;
    let q6 = q5 / 256;
    let q7 = q6 / 256;
    assert(n == n % 256 + 256 * q1);
    assert(q1 == q1 % 256 + 256 * q2);
    assert(q2 == q2 % 256 + 256 * q3);
    assert(q3 == q3 % 256 + 256 * q4);
    assert(q4 == q4 % 256 + 256 * q5);
    assert(q5 == q5 % 256 + 256 * q6);
    assert(q6 == q6 % 256 + 256 * q7);
    assert(q7 < 256);
    assert(b[7] == q7);
}

proof fn lemma_records_bytes_front(rec: (Seq<u8>, bool), rest: Seq<(Seq<u8>, bool)>)
    ensures
        records_bytes(seq![rec] + rest) == record_bytes(rec) + records_bytes(rest),
    decreases rest.len(),
{
    let all = seq![rec] + rest;
    if rest.len() == 0 {
        assert(all.drop_last() =~= Seq::<(Seq<u8>, bool)>::empty());
        assert(all.last() == rec);
        assert(records_bytes(all) == records_bytes(all.drop_last()) + record_bytes(rec));
        assert(records_bytes(all.drop_last()) == Seq::<u8>::empty());
        assert(records_bytes(rest) == Seq::<u8>::empty());
        assert(Seq::<u8>::empty() + record_bytes(rec) =~= record_bytes(rec) + Seq::<u8>::empty());
    } else {
        assert(all.drop_last() =~= seq![rec] + rest.drop_last());
        lemma_records_bytes_front(rec, rest.drop_last());
        assert(all.last() == rest.last());
        assert(records_bytes(all) == records_bytes(all.drop_last()) + record_bytes(all.last()));
        assert(records_bytes(rest) == records_bytes(rest.drop_last()) + record_bytes(rest.last()));
        assert(record_bytes(rec) + records_bytes(rest.drop_last()) + record_bytes(rest.last())
            =~= record_bytes(rec) + (records_bytes(rest.drop_last()) + record_bytes(rest.last())));
    }
}

/// The first record of `b`, where `b` starts with the bytes of `rec`.
proof fn lemma_parse_first_record(rec: (Seq<u8>, bool), tail: Seq<u8>)
    requires
        rec.0.len() <= u64::MAX,
    ensures
        ({
            let b = record_bytes(rec) + tail;
            let n = rec.0.len() as int;
            &&& b.len() >= 9 + n
            &&& le64_at(b, 0) == n
            &&& b.subrange(8, 8 + n) == rec.0
            &&& b[8 + n] == if rec.1 { 1u8 } else { 0u8 }
            &&& b.subrange(9 + n, b.len() as int) == tail
        }),
{
    let flag = seq![if rec.1 { 1u8 } else { 0u8 }];
    let b = record_bytes(rec) + tail;
    let n = rec.0.len() as int;
    assert(b =~= le64_bytes(rec.0.len()) + (rec.0 + flag + tail));
    lemma_le64_bytes(rec.0.len(), rec.0 + flag + tail);
    assert(b.subrange(8, 8 + n) =~= rec.0);
    assert(b.subrange(9 + n, b.len() as int) =~= tail);
}

/// Records whose texts are valid UTF-8 parse back from their bytes.
proof fn lemma_parse_records_bytes(recs: Seq<(Seq<u8>, bool)>)
    requires
        forall|i: int| 0 <= i < recs.len() ==> valid_utf8(#[trigger] recs[i].0),
        forall|i: int| 0 <= i < recs.len() ==> #[trigger] recs[i].0.len() <= u64::MAX,
    ensures
        parse_records(records_bytes(recs), recs.len()) == Some(recs),
    decreases recs.len(),
{
    if recs.len() > 0 {
        let rec = recs[0];
        let rest = recs.drop_first();
        assert(recs =~= seq![rec] + rest);
        lemma_records_bytes_front(rec, rest);
        lemma_parse_first_record(rec, records_bytes(rest));
        assert forall|i: int| 0 <= i < rest.len() implies valid_utf8(#[trigger] rest[i].0)
            && rest[i].0.len() <= u64::MAX by {
            assert(rest[i] == recs[i + 1]);
        }
        lemma_parse_records_bytes(rest);
        assert(seq![(rec.0, rec.1)] + rest =~= recs);
    }
}

/// Decoding the serialized form of a task list gives its records back.
pub proof fn lemma_parse_task_list_bytes(recs: Seq<(Seq<u8>, bool)>)
    requires
        recs.len() <= u64::MAX,
        forall|i: int| 0 <= i < recs.len() ==> valid_utf8(#[trigger] recs[i].0),
        forall|i: int| 0 <= i < recs.len() ==> #[trigger] recs[i].0.len() <= u64::MAX,
    ensures
        parse_task_list(task_list_bytes(recs)) == Some(recs),
{
    let b = task_list_bytes(recs);
    lemma_le64_bytes(recs.len(), records_bytes(recs));
    assert(b.subrange(8, b.len() as int) =~= records_bytes(recs));
    lemma_parse_records_bytes(recs);
}

/// The proved computation agrees with the standalone statistics: the
/// serialized form of a list parses back to the list's records, whose number
/// is the list's total and whose set flags number its completed tasks.
pub proof fn lemma_guest_matches_stats(tasks: Seq<Task>)
    requires
        tasks.len() <= u32::MAX,
        forall|i: int| 0 <= i < tasks.len() ==> #[trigger] encode_utf8(tasks[i].text@).len() <= u64::MAX,
    ensures
        ({
            let recs = tasks.map_values(|t: Task| record_of(t));
            &&& parse_task_list(task_list_bytes(recs)) == Some(recs)
            &&& recs.len() == stats_of(tasks).0
            &&& count_flags(recs) == stats_of(tasks).1
            &&& count_flags(recs) <= recs.len()
        }),
{
    let recs = tasks.map_values(|t: Task| record_of(t));
    assert forall|k: int| 0 <= k < recs.len() implies valid_utf8(#[trigger] recs[k].0)
        && recs[k].0.len() <= u64::MAX by {
        vstd::utf8::encode_utf8_valid_utf8(tasks[k].text@);
    }
    lemma_parse_task_list_bytes(recs);
    lemma_count_done_records(tasks);
    lemma_count_done_bounded(tasks);
}

fn push_le64(out: &mut Vec<u8>, n: u64)
    ensures
        final(out)@ == old(out)@ + le64_bytes(n as nat),
{
    let q1 = n / 256;
    let q2 = q1 / 256;
    let q3 = q2 / 256;
    let q4 = q3 / 256;
    let q5 = q4 / 256;
    let q6 = q5 / 256;
    let q7 = q6 / 256;
    out.push((n % 256) as u8);
    out.push((q1 % 256) as u8);
    out.push((q2 % 256) as u8);
    out.push((q3 % 256) as u8);
    out.push((q4 % 256) as u8);
    out.push((q5 % 256) as u8);
    out.push((q6 % 256) as u8);
    out.push((q7 % 256) as u8);
    assert(final(out)@ =~= old(out)@ + le64_bytes(n as nat));
}

fn push_bytes(out: &mut Vec<u8>, b: &[u8])
    ensures
        final(out)@ == old(out)@ + b@,
{
    let mut i: usize = 0;
    while i < b.len()
        invariant
            i <= b@.len(),
            out@ == old(out)@ + b@.subrange(0, i as int),
        decreases b@.len() - i,
    {
        out.push(b[i]);
        i = i + 1;
        assert(out@ =~= old(out)@ + b@.subrange(0, i as int));
    }
    assert(b@.subrange(0, i as int) =~= b@);
}

/// Serializes a task list for the proved computation's input: the number
/// of tasks, then for each task its text's byte length, its text in UTF-8
/// and its flag. Decoding the result gives the list's records back.
pub fn encode_task_list(tasks: &Vec<Task>) -> (out: Vec<u8>)
    ensures
        out@ == task_list_bytes(tasks@.map_values(|t: Task| record_of(t))),
        parse_task_list(out@) == Some(tasks@.map_values(|t: Task| record_of(t))),
{
    let ghost recs = tasks@.map_values(|t: Task| record_of(t));
    let mut out: Vec<u8> = Vec::new();
    push_le64(&mut out, tasks.len() as u64);
    let mut i: usize = 0;
    while i < tasks.len()
        invariant
            i <= tasks@.len(),
            recs == tasks@.map_values(|t: Task| record_of(t)),
            out@ == le64_bytes(tasks@.len()) + records_bytes(recs.subrange(0, i as int)),
            forall|k: int| 0 <= k < i ==> #[trigger] recs[k].0.len() <= u64::MAX,
        decreases tasks@.len() - i,
    {
        let text = tasks[i].text.as_str().as_bytes();
        let ghost before = out@;
        push_le64(&mut out, text.len() as u64);
        push_bytes(&mut out, text);
        out.push(if tasks[i].done { 1u8 } else { 0u8 });
        proof {
            let sub = recs.subrange(0, i as int + 1);
            assert(sub.drop_last() =~= recs.subrange(0, i as int));
            assert(sub.last() == record_of(tasks@[i as int]));
            assert(out@ =~= before + record_bytes(sub.last()));
        }
        i = i + 1;
    }
    proof {
        assert(recs.subrange(0, i as int) =~= recs);
        assert forall|k: int| 0 <= k < recs.len() implies valid_utf8(#[trigger] recs[k].0)
            && recs[k].0.len() <= u64::MAX by {
            vstd::utf8::encode_utf8_valid_utf8(tasks@[k].text@);
        }
        lemma_parse_task_list_bytes(recs);
    }
    out
}

} // verus!
