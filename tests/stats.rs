use sha2::Digest;
use trackflow::digest::{decimal_bytes, digest_input, process_tasks, stats_digest};
use trackflow::task::{task_stats, ProofResult, Task, TaskList};
use trackflow::wire::{decode_public_values, encode_public_values, guest_output};

fn task(text: &str, done: bool) -> Task {
    Task { text: text.to_string(), done }
}

fn sample() -> Vec<Task> {
    vec![task("a", true), task("b", false), task("c", true)]
}

#[test]
fn empty_list_has_zero_counts() {
    let r = task_stats(&Vec::new());
    assert_eq!(r, ProofResult { total_tasks: 0, completed_tasks: 0 });
}

#[test]
fn three_tasks_two_done() {
    let r = task_stats(&sample());
    assert_eq!(r.total_tasks, 3);
    assert_eq!(r.completed_tasks, 2);
}

#[test]
fn total_is_length_and_completed_bounded() {
    let tasks = vec![task("", false), task("x", false), task("y", true), task("z", false)];
    let r = task_stats(&tasks);
    assert_eq!(r.total_tasks as usize, tasks.len());
    assert!(r.completed_tasks <= r.total_tasks);
    assert_eq!(r.completed_tasks, 1);
}

#[test]
fn all_done_counts_every_task() {
    let tasks = vec![task("p", true), task("q", true)];
    assert_eq!(task_stats(&tasks), ProofResult { total_tasks: 2, completed_tasks: 2 });
}

#[test]
fn stats_repeat_and_ignore_text() {
    let first = task_stats(&sample());
    let second = task_stats(&sample());
    assert_eq!(first, second);
    let renamed = vec![task("other", true), task("", false), task("long text", true)];
    assert_eq!(task_stats(&renamed), first);
}

#[test]
fn decimal_digits() {
    assert_eq!(decimal_bytes(0), b"0".to_vec());
    assert_eq!(decimal_bytes(7), b"7".to_vec());
    assert_eq!(decimal_bytes(105), b"105".to_vec());
    assert_eq!(decimal_bytes(u32::MAX), b"4294967295".to_vec());
}

#[test]
fn digest_input_concatenates_counts() {
    assert_eq!(digest_input(0, 0), b"00".to_vec());
    assert_eq!(digest_input(3, 2), b"32".to_vec());
    assert_eq!(digest_input(12, 3), digest_input(1, 23));
}

#[test]
fn empty_list_digest_is_hash_of_00() {
    let p = process_tasks(&Vec::new()).unwrap();
    assert_eq!(p.total_tasks, 0);
    assert_eq!(p.completed_tasks, 0);
    let expected: [u8; 32] = sha2::Sha256::digest(b"00").into();
    assert_eq!(p.proof_hash, expected);
}

#[test]
fn sample_list_digest_is_hash_of_32() {
    let p = process_tasks(&sample()).unwrap();
    assert_eq!((p.total_tasks, p.completed_tasks), (3, 2));
    let expected: [u8; 32] = sha2::Sha256::digest(b"32").into();
    assert_eq!(p.proof_hash, expected);
    assert_ne!(p.proof_hash.to_vec(), b"32".to_vec());
}

#[test]
fn digest_is_deterministic_and_separates_pairs() {
    assert_eq!(stats_digest(3, 2), stats_digest(3, 2));
    assert_ne!(stats_digest(3, 2), stats_digest(2, 3));
    assert_ne!(stats_digest(0, 0), stats_digest(1, 0));
}

#[test]
fn known_sha256_of_00() {
    let d = stats_digest(0, 0);
    assert_eq!(d[0], 0xf1);
    assert_eq!(d[1], 0x53);
}

#[test]
fn public_values_round_trip() {
    let r = ProofResult { total_tasks: 0x0102_0304, completed_tasks: 5 };
    let bytes = encode_public_values(&r);
    assert_eq!(bytes, vec![4, 3, 2, 1, 5, 0, 0, 0]);
    assert_eq!(decode_public_values(&bytes), Some(r));
}

#[test]
fn public_values_of_wrong_length_are_refused() {
    assert_eq!(decode_public_values(&[]), None);
    assert_eq!(decode_public_values(&[1, 2, 3, 4, 5, 6, 7]), None);
    assert_eq!(decode_public_values(&[0; 9]), None);
}

#[test]
fn guest_output_commits_counts() {
    let input = TaskList { tasks: sample() };
    assert_eq!(guest_output(&input), vec![3, 0, 0, 0, 2, 0, 0, 0]);
    let empty = TaskList { tasks: Vec::new() };
    assert_eq!(guest_output(&empty), vec![0; 8]);
}
