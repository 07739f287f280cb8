use trackflow::input::{decode_task_list, encode_task_list, guest_run};
use trackflow::task::Task;

fn task(text: &str, done: bool) -> Task {
    Task { text: text.to_string(), done }
}

fn sample() -> Vec<Task> {
    vec![task("a", true), task("b", false), task("c", true)]
}

#[test]
fn empty_list_encodes_as_zero_count() {
    assert_eq!(encode_task_list(&Vec::new()), vec![0; 8]);
}

#[test]
fn single_task_layout() {
    let bytes = encode_task_list(&vec![task("hi", true)]);
    assert_eq!(bytes, vec![1, 0, 0, 0, 0, 0, 0, 0, 2, 0, 0, 0, 0, 0, 0, 0, b'h', b'i', 1]);
}

#[test]
fn encoded_list_decodes_back() {
    let tasks = vec![task("a", true), task("", false), task("héllo ✓", true)];
    let decoded = decode_task_list(&encode_task_list(&tasks)).unwrap();
    assert_eq!(decoded.tasks.len(), 3);
    for (d, t) in decoded.tasks.iter().zip(tasks.iter()) {
        assert_eq!(d.text, t.text);
        assert_eq!(d.done, t.done);
    }
}

#[test]
fn guest_on_sample_commits_three_and_two() {
    let out = guest_run(&encode_task_list(&sample())).unwrap();
    assert_eq!(out, vec![3, 0, 0, 0, 2, 0, 0, 0]);
}

#[test]
fn guest_on_empty_list_commits_zeros() {
    assert_eq!(guest_run(&encode_task_list(&Vec::new())), Some(vec![0; 8]));
}

#[test]
fn malformed_input_produces_no_result() {
    assert_eq!(guest_run(b"not a task list"), None);
    assert_eq!(guest_run(&[]), None);
    assert_eq!(guest_run(&[1, 0, 0]), None);
    assert!(decode_task_list(b"[{\"text\":\"a\",\"done\":true}]").is_none());
}

#[test]
fn truncated_input_is_refused() {
    let bytes = encode_task_list(&sample());
    for cut in 0..bytes.len() {
        assert_eq!(guest_run(&bytes[..cut]), None, "cut at {}", cut);
    }
}

#[test]
fn trailing_bytes_are_refused() {
    let mut bytes = encode_task_list(&sample());
    bytes.push(0);
    assert_eq!(guest_run(&bytes), None);
}

#[test]
fn flag_other_than_zero_or_one_is_refused() {
    let mut bytes = encode_task_list(&vec![task("x", false)]);
    let last = bytes.len() - 1;
    bytes[last] = 2;
    assert!(decode_task_list(&bytes).is_none());
}

#[test]
fn invalid_utf8_text_is_refused() {
    let bytes = vec![1, 0, 0, 0, 0, 0, 0, 0, 1, 0, 0, 0, 0, 0, 0, 0, 0xff, 0];
    assert!(decode_task_list(&bytes).is_none());
}

#[test]
fn oversized_text_length_is_refused() {
    let bytes = vec![1, 0, 0, 0, 0, 0, 0, 0, 0xff, 0xff, 0xff, 0xff, 0xff, 0xff, 0xff, 0xff, 0];
    assert!(decode_task_list(&bytes).is_none());
}
