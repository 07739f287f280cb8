use vstd::prelude::*;

verus! {

/// One entry of a task list; only `done` affects the statistics.
pub struct Task {
    pub text: String,
    pub done: bool,
}

/// An ordered list of tasks, as read by the proved computation.
pub struct TaskList {
    pub tasks: Vec<Task>,
}

/// The public output of the proved computation.
#[derive(Clone, Copy, Debug, PartialEq, Eq, Structural)]
pub struct ProofResult {
    pub total_tasks: u32,
    pub completed_tasks: u32,
}

/// Number of tasks in `s` whose `done` flag is set.
pub open spec fn count_done(s: Seq<Task>) -> nat
    decreases s.len(),
{
    if s.len() == 0 {
        0
    } else {
        count_done(s.drop_last()) + if s.last().done { 1nat } else { 0nat }
    }
}

/// The statistics of a task sequence: its length and the number of done tasks.
pub open spec fn stats_of(s: Seq<Task>) -> (nat, nat) {
    (s.len(), count_done(s))
}

/// Computes the total and completed counts of `tasks`.
pub fn task_stats(tasks: &Vec<Task>) -> (r: ProofResult)
    requires
        tasks@.len() <= u32::MAX,
    ensures
        r.total_tasks == tasks@.len(),
        r.completed_tasks == count_done(tasks@),
{
    let mut completed: u32 = 0;
    let mut i: usize = 0;
    while i < tasks.len()
        invariant
            i <= tasks@.len(),
            tasks@.len() <= u32::MAX,
            completed == count_done(tasks@.subrange(0, i as int)),
        decreases tasks@.len() - i,
    {
        proof {
            lemma_count_done_bounded(tasks@.subrange(0, i as int));
            assert(tasks@.subrange(0, i as int + 1).drop_last() =~= tasks@.subrange(0, i as int));
        }
        if tasks[i].done {
            completed = completed + 1;
        }
        i = i + 1;
    }
    assert(tasks@.subrange(0, i as int) =~= tasks@);
    ProofResult { total_tasks: tasks.len() as u32, completed_tasks: completed }
}

/// The completed count never exceeds the number of tasks.
pub proof fn lemma_count_done_bounded(s: Seq<Task>)
    ensures
        count_done(s) <= s.len(),
    decreases s.len(),
{
    if s.len() > 0 {
        lemma_count_done_bounded(s.drop_last());
    }
}

/// The statistics of a list: the total is its length and the completed count
/// lies between zero and the total.
pub proof fn lemma_stats_bounds(s: Seq<Task>)
    ensures
        stats_of(s).0 == s.len(),
        0 <= stats_of(s).1 <= stats_of(s).0,
{
    lemma_count_done_bounded(s);
}

/// The statistics are a function of the `done` flags alone: two lists of the
/// same length with the same flags, position by position, have the same
/// statistics, whatever their texts; in particular a list always has the same
/// statistics.
pub proof fn lemma_stats_depend_on_flags(a: Seq<Task>, b: Seq<Task>)
    requires
        a.len() == b.len(),
        forall|i: int| 0 <= i < a.len() ==> #[trigger] a[i].done == b[i].done,
    ensures
        stats_of(a) == stats_of(b),
    decreases a.len(),
{
    if a.len() > 0 {
        let (a1, b1) = (a.drop_last(), b.drop_last());
        assert forall|i: int| 0 <= i < a1.len() implies #[trigger] a1[i].done == b1[i].done by {
            assert(a1[i] == a[i] && b1[i] == b[i]);
        }
        lemma_stats_depend_on_flags(a1, b1);
        assert(a.last().done == b.last().done);
    }
}

} // verus!
