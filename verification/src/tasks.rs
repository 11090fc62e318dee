//! Task items: presently only created in memory and listed as empty,
//! mirroring the command surface around the login flow.
use vstd::prelude::*;

verus! {

/// One task item.
#[derive(Debug, Clone, PartialEq, Eq)]
pub struct Task {
    pub text: String,
    pub state: String,
    pub id: u32,
    /// Seconds since the Unix epoch, as the wall clock reported them.
    pub updated_at: i64,
}

/// Relies on `std::time::SystemTime::now` for the current wall-clock
/// time, in seconds since the Unix epoch; a clock set before the epoch
/// reads as zero. Nothing is assumed of the value.
#[verifier::external_body]
fn now_timestamp() -> (r: i64) {
    match std::time::SystemTime::now().duration_since(std::time::UNIX_EPOCH) {
        Ok(d) => i64::try_from(d.as_secs()).unwrap_or(i64::MAX),
        Err(_) => 0,
    }
}

impl Task {
    /// A fresh task: the given id and text, in the `todo` state, stamped
    /// with the current time.
    pub fn new(id: u32, text: String) -> (t: Task)
        ensures
            t.id == id,
            t.text@ == text@,
            t.state@ == "todo"@,
    {
        let updated_at: i64 = now_timestamp();
        let state: String = String::from_str("todo");
        Task { text, state, id, updated_at }
    }
}

/// The stored tasks; storage is not implemented, so there are none.
pub fn collect_tasks() -> (r: Vec<Task>)
    ensures
        r@ == Seq::<Task>::empty(),
{
    let tasks: Vec<Task> = Vec::new();
    proof {
        assert(tasks@ =~= Seq::<Task>::empty());
    }
    tasks
}

} // verus!
