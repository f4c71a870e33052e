//! Log lines that belong to a task.
use vstd::prelude::*;

verus! {

/// One log line of a task.
#[derive(Debug)]
pub struct LogMessage {
    pub task_id: String,
    pub timestamp: String,
    /// `info`, `warn` or `error`.
    pub level: String,
    pub message: String,
}

impl Clone for LogMessage {
    fn clone(&self) -> (r: Self)
        ensures
            r.task_id@ == self.task_id@,
            r.timestamp@ == self.timestamp@,
            r.level@ == self.level@,
            r.message@ == self.message@,
    {
        LogMessage {
            task_id: self.task_id.clone(),
            timestamp: self.timestamp.clone(),
            level: self.level.clone(),
            message: self.message.clone(),
        }
    }
}

} // verus!
