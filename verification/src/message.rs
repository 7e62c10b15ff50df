//! Progress messages delivered, best effort, to an external observer.

use vstd::prelude::*;

use crate::controller::ControllerId;
use crate::recognizer::RecognizerId;
use crate::task::TaskId;

verus! {

/// A message on the context's progress channel. Likely to be extended, so
/// kept open for compatibility.
#[derive(Debug, Clone, PartialEq)]
#[non_exhaustive]
pub enum Message {
    TaskMessage(TaskMessage),
}

/// Progress of one task. For any path that reaches success the messages
/// for a given task are emitted in the order `Enter` → `TryExec` →
/// `ExecController` → `ExecRecognizer` → `ExecSuccess`; partial paths emit
/// a strict prefix.
#[derive(Debug, Clone, PartialEq)]
pub enum TaskMessage {
    Enter { id: TaskId },
    TryExec { id: TaskId },
    ExecController { task_id: TaskId, controller_id: ControllerId },
    ExecRecognizer { task_id: TaskId, recognizer_id: RecognizerId },
    ExecSuccess { id: TaskId },
}

} // verus!
