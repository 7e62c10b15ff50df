//! The continuation protocol: racing candidates, classifying failures,
//! cancellation, and the progress messages.

use cice_core::context::{Context, ContextBuilder};
use cice_core::controller::ControllerData;
use cice_core::controller::ControllerError;
use cice_core::message::{Message, TaskMessage};
use cice_core::recognizer::{
    CustomRecognizerError, RecognizeResult, Recognizer, RecognizerError, RecognizerId,
};
use cice_core::resource::ResourceData;
use cice_core::task::{BaseTaskConfig, Task, TaskError, TaskInner, TaskResult};
use cice_core::testkit::controllers::DummyController;

/// What a scripted recognizer does when asked.
#[derive(Clone, Copy)]
enum Script {
    Accept,
    CommonError,
    FatalError,
    WrongDataKind,
}

/// A recognizer whose behaviour is fixed at construction.
struct ScriptedRecognizer {
    name: String,
    script: Script,
    requires_input: bool,
}

impl ScriptedRecognizer {
    fn new(name: &str, script: Script) -> Self {
        ScriptedRecognizer { name: name.to_string(), script, requires_input: true }
    }

    fn without_required_input(name: &str) -> Self {
        ScriptedRecognizer { name: name.to_string(), script: Script::Accept, requires_input: false }
    }
}

impl Recognizer for ScriptedRecognizer {
    fn name(&self) -> RecognizerId {
        self.name.clone()
    }

    fn init(&self, _resource: &ResourceData) -> Result<(), RecognizerError> {
        Ok(())
    }

    fn require_input(&self) -> Option<ResourceData> {
        if self.requires_input {
            Some(ResourceData::Object(vec![]))
        } else {
            None
        }
    }

    fn exec(
        &self,
        _action: Option<&ResourceData>,
        _data: ControllerData,
    ) -> Result<RecognizeResult, CustomRecognizerError> {
        match self.script {
            Script::Accept => Ok(ResourceData::Null),
            Script::CommonError => Err(CustomRecognizerError::Common {
                message: "nothing recognized".to_string(),
            }),
            Script::FatalError => Err(CustomRecognizerError::Fatal {
                message: "target lost".to_string(),
            }),
            Script::WrongDataKind => Err(CustomRecognizerError::InvalidData),
        }
    }
}

/// A controller whose observation always fails fatally, as when the
/// connection to the target is lost.
struct LostTargetController {}

impl cice_core::controller::Controller for LostTargetController {
    fn name(&self) -> String {
        "lost_target".to_string()
    }

    fn init(&self, _init_config: &ResourceData) -> Result<(), ControllerError> {
        Ok(())
    }

    fn exec_output(
        &self,
        _action: &ResourceData,
    ) -> Result<ControllerData, cice_core::controller::CustomControllerError> {
        Err(cice_core::controller::CustomControllerError::Fatal {
            message: "connection lost".to_string(),
        })
    }

    fn exec_input(
        &self,
        _action: &ResourceData,
    ) -> Result<(), cice_core::controller::CustomControllerError> {
        Ok(())
    }
}

#[test]
fn a_fatal_controller_error_aborts_the_run() {
    let entry = Task::new(TaskInner::new(
        BaseTaskConfig {
            task_name: "A".to_string(),
            next_task: vec!["B".to_string()],
            interrupt_task: vec![],
            controller_id: "lost_target".to_string(),
            recognizer_id: "accept".to_string(),
        },
        None,
        None,
        None,
        None,
        None,
    ));
    let worker = Task::new(TaskInner::new(
        BaseTaskConfig {
            task_name: "B".to_string(),
            next_task: vec![],
            interrupt_task: vec![],
            controller_id: "lost_target".to_string(),
            recognizer_id: "accept".to_string(),
        },
        None,
        None,
        None,
        None,
        None,
    ));
    let mut builder: ContextBuilder<LostTargetController, ScriptedRecognizer> =
        ContextBuilder::new();
    builder.add_task(entry);
    builder.add_task(worker);
    builder.add_controller(LostTargetController {}, ResourceData::Null);
    builder.add_recognizer(ScriptedRecognizer::new("accept", Script::Accept), ResourceData::Null);
    let mut ctx = builder.build();
    let result = ctx.run("A".to_string());
    assert_eq!(
        result,
        Err(TaskError::ControllerError {
            source: ControllerError::Custom {
                source: cice_core::controller::CustomControllerError::Fatal {
                    message: "connection lost".to_string(),
                },
            },
        })
    );
}

fn task(name: &str, next: &[&str], recognizer: &str) -> Task {
    Task::new(TaskInner::new(
        BaseTaskConfig {
            task_name: name.to_string(),
            next_task: next.iter().map(|s| s.to_string()).collect(),
            interrupt_task: vec![],
            controller_id: "dummy_controller".to_string(),
            recognizer_id: recognizer.to_string(),
        },
        None,
        None,
        None,
        None,
        None,
    ))
}

fn context_with(
    tasks: Vec<Task>,
    recognizers: Vec<ScriptedRecognizer>,
) -> Context<DummyController, ScriptedRecognizer> {
    let mut builder = ContextBuilder::new();
    for t in tasks {
        builder.add_task(t);
    }
    builder.add_controller(DummyController::new(), ResourceData::Null);
    for r in recognizers {
        builder.add_recognizer(r, ResourceData::Null);
    }
    builder.build()
}

#[test]
fn race_first_success_wins_in_second_position() {
    let entry = task("A", &["B", "C"], "accept");
    let mut ctx = context_with(
        vec![entry.clone(), task("B", &[], "deny"), task("C", &[], "accept")],
        vec![
            ScriptedRecognizer::new("deny", Script::CommonError),
            ScriptedRecognizer::new("accept", Script::Accept),
        ],
    );
    let result = entry.run_with_context(&mut ctx);
    assert_eq!(result, Ok(TaskResult::Success { id: "C".to_string() }));
}

#[test]
fn race_first_success_wins_in_first_position() {
    let entry = task("A", &["C", "B"], "accept");
    let mut ctx = context_with(
        vec![entry.clone(), task("B", &[], "deny"), task("C", &[], "accept")],
        vec![
            ScriptedRecognizer::new("deny", Script::CommonError),
            ScriptedRecognizer::new("accept", Script::Accept),
        ],
    );
    let result = entry.run_with_context(&mut ctx);
    assert_eq!(result, Ok(TaskResult::Success { id: "C".to_string() }));
}

#[test]
fn fatal_error_short_circuits_the_race() {
    let entry = task("A", &["B", "C"], "accept");
    let mut ctx = context_with(
        vec![entry.clone(), task("B", &[], "fatal"), task("C", &[], "accept")],
        vec![
            ScriptedRecognizer::new("fatal", Script::FatalError),
            ScriptedRecognizer::new("accept", Script::Accept),
        ],
    );
    let result = entry.run_with_context(&mut ctx);
    assert_eq!(
        result,
        Err(TaskError::RecognizerError {
            source: RecognizerError::Custom {
                source: CustomRecognizerError::Fatal { message: "target lost".to_string() },
            },
        })
    );
}

#[test]
fn a_recognizer_that_cannot_read_the_data_kind_is_incompatible() {
    // A recognizer that cannot interpret the captured data kind reports
    // `InvalidData`; the scheduler surfaces that as the fatal
    // `IncompatibleRecognizer` wiring error under the recognizer's own
    // name.
    let entry = task("A", &["B"], "accept");
    let mut ctx = context_with(
        vec![entry.clone(), task("B", &[], "text_only")],
        vec![
            ScriptedRecognizer::new("accept", Script::Accept),
            ScriptedRecognizer::new("text_only", Script::WrongDataKind),
        ],
    );
    let result = entry.run_with_context(&mut ctx);
    assert_eq!(
        result,
        Err(TaskError::RecognizerError {
            source: RecognizerError::IncompatibleRecognizer { id: "text_only".to_string() },
        })
    );
}

#[test]
fn unresolved_candidates_are_dropped_and_the_rest_race() {
    let entry = task("A", &["ghost", "C"], "accept");
    let mut ctx = context_with(
        vec![entry.clone(), task("C", &[], "accept")],
        vec![ScriptedRecognizer::new("accept", Script::Accept)],
    );
    let result = entry.run_with_context(&mut ctx);
    assert_eq!(result, Ok(TaskResult::Success { id: "C".to_string() }));
}

#[test]
fn empty_continuation_is_no_pending_task() {
    let entry = task("A", &["ghost1", "ghost2"], "accept");
    let mut ctx = context_with(
        vec![entry.clone()],
        vec![ScriptedRecognizer::new("accept", Script::Accept)],
    );
    let result = entry.run_with_context(&mut ctx);
    assert_eq!(result, Ok(TaskResult::NoPendingTask));

    let full = ctx.run("A".to_string());
    assert_eq!(full, Ok(TaskResult::NoPendingTask));
}

#[test]
fn all_common_failures_exhaust_into_no_pending_task() {
    let entry = task("A", &["B", "C"], "accept");
    let mut ctx = context_with(
        vec![entry.clone(), task("B", &[], "deny"), task("C", &[], "deny")],
        vec![
            ScriptedRecognizer::new("deny", Script::CommonError),
            ScriptedRecognizer::new("accept", Script::Accept),
        ],
    );
    let result = entry.run_with_context(&mut ctx);
    assert_eq!(result, Ok(TaskResult::NoPendingTask));
}

#[test]
fn cancellation_before_any_attempt_wins_the_race() {
    let mut ctx = context_with(
        vec![task("A", &["B"], "accept"), task("B", &[], "accept")],
        vec![ScriptedRecognizer::new("accept", Script::Accept)],
    );
    let handler = ctx.get_handler();
    assert!(handler.try_cancel());
    let result = ctx.run("A".to_string());
    assert_eq!(result, Ok(TaskResult::TaskCancelled));
}

#[test]
fn cancellation_after_the_run_does_not_change_its_result() {
    let mut ctx = context_with(
        vec![task("A", &[], "accept")],
        vec![ScriptedRecognizer::new("accept", Script::Accept)],
    );
    let handler = ctx.get_handler();
    let result = ctx.run("A".to_string());
    assert!(handler.try_cancel());
    assert_eq!(result, Ok(TaskResult::NoPendingTask));
}

#[test]
fn blocking_handler_calls_return_once_something_is_there() {
    let mut ctx = context_with(
        vec![task("A", &["B"], "accept"), task("B", &[], "accept")],
        vec![ScriptedRecognizer::new("accept", Script::Accept)],
    );
    let handler = ctx.get_handler();
    // The cancellation channel is empty, so the blocking send takes it at
    // once.
    assert!(handler.cancel());
    let result = ctx.run("A".to_string());
    assert_eq!(result, Ok(TaskResult::TaskCancelled));
    // The run queued progress messages, so the blocking receive has one.
    assert_eq!(
        handler.recv(),
        Some(Message::TaskMessage(TaskMessage::Enter { id: "A".to_string() }))
    );
}

#[test]
fn unknown_entry_task_is_reported() {
    let mut ctx = context_with(
        vec![task("A", &[], "accept")],
        vec![ScriptedRecognizer::new("accept", Script::Accept)],
    );
    let result = ctx.run("missing".to_string());
    assert_eq!(result, Err(TaskError::UnknownTask { id: "missing".to_string() }));
}

#[test]
fn a_missing_controller_is_a_fatal_wiring_error() {
    let entry = task("A", &["B"], "accept");
    let broken = Task::new(TaskInner::new(
        BaseTaskConfig {
            task_name: "B".to_string(),
            next_task: vec![],
            interrupt_task: vec![],
            controller_id: "no_such_controller".to_string(),
            recognizer_id: "accept".to_string(),
        },
        None,
        None,
        None,
        None,
        None,
    ));
    let mut ctx = context_with(
        vec![entry.clone(), broken],
        vec![ScriptedRecognizer::new("accept", Script::Accept)],
    );
    let result = entry.run_with_context(&mut ctx);
    assert_eq!(
        result,
        Err(TaskError::ControllerError {
            source: ControllerError::ControllerNotFound { id: "no_such_controller".to_string() },
        })
    );
}

#[test]
fn a_missing_recognizer_is_a_fatal_wiring_error() {
    let entry = task("A", &["B"], "accept");
    let broken = task("B", &[], "no_such_recognizer");
    let mut ctx = context_with(
        vec![entry.clone(), broken],
        vec![ScriptedRecognizer::new("accept", Script::Accept)],
    );
    let result = entry.run_with_context(&mut ctx);
    assert_eq!(
        result,
        Err(TaskError::RecognizerError {
            source: RecognizerError::RecognizerNotFound { id: "no_such_recognizer".to_string() },
        })
    );
}

#[test]
fn a_recognizer_without_required_input_is_a_config_defect() {
    let entry = task("A", &["B"], "accept");
    let broken = task("B", &[], "no_input");
    let mut ctx = context_with(
        vec![entry.clone(), broken],
        vec![
            ScriptedRecognizer::new("accept", Script::Accept),
            ScriptedRecognizer::without_required_input("no_input"),
        ],
    );
    let result = entry.run_with_context(&mut ctx);
    assert_eq!(
        result,
        Err(TaskError::TaskConfigError {
            reason: "missing controller output action".to_string(),
        })
    );
}

#[test]
fn a_cyclic_graph_runs_out_of_budget() {
    let mut builder = ContextBuilder::new();
    builder.add_task(task("A", &["A"], "accept"));
    builder.add_controller(DummyController::new(), ResourceData::Null);
    builder.add_recognizer(ScriptedRecognizer::new("accept", Script::Accept), ResourceData::Null);
    builder.set_run_budget(3);
    let mut ctx = builder.build();
    let result = ctx.run("A".to_string());
    assert_eq!(result, Err(TaskError::TaskTimeOut { id: "A".to_string() }));
}

#[test]
fn a_chain_of_successes_ends_with_its_last_winner() {
    let mut ctx = context_with(
        vec![
            task("task1", &["task2"], "accept"),
            task("task2", &["task3"], "accept"),
            task("task3", &[], "accept"),
        ],
        vec![ScriptedRecognizer::new("accept", Script::Accept)],
    );
    let result = ctx.run("task1".to_string());
    assert_eq!(result, Ok(TaskResult::Success { id: "task3".to_string() }));
}

#[test]
fn progress_messages_trace_the_deny_then_accept_scenario() {
    let mut ctx = context_with(
        vec![
            task("A", &["B", "C"], "accept"),
            task("B", &[], "deny"),
            task("C", &[], "accept"),
        ],
        vec![
            ScriptedRecognizer::new("deny", Script::CommonError),
            ScriptedRecognizer::new("accept", Script::Accept),
        ],
    );
    let handler = ctx.get_handler();
    let result = ctx.run("A".to_string());
    assert_eq!(result, Ok(TaskResult::Success { id: "C".to_string() }));

    let mut messages = Vec::new();
    while let Some(Message::TaskMessage(m)) = handler.try_recv() {
        messages.push(m);
    }
    assert_eq!(messages[0], TaskMessage::Enter { id: "A".to_string() });
    assert!(messages.contains(&TaskMessage::Enter { id: "B".to_string() }));
    assert!(messages.contains(&TaskMessage::ExecSuccess { id: "C".to_string() }));
    assert!(!messages.contains(&TaskMessage::ExecSuccess { id: "B".to_string() }));

    // For each task the messages come in protocol order: Enter, TryExec,
    // ExecController, ExecRecognizer, and for C alone ExecSuccess.
    let position = |m: &TaskMessage| messages.iter().position(|x| x == m).unwrap();
    let enter_b = position(&TaskMessage::Enter { id: "B".to_string() });
    let try_b = position(&TaskMessage::TryExec { id: "B".to_string() });
    let rec_b = position(&TaskMessage::ExecRecognizer {
        task_id: "B".to_string(),
        recognizer_id: "deny".to_string(),
    });
    let success_c = position(&TaskMessage::ExecSuccess { id: "C".to_string() });
    assert!(enter_b < try_b && try_b < rec_b && rec_b < success_c);
}

#[test]
fn tasks_are_ordered_by_the_sequence_of_enter_messages() {
    let mut ctx = context_with(
        vec![
            task("Task1", &["Task2"], "accept"),
            task("Task2", &["Task3"], "accept"),
            task("Task3", &[], "accept"),
        ],
        vec![ScriptedRecognizer::new("accept", Script::Accept)],
    );
    let handler = ctx.get_handler();
    let result = ctx.run("Task1".to_string());
    assert!(result.is_ok());
    let mut entered = Vec::new();
    while let Some(Message::TaskMessage(m)) = handler.try_recv() {
        if let TaskMessage::Enter { id } = m {
            if !entered.contains(&id) {
                entered.push(id);
            }
        }
    }
    assert_eq!(
        entered,
        vec!["Task1".to_string(), "Task2".to_string(), "Task3".to_string()]
    );
}
