//! Tasks: one node of the execution graph, its continuation protocol, and
//! the race policy over candidate next tasks.

use vstd::prelude::*;

use crate::context::Context;
use crate::controller::{Controller, ControllerError};
use crate::message::{Message, TaskMessage};
use crate::recognizer::{Recognizer, RecognizerError};
use crate::resource::{merge, merged, ResourceData, ValueModel};

verus! {

/// Identifies a task within one context.
pub type TaskId = String;

/// The plain part of a task definition: its name, its candidate
/// continuations, and the plugins it uses.
pub struct BaseTaskConfig {
    pub task_name: TaskId,
    /// Candidate continuations, attempted in declaration order.
    pub next_task: Vec<TaskId>,
    /// Reserved for out-of-band interruption handling; declared on every
    /// task but consumed by nothing yet.
    pub interrupt_task: Vec<TaskId>,
    pub controller_id: String,
    pub recognizer_id: String,
}

/// A task definition: the base part plus the optional override and
/// parameter values. Immutable once constructed.
pub struct TaskInner {
    base: BaseTaskConfig,
    controller_config_ext: Option<ResourceData>,
    recognizer_config_ext: Option<ResourceData>,
    controller_output_action: Option<ResourceData>,
    controller_input_action: Option<ResourceData>,
    recognizer_action: Option<ResourceData>,
}

/// One node of the execution graph; read-only and freely copyable.
pub struct Task(pub(crate) TaskInner);

/// The mathematical model of a task definition.
pub struct TaskModel {
    pub task_name: Seq<char>,
    pub next_task: Seq<Seq<char>>,
    pub interrupt_task: Seq<Seq<char>>,
    pub controller_id: Seq<char>,
    pub recognizer_id: Seq<char>,
    pub controller_config_ext: Option<ValueModel>,
    pub recognizer_config_ext: Option<ValueModel>,
    pub controller_output_action: Option<ValueModel>,
    pub controller_input_action: Option<ValueModel>,
    pub recognizer_action: Option<ValueModel>,
}

/// The model of an optional value.
pub open spec fn opt_model(o: Option<ResourceData>) -> Option<ValueModel> {
    match o {
        Some(v) => Some(v.view()),
        None => None,
    }
}

impl TaskInner {
    pub closed spec fn view(&self) -> TaskModel {
        TaskModel {
            task_name: self.base.task_name@,
            next_task: self.base.next_task.deep_view(),
            interrupt_task: self.base.interrupt_task.deep_view(),
            controller_id: self.base.controller_id@,
            recognizer_id: self.base.recognizer_id@,
            controller_config_ext: opt_model(self.controller_config_ext),
            recognizer_config_ext: opt_model(self.recognizer_config_ext),
            controller_output_action: opt_model(self.controller_output_action),
            controller_input_action: opt_model(self.controller_input_action),
            recognizer_action: opt_model(self.recognizer_action),
        }
    }

    /// Builds a task definition from its parts.
    pub fn new(
        base: BaseTaskConfig,
        controller_config_ext: Option<ResourceData>,
        recognizer_config_ext: Option<ResourceData>,
        controller_output_action: Option<ResourceData>,
        controller_input_action: Option<ResourceData>,
        recognizer_action: Option<ResourceData>,
    ) -> (r: TaskInner)
        ensures
            r@ == (TaskModel {
                task_name: base.task_name@,
                next_task: base.next_task.deep_view(),
                interrupt_task: base.interrupt_task.deep_view(),
                controller_id: base.controller_id@,
                recognizer_id: base.recognizer_id@,
                controller_config_ext: opt_model(controller_config_ext),
                recognizer_config_ext: opt_model(recognizer_config_ext),
                controller_output_action: opt_model(controller_output_action),
                controller_input_action: opt_model(controller_input_action),
                recognizer_action: opt_model(recognizer_action),
            }),
    {
        TaskInner {
            base,
            controller_config_ext,
            recognizer_config_ext,
            controller_output_action,
            controller_input_action,
            recognizer_action,
        }
    }

    /// The plain part of the definition.
    pub fn base(&self) -> (r: &BaseTaskConfig)
        ensures
            r.task_name@ == self@.task_name,
            r.next_task.deep_view() == self@.next_task,
            r.interrupt_task.deep_view() == self@.interrupt_task,
            r.controller_id@ == self@.controller_id,
            r.recognizer_id@ == self@.recognizer_id,
    {
        &self.base
    }
}

impl Task {
    pub closed spec fn view(&self) -> TaskModel {
        self.0.view()
    }

    /// Wraps a task definition.
    pub fn new(inner: TaskInner) -> (r: Task)
        ensures
            r@ == inner@,
    {
        Task(inner)
    }

    /// The plain part of the definition.
    pub fn base(&self) -> (r: &BaseTaskConfig)
        ensures
            r.task_name@ == self@.task_name,
            r.next_task.deep_view() == self@.next_task,
            r.interrupt_task.deep_view() == self@.interrupt_task,
            r.controller_id@ == self@.controller_id,
            r.recognizer_id@ == self@.recognizer_id,
    {
        self.0.base()
    }
}

/// A copy of a vector of identifiers, equal element for element.
fn clone_id_vec(v: &Vec<String>) -> (r: Vec<String>)
    ensures
        r@ == v@,
{
    let mut out: Vec<String> = Vec::new();
    let mut i: usize = 0;
    while i < v.len()
        invariant
            i <= v@.len(),
            out@.len() == i as int,
            forall|j: int| 0 <= j < i ==> out@[j] == v@[j],
        decreases v@.len() - i,
    {
        out.push(v[i].clone());
        i = i + 1;
    }
    proof {
        assert(out@ =~= v@);
    }
    out
}

/// A deep copy of an optional value, with the same model.
fn clone_opt_value(o: &Option<ResourceData>) -> (r: Option<ResourceData>)
    ensures
        opt_model(r) == opt_model(*o),
{
    match o {
        Some(v) => Some(v.clone()),
        None => None,
    }
}

impl Clone for BaseTaskConfig {
    /// A copy whose parts are equal to the original's.
    fn clone(&self) -> (r: Self)
        ensures
            r.task_name@ == self.task_name@,
            r.next_task@ == self.next_task@,
            r.interrupt_task@ == self.interrupt_task@,
            r.controller_id@ == self.controller_id@,
            r.recognizer_id@ == self.recognizer_id@,
    {
        BaseTaskConfig {
            task_name: self.task_name.clone(),
            next_task: clone_id_vec(&self.next_task),
            interrupt_task: clone_id_vec(&self.interrupt_task),
            controller_id: self.controller_id.clone(),
            recognizer_id: self.recognizer_id.clone(),
        }
    }
}

impl Clone for TaskInner {
    /// A copy with the same model.
    fn clone(&self) -> (r: Self)
        ensures
            r@ == self@,
    {
        TaskInner {
            base: self.base.clone(),
            controller_config_ext: clone_opt_value(&self.controller_config_ext),
            recognizer_config_ext: clone_opt_value(&self.recognizer_config_ext),
            controller_output_action: clone_opt_value(&self.controller_output_action),
            controller_input_action: clone_opt_value(&self.controller_input_action),
            recognizer_action: clone_opt_value(&self.recognizer_action),
        }
    }
}

impl Clone for Task {
    /// A copy with the same model.
    fn clone(&self) -> (r: Self)
        ensures
            r@ == self@,
    {
        Task(self.0.clone())
    }
}

/// Provides the parts of a task definition; implemented by whatever the
/// graph definition format is loaded into.
pub trait TaskData {
    fn base_data(&self) -> BaseTaskConfig;

    fn controller_config_ext(&self) -> Option<ResourceData>;

    fn recognizer_config_ext(&self) -> Option<ResourceData>;

    fn controller_output_action_ext(&self) -> Option<ResourceData>;

    fn controller_input_action_ext(&self) -> Option<ResourceData>;

    fn recognizer_action(&self) -> Option<ResourceData>;
}

impl Task {
    /// Builds a task from any provider of task definition parts.
    pub fn from_data<T: TaskData>(value: &T) -> Task {
        Task(
            TaskInner::new(
                value.base_data(),
                value.controller_config_ext(),
                value.recognizer_config_ext(),
                value.controller_output_action_ext(),
                value.controller_input_action_ext(),
                value.recognizer_action(),
            ),
        )
    }
}

/// A terminal state of a run: one branch succeeded, no candidate was left
/// to attempt, or the run was cancelled. `NoPendingTask` is a normal leaf
/// of the graph, not a failure.
#[derive(Debug, Clone, PartialEq)]
pub enum TaskResult {
    Success { id: TaskId },
    NoPendingTask,
    TaskCancelled,
}

/// An error that ends a run.
#[derive(Debug, PartialEq)]
pub enum TaskError {
    /// The entry id names no task of the registry.
    UnknownTask { id: TaskId },
    /// The run's continuation budget ran out before the graph reached a
    /// terminal state.
    TaskTimeOut { id: TaskId },
    /// The graph definition is defective; not a runtime condition.
    TaskConfigError { reason: String },
    /// A controller failed, or was missing.
    ControllerError { source: ControllerError },
    /// A recognizer failed, or was missing.
    RecognizerError { source: RecognizerError },
}

impl TaskError {
    /// A `Common` plugin error only eliminates one candidate from a race;
    /// every other error halts the run.
    pub open spec fn spec_is_fatal(&self) -> bool {
        match self {
            TaskError::ControllerError { source } => source.spec_is_fatal(),
            TaskError::RecognizerError { source } => source.spec_is_fatal(),
            _ => true,
        }
    }

    /// Executable fatality test; see [`TaskError::spec_is_fatal`].
    pub fn is_fatal(&self) -> (r: bool)
        ensures
            r == self.spec_is_fatal(),
    {
        match self {
            TaskError::ControllerError { source } => source.is_fatal(),
            TaskError::RecognizerError { source } => source.is_fatal(),
            _ => true,
        }
    }
}

impl From<ControllerError> for TaskError {
    fn from(value: ControllerError) -> (r: Self)
        ensures
            r == (TaskError::ControllerError { source: value }),
    {
        TaskError::ControllerError { source: value }
    }
}

impl vstd::std_specs::convert::FromSpecImpl<ControllerError> for TaskError {
    open spec fn obeys_from_spec() -> bool {
        true
    }

    open spec fn from_spec(value: ControllerError) -> Self {
        TaskError::ControllerError { source: value }
    }
}

impl From<RecognizerError> for TaskError {
    fn from(value: RecognizerError) -> (r: Self)
        ensures
            r == (TaskError::RecognizerError { source: value }),
    {
        TaskError::RecognizerError { source: value }
    }
}

impl vstd::std_specs::convert::FromSpecImpl<RecognizerError> for TaskError {
    open spec fn obeys_from_spec() -> bool {
        true
    }

    open spec fn from_spec(value: RecognizerError) -> Self {
        TaskError::RecognizerError { source: value }
    }
}

/// What one candidate's attempt came to.
pub enum AttemptOutcome {
    Succeeded { id: TaskId },
    Failed { error: TaskError },
}

impl AttemptOutcome {
    /// The attempt failed and only this candidate is eliminated.
    pub open spec fn is_common_failure(&self) -> bool {
        match self {
            AttemptOutcome::Failed { error } => !error.spec_is_fatal(),
            _ => false,
        }
    }
}

/// What a race decides once one attempt is in: stop with a result, stop
/// with a fatal error, or go on to the next candidate.
pub open spec fn race_step_model(outcome: AttemptOutcome) -> Option<
    Result<TaskResult, TaskError>,
> {
    match outcome {
        AttemptOutcome::Succeeded { id } => Some(Ok(TaskResult::Success { id })),
        AttemptOutcome::Failed { error } => if error.spec_is_fatal() {
            Some(Err(error))
        } else {
            None
        },
    }
}

/// The verdict of a race over candidate attempts, taken in completion
/// order: the first success wins, the first fatal error aborts the race,
/// and a run out of candidates is a normal `NoPendingTask`.
pub open spec fn race_verdict(outcomes: Seq<AttemptOutcome>) -> Result<TaskResult, TaskError>
    decreases outcomes.len(),
{
    if outcomes.len() == 0 {
        Ok(TaskResult::NoPendingTask)
    } else {
        match race_step_model(outcomes[0]) {
            Some(decision) => decision,
            None => race_verdict(outcomes.skip(1)),
        }
    }
}

/// The verdict of a race raced against the cancellation signal: a
/// cancellation observed before any attempt completes wins over every
/// attempt.
pub open spec fn race_verdict_with_cancellation(
    cancelled: bool,
    outcomes: Seq<AttemptOutcome>,
) -> Result<TaskResult, TaskError> {
    if cancelled {
        Ok(TaskResult::TaskCancelled)
    } else {
        race_verdict(outcomes)
    }
}

/// Decides one step of a race; see [`race_step_model`].
pub fn race_step(outcome: AttemptOutcome) -> (r: Option<Result<TaskResult, TaskError>>)
    ensures
        r == race_step_model(outcome),
{
    match outcome {
        AttemptOutcome::Succeeded { id } => Some(Ok(TaskResult::Success { id })),
        AttemptOutcome::Failed { error } => if error.is_fatal() {
            Some(Err(error))
        } else {
            None
        },
    }
}

/// Decides a whole race from the attempts' outcomes in completion order,
/// after an observation of the cancellation signal.
#[verifier::loop_isolation(false)]
pub fn race_scan(cancelled: bool, outcomes: Vec<AttemptOutcome>) -> (r: Result<
    TaskResult,
    TaskError,
>)
    ensures
        r == race_verdict_with_cancellation(cancelled, outcomes@),
{
    if cancelled {
        return Ok(TaskResult::TaskCancelled);
    }
    let ghost all = outcomes@;
    let mut rest = outcomes;
    loop
        invariant
            race_verdict(all) == race_verdict(rest@),
        decreases rest@.len(),
    {
        if rest.len() == 0 {
            return Ok(TaskResult::NoPendingTask);
        }
        let ghost before = rest@;
        let outcome = rest.remove(0);
        proof {
            assert(rest@ =~= before.skip(1));
        }
        match race_step(outcome) {
            Some(decision) => {
                return decision;
            },
            None => {},
        }
    }
}

/// Race-first-success: when one candidate succeeds and every other
/// candidate fails with a `Common`-classified error, the race's verdict is
/// that candidate's success, wherever it stands in the completion order.
pub proof fn lemma_race_first_success(outcomes: Seq<AttemptOutcome>, k: int, sid: TaskId)
    requires
        0 <= k < outcomes.len(),
        outcomes[k] == (AttemptOutcome::Succeeded { id: sid }),
        forall|j: int|
            0 <= j < outcomes.len() && j != k ==> (#[trigger] outcomes[j]).is_common_failure(),
    ensures
        race_verdict(outcomes) == Ok::<TaskResult, TaskError>(TaskResult::Success { id: sid }),
    decreases outcomes.len(),
{
    if k == 0 {
    } else {
        assert(outcomes[0].is_common_failure());
        let rest = outcomes.skip(1);
        assert(forall|j: int| 0 <= j < rest.len() ==> #[trigger] rest[j] == outcomes[j + 1]);
        lemma_race_first_success(rest, k - 1, sid);
    }
}

/// Fatal short-circuit: when a candidate fails with a `Fatal`-classified
/// error and every candidate that completed before it failed with a
/// `Common` one, the race's verdict is that fatal error, whatever the
/// later candidates would have done.
pub proof fn lemma_race_fatal_short_circuit(outcomes: Seq<AttemptOutcome>, k: int, e: TaskError)
    requires
        0 <= k < outcomes.len(),
        outcomes[k] == (AttemptOutcome::Failed { error: e }),
        e.spec_is_fatal(),
        forall|j: int| 0 <= j < k ==> (#[trigger] outcomes[j]).is_common_failure(),
    ensures
        race_verdict(outcomes) == Err::<TaskResult, TaskError>(e),
    decreases outcomes.len(),
{
    if k == 0 {
    } else {
        assert(outcomes[0].is_common_failure());
        let rest = outcomes.skip(1);
        assert(forall|j: int| 0 <= j < rest.len() ==> #[trigger] rest[j] == outcomes[j + 1]);
        lemma_race_fatal_short_circuit(rest, k - 1, e);
    }
}

/// Exhaustion: when every candidate's attempt fails with a
/// `Common`-classified error and none remain, the race's verdict is the
/// normal `NoPendingTask`, not an error.
pub proof fn lemma_race_exhaustion(outcomes: Seq<AttemptOutcome>)
    requires
        forall|j: int| 0 <= j < outcomes.len() ==> (#[trigger] outcomes[j]).is_common_failure(),
    ensures
        race_verdict(outcomes) == Ok::<TaskResult, TaskError>(TaskResult::NoPendingTask),
    decreases outcomes.len(),
{
    if outcomes.len() > 0 {
        assert(outcomes[0].is_common_failure());
        let rest = outcomes.skip(1);
        assert(forall|j: int| 0 <= j < rest.len() ==> #[trigger] rest[j] == outcomes[j + 1]);
        lemma_race_exhaustion(rest);
    }
}

/// Cancellation precedence: a cancellation observed before any candidate
/// completes decides the race as `TaskCancelled`, whatever the attempts
/// would have come to; with no cancellation observed the attempts alone
/// decide.
pub proof fn lemma_cancellation_precedence(cancelled: bool, outcomes: Seq<AttemptOutcome>)
    ensures
        cancelled ==> race_verdict_with_cancellation(cancelled, outcomes) == Ok::<
            TaskResult,
            TaskError,
        >(TaskResult::TaskCancelled),
        !cancelled ==> race_verdict_with_cancellation(cancelled, outcomes) == race_verdict(
            outcomes,
        ),
{
}

impl Task {
    /// A single attempt. The plugins are looked up and lazily
    /// initialized through their wrappers, the configuration patches are
    /// applied, the output action is computed, the capture is
    /// recognized, and the deepened result becomes the controller's
    /// input. A success carries the attempted node's name; a plugin id
    /// that is not registered surfaces as the fitting error; the task
    /// registry is untouched. The not-found conditions hold one way
    /// only: a plugin's own `init` returns the same error type and may
    /// produce any of its variants, so a not-found error does not prove
    /// the id absent.
    pub fn try_run<C: Controller, R: Recognizer>(&self, context: &mut Context<C, R>) -> (r: Result<
        TaskResult,
        TaskError,
    >)
        ensures
            final(context).tasks_entries() == old(context).tasks_entries(),
            forall|id: Seq<char>| #[trigger]
                final(context).has_controller(id) == old(context).has_controller(id),
            forall|id: Seq<char>| #[trigger]
                final(context).has_recognizer(id) == old(context).has_recognizer(id),
            r is Ok ==> (r matches Ok(TaskResult::Success { id }) && id@ == self@.task_name),
            r matches Err(e) ==> (e is ControllerError || e is RecognizerError
                || e is TaskConfigError),
            !old(context).has_controller(self@.controller_id) ==> (r matches Err(
                TaskError::ControllerError {
                    source: crate::controller::ControllerError::ControllerNotFound { id },
                },
            ) && id@ == self@.controller_id),
            old(context).has_controller(self@.controller_id) && !old(context).has_recognizer(
                self@.recognizer_id,
            ) ==> (r matches Err(
                TaskError::RecognizerError {
                    source: crate::recognizer::RecognizerError::RecognizerNotFound { id },
                },
            ) && id@ == self@.recognizer_id),
    {
        let name = &self.0.base.task_name;
        context.try_send_message(Message::TaskMessage(TaskMessage::Enter { id: name.clone() }));
        context.try_send_message(
            Message::TaskMessage(TaskMessage::TryExec { id: name.clone() }),
        );
        let ci = match context.find_controller(&self.0.base.controller_id) {
            Some(i) => i,
            None => {
                return Err(
                    TaskError::ControllerError {
                        source: crate::controller::ControllerError::ControllerNotFound {
                            id: self.0.base.controller_id.clone(),
                        },
                    },
                );
            },
        };
        let ri = match context.find_recognizer(&self.0.base.recognizer_id) {
            Some(i) => i,
            None => {
                return Err(
                    TaskError::RecognizerError {
                        source: crate::recognizer::RecognizerError::RecognizerNotFound {
                            id: self.0.base.recognizer_id.clone(),
                        },
                    },
                );
            },
        };
        match context.controller_get_or_init(ci) {
            Ok(()) => {},
            Err(e) => {
                return Err(TaskError::ControllerError { source: e });
            },
        }
        match context.recognizer_get_or_init(ri) {
            Ok(()) => {},
            Err(e) => {
                return Err(TaskError::RecognizerError { source: e });
            },
        }
        if let Some(ext) = &self.0.controller_config_ext {
            match context.controller_wrapper(ci).init_with_ext(ext) {
                Ok(()) => {},
                Err(e) => {
                    return Err(TaskError::ControllerError { source: e });
                },
            }
        }
        if let Some(ext) = &self.0.recognizer_config_ext {
            match context.recognizer_wrapper(ri).init_with_ext(ext) {
                Ok(()) => {},
                Err(e) => {
                    return Err(TaskError::RecognizerError { source: e });
                },
            }
        }
        let require_input = context.recognizer_wrapper(ri).plugin().require_input();
        let output_action = match compute_output_action(
            require_input,
            &self.0.controller_output_action,
        ) {
            Ok(v) => v,
            Err(e) => {
                return Err(e);
            },
        };
        context.try_send_message(
            Message::TaskMessage(
                TaskMessage::ExecController {
                    task_id: name.clone(),
                    controller_id: self.0.base.controller_id.clone(),
                },
            ),
        );
        let data = match context.controller_wrapper(ci).plugin().exec_output(&output_action) {
            Ok(d) => d,
            Err(e) => {
                return Err(
                    TaskError::ControllerError {
                        source: crate::controller::ControllerError::Custom { source: e },
                    },
                );
            },
        };
        context.try_send_message(
            Message::TaskMessage(
                TaskMessage::ExecRecognizer {
                    task_id: name.clone(),
                    recognizer_id: self.0.base.recognizer_id.clone(),
                },
            ),
        );
        let result = match context.recognizer_wrapper(ri).plugin().exec(
            self.0.recognizer_action.as_ref(),
            data,
        ) {
            Ok(v) => v,
            Err(e) => {
                let rid = context.recognizer_wrapper(ri).plugin().name();
                return Err(
                    TaskError::RecognizerError {
                        source: crate::recognizer::RecognizerError::of_exec_error(rid, e),
                    },
                );
            },
        };
        let input_action = compute_input_action(result, &self.0.controller_input_action);
        match context.controller_wrapper(ci).plugin().exec_input(&input_action) {
            Ok(()) => {},
            Err(e) => {
                return Err(
                    TaskError::ControllerError {
                        source: crate::controller::ControllerError::Custom { source: e },
                    },
                );
            },
        }
        context.try_send_message(
            Message::TaskMessage(TaskMessage::ExecSuccess { id: name.clone() }),
        );
        Ok(TaskResult::Success { id: name.clone() })
    }

    /// One round of the continuation protocol. Ids in `next_task` that
    /// name nothing in the registry are dropped; when nothing resolves,
    /// the answer is the normal `NoPendingTask`; otherwise the resolved
    /// candidates are raced, in declaration order, against the
    /// cancellation signal, under the policy of
    /// [`race_verdict_with_cancellation`]. A success carries a resolved
    /// candidate's name; only fatal errors propagate.
    #[verifier::loop_isolation(false)]
    pub fn run_with_context<C: Controller, R: Recognizer>(&self, context: &mut Context<C, R>) -> (r:
        Result<TaskResult, TaskError>)
        requires
            old(context).wf(),
        ensures
            final(context).tasks_entries() == old(context).tasks_entries(),
            final(context).wf(),
            (forall|j: int|
                0 <= j < self@.next_task.len() ==> !old(context).has_task(
                    #[trigger] self@.next_task[j],
                )) ==> r == Ok::<TaskResult, TaskError>(TaskResult::NoPendingTask),
            (r matches Ok(TaskResult::Success { id }) ==> final(context).has_task(id@) && exists|
                j: int,
            |
                0 <= j < self@.next_task.len() && self@.next_task[j] == id@),
            r matches Err(e) ==> e.spec_is_fatal() && (e is ControllerError || e is RecognizerError
                || e is TaskConfigError),
    {
        let name = &self.0.base.task_name;
        context.try_send_message(Message::TaskMessage(TaskMessage::Enter { id: name.clone() }));
        let next_ids = &self.0.base.next_task;
        let mut candidates: Vec<Task> = Vec::new();
        let mut i: usize = 0;
        while i < next_ids.len()
            invariant
                i <= next_ids@.len(),
                forall|c: int|
                    0 <= c < candidates@.len() ==> old(context).has_task(
                        (#[trigger] candidates@[c])@.task_name,
                    ) && exists|j: int|
                        0 <= j < i && self@.next_task[j] == candidates@[c]@.task_name,
                forall|j: int|
                    0 <= j < i && old(context).has_task(#[trigger] self@.next_task[j])
                        ==> candidates@.len() > 0,
            decreases next_ids@.len() - i,
        {
            proof {
                assert(next_ids@[i as int]@ == self@.next_task[i as int]);
            }
            match context.get_task(&next_ids[i]) {
                Some(found) => {
                    proof {
                        crate::context::lemma_wf_task_at(context, next_ids@[i as int]@);
                    }
                    let candidate = found.clone();
                    candidates.push(candidate);
                },
                None => {},
            }
            i = i + 1;
        }
        if candidates.len() == 0 {
            return Ok(TaskResult::NoPendingTask);
        }
        proof {
            assert(old(context).has_task(candidates@[0]@.task_name));
            assert(exists|j: int|
                0 <= j < self@.next_task.len() && old(context).has_task(
                    #[trigger] self@.next_task[j],
                ));
        }
        let mut k: usize = 0;
        while k < candidates.len()
            invariant
                context.tasks_entries() == old(context).tasks_entries(),
                forall|c: int|
                    0 <= c < candidates@.len() ==> old(context).has_task(
                        (#[trigger] candidates@[c])@.task_name,
                    ) && exists|j: int|
                        0 <= j < self@.next_task.len() && self@.next_task[j]
                            == candidates@[c]@.task_name,
            decreases candidates@.len() - k,
        {
            if context.cancel_fired() {
                return Ok(TaskResult::TaskCancelled);
            }
            let attempt = candidates[k].try_run(context);
            let outcome = match attempt {
                Ok(TaskResult::Success { id }) => AttemptOutcome::Succeeded { id },
                Ok(_) => {
                    proof {
                        assert(false);
                    }
                    AttemptOutcome::Succeeded { id: String::new() }
                },
                Err(e) => AttemptOutcome::Failed { error: e },
            };
            match race_step(outcome) {
                Some(decision) => {
                    return decision;
                },
                None => {},
            }
            k = k + 1;
        }
        Ok(TaskResult::NoPendingTask)
    }
}

/// The output action handed to the controller: the recognizer's declared
/// input requirement, deepened by the task's output-action override when
/// one exists. No requirement at all is a configuration defect.
pub open spec fn output_action_model(req: Option<ValueModel>, over: Option<ValueModel>) -> Option<
    ValueModel,
> {
    match (req, over) {
        (Some(r), Some(o)) => Some(merged(r, o)),
        (Some(r), None) => Some(r),
        (None, _) => None,
    }
}

/// Computes the output action; see [`output_action_model`]. Returns the
/// `TaskConfigError` for a missing controller output action exactly when
/// the recognizer requires no input.
pub fn compute_output_action(require_input: Option<ResourceData>, overlay: &Option<ResourceData>)
    -> (r: Result<ResourceData, TaskError>)
    ensures
        match r {
            Ok(v) => output_action_model(opt_model(require_input), opt_model(*overlay)) == Some(
                v.view(),
            ),
            Err(e) => {
                &&& output_action_model(opt_model(require_input), opt_model(*overlay)) is None
                &&& (e matches TaskError::TaskConfigError { reason } && reason@
                    == "missing controller output action"@)
            },
        },
{
    match require_input {
        Some(mut base) => {
            match overlay {
                Some(over) => {
                    let o = over.clone();
                    merge(&mut base, o);
                    Ok(base)
                },
                None => Ok(base),
            }
        },
        None => Err(
            TaskError::TaskConfigError {
                reason: missing_output_action_reason(),
            },
        ),
    }
}

/// The reason recorded when a task has no controller output action.
fn missing_output_action_reason() -> (r: String)
    ensures
        r@ == "missing controller output action"@,
{
    let s: &str = "missing controller output action";
    s.to_owned()
}

/// The input action handed to the controller: the recognizer's result,
/// deepened by the task's input-action override when one exists.
pub open spec fn input_action_model(result: ValueModel, over: Option<ValueModel>) -> ValueModel {
    match over {
        Some(o) => merged(result, o),
        None => result,
    }
}

/// Computes the input action; see [`input_action_model`].
pub fn compute_input_action(result: ResourceData, overlay: &Option<ResourceData>) -> (r:
    ResourceData)
    ensures
        r@ == input_action_model(result@, opt_model(*overlay)),
{
    match overlay {
        Some(over) => {
            let mut base = result;
            let o = over.clone();
            merge(&mut base, o);
            base
        },
        None => result,
    }
}

} // verus!
