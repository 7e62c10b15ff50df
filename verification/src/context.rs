//! The frozen registry of tasks and plugins, the single-shot cancellation
//! channel, the bounded progress-message channel, and the run loop that
//! drives the continuation protocol.

use vstd::prelude::*;

use crate::channel::{
    channel_bounded, channel_recv_blocking, channel_send_blocking, channel_try_recv,
    channel_try_send, clone_receiver, clone_sender,
};
use crate::controller::{Controller, ControllerId};
use crate::message::Message;
use crate::recognizer::{Recognizer, RecognizerId};
use crate::resource::ResourceData;
use crate::task::{Task, TaskError, TaskId, TaskModel, TaskResult};
use crate::wrapper::{ControllerWrapper, RecognizerWrapper};

verus! {

/// The index of the first entry stored under `id`, or `-1` when no entry
/// is.
pub open spec fn key_index<V>(entries: Seq<(String, V)>, id: Seq<char>) -> int
    decreases entries.len(),
{
    if entries.len() == 0 {
        -1
    } else if entries[0].0@ == id {
        0
    } else {
        let r = key_index(entries.skip(1), id);
        if r < 0 {
            -1
        } else {
            r + 1
        }
    }
}

/// `key_index` finds the first entry with the id, and `-1` exactly when no
/// entry has it.
pub proof fn lemma_key_index<V>(entries: Seq<(String, V)>, id: Seq<char>)
    ensures
        key_index(entries, id) >= 0 ==> {
            let i = key_index(entries, id);
            &&& i < entries.len()
            &&& entries[i].0@ == id
            &&& forall|j: int| 0 <= j < i ==> (#[trigger] entries[j]).0@ != id
        },
        key_index(entries, id) < 0 ==> forall|j: int|
            0 <= j < entries.len() ==> (#[trigger] entries[j]).0@ != id,
    decreases entries.len(),
{
    if entries.len() > 0 && entries[0].0@ != id {
        let rest = entries.skip(1);
        lemma_key_index(rest, id);
        assert(forall|j: int| 0 <= j < rest.len() ==> #[trigger] rest[j] == entries[j + 1]);
        let r = key_index(rest, id);
        if r >= 0 {
            assert forall|j: int| 0 <= j < r + 1 implies (#[trigger] entries[j]).0@ != id by {
                if j > 0 {
                    assert(rest[j - 1].0@ != id);
                }
            }
        } else {
            assert forall|j: int| 0 <= j < entries.len() implies (#[trigger] entries[j]).0@
                != id by {
                if j > 0 {
                    assert(rest[j - 1].0@ != id);
                }
            }
        }
    }
}

/// The position of the first entry stored under `id`.
fn position_of<V>(entries: &Vec<(String, V)>, id: &String) -> (r: Option<usize>)
    ensures
        match r {
            Some(i) => i < entries@.len() && key_index(entries@, id@) == i as int,
            None => key_index(entries@, id@) < 0,
        },
{
    proof {
        lemma_key_index(entries@, id@);
    }
    let mut j: usize = 0;
    while j < entries.len()
        invariant
            j <= entries@.len(),
            forall|i: int| 0 <= i < j ==> (#[trigger] entries@[i]).0@ != id@,
        decreases entries@.len() - j,
    {
        if entries[j].0 == *id {
            proof {
                lemma_key_index(entries@, id@);
            }
            return Some(j);
        }
        j = j + 1;
    }
    None
}

/// The read side handed to an external observer: it can fire the
/// cancellation signal and drain the progress messages.
pub struct ContextHandler {
    cancel_sender: async_channel::Sender<()>,
    message_recv: async_channel::Receiver<Message>,
}

impl ContextHandler {
    /// Fires the cancellation signal, blocking until the channel takes it;
    /// reports whether it was taken. Only the first signal is meaningful:
    /// the channel holds one.
    pub fn cancel(&self) -> bool {
        channel_send_blocking(&self.cancel_sender, ())
    }

    /// Fires the cancellation signal without blocking; reports whether the
    /// channel took it (a pending signal or a closed channel refuses it).
    pub fn try_cancel(&self) -> bool {
        channel_try_send(&self.cancel_sender, ())
    }

    /// Waits for the next progress message; `None` once the context is
    /// gone and the channel drained.
    pub fn recv(&self) -> Option<Message> {
        channel_recv_blocking(&self.message_recv)
    }

    /// Takes a pending progress message without blocking.
    pub fn try_recv(&self) -> Option<Message> {
        channel_try_recv(&self.message_recv)
    }
}

impl Clone for ContextHandler {
    /// Another handle onto the same channels.
    fn clone(&self) -> Self {
        ContextHandler {
            cancel_sender: clone_sender(&self.cancel_sender),
            message_recv: clone_receiver(&self.message_recv),
        }
    }
}

/// Accumulates task and plugin registrations, then freezes them into a
/// [`Context`].
pub struct ContextBuilder<C: Controller, R: Recognizer> {
    tasks: Vec<(TaskId, Task)>,
    controllers: Vec<(ControllerId, ControllerWrapper<C>)>,
    recognizers: Vec<(RecognizerId, RecognizerWrapper<R>)>,
    handler: ContextHandler,
    cancel_recv: async_channel::Receiver<()>,
    message_sender: async_channel::Sender<Message>,
    run_budget: usize,
}

/// How many progress messages the channel holds before dropping new ones.
pub const MESSAGE_CHANNEL_CAPACITY: usize = 20;

/// How many continuation steps one run may take before it is abandoned
/// with a `TaskTimeOut`. Every run provably terminates; a graph that
/// cycles longer than this budget is cut off rather than followed
/// forever.
pub const DEFAULT_RUN_BUDGET: usize = 4096;

impl<C: Controller, R: Recognizer> ContextBuilder<C, R> {
    /// The task registrations so far.
    pub closed spec fn tasks_entries(&self) -> Seq<(String, Task)> {
        self.tasks@
    }

    /// Every task is registered under its own name.
    pub open spec fn wf(&self) -> bool {
        forall|i: int|
            0 <= i < self.tasks_entries().len() ==> (#[trigger] self.tasks_entries()[i]).0@
                == self.tasks_entries()[i].1@.task_name
    }

    /// Whether a task is registered under `id`.
    pub open spec fn has_task(&self, id: Seq<char>) -> bool {
        key_index(self.tasks_entries(), id) >= 0
    }

    /// The model of the task registered under `id`.
    pub open spec fn task_at(&self, id: Seq<char>) -> TaskModel {
        self.tasks_entries()[key_index(self.tasks_entries(), id)].1@
    }

    /// The controller registrations so far.
    pub closed spec fn controllers_entries(&self) -> Seq<(String, ControllerWrapper<C>)> {
        self.controllers@
    }

    /// The recognizer registrations so far.
    pub closed spec fn recognizers_entries(&self) -> Seq<(String, RecognizerWrapper<R>)> {
        self.recognizers@
    }

    /// Whether a controller is registered under `id`.
    pub open spec fn has_controller(&self, id: Seq<char>) -> bool {
        key_index(self.controllers_entries(), id) >= 0
    }

    /// Whether a recognizer is registered under `id`.
    pub open spec fn has_recognizer(&self, id: Seq<char>) -> bool {
        key_index(self.recognizers_entries(), id) >= 0
    }

    /// The run budget chosen so far.
    pub closed spec fn spec_run_budget(&self) -> usize {
        self.run_budget
    }

    /// An empty builder, with a fresh single-shot cancellation channel and
    /// a fresh bounded progress-message channel.
    pub fn new() -> (r: Self)
        ensures
            r.tasks_entries() =~= Seq::<(String, Task)>::empty(),
            r.controllers_entries() =~= Seq::<(String, ControllerWrapper<C>)>::empty(),
            r.recognizers_entries() =~= Seq::<(String, RecognizerWrapper<R>)>::empty(),
            r.wf(),
            forall|id: Seq<char>| !(#[trigger] r.has_task(id)),
            forall|id: Seq<char>| !(#[trigger] r.has_controller(id)),
            forall|id: Seq<char>| !(#[trigger] r.has_recognizer(id)),
            r.spec_run_budget() == DEFAULT_RUN_BUDGET,
    {
        let (cancel_sender, cancel_recv) = channel_bounded(1);
        let (message_sender, message_recv) = channel_bounded(MESSAGE_CHANNEL_CAPACITY);
        ContextBuilder {
            tasks: Vec::new(),
            controllers: Vec::new(),
            recognizers: Vec::new(),
            handler: ContextHandler { cancel_sender, message_recv },
            cancel_recv,
            message_sender,
            run_budget: DEFAULT_RUN_BUDGET,
        }
    }

    /// Caps how many continuation steps one run may take; nothing else
    /// changes.
    pub fn set_run_budget(&mut self, budget: usize)
        ensures
            final(self).spec_run_budget() == budget,
            final(self).tasks_entries() == old(self).tasks_entries(),
            final(self).controllers_entries() == old(self).controllers_entries(),
            final(self).recognizers_entries() == old(self).recognizers_entries(),
    {
        self.run_budget = budget;
    }

    /// Registers a task under its name. A later registration of the same
    /// name shadows an earlier one.
    pub fn add_task(&mut self, task: Task)
        ensures
            forall|id: Seq<char>|
                #[trigger] final(self).has_task(id) == (id == task@.task_name || old(
                    self,
                ).has_task(id)),
            final(self).task_at(task@.task_name) == task@,
            forall|id: Seq<char>|
                id != task@.task_name && old(self).has_task(id) ==> #[trigger] final(self).task_at(
                    id,
                ) == old(self).task_at(id),
            old(self).wf() ==> final(self).wf(),
            final(self).controllers_entries() == old(self).controllers_entries(),
            final(self).recognizers_entries() == old(self).recognizers_entries(),
            final(self).spec_run_budget() == old(self).spec_run_budget(),
    {
        let ghost old_entries = self.tasks@;
        let key = task.base().task_name.clone();
        self.tasks.insert(0, (key, task));
        proof {
            assert(self.tasks@[0] == (key, task));
            assert(self.tasks@.skip(1) =~= old_entries);
            assert(key_index(self.tasks@, task@.task_name) == 0);
            assert(self.task_at(task@.task_name) == task@);
            assert forall|id: Seq<char>|
                #[trigger] self.has_task(id) == (id == task@.task_name || old(self).has_task(
                    id,
                )) by {
                if id != task@.task_name {
                    assert(self.tasks@[0].0@ != id);
                    assert(key_index(self.tasks@, id) == if key_index(old_entries, id) < 0 {
                        -1
                    } else {
                        key_index(old_entries, id) + 1
                    });
                }
            }
            assert forall|id: Seq<char>|
                id != task@.task_name && old(self).has_task(id) implies #[trigger] self.task_at(id)
                == old(self).task_at(id) by {
                assert(self.tasks@[0].0@ != id);
                assert(key_index(self.tasks@, id) == if key_index(old_entries, id) < 0 {
                    -1
                } else {
                    key_index(old_entries, id) + 1
                });
                lemma_key_index(old_entries, id);
                let k = key_index(old_entries, id);
                assert(self.tasks@.skip(1)[k] == self.tasks@[k + 1]);
                assert(self.tasks@[k + 1] == old_entries[k]);
            }
            assert forall|i: int|
                old(self).wf() && 0 <= i < self.tasks@.len() implies (#[trigger] self.tasks@[i]).0@
                == self.tasks@[i].1@.task_name by {
                if i > 0 {
                    assert(self.tasks@[i] == old_entries[i - 1]);
                }
            }
        }
    }

    /// Registers every task of the vector, in order: afterwards each is
    /// registered under its name, the one registered for a name is the
    /// vector's last task of that name, and registrations the vector does
    /// not name are untouched.
    #[verifier::loop_isolation(false)]
    pub fn add_tasks(&mut self, tasks: Vec<Task>)
        ensures
            forall|id: Seq<char>|
                #[trigger] final(self).has_task(id) == (old(self).has_task(id) || exists|k: int|
                    0 <= k < tasks@.len() && (#[trigger] tasks@[k])@.task_name == id),
            forall|k: int|
                0 <= k < tasks@.len() && (forall|k2: int|
                    k < k2 < tasks@.len() ==> (#[trigger] tasks@[k2])@.task_name
                        != tasks@[k]@.task_name) ==> final(self).task_at(
                    (#[trigger] tasks@[k])@.task_name,
                ) == tasks@[k]@,
            forall|id: Seq<char>|
                old(self).has_task(id) && (forall|k: int|
                    0 <= k < tasks@.len() ==> (#[trigger] tasks@[k])@.task_name != id)
                    ==> #[trigger] final(self).task_at(id) == old(self).task_at(id),
            old(self).wf() ==> final(self).wf(),
            final(self).controllers_entries() == old(self).controllers_entries(),
            final(self).recognizers_entries() == old(self).recognizers_entries(),
            final(self).spec_run_budget() == old(self).spec_run_budget(),
    {
        let ghost all = tasks@;
        let mut rest = tasks;
        let total = rest.len();
        let mut done: usize = 0;
        loop
            invariant
                total as int == all.len(),
                done + rest@.len() == all.len(),
                rest@ == all.skip(done as int),
                old(self).wf() ==> self.wf(),
                self.controllers_entries() == old(self).controllers_entries(),
                self.recognizers_entries() == old(self).recognizers_entries(),
                self.spec_run_budget() == old(self).spec_run_budget(),
                forall|id: Seq<char>|
                    #[trigger] self.has_task(id) == (old(self).has_task(id) || exists|k: int|
                        0 <= k < done && (#[trigger] all[k])@.task_name == id),
                forall|k: int|
                    0 <= k < done && (forall|k2: int|
                        k < k2 < done ==> (#[trigger] all[k2])@.task_name != all[k]@.task_name)
                        ==> self.task_at((#[trigger] all[k])@.task_name) == all[k]@,
                forall|id: Seq<char>|
                    old(self).has_task(id) && (forall|k: int|
                        0 <= k < done ==> (#[trigger] all[k])@.task_name != id)
                        ==> #[trigger] self.task_at(id) == old(self).task_at(id),
            decreases rest@.len(),
        {
            if rest.len() == 0 {
                break ;
            }
            let ghost before = rest@;
            let task = rest.remove(0);
            proof {
                assert(before[0] == all.skip(done as int)[0]);
                assert(all.skip(done as int)[0] == all[done as int]);
                assert(task == all[done as int]);
                assert(rest@ == before.remove(0));
                assert(rest@ =~= all.skip(done as int + 1));
            }
            let ghost name_done = task@.task_name;
            self.add_task(task);
            proof {
                assert forall|id: Seq<char>|
                    #[trigger] self.has_task(id) == (old(self).has_task(id) || exists|k: int|
                        0 <= k < done + 1 && (#[trigger] all[k])@.task_name == id) by {
                    if id == name_done {
                        assert(all[done as int]@.task_name == id);
                        assert(self.has_task(id));
                    } else if self.has_task(id) {
                        assert(exists|k: int|
                            0 <= k < done && (#[trigger] all[k])@.task_name == id || old(
                                self,
                            ).has_task(id));
                    }
                }
                assert forall|k: int|
                    0 <= k < done + 1 && (forall|k2: int|
                        k < k2 < done + 1 ==> (#[trigger] all[k2])@.task_name
                            != all[k]@.task_name) implies self.task_at(
                    (#[trigger] all[k])@.task_name,
                ) == all[k]@ by {
                    if k == done {
                        assert(self.task_at(name_done) == all[done as int]@);
                    } else {
                        assert(all[done as int]@.task_name != all[k]@.task_name);
                    }
                }
                assert forall|id: Seq<char>|
                    old(self).has_task(id) && (forall|k: int|
                        0 <= k < done + 1 ==> (#[trigger] all[k])@.task_name != id) implies
                    #[trigger] self.task_at(id) == old(self).task_at(id) by {
                    assert(all[done as int]@.task_name != id);
                }
            }
            done = done + 1;
        }
        proof {
            assert(done as int == all.len());
        }
    }

    /// Registers a controller, keyed by its own name, with its base
    /// configuration: one new entry stands in front of the old ones,
    /// holding exactly this plugin, its configuration, and a cleared init
    /// flag. A later registration of the same name shadows an earlier
    /// one.
    pub fn add_controller(&mut self, controller: C, base_config: ResourceData)
        ensures
            final(self).controllers_entries().len() == old(self).controllers_entries().len() + 1,
            final(self).controllers_entries()[0].1.plugin_value() == controller,
            final(self).controllers_entries()[0].1.base_config_model() == base_config@,
            !final(self).controllers_entries()[0].1.spec_initialized(),
            final(self).controllers_entries().skip(1) == old(self).controllers_entries(),
            forall|id: Seq<char>|
                #[trigger] final(self).has_controller(id) == (id
                    == final(self).controllers_entries()[0].0@ || old(self).has_controller(id)),
            final(self).tasks_entries() == old(self).tasks_entries(),
            final(self).recognizers_entries() == old(self).recognizers_entries(),
            final(self).spec_run_budget() == old(self).spec_run_budget(),
    {
        let id = controller.name();
        let wrapper = ControllerWrapper::new(controller, base_config);
        let ghost old_entries = self.controllers@;
        self.controllers.insert(0, (id, wrapper));
        proof {
            assert(self.controllers@[0] == (id, wrapper));
            assert(self.controllers@.skip(1) =~= old_entries);
            assert forall|id2: Seq<char>|
                #[trigger] self.has_controller(id2) == (id2 == self.controllers@[0].0@ || old(
                    self,
                ).has_controller(id2)) by {
                if self.controllers@[0].0@ != id2 {
                    assert(key_index(self.controllers@, id2) == if key_index(
                        old_entries,
                        id2,
                    ) < 0 {
                        -1
                    } else {
                        key_index(old_entries, id2) + 1
                    });
                }
            }
        }
    }

    /// Registers a recognizer, keyed by its own name, with its base
    /// configuration: one new entry stands in front of the old ones,
    /// holding exactly this plugin, its configuration, and a cleared init
    /// flag. A later registration of the same name shadows an earlier
    /// one.
    pub fn add_recognizer(&mut self, recognizer: R, base_config: ResourceData)
        ensures
            final(self).recognizers_entries().len() == old(self).recognizers_entries().len() + 1,
            final(self).recognizers_entries()[0].1.plugin_value() == recognizer,
            final(self).recognizers_entries()[0].1.base_config_model() == base_config@,
            !final(self).recognizers_entries()[0].1.spec_initialized(),
            final(self).recognizers_entries().skip(1) == old(self).recognizers_entries(),
            forall|id: Seq<char>|
                #[trigger] final(self).has_recognizer(id) == (id
                    == final(self).recognizers_entries()[0].0@ || old(self).has_recognizer(id)),
            final(self).tasks_entries() == old(self).tasks_entries(),
            final(self).controllers_entries() == old(self).controllers_entries(),
            final(self).spec_run_budget() == old(self).spec_run_budget(),
    {
        let id = recognizer.name();
        let wrapper = RecognizerWrapper::new(recognizer, base_config);
        let ghost old_entries = self.recognizers@;
        self.recognizers.insert(0, (id, wrapper));
        proof {
            assert(self.recognizers@[0] == (id, wrapper));
            assert(self.recognizers@.skip(1) =~= old_entries);
            assert forall|id2: Seq<char>|
                #[trigger] self.has_recognizer(id2) == (id2 == self.recognizers@[0].0@ || old(
                    self,
                ).has_recognizer(id2)) by {
                if self.recognizers@[0].0@ != id2 {
                    assert(key_index(self.recognizers@, id2) == if key_index(
                        old_entries,
                        id2,
                    ) < 0 {
                        -1
                    } else {
                        key_index(old_entries, id2) + 1
                    });
                }
            }
        }
    }

    /// Freezes the registrations into a context. The registries are
    /// read-only for the remainder of the context's life.
    pub fn build(self) -> (r: Context<C, R>)
        ensures
            r.tasks_entries() == self.tasks_entries(),
            r.controllers_entries() == self.controllers_entries(),
            r.recognizers_entries() == self.recognizers_entries(),
            r.spec_run_budget() == self.spec_run_budget(),
            r.wf() == self.wf(),
            forall|id: Seq<char>| #[trigger] r.has_task(id) == self.has_task(id),
            forall|id: Seq<char>|
                self.has_task(id) ==> #[trigger] r.task_at(id) == self.task_at(id),
            forall|id: Seq<char>| #[trigger] r.has_controller(id) == self.has_controller(id),
            forall|id: Seq<char>| #[trigger] r.has_recognizer(id) == self.has_recognizer(id),
    {
        Context {
            tasks: self.tasks,
            controllers: self.controllers,
            recognizers: self.recognizers,
            handler: self.handler,
            cancel_recv: self.cancel_recv,
            message_sender: self.message_sender,
            run_budget: self.run_budget,
        }
    }
}

/// The frozen registries plus the cancellation and progress channels.
pub struct Context<C: Controller, R: Recognizer> {
    pub(crate) tasks: Vec<(TaskId, Task)>,
    pub(crate) controllers: Vec<(ControllerId, ControllerWrapper<C>)>,
    pub(crate) recognizers: Vec<(RecognizerId, RecognizerWrapper<R>)>,
    pub(crate) handler: ContextHandler,
    pub(crate) cancel_recv: async_channel::Receiver<()>,
    pub(crate) message_sender: async_channel::Sender<Message>,
    pub(crate) run_budget: usize,
}

impl<C: Controller, R: Recognizer> Context<C, R> {
    /// The task registrations.
    pub closed spec fn tasks_entries(&self) -> Seq<(String, Task)> {
        self.tasks@
    }

    /// Every task is registered under its own name.
    pub open spec fn wf(&self) -> bool {
        forall|i: int|
            0 <= i < self.tasks_entries().len() ==> (#[trigger] self.tasks_entries()[i]).0@
                == self.tasks_entries()[i].1@.task_name
    }

    /// Whether a task is registered under `id`.
    pub open spec fn has_task(&self, id: Seq<char>) -> bool {
        key_index(self.tasks_entries(), id) >= 0
    }

    /// The model of the task registered under `id`.
    pub open spec fn task_at(&self, id: Seq<char>) -> TaskModel {
        self.tasks_entries()[key_index(self.tasks_entries(), id)].1@
    }

    /// The controller registrations.
    pub closed spec fn controllers_entries(&self) -> Seq<(String, ControllerWrapper<C>)> {
        self.controllers@
    }

    /// The recognizer registrations.
    pub closed spec fn recognizers_entries(&self) -> Seq<(String, RecognizerWrapper<R>)> {
        self.recognizers@
    }

    /// Whether a controller is registered under `id`.
    pub open spec fn has_controller(&self, id: Seq<char>) -> bool {
        key_index(self.controllers_entries(), id) >= 0
    }

    /// Whether a recognizer is registered under `id`.
    pub open spec fn has_recognizer(&self, id: Seq<char>) -> bool {
        key_index(self.recognizers_entries(), id) >= 0
    }

    /// How many continuation steps one run may take.
    pub closed spec fn spec_run_budget(&self) -> usize {
        self.run_budget
    }

    /// Another handle for the external observer.
    pub fn get_handler(&self) -> ContextHandler {
        self.handler.clone()
    }

    /// Runs the graph from the entry task: looks it up (an absent entry
    /// is exactly `UnknownTask`), then follows the continuation protocol
    /// of [`Task::run_with_context`] from winner to winner. When the
    /// branch then ends normally, the answer is the last winner's
    /// `Success`; when the entry's own round finds no resolvable
    /// candidate, it is the normal `NoPendingTask`; a cancellation, a
    /// fatal error, or an exhausted run budget ends the run as itself.
    #[verifier::loop_isolation(false)]
    pub fn run(&mut self, entry: TaskId) -> (r: Result<TaskResult, TaskError>)
        requires
            old(self).wf(),
        ensures
            final(self).wf(),
            !old(self).has_task(entry@) ==> r == Err::<TaskResult, TaskError>(
                TaskError::UnknownTask { id: entry },
            ),
            r matches Err(TaskError::UnknownTask { id }) ==> id == entry && !old(self).has_task(
                entry@,
            ),
            r matches Ok(TaskResult::Success { id }) ==> old(self).has_task(id@),
            r matches Err(e) ==> e.spec_is_fatal(),
            (old(self).spec_run_budget() >= 1 && old(self).has_task(entry@) && (forall|j: int|
                0 <= j < old(self).task_at(entry@).next_task.len() ==> !old(self).has_task(
                    #[trigger] old(self).task_at(entry@).next_task[j],
                ))) ==> r == Ok::<TaskResult, TaskError>(TaskResult::NoPendingTask),
    {
        let ghost entry_leaf = old(self).spec_run_budget() >= 1 && old(self).has_task(entry@)
            && (forall|j: int|
            0 <= j < old(self).task_at(entry@).next_task.len() ==> !old(self).has_task(
                #[trigger] old(self).task_at(entry@).next_task[j],
            ));
        let mut current: Task = match self.get_task(&entry) {
            Some(t) => t.clone(),
            None => {
                return Err(TaskError::UnknownTask { id: entry });
            },
        };
        let mut winner: Option<TaskId> = None;
        let mut budget = self.run_budget;
        loop
            invariant
                self.wf(),
                self.tasks_entries() == old(self).tasks_entries(),
                winner matches Some(id) ==> old(self).has_task(id@),
                entry_leaf ==> winner is None && current@ == old(self).task_at(entry@) && budget
                    == old(self).spec_run_budget(),
            decreases budget,
        {
            if budget == 0 {
                return Err(TaskError::TaskTimeOut { id: current.base().task_name.clone() });
            }
            budget = budget - 1;
            let ghost current_snap = current@;
            match current.run_with_context(self) {
                Ok(TaskResult::Success { id }) => {
                    proof {
                        if entry_leaf {
                            assert(current_snap.next_task == old(self).task_at(
                                entry@,
                            ).next_task);
                            assert(false);
                        }
                    }
                    match self.get_task(&id) {
                        Some(t) => {
                            current = t.clone();
                        },
                        None => {
                            proof {
                                assert(false);
                            }
                            return Err(TaskError::UnknownTask { id });
                        },
                    }
                    winner = Some(id);
                },
                Ok(TaskResult::NoPendingTask) => {
                    match winner {
                        Some(id) => {
                            return Ok(TaskResult::Success { id });
                        },
                        None => {
                            return Ok(TaskResult::NoPendingTask);
                        },
                    }
                },
                Ok(TaskResult::TaskCancelled) => {
                    proof {
                        if entry_leaf {
                            assert(current_snap.next_task == old(self).task_at(
                                entry@,
                            ).next_task);
                            assert(false);
                        }
                    }
                    return Ok(TaskResult::TaskCancelled);
                },
                Err(e) => {
                    proof {
                        if entry_leaf {
                            assert(current_snap.next_task == old(self).task_at(
                                entry@,
                            ).next_task);
                            assert(false);
                        }
                    }
                    return Err(e);
                },
            }
        }
    }

    /// The registered task stored under `id`, if any.
    pub(crate) fn get_task(&self, id: &String) -> (r: Option<&Task>)
        ensures
            match r {
                Some(t) => self.has_task(id@) && t@ == self.task_at(id@),
                None => !self.has_task(id@),
            },
    {
        match position_of(&self.tasks, id) {
            Some(i) => Some(&self.tasks[i].1),
            None => None,
        }
    }

    /// The position of the controller registered under `id`.
    pub(crate) fn find_controller(&self, id: &String) -> (r: Option<usize>)
        ensures
            match r {
                Some(i) => self.has_controller(id@) && i < self.controllers@.len(),
                None => !self.has_controller(id@),
            },
    {
        position_of(&self.controllers, id)
    }

    /// The position of the recognizer registered under `id`.
    pub(crate) fn find_recognizer(&self, id: &String) -> (r: Option<usize>)
        ensures
            match r {
                Some(i) => self.has_recognizer(id@) && i < self.recognizers@.len(),
                None => !self.has_recognizer(id@),
            },
    {
        position_of(&self.recognizers, id)
    }

    /// Lazily initializes the controller at `i`; see
    /// [`ControllerWrapper::get_or_init`]. Only that wrapper's init flag
    /// can change: the keys, the plugin, its base configuration, every
    /// other entry, and the other registries stay as they were.
    pub(crate) fn controller_get_or_init(&mut self, i: usize) -> (r: Result<
        (),
        crate::controller::ControllerError,
    >)
        requires
            i < old(self).controllers@.len(),
        ensures
            final(self).tasks_entries() == old(self).tasks_entries(),
            final(self).controllers@.len() == old(self).controllers@.len(),
            forall|id: Seq<char>| #[trigger]
                final(self).has_controller(id) == old(self).has_controller(id),
            forall|id: Seq<char>| #[trigger]
                final(self).has_recognizer(id) == old(self).has_recognizer(id),
            final(self).recognizers@ == old(self).recognizers@,
            final(self).handler_state() == old(self).handler_state(),
            r is Ok <==> final(self).controllers@[i as int].1.spec_initialized(),
            final(self).controllers@[i as int].0 == old(self).controllers@[i as int].0,
            final(self).controllers@[i as int].1.plugin_value() == old(
                self,
            ).controllers@[i as int].1.plugin_value(),
            final(self).controllers@[i as int].1.base_config_model() == old(
                self,
            ).controllers@[i as int].1.base_config_model(),
            old(self).controllers@[i as int].1.spec_initialized() ==> r is Ok
                && final(self).controllers@ == old(self).controllers@,
            forall|j: int|
                0 <= j < old(self).controllers@.len() && j != i
                    ==> #[trigger] final(self).controllers@[j] == old(self).controllers@[j],
    {
        let ghost before = self.controllers@;
        let (id, mut wrapper) = self.controllers.remove(i);
        let ghost id_snap = id;
        let r = wrapper.get_or_init();
        self.controllers.insert(i, (id, wrapper));
        proof {
            assert(self.controllers@ =~= before.update(i as int, (id_snap, wrapper)));
            assert(forall|j: int|
                0 <= j < before.len() ==> (#[trigger] self.controllers@[j]).0 == before[j].0);
            lemma_key_index_same_keys(self.controllers@, before);
            if before[i as int].1.spec_initialized() {
                assert((id_snap, wrapper) == before[i as int]);
                assert(self.controllers@ =~= before);
            }
        }
        r
    }

    /// Lazily initializes the recognizer at `i`; see
    /// [`RecognizerWrapper::get_or_init`]. Only that wrapper's init flag
    /// can change: the keys, the plugin, its base configuration, every
    /// other entry, and the other registries stay as they were.
    pub(crate) fn recognizer_get_or_init(&mut self, i: usize) -> (r: Result<
        (),
        crate::recognizer::RecognizerError,
    >)
        requires
            i < old(self).recognizers@.len(),
        ensures
            final(self).tasks_entries() == old(self).tasks_entries(),
            final(self).recognizers@.len() == old(self).recognizers@.len(),
            forall|id: Seq<char>| #[trigger]
                final(self).has_controller(id) == old(self).has_controller(id),
            forall|id: Seq<char>| #[trigger]
                final(self).has_recognizer(id) == old(self).has_recognizer(id),
            final(self).controllers@ == old(self).controllers@,
            final(self).handler_state() == old(self).handler_state(),
            r is Ok <==> final(self).recognizers@[i as int].1.spec_initialized(),
            final(self).recognizers@[i as int].0 == old(self).recognizers@[i as int].0,
            final(self).recognizers@[i as int].1.plugin_value() == old(
                self,
            ).recognizers@[i as int].1.plugin_value(),
            final(self).recognizers@[i as int].1.base_config_model() == old(
                self,
            ).recognizers@[i as int].1.base_config_model(),
            old(self).recognizers@[i as int].1.spec_initialized() ==> r is Ok
                && final(self).recognizers@ == old(self).recognizers@,
            forall|j: int|
                0 <= j < old(self).recognizers@.len() && j != i
                    ==> #[trigger] final(self).recognizers@[j] == old(self).recognizers@[j],
    {
        let ghost before = self.recognizers@;
        let (id, mut wrapper) = self.recognizers.remove(i);
        let ghost id_snap = id;
        let r = wrapper.get_or_init();
        self.recognizers.insert(i, (id, wrapper));
        proof {
            assert(self.recognizers@ =~= before.update(i as int, (id_snap, wrapper)));
            assert(forall|j: int|
                0 <= j < before.len() ==> (#[trigger] self.recognizers@[j]).0 == before[j].0);
            lemma_key_index_same_keys(self.recognizers@, before);
            if before[i as int].1.spec_initialized() {
                assert((id_snap, wrapper) == before[i as int]);
                assert(self.recognizers@ =~= before);
            }
        }
        r
    }

    /// The channel endpoints, for frame conditions.
    pub(crate) closed spec fn handler_state(&self) -> (
        ContextHandler,
        async_channel::Receiver<()>,
        async_channel::Sender<Message>,
    ) {
        (self.handler, self.cancel_recv, self.message_sender)
    }

    /// The controller wrapper at `i`, for its immutable calls.
    pub(crate) fn controller_wrapper(&self, i: usize) -> (r: &ControllerWrapper<C>)
        requires
            i < self.controllers@.len(),
        ensures
            *r == self.controllers@[i as int].1,
    {
        &self.controllers[i].1
    }

    /// The recognizer wrapper at `i`, for its immutable calls.
    pub(crate) fn recognizer_wrapper(&self, i: usize) -> (r: &RecognizerWrapper<R>)
        requires
            i < self.recognizers@.len(),
        ensures
            *r == self.recognizers@[i as int].1,
    {
        &self.recognizers[i].1
    }

    /// Whether the cancellation signal has been fired and not yet
    /// observed; observing it consumes it.
    pub(crate) fn cancel_fired(&self) -> bool {
        channel_try_recv(&self.cancel_recv).is_some()
    }

    /// Offers a progress message to the observer; a full channel silently
    /// drops it, so the scheduler is never blocked by an inattentive
    /// observer.
    pub(crate) fn try_send_message(&self, message: Message) {
        channel_try_send(&self.message_sender, message);
    }
}

/// In a well-formed context, the task registered under an id carries that
/// id as its own name.
pub proof fn lemma_wf_task_at<C: Controller, R: Recognizer>(ctx: &Context<C, R>, id: Seq<char>)
    requires
        ctx.wf(),
        ctx.has_task(id),
    ensures
        ctx.task_at(id).task_name == id,
{
    lemma_key_index(ctx.tasks_entries(), id);
}

/// Two registries with the same keys have the same index for every id.
proof fn lemma_key_index_same_keys<V>(s1: Seq<(String, V)>, s2: Seq<(String, V)>)
    requires
        s1.len() == s2.len(),
        forall|j: int| 0 <= j < s1.len() ==> (#[trigger] s1[j]).0 == s2[j].0,
    ensures
        forall|id: Seq<char>| #[trigger] key_index(s1, id) == key_index(s2, id),
    decreases s1.len(),
{
    if s1.len() > 0 {
        assert(forall|j: int|
            0 <= j < s1.skip(1).len() ==> (#[trigger] s1.skip(1)[j]).0 == s2.skip(1)[j].0);
        lemma_key_index_same_keys(s1.skip(1), s2.skip(1));
        assert forall|id: Seq<char>| #[trigger] key_index(s1, id) == key_index(s2, id) by {
            assert(key_index(s1.skip(1), id) == key_index(s2.skip(1), id));
        }
    }
}

} // verus!
