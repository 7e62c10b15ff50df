//! Wrappers, action merging, the race decision, and the sample plugins.

use cice_core::context::ContextBuilder;
use cice_core::controller::{Controller, ControllerData, ControllerError, CustomControllerError};
use cice_core::resource::ResourceData;
use cice_core::task::{
    compute_input_action, compute_output_action, race_scan, AttemptOutcome, BaseTaskConfig, Task,
    TaskError, TaskInner, TaskResult,
};
use cice_core::template_match::{
    OpenCVTemplateMatchResultPosition, OpenCVTemplateMatchResultSize, Position, Size,
};
use cice_core::testkit::controllers::{
    BaseControllerConfig, ControllerConfig, ControllerWithInputAndOutputAction, DummyController,
    SimpleControllerConfig, SimpleControllerWithConfig, SimpleImageController,
};
use cice_core::testkit::recognizers::{
    AcceptAllRecognizer, BaseRecognizerConfig, RecognizerConfig, SimpleRecognizerConfig,
    SimpleRecognizerWithConfig,
};
use cice_core::wrapper::{ControllerWrapper, RecognizerWrapper};

fn text(v: &str) -> ResourceData {
    ResourceData::Text(v.to_string())
}

fn obj(entries: Vec<(&str, ResourceData)>) -> ResourceData {
    ResourceData::Object(entries.into_iter().map(|(k, v)| (k.to_string(), v)).collect())
}

#[test]
fn output_action_merges_requirement_and_override() {
    let require = Some(obj(vec![("name", text("screen_capture"))]));
    let overlay = Some(obj(vec![(
        "area",
        ResourceData::List(vec![
            ResourceData::Number(0),
            ResourceData::Number(0),
            ResourceData::Number(10),
            ResourceData::Number(10),
        ]),
    )]));
    let result = compute_output_action(require, &overlay);
    assert_eq!(
        result,
        Ok(obj(vec![
            ("name", text("screen_capture")),
            (
                "area",
                ResourceData::List(vec![
                    ResourceData::Number(0),
                    ResourceData::Number(0),
                    ResourceData::Number(10),
                    ResourceData::Number(10),
                ]),
            ),
        ]))
    );
}

#[test]
fn output_action_without_requirement_is_a_config_defect() {
    let overlay = Some(obj(vec![("area", ResourceData::Null)]));
    let result = compute_output_action(None, &overlay);
    assert_eq!(
        result,
        Err(TaskError::TaskConfigError { reason: "missing controller output action".to_string() })
    );
}

#[test]
fn output_action_keeps_the_requirement_without_an_override() {
    let require = Some(obj(vec![("name", text("screen_capture"))]));
    let result = compute_output_action(require, &None);
    assert_eq!(result, Ok(obj(vec![("name", text("screen_capture"))])));
}

#[test]
fn input_action_merges_result_and_override() {
    let result = obj(vec![("value", text("Accept_All"))]);
    let overlay = Some(obj(vec![("name", text("click"))]));
    let merged = compute_input_action(result, &overlay);
    assert_eq!(merged, obj(vec![("value", text("Accept_All")), ("name", text("click"))]));
}

#[test]
fn race_scan_picks_the_first_success() {
    let outcomes = vec![
        AttemptOutcome::Failed {
            error: TaskError::RecognizerError {
                source: cice_core::recognizer::RecognizerError::Custom {
                    source: cice_core::recognizer::CustomRecognizerError::Common {
                        message: "miss".to_string(),
                    },
                },
            },
        },
        AttemptOutcome::Succeeded { id: "B".to_string() },
        AttemptOutcome::Succeeded { id: "C".to_string() },
    ];
    let verdict = race_scan(false, outcomes);
    assert_eq!(verdict, Ok(TaskResult::Success { id: "B".to_string() }));
}

#[test]
fn race_scan_aborts_on_the_first_fatal_error() {
    let fatal = TaskError::UnknownTask { id: "X".to_string() };
    let outcomes = vec![
        AttemptOutcome::Failed { error: fatal },
        AttemptOutcome::Succeeded { id: "B".to_string() },
    ];
    let verdict = race_scan(false, outcomes);
    assert_eq!(verdict, Err(TaskError::UnknownTask { id: "X".to_string() }));
}

#[test]
fn race_scan_with_nothing_left_is_no_pending_task() {
    assert_eq!(race_scan(false, vec![]), Ok(TaskResult::NoPendingTask));
}

#[test]
fn race_scan_observed_cancellation_wins() {
    let outcomes = vec![AttemptOutcome::Succeeded { id: "B".to_string() }];
    assert_eq!(race_scan(true, outcomes), Ok(TaskResult::TaskCancelled));
}

#[test]
fn wrapper_initializes_lazily_and_at_most_once() {
    let config = SimpleControllerConfig {
        base: Some(BaseControllerConfig { id: "ctrl".to_string() }),
        port: "5555".to_string(),
    };
    let base_value = config.to_resource();
    let mut wrapper = ControllerWrapper::new(SimpleControllerWithConfig::new(config), base_value);
    assert!(!wrapper.is_initialized());
    assert_eq!(wrapper.get_or_init(), Ok(()));
    assert!(wrapper.is_initialized());
    assert_eq!(wrapper.get_or_init(), Ok(()));
    assert!(wrapper.is_initialized());
}

#[test]
fn wrapper_init_failure_leaves_the_flag_clear() {
    let config = SimpleControllerConfig { base: None, port: "5555".to_string() };
    // The stored base configuration does not match what the controller
    // expects, so its init refuses it.
    let mut wrapper =
        ControllerWrapper::new(SimpleControllerWithConfig::new(config), ResourceData::Null);
    assert!(wrapper.get_or_init().is_err());
    assert!(!wrapper.is_initialized());
}

#[test]
fn scoped_reinit_does_not_corrupt_the_stored_base_config() {
    let expected = SimpleControllerConfig { base: None, port: "B".to_string() };
    let stored_base = SimpleControllerConfig { base: None, port: "A".to_string() }.to_resource();
    let wrapper = ControllerWrapper::new(SimpleControllerWithConfig::new(expected), stored_base);
    // merge(stored_base, {"port": "B"}) is exactly what the plugin expects.
    let ext = obj(vec![("port", text("B"))]);
    assert_eq!(wrapper.init_with_ext(&ext), Ok(()));
    // A plain get_or_init still hands the plugin the untouched stored base
    // configuration, which it refuses: the override was scoped.
    let mut wrapper = wrapper;
    assert!(wrapper.get_or_init().is_err());
}

#[test]
fn recognizer_wrapper_checks_its_configuration() {
    let config = SimpleRecognizerConfig {
        base: Some(BaseRecognizerConfig { id: "rec".to_string() }),
        path: "/tmp/template".to_string(),
    };
    let base_value = config.to_resource();
    let mut wrapper = RecognizerWrapper::new(SimpleRecognizerWithConfig::new(config), base_value);
    assert_eq!(wrapper.get_or_init(), Ok(()));
    assert!(wrapper.is_initialized());
}

#[test]
fn input_and_output_actions_flow_through_a_whole_run() {
    // The accept-all recognizer answers {"value": "Accept_All"}; the task
    // merges {"name": "click"} into it; the controller refuses anything
    // but exactly that merge.
    let worker = Task::new(TaskInner::new(
        BaseTaskConfig {
            task_name: "worker".to_string(),
            next_task: vec![],
            interrupt_task: vec![],
            controller_id: "controller_with_input_and_output_action".to_string(),
            recognizer_id: "recognizer_AcceptAll".to_string(),
        },
        None,
        None,
        None,
        Some(obj(vec![("name", text("click"))])),
        None,
    ));
    let entry = Task::new(TaskInner::new(
        BaseTaskConfig {
            task_name: "entry".to_string(),
            next_task: vec!["worker".to_string()],
            interrupt_task: vec![],
            controller_id: "controller_with_input_and_output_action".to_string(),
            recognizer_id: "recognizer_AcceptAll".to_string(),
        },
        None,
        None,
        None,
        None,
        None,
    ));
    let mut builder = ContextBuilder::new();
    builder.add_task(entry.clone());
    builder.add_task(worker);
    builder.add_controller(ControllerWithInputAndOutputAction::new(), ResourceData::Null);
    builder.add_recognizer(AcceptAllRecognizer::new(), ResourceData::Null);
    let mut ctx = builder.build();
    let result = entry.run_with_context(&mut ctx);
    assert_eq!(result, Ok(TaskResult::Success { id: "worker".to_string() }));
}

#[test]
fn a_wrong_input_action_override_is_refused_by_the_controller() {
    let worker = Task::new(TaskInner::new(
        BaseTaskConfig {
            task_name: "worker".to_string(),
            next_task: vec![],
            interrupt_task: vec![],
            controller_id: "controller_with_input_and_output_action".to_string(),
            recognizer_id: "recognizer_AcceptAll".to_string(),
        },
        None,
        None,
        None,
        Some(obj(vec![("name", text("swipe"))])),
        None,
    ));
    let entry = Task::new(TaskInner::new(
        BaseTaskConfig {
            task_name: "entry".to_string(),
            next_task: vec!["worker".to_string()],
            interrupt_task: vec![],
            controller_id: "controller_with_input_and_output_action".to_string(),
            recognizer_id: "recognizer_AcceptAll".to_string(),
        },
        None,
        None,
        None,
        None,
        None,
    ));
    let mut builder = ContextBuilder::new();
    builder.add_task(entry.clone());
    builder.add_task(worker);
    builder.add_controller(ControllerWithInputAndOutputAction::new(), ResourceData::Null);
    builder.add_recognizer(AcceptAllRecognizer::new(), ResourceData::Null);
    let mut ctx = builder.build();
    let result = entry.run_with_context(&mut ctx);
    match result {
        Err(TaskError::ControllerError { source }) => {
            assert!(matches!(
                source,
                ControllerError::Custom { source: CustomControllerError::InvalidAction { .. } }
            ));
        }
        other => panic!("expected an invalid-action error, got {other:?}"),
    }
}

#[test]
fn a_task_level_config_override_triggers_a_scoped_reinit() {
    // The stored base configuration satisfies the controller, and the
    // task-level override deep-merges a key the base already has, so the
    // scoped re-init sees the same configuration and passes too.
    let config = SimpleControllerConfig { base: None, port: "7777".to_string() };
    let base_value = config.to_resource();
    let worker = Task::new(TaskInner::new(
        BaseTaskConfig {
            task_name: "worker".to_string(),
            next_task: vec![],
            interrupt_task: vec![],
            controller_id: "controller_simple_with_config".to_string(),
            recognizer_id: "recognizer_AcceptAll".to_string(),
        },
        Some(obj(vec![("port", text("7777"))])),
        None,
        None,
        None,
        None,
    ));
    let entry = Task::new(TaskInner::new(
        BaseTaskConfig {
            task_name: "entry".to_string(),
            next_task: vec!["worker".to_string()],
            interrupt_task: vec![],
            controller_id: "controller_simple_with_config".to_string(),
            recognizer_id: "recognizer_AcceptAll".to_string(),
        },
        None,
        None,
        None,
        None,
        None,
    ));
    let mut builder = ContextBuilder::new();
    builder.add_task(entry.clone());
    builder.add_task(worker);
    builder.add_controller(SimpleControllerWithConfig::new(config), base_value);
    builder.add_recognizer(AcceptAllRecognizer::new(), ResourceData::Null);
    let mut ctx = builder.build();
    let result = entry.run_with_context(&mut ctx);
    assert_eq!(result, Ok(TaskResult::Success { id: "worker".to_string() }));
}

#[test]
fn a_mismatched_config_override_fails_the_candidate() {
    // The override changes the port, so the scoped re-init hands the
    // plugin a configuration it refuses; the refusal is not a `Common`
    // error, so it aborts the race.
    let config = SimpleControllerConfig { base: None, port: "7777".to_string() };
    let base_value = config.to_resource();
    let worker = Task::new(TaskInner::new(
        BaseTaskConfig {
            task_name: "worker".to_string(),
            next_task: vec![],
            interrupt_task: vec![],
            controller_id: "controller_simple_with_config".to_string(),
            recognizer_id: "recognizer_AcceptAll".to_string(),
        },
        Some(obj(vec![("port", text("8888"))])),
        None,
        None,
        None,
        None,
    ));
    let entry = Task::new(TaskInner::new(
        BaseTaskConfig {
            task_name: "entry".to_string(),
            next_task: vec!["worker".to_string()],
            interrupt_task: vec![],
            controller_id: "controller_simple_with_config".to_string(),
            recognizer_id: "recognizer_AcceptAll".to_string(),
        },
        None,
        None,
        None,
        None,
        None,
    ));
    let mut builder = ContextBuilder::new();
    builder.add_task(entry.clone());
    builder.add_task(worker);
    builder.add_controller(SimpleControllerWithConfig::new(config), base_value);
    builder.add_recognizer(AcceptAllRecognizer::new(), ResourceData::Null);
    let mut ctx = builder.build();
    let result = entry.run_with_context(&mut ctx);
    match result {
        Err(TaskError::ControllerError { source }) => {
            assert!(matches!(
                source,
                ControllerError::Custom { source: CustomControllerError::InvalidAction { .. } }
            ));
        }
        other => panic!("expected an invalid-action error, got {other:?}"),
    }
}

#[test]
fn sample_configs_write_out_as_values() {
    let controller_config = SimpleControllerConfig {
        base: Some(BaseControllerConfig { id: "c1".to_string() }),
        port: "5555".to_string(),
    };
    assert_eq!(
        controller_config.to_resource(),
        obj(vec![("base", obj(vec![("id", text("c1"))])), ("port", text("5555"))])
    );
    let recognizer_config = SimpleRecognizerConfig { base: None, path: "p".to_string() };
    assert_eq!(
        recognizer_config.to_resource(),
        obj(vec![("base", ResourceData::Null), ("path", text("p"))])
    );
    let ControllerConfig::Simple(back) =
        ControllerConfig::Simple(controller_config);
    assert_eq!(back.port, "5555");
    let unpacked = SimpleRecognizerConfig::from_config(RecognizerConfig::Simple(
        recognizer_config,
    ));
    assert_eq!(unpacked.unwrap().path, "p");
}

#[test]
fn simple_image_controller_produces_an_image() {
    let controller = SimpleImageController::new();
    assert_eq!(controller.name(), "controller_simple_image");
    let data = controller.exec_output(&ResourceData::Null).unwrap();
    match data {
        ControllerData::Image(image) => {
            assert!(image.width > 0 && image.height > 0);
        }
        _ => panic!("expected an image capture"),
    }
    let dummy = DummyController::new();
    assert_eq!(dummy.name(), "dummy_controller");
}

#[test]
fn template_match_results_write_out_as_values() {
    let position = OpenCVTemplateMatchResultPosition { x: 4, y: -2 };
    assert_eq!(
        position.to_resource(),
        obj(vec![("x", ResourceData::Number(4)), ("y", ResourceData::Number(-2))])
    );
    let size = OpenCVTemplateMatchResultSize { width: 10, height: 20 };
    assert_eq!(
        size.to_resource(),
        obj(vec![("width", ResourceData::Number(10)), ("height", ResourceData::Number(20))])
    );
    let p = Position { x: 1, y: 2 };
    let s = Size { width: 3, height: 4 };
    assert_eq!(p, Position { x: 1, y: 2 });
    assert_eq!(s.width + p.x, 4);
}
