//! A task-graph automation engine: tasks pair a controller (drives an
//! external target) with a recognizer (interprets what the controller
//! observed), and a context schedules candidate next tasks until a branch
//! terminates, fails fatally, or is cancelled.

pub mod channel;
pub mod context;
pub mod controller;
pub mod graph;
pub mod message;
pub mod recognizer;
pub mod resource;
pub mod task;
pub mod template_match;
pub mod testkit;
pub mod wrapper;
