//! A path-addressable store of JSON-shaped documents, and the form
//! descriptors and template engine around it.
//!
//! A `Path` is dotted text such as `people.0.name`; its segments are the
//! pieces between dots, empty pieces left out, so that `""` and `"..."` both
//! address the root. A segment cannot hold a literal dot.
//!
//! An `InputsData` holds one `JsonValue` and reads, writes, resizes and
//! removes values by path. Every operation is stated over the model in
//! `model`: `get_in`, `insert_in` and `remove_in` on `Json` values.

pub mod index;
pub mod inputs;
pub mod document;
pub mod json;
pub mod model;
pub mod notifications;
pub mod path;
pub mod scenario;
pub mod template_engine;
pub mod views;

pub use json::{Json, JsonNumber, JsonValue, ValueKind};
pub use path::Path;
pub use document::{InputsData, PathError};
pub use inputs::{BooleanInput, GroupInput, Input, InputInfo, InputTypes, ListInput, NumberInput, TextInput};
pub use scenario::{Scenario, ScenarioAsJson, Template};
pub use template_engine::{EngineError, HandlebarsEngine, TEMPLATE_NAME};
pub use views::{checked, list_length, render_description};
pub use notifications::{Notification, NotificationLevel, NotificationRequest};
