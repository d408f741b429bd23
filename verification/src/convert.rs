//! Conversions between YAMCS and Hermes messages.

pub mod command;
pub mod event;
pub mod filter;
pub mod hints;
pub mod instance;
pub mod names;
pub mod telemetry;
pub mod values;

pub use crate::time::parse_yamcs_time;
pub use command::{command_value_to_yamcs, hermes_value_to_json};
pub use event::yamcs_event_to_hermes;
pub use hints::{binary_type_hints_for_parameter, BinaryTypeHints};
pub use instance::yamcs_instance_to_fsw;
pub use names::split_qualified_name;
pub use telemetry::yamcs_param_to_hermes;
pub use values::yamcs_value_to_hermes;
