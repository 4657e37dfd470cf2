pub mod capability;
pub mod contract;
pub mod json;
pub mod json_repair;
pub mod protocol;
pub mod scheduler;
pub mod state;
pub mod text;
pub mod tool_scheduler;
pub mod tools;
pub mod stream;
pub mod calls;
pub mod turn;
pub mod planning;
pub mod driver;
pub mod acp;
pub mod conformance;
pub mod shell;
pub mod tool_set;
pub mod runtime;
