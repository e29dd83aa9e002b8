//! Verified core of the ClawWASM engine and its Godot node logic.
//!
//! The library decides what to run and what to report: which binary and
//! arguments a WasmEdge or llama-cli run uses, how captured output becomes
//! an [`Output`], how probe and load results become errors, and how the
//! Godot nodes turn runner events into signals. Spawning processes, reading
//! pipes, the file system, the environment and the Godot engine itself stay
//! with the caller, which hands their results in as plain values.
pub mod text;
pub mod events;
pub mod engine;
pub mod nodes;
pub mod laws;

pub use engine::{CommandLine, Engine, EngineError, Instance, LlmConfig, ModuleFile, Output, ProcessOutcome};
pub use events::{exit_event, Event, WaitOutcome};
pub use nodes::{CLLawM, ClawEngine, EngineSignal, GenerateError, LlmSignal, StartError};
pub use text::{decimal_text, is_virtual_path, resolve_module_path, resolve_path, trim};
