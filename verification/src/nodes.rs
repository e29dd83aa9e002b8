//! The decisions of the two Godot nodes.
//!
//! `ClawEngine` runs a `.wasm` module under WasmEdge and `CLLawM` runs
//! llama-cli inference. Each node keeps its settings and whether a runner is
//! active; on every frame the host polls the runner and hands the events to
//! `process`, which answers with the signals to emit, in order. Starting a
//! run yields the command to spawn; the host spawns it and reports success
//! with `runner_started`.
use vstd::prelude::*;
use vstd::string::*;
use crate::engine::{
    llm_args, CommandLine, Engine, EngineError, LlmConfig, LlmConfigView, ModuleFile,
};
use crate::events::Event;
use crate::text::{is_virtual_path_spec, resolve_path};

verus! {

// ───────────────────────────── ClawEngine ─────────────────────────────

/// A signal of the `ClawEngine` node.
#[derive(Debug, Clone, PartialEq, Eq)]
pub enum EngineSignal {
    /// `stdout_line(line)`: one line of the module's stdout.
    StdoutLine(String),
    /// `stderr_line(line)`: one line of the module's stderr.
    StderrLine(String),
    /// `finished(code)`: the module exited with `code` (`-1` if killed).
    Finished(i64),
    /// `failed(message)`: the runner itself failed.
    Failed(String),
}

/// The abstract value of an [`EngineSignal`].
pub enum EngineSignalView {
    StdoutLine(Seq<char>),
    StderrLine(Seq<char>),
    Finished(i64),
    Failed(Seq<char>),
}

impl DeepView for EngineSignal {
    type V = EngineSignalView;

    open spec fn deep_view(&self) -> EngineSignalView {
        match self {
            EngineSignal::StdoutLine(l) => EngineSignalView::StdoutLine(l@),
            EngineSignal::StderrLine(l) => EngineSignalView::StderrLine(l@),
            EngineSignal::Finished(c) => EngineSignalView::Finished(*c),
            EngineSignal::Failed(m) => EngineSignalView::Failed(m@),
        }
    }
}

/// The signal that an event becomes on the `ClawEngine` node; chunked
/// stdout, which a line-based run never produces, becomes none.
pub open spec fn engine_signal_of(ev: Event) -> Option<EngineSignalView> {
    match ev {
        Event::Stdout(l) => Some(EngineSignalView::StdoutLine(l@)),
        Event::Stderr(l) => Some(EngineSignalView::StderrLine(l@)),
        Event::Finished(c) => Some(EngineSignalView::Finished(c as i64)),
        Event::Failed(m) => Some(EngineSignalView::Failed(m@)),
        Event::StdoutChunk(_) => None,
    }
}

/// The signals that a sequence of events becomes, in order.
pub open spec fn engine_signals(evs: Seq<Event>) -> Seq<EngineSignalView>
    decreases evs.len(),
{
    if evs.len() == 0 {
        Seq::empty()
    } else {
        let rest = engine_signals(evs.drop_last());
        match engine_signal_of(evs.last()) {
            Some(s) => rest.push(s),
            None => rest,
        }
    }
}

/// Whether some event of `evs` ends a run.
pub open spec fn has_terminal(evs: Seq<Event>) -> bool
    decreases evs.len(),
{
    evs.len() > 0 && (has_terminal(evs.drop_last()) || evs.last().terminal())
}

/// Whether a `ClawEngine` signal is `finished` or `failed`.
pub open spec fn engine_signal_terminal(s: EngineSignalView) -> bool {
    s is Finished || s is Failed
}

/// The abstract state of a `ClawEngine` node.
pub struct ClawEngineView {
    /// The registered module's file-system path.
    pub module: Option<Seq<char>>,
    /// The `wasmedge` binary override.
    pub wasmedge_bin: Option<Seq<char>>,
    /// Whether a runner is active.
    pub active: bool,
}

/// One frame of a `ClawEngine` node: the state after the events polled from
/// the runner, and the signals to emit. Without an active runner nothing is
/// polled; an event that ends the run releases the runner.
pub open spec fn engine_tick(s: ClawEngineView, evs: Seq<Event>) -> (ClawEngineView, Seq<
    EngineSignalView,
>) {
    if !s.active {
        (s, Seq::empty())
    } else {
        (ClawEngineView { active: !has_terminal(evs), ..s }, engine_signals(evs))
    }
}

/// Why a `ClawEngine` run was not started.
#[derive(Debug, Clone, PartialEq, Eq)]
pub enum StartError {
    /// A run is already active; the request is ignored.
    AlreadyRunning,
    /// No module has been registered.
    NoModule,
    /// The module could not be loaded.
    Load { module: String, error: EngineError },
}

impl StartError {
    /// The text that the node logs for the refusal.
    pub open spec fn message_spec(&self) -> Seq<char> {
        match self {
            StartError::AlreadyRunning => "ClawEngine::start called while already running; ignoring"@,
            StartError::NoModule => "ClawEngine::start: no module registered"@,
            StartError::Load { module, error } => "ClawEngine::start: load("@ + module@
                + ") failed: "@ + error.message_spec(),
        }
    }

    /// The text that the node logs for the refusal.
    pub fn message(&self) -> (m: String)
        ensures
            m@ == self.message_spec(),
    {
        match self {
            StartError::AlreadyRunning => String::from_str(
                "ClawEngine::start called while already running; ignoring",
            ),
            StartError::NoModule => String::from_str("ClawEngine::start: no module registered"),
            StartError::Load { module, error } => {
                let mut m = String::from_str("ClawEngine::start: load(");
                m.append(module.as_str());
                m.append(") failed: ");
                let e = error.message();
                m.append(e.as_str());
                m
            },
        }
    }
}

/// A Godot node that runs a `.wasm` module under WasmEdge and reports its
/// output as signals.
pub struct ClawEngine {
    module: Option<String>,
    wasmedge_bin: Option<String>,
    active: bool,
}

/// The abstract value of an optional text.
pub open spec fn opt_view(o: Option<String>) -> Option<Seq<char>> {
    match o {
        Some(s) => Some(s@),
        None => None,
    }
}

impl View for ClawEngine {
    type V = ClawEngineView;

    closed spec fn view(&self) -> ClawEngineView {
        ClawEngineView {
            module: opt_view(self.module),
            wasmedge_bin: opt_view(self.wasmedge_bin),
            active: self.active,
        }
    }
}

impl ClawEngine {
    /// A fresh node: no module, no binary override, no runner.
    pub fn init() -> (n: ClawEngine)
        ensures
            n@.module is None,
            n@.wasmedge_bin is None,
            !n@.active,
    {
        ClawEngine { module: None, wasmedge_bin: None, active: false }
    }

    /// Points the node at a `.wasm` file. A Godot `res://` or `user://`
    /// path becomes `globalized`, the path Godot's project settings give
    /// for it; any other path is kept as it is. Does not start a run.
    pub fn register_module(&mut self, path: &str, globalized: Option<String>)
        requires
            is_virtual_path_spec(path@) ==> globalized is Some,
        ensures
            final(self)@.module == Some(
                if is_virtual_path_spec(path@) {
                    globalized->0@
                } else {
                    path@
                },
            ),
            final(self)@.wasmedge_bin == old(self)@.wasmedge_bin,
            final(self)@.active == old(self)@.active,
    {
        let resolved = resolve_path(path, globalized);
        self.module = Some(resolved);
    }

    /// Overrides the `wasmedge` binary; an empty path clears the override so
    /// that `$WASMEDGE_BIN` and `$PATH` apply again.
    pub fn set_wasmedge_binary(&mut self, path: String)
        ensures
            final(self)@.wasmedge_bin == (if path@.len() == 0 {
                None
            } else {
                Some(path@)
            }),
            final(self)@.module == old(self)@.module,
            final(self)@.active == old(self)@.active,
    {
        if path.as_str().is_empty() {
            self.wasmedge_bin = None;
        } else {
            self.wasmedge_bin = Some(path);
        }
    }

    /// The command that starts the registered module with `args`, given the
    /// value of `$WASMEDGE_BIN` and what the file system says of the module.
    ///
    /// Refused while a run is active and when no module is registered;
    /// otherwise the module is loaded with the binary override, or else
    /// the engine that `$WASMEDGE_BIN` or `$PATH` gives.
    pub fn start(
        &self,
        args: &Vec<String>,
        wasmedge_bin_env: Option<String>,
        module_file: ModuleFile,
    ) -> (r: Result<CommandLine, StartError>)
        ensures
            self@.active ==> r == Err::<CommandLine, StartError>(StartError::AlreadyRunning),
            !self@.active && self@.module is None ==> r == Err::<CommandLine, StartError>(
                StartError::NoModule,
            ),
            !self@.active && self@.module is Some ==> ({
                let module = self@.module->0;
                let bin = match self@.wasmedge_bin {
                    Some(b) => b,
                    None => match wasmedge_bin_env {
                        Some(e) => e@,
                        None => "wasmedge"@,
                    },
                };
                if !module_file.is_file {
                    r matches Err(StartError::Load { module: m, error }) && m@ == module
                        && (error matches EngineError::ModuleNotFound { path } && path@ == module)
                } else if module_file.len is Err {
                    r matches Err(StartError::Load { module: m, error }) && m@ == module
                        && (error matches EngineError::ModuleStatFailed { path, cause } && path@
                        == module && cause@ == module_file.len->Err_0@)
                } else if module_file.len == Ok::<u64, String>(0u64) {
                    r matches Err(StartError::Load { module: m, error }) && m@ == module
                        && (error matches EngineError::ModuleEmpty { path } && path@ == module)
                } else {
                    r matches Ok(c) && c.program@ == bin && c.args.deep_view() == seq![module]
                        + args.deep_view()
                }
            }),
    {
        if self.active {
            return Err(StartError::AlreadyRunning);
        }
        let module = match &self.module {
            Some(m) => m,
            None => {
                return Err(StartError::NoModule);
            },
        };
        let engine = match &self.wasmedge_bin {
            Some(b) => Engine::with_binary(b.clone()),
            None => Engine::new(wasmedge_bin_env).unwrap(),
        };
        match engine.load(module.as_str(), module_file) {
            Ok(instance) => Ok(instance.command(args)),
            Err(error) => Err(StartError::Load { module: module.clone(), error }),
        }
    }

    /// Records that the runner for a started module was spawned.
    pub fn runner_started(&mut self)
        ensures
            final(self)@.active,
            final(self)@.module == old(self)@.module,
            final(self)@.wasmedge_bin == old(self)@.wasmedge_bin,
    {
        self.active = true;
    }

    /// One frame: the signals for the events polled from the runner, in
    /// order. An event that ends the run (`Finished`, `Failed`) releases the
    /// runner; without an active runner nothing is emitted.
    pub fn process(&mut self, events: Vec<Event>) -> (signals: Vec<EngineSignal>)
        ensures
            (final(self)@, signals.deep_view()) == engine_tick(old(self)@, events@),
    {
        let mut signals: Vec<EngineSignal> = Vec::new();
        if !self.active {
            assert(signals.deep_view() =~= Seq::<EngineSignalView>::empty());
            return signals;
        }
        let mut ended = false;
        let mut i: usize = 0;
        while i < events.len()
            invariant
                i <= events.len(),
                signals.deep_view() == engine_signals(events@.take(i as int)),
                ended == has_terminal(events@.take(i as int)),
            decreases events.len() - i,
        {
            let ghost prev = signals.deep_view();
            proof {
                assert(events@.take(i + 1).drop_last() =~= events@.take(i as int));
                assert(events@.take(i + 1).last() == events@[i as int]);
            }
            match &events[i] {
                Event::Stdout(l) => {
                    signals.push(EngineSignal::StdoutLine(l.clone()));
                },
                Event::Stderr(l) => {
                    signals.push(EngineSignal::StderrLine(l.clone()));
                },
                Event::Finished(c) => {
                    signals.push(EngineSignal::Finished(*c as i64));
                    ended = true;
                },
                Event::Failed(m) => {
                    signals.push(EngineSignal::Failed(m.clone()));
                    ended = true;
                },
                Event::StdoutChunk(_) => {},
            }
            proof {
                match engine_signal_of(events@[i as int]) {
                    Some(s) => {
                        assert(signals.deep_view() =~= prev.push(s));
                    },
                    None => {
                        assert(signals.deep_view() =~= prev);
                    },
                }
            }
            i = i + 1;
        }
        assert(events@.take(events.len() as int) =~= events@);
        if ended {
            self.active = false;
        }
        signals
    }

    /// Whether a module is executing: a runner is active and, as the
    /// runner reports, its child has not been reaped.
    pub fn is_running(&self, runner_alive: bool) -> (b: bool)
        ensures
            b == (self@.active && runner_alive),
    {
        self.active && runner_alive
    }

    /// The registered module's path, or empty text if none.
    pub fn module_file_path(&self) -> (p: String)
        ensures
            p@ == match self@.module {
                Some(m) => m,
                None => Seq::empty(),
            },
    {
        match &self.module {
            Some(m) => m.clone(),
            None => String::new(),
        }
    }
}


// ─────────────────────────────── CLLawM ───────────────────────────────

/// A signal of the `CLLawM` node.
#[derive(Debug, Clone, PartialEq, Eq)]
pub enum LlmSignal {
    /// `token_generated(token)`: a chunk of generated text.
    TokenGenerated(String),
    /// `inference_stderr(line)`: one line of llama-cli's stderr.
    InferenceStderr(String),
    /// `inference_done(full_text, exit_code)`: the whole response and the
    /// exit code.
    InferenceDone(String, i64),
    /// `inference_failed(message)`: the runner itself failed.
    InferenceFailed(String),
}

/// The abstract value of an [`LlmSignal`].
pub enum LlmSignalView {
    TokenGenerated(Seq<char>),
    InferenceStderr(Seq<char>),
    InferenceDone(Seq<char>, i64),
    InferenceFailed(Seq<char>),
}

impl DeepView for LlmSignal {
    type V = LlmSignalView;

    open spec fn deep_view(&self) -> LlmSignalView {
        match self {
            LlmSignal::TokenGenerated(t) => LlmSignalView::TokenGenerated(t@),
            LlmSignal::InferenceStderr(l) => LlmSignalView::InferenceStderr(l@),
            LlmSignal::InferenceDone(t, c) => LlmSignalView::InferenceDone(t@, *c),
            LlmSignal::InferenceFailed(m) => LlmSignalView::InferenceFailed(m@),
        }
    }
}

/// Events handed to a `CLLawM` node, starting from the accumulated text
/// `acc`: the accumulated text afterwards and the signals, in order. A chunk
/// is emitted and accumulated; the end of a run emits the accumulated text
/// (or the failure) and clears it; line-based stdout is ignored.
pub open spec fn llm_run(acc: Seq<char>, evs: Seq<Event>) -> (Seq<char>, Seq<LlmSignalView>)
    decreases evs.len(),
{
    if evs.len() == 0 {
        (acc, Seq::empty())
    } else {
        let (a, sigs) = llm_run(acc, evs.drop_last());
        match evs.last() {
            Event::StdoutChunk(c) => (a + c@, sigs.push(LlmSignalView::TokenGenerated(c@))),
            Event::Stderr(l) => (a, sigs.push(LlmSignalView::InferenceStderr(l@))),
            Event::Finished(code) => (
                Seq::empty(),
                sigs.push(LlmSignalView::InferenceDone(a, code as i64)),
            ),
            Event::Failed(m) => (Seq::empty(), sigs.push(LlmSignalView::InferenceFailed(m@))),
            Event::Stdout(_) => (a, sigs),
        }
    }
}

/// The text of the `token_generated` signals in `sigs`, concatenated.
pub open spec fn tokens_text(sigs: Seq<LlmSignalView>) -> Seq<char>
    decreases sigs.len(),
{
    if sigs.len() == 0 {
        Seq::empty()
    } else {
        match sigs.last() {
            LlmSignalView::TokenGenerated(t) => tokens_text(sigs.drop_last()) + t,
            _ => tokens_text(sigs.drop_last()),
        }
    }
}

/// Whether a `CLLawM` signal is `inference_done` or `inference_failed`.
pub open spec fn llm_signal_terminal(s: LlmSignalView) -> bool {
    s is InferenceDone || s is InferenceFailed
}

/// The abstract state of a `CLLawM` node.
pub struct CLLawMView {
    /// The model's file-system path.
    pub model: Option<Seq<char>>,
    /// The `llama-cli` binary override.
    pub llama_cli_bin: Option<Seq<char>>,
    /// The system prompt of every generation.
    pub system_prompt: Seq<char>,
    /// Maximum tokens per generation.
    pub n_predict: u32,
    /// Context window size in tokens.
    pub ctx_size: u32,
    /// CPU threads; `0` lets llama-cli decide.
    pub n_threads: u32,
    /// Whether a runner is active.
    pub active: bool,
    /// The text generated so far in the current run.
    pub accumulated: Seq<char>,
}

/// One frame of a `CLLawM` node: the state after the events polled from the
/// runner, and the signals to emit. Without an active runner nothing is
/// polled; an event that ends the run releases the runner.
pub open spec fn llm_tick(s: CLLawMView, evs: Seq<Event>) -> (CLLawMView, Seq<LlmSignalView>) {
    if !s.active {
        (s, Seq::empty())
    } else {
        let (acc, sigs) = llm_run(s.accumulated, evs);
        (CLLawMView { active: !has_terminal(evs), accumulated: acc, ..s }, sigs)
    }
}

/// The inference configuration of a node for `model`, given the value of
/// `$LLAMA_CLI_BIN`: the Gemma 4 defaults with the node's prompt, limits,
/// thread count (when positive) and binary override.
pub open spec fn node_config(s: CLLawMView, model: Seq<char>, env: Option<Seq<char>>) -> LlmConfigView {
    LlmConfigView {
        model_path: model,
        llama_cli_bin: match s.llama_cli_bin {
            Some(b) => b,
            None => match env {
                Some(e) => e,
                None => "llama-cli"@,
            },
        },
        system_prompt: s.system_prompt,
        n_predict: s.n_predict,
        ctx_size: s.ctx_size,
        n_threads: if s.n_threads > 0 {
            Some(s.n_threads)
        } else {
            None
        },
        temperature: "1"@,
        top_p: "0.95"@,
        top_k: 64,
    }
}

/// Why a `CLLawM` generation was not started.
#[derive(Debug, Clone, PartialEq, Eq)]
pub enum GenerateError {
    /// A generation is already active; the request is ignored.
    AlreadyRunning,
    /// No model has been set.
    NoModel,
    /// The inference command could not be prepared.
    Engine(EngineError),
}

impl GenerateError {
    /// The text that the node logs for the refusal.
    pub open spec fn message_spec(&self) -> Seq<char> {
        match self {
            GenerateError::AlreadyRunning => "CLLawM::generate called while already running; ignoring"@,
            GenerateError::NoModel => "CLLawM::generate: no model set; call set_model() first"@,
            GenerateError::Engine(e) => "CLLawM::generate: spawn failed: "@ + e.message_spec(),
        }
    }

    /// The text that the node logs for the refusal.
    pub fn message(&self) -> (m: String)
        ensures
            m@ == self.message_spec(),
    {
        match self {
            GenerateError::AlreadyRunning => String::from_str(
                "CLLawM::generate called while already running; ignoring",
            ),
            GenerateError::NoModel => String::from_str(
                "CLLawM::generate: no model set; call set_model() first",
            ),
            GenerateError::Engine(e) => {
                let mut m = String::from_str("CLLawM::generate: spawn failed: ");
                let t = e.message();
                m.append(t.as_str());
                m
            },
        }
    }
}

/// A Godot node that runs LLM inference through `llama-cli` and streams the
/// tokens as signals.
pub struct CLLawM {
    model: Option<String>,
    llama_cli_bin: Option<String>,
    system_prompt: String,
    n_predict: u32,
    ctx_size: u32,
    n_threads: u32,
    active: bool,
    accumulated: String,
}

impl View for CLLawM {
    type V = CLLawMView;

    closed spec fn view(&self) -> CLLawMView {
        CLLawMView {
            model: opt_view(self.model),
            llama_cli_bin: opt_view(self.llama_cli_bin),
            system_prompt: self.system_prompt@,
            n_predict: self.n_predict,
            ctx_size: self.ctx_size,
            n_threads: self.n_threads,
            active: self.active,
            accumulated: self.accumulated@,
        }
    }
}

/// The lower bound `lo` applied to `n`, then truncated to 32 bits, as the
/// node's setters store an integer that Godot hands them.
pub open spec fn clamp_low_u32(n: i64, lo: i64) -> u32 {
    (if n < lo {
        lo
    } else {
        n
    }) as u32
}

impl CLLawM {
    /// A fresh node: no model, no binary override, the default system prompt
    /// and limits (512 tokens, a 4096-token context, threads chosen by
    /// llama-cli), no runner, nothing accumulated.
    pub fn init() -> (n: CLLawM)
        ensures
            n@.model is None,
            n@.llama_cli_bin is None,
            n@.system_prompt == "You are a helpful assistant."@,
            n@.n_predict == 512,
            n@.ctx_size == 4096,
            n@.n_threads == 0,
            !n@.active,
            n@.accumulated.len() == 0,
    {
        CLLawM {
            model: None,
            llama_cli_bin: None,
            system_prompt: String::from_str("You are a helpful assistant."),
            n_predict: 512,
            ctx_size: 4096,
            n_threads: 0,
            active: false,
            accumulated: String::new(),
        }
    }

    /// Sets the GGUF model. A Godot `res://` or `user://` path becomes
    /// `globalized`; any other path is kept as it is.
    pub fn set_model(&mut self, path: &str, globalized: Option<String>)
        requires
            is_virtual_path_spec(path@) ==> globalized is Some,
        ensures
            final(self)@ == (CLLawMView {
                model: Some(
                    if is_virtual_path_spec(path@) {
                        globalized->0@
                    } else {
                        path@
                    },
                ),
                ..old(self)@
            }),
    {
        let resolved = resolve_path(path, globalized);
        self.model = Some(resolved);
    }

    /// The model's path, or empty text if none is set.
    pub fn model_path(&self) -> (p: String)
        ensures
            p@ == match self@.model {
                Some(m) => m,
                None => Seq::empty(),
            },
    {
        match &self.model {
            Some(m) => m.clone(),
            None => String::new(),
        }
    }

    /// Overrides the `llama-cli` binary; an empty path clears the override
    /// so that `$LLAMA_CLI_BIN` and `$PATH` apply again.
    pub fn set_llama_cli(&mut self, path: String)
        ensures
            final(self)@ == (CLLawMView {
                llama_cli_bin: if path@.len() == 0 {
                    None
                } else {
                    Some(path@)
                },
                ..old(self)@
            }),
    {
        if path.as_str().is_empty() {
            self.llama_cli_bin = None;
        } else {
            self.llama_cli_bin = Some(path);
        }
    }

    /// Sets the system prompt of every generation.
    pub fn set_system_prompt(&mut self, prompt: String)
        ensures
            final(self)@ == (CLLawMView { system_prompt: prompt@, ..old(self)@ }),
    {
        self.system_prompt = prompt;
    }

    /// The current system prompt.
    pub fn system_prompt(&self) -> (p: String)
        ensures
            p@ == self@.system_prompt,
    {
        self.system_prompt.clone()
    }

    /// Sets the maximum tokens per generation; values below 1 become 1.
    pub fn set_n_predict(&mut self, n: i64)
        ensures
            final(self)@ == (CLLawMView { n_predict: clamp_low_u32(n, 1), ..old(self)@ }),
    {
        let m: i64 = if n < 1 {
            1
        } else {
            n
        };
        self.n_predict = m as u32;
    }

    /// Sets the context window size; values below 128 become 128.
    pub fn set_ctx_size(&mut self, n: i64)
        ensures
            final(self)@ == (CLLawMView { ctx_size: clamp_low_u32(n, 128), ..old(self)@ }),
    {
        let m: i64 = if n < 128 {
            128
        } else {
            n
        };
        self.ctx_size = m as u32;
    }

    /// Sets the CPU thread count; `0` (and below) lets llama-cli decide.
    pub fn set_n_threads(&mut self, n: i64)
        ensures
            final(self)@ == (CLLawMView { n_threads: clamp_low_u32(n, 0), ..old(self)@ }),
    {
        let m: i64 = if n < 0 {
            0
        } else {
            n
        };
        self.n_threads = m as u32;
    }

    /// The llama-cli command that generates a reply to `prompt`, given the
    /// value of `$LLAMA_CLI_BIN` and whether the model path names a file.
    ///
    /// Refused while a generation is active and when no model is set.
    pub fn generate(&self, prompt: &str, llama_cli_bin_env: Option<String>, model_is_file: bool) -> (r: Result<
        CommandLine,
        GenerateError,
    >)
        ensures
            self@.active ==> r == Err::<CommandLine, GenerateError>(GenerateError::AlreadyRunning),
            !self@.active && self@.model is None ==> r == Err::<CommandLine, GenerateError>(
                GenerateError::NoModel,
            ),
            !self@.active && self@.model is Some && !model_is_file ==> (r matches Err(
                GenerateError::Engine(EngineError::ModelNotFound { path }),
            ) && path@ == self@.model->0),
            !self@.active && self@.model is Some && model_is_file ==> ({
                let cfg = node_config(self@, self@.model->0, opt_view(llama_cli_bin_env));
                r matches Ok(c) && c.program@ == cfg.llama_cli_bin && c.args.deep_view()
                    == llm_args(cfg, prompt@)
            }),
    {
        if self.active {
            return Err(GenerateError::AlreadyRunning);
        }
        let model = match &self.model {
            Some(m) => m.clone(),
            None => {
                return Err(GenerateError::NoModel);
            },
        };
        let mut cfg = LlmConfig::new(model, llama_cli_bin_env);
        cfg.system_prompt = self.system_prompt.clone();
        cfg.n_predict = self.n_predict;
        cfg.ctx_size = self.ctx_size;
        if self.n_threads > 0 {
            cfg.n_threads = Some(self.n_threads);
        }
        match &self.llama_cli_bin {
            Some(b) => {
                cfg.llama_cli_bin = b.clone();
            },
            None => {},
        }
        assert(cfg@ == node_config(self@, self@.model->0, opt_view(llama_cli_bin_env)));
        match cfg.stream_generate(prompt, model_is_file) {
            Ok(c) => Ok(c),
            Err(e) => Err(GenerateError::Engine(e)),
        }
    }

    /// Reports that the inference runner for a prepared command could not
    /// be spawned (e.g. the llama-cli binary was not found): exactly one
    /// `inference_failed` carrying `reason`, and the node is left idle with
    /// nothing accumulated.
    pub fn spawn_failed(&mut self, reason: String) -> (signals: Vec<LlmSignal>)
        ensures
            signals.deep_view() == seq![LlmSignalView::InferenceFailed(reason@)],
            final(self)@ == (CLLawMView {
                active: false,
                accumulated: Seq::empty(),
                ..old(self)@
            }),
    {
        self.active = false;
        self.accumulated = String::new();
        let ghost r = reason@;
        let mut signals: Vec<LlmSignal> = Vec::new();
        signals.push(LlmSignal::InferenceFailed(reason));
        assert(signals.deep_view() =~= seq![LlmSignalView::InferenceFailed(r)]);
        signals
    }

    /// Records that the inference runner was spawned.
    pub fn runner_started(&mut self)
        ensures
            final(self)@ == (CLLawMView { active: true, ..old(self)@ }),
    {
        self.active = true;
    }

    /// One frame: the signals for the events polled from the runner, in
    /// order, accumulating the generated text for `inference_done`. An event
    /// that ends the run releases the runner; without an active runner
    /// nothing is emitted.
    pub fn process(&mut self, events: Vec<Event>) -> (signals: Vec<LlmSignal>)
        ensures
            (final(self)@, signals.deep_view()) == llm_tick(old(self)@, events@),
    {
        let mut signals: Vec<LlmSignal> = Vec::new();
        if !self.active {
            assert(signals.deep_view() =~= Seq::<LlmSignalView>::empty());
            return signals;
        }
        let ghost acc0 = self.accumulated@;
        let mut ended = false;
        let mut i: usize = 0;
        while i < events.len()
            invariant
                i <= events.len(),
                self.active,
                (self.accumulated@, signals.deep_view()) == llm_run(acc0, events@.take(i as int)),
                ended == has_terminal(events@.take(i as int)),
                self@ == (CLLawMView { accumulated: self.accumulated@, ..old(self)@ }),
            decreases events.len() - i,
        {
            let ghost prev = signals.deep_view();
            let ghost prev_acc = self.accumulated@;
            proof {
                assert(events@.take(i + 1).drop_last() =~= events@.take(i as int));
                assert(events@.take(i + 1).last() == events@[i as int]);
            }
            match &events[i] {
                Event::StdoutChunk(c) => {
                    self.accumulated.append(c.as_str());
                    signals.push(LlmSignal::TokenGenerated(c.clone()));
                    assert(signals.deep_view() =~= prev.push(LlmSignalView::TokenGenerated(c@)));
                },
                Event::Stderr(l) => {
                    signals.push(LlmSignal::InferenceStderr(l.clone()));
                    assert(signals.deep_view() =~= prev.push(LlmSignalView::InferenceStderr(l@)));
                },
                Event::Finished(code) => {
                    let full = self.accumulated.clone();
                    signals.push(LlmSignal::InferenceDone(full, *code as i64));
                    self.accumulated = String::new();
                    ended = true;
                    assert(signals.deep_view() =~= prev.push(
                        LlmSignalView::InferenceDone(prev_acc, *code as i64),
                    ));
                },
                Event::Failed(m) => {
                    signals.push(LlmSignal::InferenceFailed(m.clone()));
                    self.accumulated = String::new();
                    ended = true;
                    assert(signals.deep_view() =~= prev.push(LlmSignalView::InferenceFailed(m@)));
                },
                Event::Stdout(_) => {
                    assert(signals.deep_view() =~= prev);
                },
            }
            i = i + 1;
        }
        assert(events@.take(events.len() as int) =~= events@);
        if ended {
            self.active = false;
        }
        signals
    }

    /// Whether inference is running: a runner is active and, as the runner
    /// reports, its child has not been reaped.
    pub fn is_running(&self, runner_alive: bool) -> (b: bool)
        ensures
            b == (self@.active && runner_alive),
    {
        self.active && runner_alive
    }
}

} // verus!
