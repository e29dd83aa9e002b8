//! The engine surface: which WasmEdge or llama-cli command a run uses, and
//! what its outcome becomes.
//!
//! Every process is run by the caller; these functions compute the command
//! line beforehand and interpret what came back afterwards.
use vstd::prelude::*;
use vstd::string::*;
use crate::text::{
    decimal, decimal_text, join_space, join_with_space, lossy_utf8, trim, trimmed, utf8_lossy,
};

verus! {

/// Result of running an instance to completion.
#[derive(Debug, Clone, PartialEq, Eq)]
pub struct Output {
    /// Captured stdout from the wasm module.
    pub stdout: String,
    /// Captured stderr from the wasm module / runtime.
    pub stderr: String,
    /// Process exit code. `0` is success.
    pub exit_code: i32,
}

/// A program to run and the arguments to hand it.
#[derive(Debug, Clone)]
pub struct CommandLine {
    /// The binary to execute.
    pub program: String,
    /// Its arguments, in order.
    pub args: Vec<String>,
}

/// What running a process gave.
pub enum ProcessOutcome {
    /// The process could not be started (e.g. a missing binary); the
    /// operating system's reason.
    SpawnFailed { cause: String },
    /// The process ran and exited.
    Exited {
        /// Its exit code; `None` when a signal ended it.
        code: Option<i32>,
        /// The exit status as the platform describes it.
        status: String,
        /// Everything it wrote to stdout.
        stdout: Vec<u8>,
        /// Everything it wrote to stderr.
        stderr: Vec<u8>,
    },
}

/// What the file system says of a module path.
pub struct ModuleFile {
    /// Whether the path names a regular file.
    pub is_file: bool,
    /// Its length in bytes, or why its metadata could not be read.
    pub len: Result<u64, String>,
}

/// Errors of the engine.
#[derive(Debug, Clone, PartialEq, Eq)]
pub enum EngineError {
    /// The module path names no file.
    ModuleNotFound { path: String },
    /// The module file is empty.
    ModuleEmpty { path: String },
    /// The module file's metadata could not be read, and why.
    ModuleStatFailed { path: String, cause: String },
    /// The runtime binary could not be executed for a probe, and why.
    ProbeSpawnFailed { program: String, cause: String },
    /// The runtime's `--version` exited unsuccessfully.
    ProbeFailed { program: String, status: String },
    /// The runtime could not be executed for a run; the command as shown,
    /// and why.
    RunSpawnFailed { command: String, cause: String },
    /// The GGUF model path names no file.
    ModelNotFound { path: String },
}

impl EngineError {
    /// The human-readable description of the error.
    pub open spec fn message_spec(&self) -> Seq<char> {
        match self {
            EngineError::ModuleNotFound { path } => "WASM module not found: "@ + path@,
            EngineError::ModuleEmpty { path } => "WASM module is empty: "@ + path@,
            EngineError::ModuleStatFailed { path, cause } => "stat "@ + path@ + ": "@ + cause@,
            EngineError::ProbeSpawnFailed { program, cause } => "failed to execute `"@ + program@
                + "` (set WASMEDGE_BIN or install WasmEdge): "@ + cause@,
            EngineError::ProbeFailed { program, status } => "`"@ + program@
                + " --version` exited with status "@ + status@,
            EngineError::RunSpawnFailed { command, cause } => "failed to execute `"@ + command@
                + "` (is WasmEdge installed?): "@ + cause@,
            EngineError::ModelNotFound { path } => "GGUF model not found: "@ + path@
                + " (download with scripts/download-model.sh)"@,
        }
    }

    /// The human-readable description of the error.
    pub fn message(&self) -> (m: String)
        ensures
            m@ == self.message_spec(),
    {
        match self {
            EngineError::ModuleNotFound { path } => {
                let mut m = String::from_str("WASM module not found: ");
                m.append(path.as_str());
                m
            },
            EngineError::ModuleEmpty { path } => {
                let mut m = String::from_str("WASM module is empty: ");
                m.append(path.as_str());
                m
            },
            EngineError::ModuleStatFailed { path, cause } => {
                let mut m = String::from_str("stat ");
                m.append(path.as_str());
                m.append(": ");
                m.append(cause.as_str());
                m
            },
            EngineError::ProbeSpawnFailed { program, cause } => {
                let mut m = String::from_str("failed to execute `");
                m.append(program.as_str());
                m.append("` (set WASMEDGE_BIN or install WasmEdge): ");
                m.append(cause.as_str());
                m
            },
            EngineError::ProbeFailed { program, status } => {
                let mut m = String::from_str("`");
                m.append(program.as_str());
                m.append(" --version` exited with status ");
                m.append(status.as_str());
                m
            },
            EngineError::RunSpawnFailed { command, cause } => {
                let mut m = String::from_str("failed to execute `");
                m.append(command.as_str());
                m.append("` (is WasmEdge installed?): ");
                m.append(cause.as_str());
                m
            },
            EngineError::ModelNotFound { path } => {
                let mut m = String::from_str("GGUF model not found: ");
                m.append(path.as_str());
                m.append(" (download with scripts/download-model.sh)");
                m
            },
        }
    }
}

/// The exit code that a run reports: the process's own, or `-1` when a
/// signal ended it.
pub open spec fn exit_code_of(code: Option<i32>) -> i32 {
    match code {
        Some(c) => c,
        None => -1i32,
    }
}

/// A finished run reports the process's own exit code, `-1` when a signal
/// ended it, and counts as a success exactly when the process exited with
/// code 0.
pub proof fn law_exit_code(code: Option<i32>)
    ensures
        code matches Some(c) ==> exit_code_of(code) == c,
        code is None ==> exit_code_of(code) == -1,
        (exit_code_of(code) == 0) <==> (code == Some(0i32)),
{
}

impl Output {
    /// Returns `true` if the process exited with code 0.
    pub fn success(&self) -> (b: bool)
        ensures
            b == (self.exit_code == 0),
    {
        self.exit_code == 0
    }

    /// The output of a run from its captured bytes and exit code.
    pub fn from_capture(stdout: &[u8], stderr: &[u8], code: Option<i32>) -> (o: Output)
        ensures
            o.stdout@ == lossy_utf8(stdout@),
            o.stderr@ == lossy_utf8(stderr@),
            o.exit_code == exit_code_of(code),
            code matches Some(c) ==> o.exit_code == c,
            code is None ==> o.exit_code == -1,
    {
        proof { law_exit_code(code); }
        let exit_code = match code {
            Some(c) => c,
            None => -1,
        };
        Output { stdout: utf8_lossy(stdout), stderr: utf8_lossy(stderr), exit_code }
    }
}

/// Engine handle: which `wasmedge` binary runs the modules.
#[derive(Debug)]
pub struct Engine {
    wasmedge_bin: String,
}

/// A loaded module instance: the engine and the `.wasm` file it runs.
#[derive(Debug)]
pub struct Instance {
    engine: Engine,
    wasm_path: String,
}

impl Clone for Engine {
    /// A copy that invokes the same binary.
    fn clone(&self) -> (e: Self)
        ensures
            e.bin() == self.bin(),
    {
        Engine { wasmedge_bin: self.wasmedge_bin.clone() }
    }
}

impl Clone for Instance {
    /// A copy that runs the same module with the same binary.
    fn clone(&self) -> (i: Self)
        ensures
            i.bin() == self.bin(),
            i.module() == self.module(),
    {
        Instance { engine: self.engine.clone(), wasm_path: self.wasm_path.clone() }
    }
}

impl Engine {
    /// The path of the `wasmedge` binary this engine invokes.
    pub closed spec fn bin(&self) -> Seq<char> {
        self.wasmedge_bin@
    }

    /// Constructs an engine from the value of `$WASMEDGE_BIN`, if set, and
    /// otherwise for the `wasmedge` binary on `$PATH`. Never fails; does not
    /// probe.
    pub fn new(wasmedge_bin_env: Option<String>) -> (r: Result<Engine, EngineError>)
        ensures
            r is Ok,
            r matches Ok(e) ==> e.bin() == match wasmedge_bin_env {
                Some(b) => b@,
                None => "wasmedge"@,
            },
    {
        let bin = match wasmedge_bin_env {
            Some(b) => b,
            None => String::from_str("wasmedge"),
        };
        Ok(Engine { wasmedge_bin: bin })
    }

    /// Constructs an engine pointing at a specific `wasmedge` binary.
    pub fn with_binary(path: String) -> (e: Engine)
        ensures
            e.bin() == path@,
    {
        Engine { wasmedge_bin: path }
    }

    /// Path to the `wasmedge` binary this engine will invoke.
    pub fn binary(&self) -> (b: &str)
        ensures
            b@ == self.bin(),
    {
        self.wasmedge_bin.as_str()
    }

    /// The command that probes the runtime: `wasmedge --version`.
    pub fn probe_command(&self) -> (c: CommandLine)
        ensures
            c.program@ == self.bin(),
            c.args.deep_view() == seq!["--version"@],
    {
        let mut args: Vec<String> = Vec::new();
        args.push(String::from_str("--version"));
        assert(args.deep_view() =~= seq!["--version"@]);
        CommandLine { program: self.wasmedge_bin.clone(), args }
    }

    /// What a probe reports: the runtime's trimmed version text, or why
    /// it could not be had.
    pub fn probe_outcome(&self, outcome: ProcessOutcome) -> (r: Result<String, EngineError>)
        ensures
            outcome matches ProcessOutcome::SpawnFailed { cause } ==> (r matches Err(
                EngineError::ProbeSpawnFailed { program, cause: c },
            ) && program@ == self.bin() && c@ == cause@),
            outcome matches ProcessOutcome::Exited { code, status, stdout, stderr }
                ==> if code == Some(0i32) {
                (r matches Ok(v) && v@ == trimmed(lossy_utf8(stdout@)))
            } else {
                (r matches Err(EngineError::ProbeFailed { program, status: s }) && program@
                    == self.bin() && s@ == status@)
            },
    {
        match outcome {
            ProcessOutcome::SpawnFailed { cause } => Err(
                EngineError::ProbeSpawnFailed { program: self.wasmedge_bin.clone(), cause },
            ),
            ProcessOutcome::Exited { code, status, stdout, stderr } => {
                let ok = match code {
                    Some(c) => c == 0,
                    None => false,
                };
                if ok {
                    let text = utf8_lossy(stdout.as_slice());
                    Ok(trim(text.as_str()))
                } else {
                    Err(EngineError::ProbeFailed { program: self.wasmedge_bin.clone(), status })
                }
            },
        }
    }

    /// Loads a `.wasm` module, given what the file system says of its
    /// path: it must be a file and non-empty. Instantiation is deferred to
    /// the run.
    pub fn load(&self, path: &str, file: ModuleFile) -> (r: Result<Instance, EngineError>)
        ensures
            !file.is_file ==> (r matches Err(EngineError::ModuleNotFound { path: p }) && p@
                == path@),
            file.is_file && file.len is Err ==> (r matches Err(
                EngineError::ModuleStatFailed { path: p, cause },
            ) && p@ == path@ && cause@ == file.len->Err_0@),
            file.is_file && file.len == Ok::<u64, String>(0u64) ==> (r matches Err(
                EngineError::ModuleEmpty { path: p },
            ) && p@ == path@),
            file.is_file && (file.len matches Ok(n) && n > 0) ==> (r matches Ok(i) && i.bin()
                == self.bin() && i.module() == path@),
    {
        if !file.is_file {
            return Err(EngineError::ModuleNotFound { path: String::from_str(path) });
        }
        match file.len {
            Err(cause) => Err(EngineError::ModuleStatFailed { path: String::from_str(path), cause }),
            Ok(n) => {
                if n == 0 {
                    Err(EngineError::ModuleEmpty { path: String::from_str(path) })
                } else {
                    Ok(
                        Instance {
                            engine: self.clone(),
                            wasm_path: String::from_str(path),
                        },
                    )
                }
            },
        }
    }
}

/// How a run is shown in messages: binary, module and arguments, separated
/// by spaces.
pub open spec fn run_description(bin: Seq<char>, module: Seq<char>, args: Seq<Seq<char>>) -> Seq<
    char,
> {
    bin + seq![' '] + module + seq![' '] + join_space(args)
}

impl Instance {
    /// The path of the binary that runs this module.
    pub closed spec fn bin(&self) -> Seq<char> {
        self.engine.wasmedge_bin@
    }

    /// The path of the `.wasm` file.
    pub closed spec fn module(&self) -> Seq<char> {
        self.wasm_path@
    }

    /// Path to the loaded `.wasm` file.
    pub fn wasm_path(&self) -> (p: &str)
        ensures
            p@ == self.module(),
    {
        self.wasm_path.as_str()
    }

    /// The command that runs the module with `args`:
    /// `wasmedge <module> [args...]`, which hands everything after the
    /// module path to the guest as its argv. Both the buffered run and the
    /// streaming run use it.
    pub fn command(&self, args: &Vec<String>) -> (c: CommandLine)
        ensures
            c.program@ == self.bin(),
            c.args.deep_view() == seq![self.module()] + args.deep_view(),
    {
        let mut all: Vec<String> = Vec::new();
        all.push(self.wasm_path.clone());
        let mut i: usize = 0;
        while i < args.len()
            invariant
                i <= args.len(),
                all.deep_view() == seq![self.module()] + args.deep_view().take(i as int),
            decreases args.len() - i,
        {
            let ghost prev = all.deep_view();
            let item = args[i].clone();
            all.push(item);
            proof {
                assert(all.deep_view() =~= prev.push(args[i as int]@));
                assert(args.deep_view().take(i + 1) =~= args.deep_view().take(i as int).push(
                    args[i as int]@,
                ));
                assert(all.deep_view() =~= seq![self.module()] + args.deep_view().take(i + 1));
            }
            i = i + 1;
        }
        assert(args.deep_view().take(args.len() as int) =~= args.deep_view());
        CommandLine { program: self.engine.wasmedge_bin.clone(), args: all }
    }

    /// The run as shown in messages: `<binary> <module> <args joined>`.
    pub fn describe(&self, args: &Vec<String>) -> (s: String)
        ensures
            s@ == run_description(self.bin(), self.module(), args.deep_view()),
    {
        let mut s = self.engine.wasmedge_bin.clone();
        s.append(" ");
        s.append(self.wasm_path.as_str());
        s.append(" ");
        let joined = join_with_space(args);
        s.append(joined.as_str());
        proof {
            reveal_strlit(" ");
        }
        s
    }

    /// What a run with `args` reports: the captured output and exit code,
    /// or, when the runtime could not be started, an error that shows the
    /// command. A non-zero exit of the module itself is an `Ok` output.
    pub fn run_outcome(&self, args: &Vec<String>, outcome: ProcessOutcome) -> (r: Result<
        Output,
        EngineError,
    >)
        ensures
            outcome matches ProcessOutcome::SpawnFailed { cause } ==> (r matches Err(
                EngineError::RunSpawnFailed { command, cause: c },
            ) && command@ == run_description(self.bin(), self.module(), args.deep_view()) && c@
                == cause@),
            outcome matches ProcessOutcome::Exited { code, status, stdout, stderr } ==> (r matches Ok(
                o,
            ) && o.stdout@ == lossy_utf8(stdout@) && o.stderr@ == lossy_utf8(stderr@)
                && o.exit_code == exit_code_of(code) && (code matches Some(c) ==> o.exit_code == c)
                && (code is None ==> o.exit_code == -1)),
    {
        match outcome {
            ProcessOutcome::SpawnFailed { cause } => Err(
                EngineError::RunSpawnFailed { command: self.describe(args), cause },
            ),
            ProcessOutcome::Exited { code, status, stdout, stderr } => Ok(
                Output::from_capture(stdout.as_slice(), stderr.as_slice(), code),
            ),
        }
    }
}

/// Configuration for one LLM inference run against a GGUF model through
/// `llama-cli`.
///
/// The sampling parameters `temperature` and `top_p` are held as the
/// decimal text that is handed to `llama-cli`.
#[derive(Debug, Clone)]
pub struct LlmConfig {
    /// Path to the `.gguf` model file.
    pub model_path: String,
    /// Path to the `llama-cli` binary.
    pub llama_cli_bin: String,
    /// System prompt injected at the start of every conversation.
    pub system_prompt: String,
    /// Maximum number of tokens to predict (`-n`). Default: 512.
    pub n_predict: u32,
    /// KV-cache context size in tokens (`-c`). Default: 4096.
    pub ctx_size: u32,
    /// Number of CPU threads (`-t`). `None` lets llama-cli decide.
    pub n_threads: Option<u32>,
    /// Sampling temperature (`--temp`). Gemma 4 recommended: 1.0.
    pub temperature: String,
    /// Top-p nucleus sampling (`--top-p`). Gemma 4 recommended: 0.95.
    pub top_p: String,
    /// Top-k sampling (`--top-k`). Gemma 4 recommended: 64.
    pub top_k: u32,
}

/// The Gemma 4 instruction-tuned chat template around a system prompt and
/// a user prompt.
pub open spec fn gemma_prompt(system: Seq<char>, user: Seq<char>) -> Seq<char> {
    "<bos><|turn>system\n"@ + system + "<turn|>\n<|turn>user\n"@ + user
        + "<turn|>\n<|turn>model\n"@
}

/// The chat template keeps both prompts whole: the text is the fixed
/// 19-character opening, the system prompt, a fixed 20-character separator,
/// the user prompt and a fixed 21-character close, so its length is theirs
/// plus 60 and each prompt stands unmodified at its place.
pub proof fn law_prompt_template(system: Seq<char>, user: Seq<char>)
    ensures
        ({
            let r = gemma_prompt(system, user);
            let a = system.len() as int;
            let b = user.len() as int;
            let u = 39 + a;
            &&& r.len() == system.len() + user.len() + 60
            &&& r.subrange(0, 19) == "<bos><|turn>system\n"@
            &&& r.subrange(19, 19 + a) == system
            &&& r.subrange(19 + a, u) == "<turn|>\n<|turn>user\n"@
            &&& r.subrange(u, u + b) == user
            &&& r.subrange(u + b, r.len() as int) == "<turn|>\n<|turn>model\n"@
        }),
{
    reveal_strlit("<bos><|turn>system\n");
    reveal_strlit("<turn|>\n<|turn>user\n");
    reveal_strlit("<turn|>\n<|turn>model\n");
    let r = gemma_prompt(system, user);
    let a = system.len() as int;
    let b = user.len() as int;
    let u = 39 + a;
    assert(r.subrange(0, 19) =~= "<bos><|turn>system\n"@);
    assert(r.subrange(19, 19 + a) =~= system);
    assert(r.subrange(19 + a, u) =~= "<turn|>\n<|turn>user\n"@);
    assert(r.subrange(u, u + b) =~= user);
    assert(r.subrange(u + b, r.len() as int) =~= "<turn|>\n<|turn>model\n"@);
}

/// The abstract value of an [`LlmConfig`]: its fields, texts by their
/// characters.
pub struct LlmConfigView {
    pub model_path: Seq<char>,
    pub llama_cli_bin: Seq<char>,
    pub system_prompt: Seq<char>,
    pub n_predict: u32,
    pub ctx_size: u32,
    pub n_threads: Option<u32>,
    pub temperature: Seq<char>,
    pub top_p: Seq<char>,
    pub top_k: u32,
}

impl View for LlmConfig {
    type V = LlmConfigView;

    open spec fn view(&self) -> LlmConfigView {
        LlmConfigView {
            model_path: self.model_path@,
            llama_cli_bin: self.llama_cli_bin@,
            system_prompt: self.system_prompt@,
            n_predict: self.n_predict,
            ctx_size: self.ctx_size,
            n_threads: self.n_threads,
            temperature: self.temperature@,
            top_p: self.top_p@,
            top_k: self.top_k,
        }
    }
}

/// The arguments with which `llama-cli` runs `cfg` on `prompt`.
pub open spec fn llm_args(cfg: LlmConfigView, prompt: Seq<char>) -> Seq<Seq<char>> {
    let base = seq![
        "--model"@,
        cfg.model_path,
        "-p"@,
        gemma_prompt(cfg.system_prompt, prompt),
        "-n"@,
        decimal(cfg.n_predict as nat),
        "-c"@,
        decimal(cfg.ctx_size as nat),
        "--temp"@,
        cfg.temperature,
        "--top-p"@,
        cfg.top_p,
        "--top-k"@,
        decimal(cfg.top_k as nat),
        "--no-display-prompt"@,
    ];
    match cfg.n_threads {
        Some(t) => base + seq!["-t"@, decimal(t as nat)],
        None => base,
    }
}

impl LlmConfig {
    /// A config with the Gemma 4 recommended defaults, using the value of
    /// `$LLAMA_CLI_BIN` when set and otherwise `llama-cli` on `$PATH`.
    pub fn new(model_path: String, llama_cli_bin_env: Option<String>) -> (c: LlmConfig)
        ensures
            c.model_path@ == model_path@,
            c.llama_cli_bin@ == match llama_cli_bin_env {
                Some(b) => b@,
                None => "llama-cli"@,
            },
            c.system_prompt@ == "You are a helpful assistant."@,
            c.n_predict == 512,
            c.ctx_size == 4096,
            c.n_threads is None,
            c.temperature@ == "1"@,
            c.top_p@ == "0.95"@,
            c.top_k == 64,
    {
        let llama_cli_bin = match llama_cli_bin_env {
            Some(b) => b,
            None => String::from_str("llama-cli"),
        };
        LlmConfig {
            model_path,
            llama_cli_bin,
            system_prompt: String::from_str("You are a helpful assistant."),
            n_predict: 512,
            ctx_size: 4096,
            n_threads: None,
            temperature: String::from_str("1"),
            top_p: String::from_str("0.95"),
            top_k: 64,
        }
    }

    /// Formats `prompt` into the Gemma 4 instruction-tuned chat template:
    /// `<bos><|turn>system\n{system}<turn|>\n<|turn>user\n{user}<turn|>\n<|turn>model\n`.
    pub fn format_prompt(&self, prompt: &str) -> (s: String)
        ensures
            s@ == gemma_prompt(self.system_prompt@, prompt@),
            s@.len() == self.system_prompt@.len() + prompt@.len() + 60,
            s@.subrange(39 + self.system_prompt@.len() as int, 39 + self.system_prompt@.len() as int
                + prompt@.len() as int) == prompt@,
    {
        proof { law_prompt_template(self.system_prompt@, prompt@); }
        let mut s = String::from_str("<bos><|turn>system\n");
        s.append(self.system_prompt.as_str());
        s.append("<turn|>\n<|turn>user\n");
        s.append(prompt);
        s.append("<turn|>\n<|turn>model\n");
        s
    }

    fn generate_args(&self, prompt: &str) -> (args: Vec<String>)
        ensures
            args.deep_view() == llm_args(self@, prompt@),
    {
        let mut args: Vec<String> = Vec::new();
        args.push(String::from_str("--model"));
        args.push(self.model_path.clone());
        args.push(String::from_str("-p"));
        args.push(self.format_prompt(prompt));
        args.push(String::from_str("-n"));
        args.push(decimal_text(self.n_predict));
        args.push(String::from_str("-c"));
        args.push(decimal_text(self.ctx_size));
        args.push(String::from_str("--temp"));
        args.push(self.temperature.clone());
        args.push(String::from_str("--top-p"));
        args.push(self.top_p.clone());
        args.push(String::from_str("--top-k"));
        args.push(decimal_text(self.top_k));
        args.push(String::from_str("--no-display-prompt"));
        let ghost base = args.deep_view();
        match self.n_threads {
            Some(t) => {
                args.push(String::from_str("-t"));
                args.push(decimal_text(t));
            },
            None => {},
        }
        assert(args.deep_view() =~= llm_args(self@, prompt@));
        args
    }

    /// The `llama-cli` command that generates a reply to `prompt`, given
    /// whether the model path names a file: the model must exist. The
    /// caller streams the command's stdout in chunks.
    pub fn stream_generate(&self, prompt: &str, model_is_file: bool) -> (r: Result<
        CommandLine,
        EngineError,
    >)
        ensures
            !model_is_file ==> (r matches Err(EngineError::ModelNotFound { path }) && path@
                == self.model_path@),
            model_is_file ==> (r matches Ok(c) && c.program@ == self.llama_cli_bin@
                && c.args.deep_view() == llm_args(self@, prompt@)),
    {
        if !model_is_file {
            return Err(EngineError::ModelNotFound { path: self.model_path.clone() });
        }
        Ok(CommandLine { program: self.llama_cli_bin.clone(), args: self.generate_args(prompt) })
    }
}

} // verus!
