use clawasm::{
    exit_event, CommandLine, Engine, EngineError, Event, LlmConfig, ModuleFile, Output,
    ProcessOutcome, WaitOutcome,
};

#[test]
fn engine_new_picks_up_env_override() {
    let e = Engine::new(Some("/nonexistent/wasmedge-test-stub".to_string())).expect("Engine::new");
    assert_eq!(e.binary(), "/nonexistent/wasmedge-test-stub");
}

#[test]
fn engine_new_defaults_to_path_lookup() {
    let e = Engine::new(None).expect("Engine::new");
    assert_eq!(e.binary(), "wasmedge");
}

#[test]
fn engine_with_binary_holds_path() {
    let e = Engine::with_binary("/opt/wasmedge/bin/wasmedge".to_string());
    assert_eq!(e.binary(), "/opt/wasmedge/bin/wasmedge");
}

#[test]
fn load_missing_file_fails() {
    let e = Engine::with_binary("/bin/true".to_string());
    let err = e
        .load("/definitely/does/not/exist.wasm", ModuleFile { is_file: false, len: Err("No such file or directory (os error 2)".to_string()) })
        .unwrap_err();
    assert!(err.message().contains("not found"));
}

#[test]
fn load_empty_file_fails() {
    let e = Engine::with_binary("/bin/true".to_string());
    let p = "/tmp/clawasm-engine-empty.wasm";
    let err = e.load(p, ModuleFile { is_file: true, len: Ok(0) }).unwrap_err();
    assert!(err.message().contains("empty"));
}

#[test]
fn load_unreadable_metadata_fails() {
    let e = Engine::with_binary("/bin/true".to_string());
    let err = e
        .load("/tmp/m.wasm", ModuleFile { is_file: true, len: Err("Permission denied".to_string()) })
        .unwrap_err();
    assert_eq!(
        err,
        EngineError::ModuleStatFailed {
            path: "/tmp/m.wasm".to_string(),
            cause: "Permission denied".to_string()
        }
    );
    assert_eq!(err.message(), "stat /tmp/m.wasm: Permission denied");
}

#[test]
fn load_present_module_gives_instance() {
    let e = Engine::with_binary("/usr/bin/wasmedge".to_string());
    let i = e.load("/tmp/hello.wasm", ModuleFile { is_file: true, len: Ok(42) }).unwrap();
    assert_eq!(i.wasm_path(), "/tmp/hello.wasm");
    let copy = i.clone();
    assert_eq!(copy.wasm_path(), "/tmp/hello.wasm");
    let c: CommandLine = copy.command(&vec!["a".to_string(), "b c".to_string()]);
    assert_eq!(c.program, "/usr/bin/wasmedge");
    assert_eq!(c.args, vec!["/tmp/hello.wasm".to_string(), "a".to_string(), "b c".to_string()]);
}

#[test]
fn probe_reports_missing_binary() {
    let e = Engine::with_binary("/nonexistent/wasmedge-xyz".to_string());
    let err = e
        .probe_outcome(ProcessOutcome::SpawnFailed {
            cause: "No such file or directory (os error 2)".to_string(),
        })
        .unwrap_err();
    let msg = err.message();
    assert!(msg.contains("failed to execute"), "got: {msg}");
    assert_eq!(
        msg,
        "failed to execute `/nonexistent/wasmedge-xyz` (set WASMEDGE_BIN or install WasmEdge): No such file or directory (os error 2)"
    );
}

#[test]
fn probe_command_asks_for_version() {
    let e = Engine::with_binary("wasmedge".to_string());
    let c = e.probe_command();
    assert_eq!(c.program, "wasmedge");
    assert_eq!(c.args, vec!["--version".to_string()]);
}

#[test]
fn probe_trims_version_text() {
    let e = Engine::with_binary("wasmedge".to_string());
    let v = e
        .probe_outcome(ProcessOutcome::Exited {
            code: Some(0),
            status: "exit status: 0".to_string(),
            stdout: b"\n  wasmedge version 0.14.1\t\r\n".to_vec(),
            stderr: Vec::new(),
        })
        .unwrap();
    assert_eq!(v, "wasmedge version 0.14.1");
}

#[test]
fn probe_reports_failed_status() {
    let e = Engine::with_binary("wasmedge".to_string());
    let err = e
        .probe_outcome(ProcessOutcome::Exited {
            code: Some(3),
            status: "exit status: 3".to_string(),
            stdout: b"ignored".to_vec(),
            stderr: Vec::new(),
        })
        .unwrap_err();
    assert_eq!(err.message(), "`wasmedge --version` exited with status exit status: 3");
    let killed = e
        .probe_outcome(ProcessOutcome::Exited {
            code: None,
            status: "signal: 9 (SIGKILL)".to_string(),
            stdout: Vec::new(),
            stderr: Vec::new(),
        })
        .unwrap_err();
    assert!(matches!(killed, EngineError::ProbeFailed { .. }));
}

#[test]
fn run_outcome_captures_output_and_code() {
    let e = Engine::with_binary("wasmedge".to_string());
    let i = e.load("m.wasm", ModuleFile { is_file: true, len: Ok(1) }).unwrap();
    let out = i
        .run_outcome(
            &Vec::new(),
            ProcessOutcome::Exited {
                code: Some(7),
                status: "exit status: 7".to_string(),
                stdout: b"hello-wasm\n".to_vec(),
                stderr: vec![0x6f, 0xff, 0x6b],
            },
        )
        .unwrap();
    assert_eq!(out.stdout, "hello-wasm\n");
    assert_eq!(out.stderr, "o\u{fffd}k");
    assert_eq!(out.exit_code, 7);
    assert!(!out.success());
    let killed = i
        .run_outcome(
            &Vec::new(),
            ProcessOutcome::Exited {
                code: None,
                status: "signal: 9".to_string(),
                stdout: Vec::new(),
                stderr: Vec::new(),
            },
        )
        .unwrap();
    assert_eq!(killed.exit_code, -1);
}

#[test]
fn run_spawn_failure_shows_command() {
    let e = Engine::with_binary("/no/wasmedge".to_string());
    let i = e.load("m.wasm", ModuleFile { is_file: true, len: Ok(1) }).unwrap();
    let err = i
        .run_outcome(
            &vec!["x".to_string(), "y".to_string()],
            ProcessOutcome::SpawnFailed { cause: "denied".to_string() },
        )
        .unwrap_err();
    assert_eq!(
        err.message(),
        "failed to execute `/no/wasmedge m.wasm x y` (is WasmEdge installed?): denied"
    );
    let err = i
        .run_outcome(&Vec::new(), ProcessOutcome::SpawnFailed { cause: "gone".to_string() })
        .unwrap_err();
    assert_eq!(
        err.message(),
        "failed to execute `/no/wasmedge m.wasm ` (is WasmEdge installed?): gone"
    );
}

#[test]
fn llmconfig_new_picks_up_env_override() {
    let cfg = LlmConfig::new("/models/test.gguf".to_string(), Some("/custom/llama-cli".to_string()));
    assert_eq!(cfg.llama_cli_bin, "/custom/llama-cli");
}

#[test]
fn llmconfig_format_prompt_gemma4_template() {
    let cfg = LlmConfig {
        system_prompt: "You are a pirate.".into(),
        ..LlmConfig::new("/models/test.gguf".to_string(), None)
    };
    let out = cfg.format_prompt("What is your name?");
    assert!(out.starts_with("<bos><|turn>system\n"), "missing bos/system: {out}");
    assert!(out.contains("You are a pirate."), "missing system prompt: {out}");
    assert!(
        out.contains("<|turn>user\nWhat is your name?<turn|>"),
        "missing user turn: {out}"
    );
    assert!(out.ends_with("<|turn>model\n"), "missing model turn: {out}");
}

#[test]
fn format_prompt_exact_text() {
    let cfg = LlmConfig::new("m.gguf".to_string(), None);
    assert_eq!(
        cfg.format_prompt("Hi"),
        "<bos><|turn>system\nYou are a helpful assistant.<turn|>\n<|turn>user\nHi<turn|>\n<|turn>model\n"
    );
}

#[test]
fn llmconfig_missing_model_errors() {
    let cfg = LlmConfig::new("/definitely/does/not/exist.gguf".to_string(), None);
    match cfg.stream_generate("hello", false) {
        Err(e) => assert!(e.message().contains("not found"), "got: {}", e.message()),
        Ok(_) => panic!("expected an error for missing model"),
    }
}

#[test]
fn llmconfig_defaults_match_gemma4_recommendations() {
    let cfg = LlmConfig::new("/models/test.gguf".to_string(), None);
    assert_eq!(cfg.temperature.parse::<f32>().unwrap(), 1.0);
    assert_eq!(cfg.top_p.parse::<f32>().unwrap(), 0.95);
    assert_eq!(cfg.top_k, 64);
    assert_eq!(cfg.n_predict, 512);
    assert_eq!(cfg.ctx_size, 4096);
    assert!(cfg.n_threads.is_none());
    assert_eq!(cfg.llama_cli_bin, "llama-cli");
}

#[test]
fn stream_generate_builds_llama_cli_arguments() {
    let mut cfg = LlmConfig::new("/m/g.gguf".to_string(), None);
    cfg.system_prompt = "S".to_string();
    cfg.n_threads = Some(8);
    let c = cfg.stream_generate("U", true).unwrap();
    assert_eq!(c.program, "llama-cli");
    let expected: Vec<String> = [
        "--model",
        "/m/g.gguf",
        "-p",
        "<bos><|turn>system\nS<turn|>\n<|turn>user\nU<turn|>\n<|turn>model\n",
        "-n",
        "512",
        "-c",
        "4096",
        "--temp",
        "1",
        "--top-p",
        "0.95",
        "--top-k",
        "64",
        "--no-display-prompt",
        "-t",
        "8",
    ]
    .iter()
    .map(|s| s.to_string())
    .collect();
    assert_eq!(c.args, expected);
    cfg.n_threads = None;
    let c = cfg.stream_generate("U", true).unwrap();
    assert_eq!(c.args.len(), 15);
    assert_eq!(c.args.last().unwrap(), "--no-display-prompt");
}

#[test]
fn model_not_found_message() {
    let cfg = LlmConfig::new("/x.gguf".to_string(), None);
    let e = cfg.stream_generate("p", false).unwrap_err();
    assert_eq!(
        e.message(),
        "GGUF model not found: /x.gguf (download with scripts/download-model.sh)"
    );
}

#[test]
fn output_success_helper() {
    let ok = Output { stdout: String::new(), stderr: String::new(), exit_code: 0 };
    let bad = Output { exit_code: 1, ..ok.clone() };
    assert!(ok.success());
    assert!(!bad.success());
}

#[test]
fn output_from_capture_decodes_and_defaults_code() {
    let o = Output::from_capture(b"caf\xc3\xa9", b"", None);
    assert_eq!(o.stdout, "café");
    assert_eq!(o.exit_code, -1);
    let o = Output::from_capture(b"\xc3", b"x", Some(0));
    assert_eq!(o.stdout, "\u{fffd}");
    assert!(o.success());
}

#[test]
fn exit_event_covers_every_outcome() {
    assert_eq!(exit_event(WaitOutcome::Exited(Some(7))), Event::Finished(7));
    assert_eq!(exit_event(WaitOutcome::Exited(None)), Event::Finished(-1));
    assert_eq!(exit_event(WaitOutcome::AlreadyReaped), Event::Finished(-1));
    assert_eq!(
        exit_event(WaitOutcome::WaitFailed("boom".to_string())),
        Event::Failed("wait failed: boom".to_string())
    );
    assert!(exit_event(WaitOutcome::AlreadyReaped).is_terminal());
    assert!(!Event::Stdout("x".to_string()).is_terminal());
}

#[test]
fn chunk_event_decodes_bytes() {
    assert_eq!(Event::from_chunk(b"tok"), Event::StdoutChunk("tok".to_string()));
    assert_eq!(Event::from_chunk(&[0xe2, 0x82]), Event::StdoutChunk("\u{fffd}".to_string()));
}
