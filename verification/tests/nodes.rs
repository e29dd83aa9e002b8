use clawasm::{
    CLLawM, ClawEngine, EngineError, EngineSignal, Event, GenerateError, LlmSignal, ModuleFile,
    StartError,
};

fn present() -> ModuleFile {
    ModuleFile { is_file: true, len: Ok(10) }
}

#[test]
fn engine_node_refuses_without_module() {
    let n = ClawEngine::init();
    assert_eq!(n.start(&Vec::new(), None, present()).unwrap_err(), StartError::NoModule);
    assert_eq!(n.module_file_path(), "");
    assert!(!n.is_running(true));
}

#[test]
fn engine_node_starts_with_override_or_env() {
    let mut n = ClawEngine::init();
    n.register_module("res://hello.wasm", Some("/proj/hello.wasm".to_string()));
    assert_eq!(n.module_file_path(), "/proj/hello.wasm");
    let c = n.start(&vec!["--x".to_string()], Some("/env/wasmedge".to_string()), present()).unwrap();
    assert_eq!(c.program, "/env/wasmedge");
    assert_eq!(c.args, vec!["/proj/hello.wasm".to_string(), "--x".to_string()]);
    let c = n.start(&Vec::new(), None, present()).unwrap();
    assert_eq!(c.program, "wasmedge");
    n.set_wasmedge_binary("/opt/wasmedge".to_string());
    let c = n.start(&Vec::new(), Some("/env/wasmedge".to_string()), present()).unwrap();
    assert_eq!(c.program, "/opt/wasmedge");
    n.set_wasmedge_binary(String::new());
    let c = n.start(&Vec::new(), Some("/env/wasmedge".to_string()), present()).unwrap();
    assert_eq!(c.program, "/env/wasmedge");
}

#[test]
fn engine_node_reports_load_failures() {
    let mut n = ClawEngine::init();
    n.register_module("/tmp/missing.wasm", None);
    let err = n.start(&Vec::new(), None, ModuleFile { is_file: false, len: Err("missing".to_string()) }).unwrap_err();
    assert_eq!(
        err,
        StartError::Load {
            module: "/tmp/missing.wasm".to_string(),
            error: EngineError::ModuleNotFound { path: "/tmp/missing.wasm".to_string() },
        }
    );
    assert_eq!(
        err.message(),
        "ClawEngine::start: load(/tmp/missing.wasm) failed: WASM module not found: /tmp/missing.wasm"
    );
}

#[test]
fn engine_node_refuses_second_start() {
    let mut n = ClawEngine::init();
    n.register_module("/tmp/a.wasm", None);
    n.runner_started();
    assert!(n.is_running(true));
    assert!(!n.is_running(false));
    let err = n.start(&Vec::new(), None, present()).unwrap_err();
    assert_eq!(err, StartError::AlreadyRunning);
    assert_eq!(err.message(), "ClawEngine::start called while already running; ignoring");
}

#[test]
fn engine_node_forwards_events_in_order_and_ends_once() {
    let mut n = ClawEngine::init();
    n.register_module("/tmp/a.wasm", None);
    assert!(n.process(vec![Event::Stdout("early".to_string())]).is_empty());
    n.runner_started();
    let s = n.process(vec![
        Event::Stdout("alpha".to_string()),
        Event::Stderr("oops".to_string()),
        Event::StdoutChunk("ignored".to_string()),
    ]);
    assert_eq!(
        s,
        vec![EngineSignal::StdoutLine("alpha".to_string()), EngineSignal::StderrLine("oops".to_string())]
    );
    assert!(n.is_running(true));
    let s = n.process(vec![Event::Stdout("beta".to_string()), Event::Finished(7)]);
    assert_eq!(s, vec![EngineSignal::StdoutLine("beta".to_string()), EngineSignal::Finished(7)]);
    assert!(!n.is_running(true));
    assert!(n.process(vec![Event::Stdout("late".to_string())]).is_empty());
}

#[test]
fn engine_node_frames_compose() {
    let events = vec![
        Event::Stdout("one".to_string()),
        Event::Stdout("two".to_string()),
        Event::Failed("wait failed: x".to_string()),
    ];
    let mut whole = ClawEngine::init();
    whole.runner_started();
    let all = whole.process(events.clone());
    let mut split = ClawEngine::init();
    split.runner_started();
    let mut parts = split.process(events[..1].to_vec());
    parts.extend(split.process(events[1..].to_vec()));
    assert_eq!(all, parts);
    assert_eq!(all.last(), Some(&EngineSignal::Failed("wait failed: x".to_string())));
}

#[test]
fn llm_node_defaults_and_setters() {
    let mut n = CLLawM::init();
    assert_eq!(n.system_prompt(), "You are a helpful assistant.");
    assert_eq!(n.model_path(), "");
    n.set_system_prompt("Be brief.".to_string());
    assert_eq!(n.system_prompt(), "Be brief.");
    n.set_model("/m/g.gguf", None);
    assert_eq!(n.model_path(), "/m/g.gguf");
    n.set_n_predict(0);
    n.set_ctx_size(5);
    n.set_n_threads(-3);
    let c = n.generate("q", None, true).unwrap();
    assert_eq!(c.args[5], "1");
    assert_eq!(c.args[7], "128");
    assert_eq!(c.args.len(), 15);
    n.set_n_predict((1i64 << 32) + 5);
    n.set_ctx_size(8192);
    n.set_n_threads(4);
    n.set_llama_cli("/opt/llama-cli".to_string());
    let c = n.generate("q", Some("/env/llama".to_string()), true).unwrap();
    assert_eq!(c.program, "/opt/llama-cli");
    assert_eq!(c.args[5], "5");
    assert_eq!(c.args[7], "8192");
    assert_eq!(c.args[15], "-t");
    assert_eq!(c.args[16], "4");
    assert_eq!(
        c.args[3],
        "<bos><|turn>system\nBe brief.<turn|>\n<|turn>user\nq<turn|>\n<|turn>model\n"
    );
    n.set_llama_cli(String::new());
    let c = n.generate("q", Some("/env/llama".to_string()), true).unwrap();
    assert_eq!(c.program, "/env/llama");
}

#[test]
fn llm_node_refusals() {
    let mut n = CLLawM::init();
    let e = n.generate("q", None, true).unwrap_err();
    assert_eq!(e, GenerateError::NoModel);
    assert_eq!(e.message(), "CLLawM::generate: no model set; call set_model() first");
    n.set_model("res://m.gguf", Some("/proj/m.gguf".to_string()));
    let e = n.generate("q", None, false).unwrap_err();
    assert_eq!(
        e,
        GenerateError::Engine(EngineError::ModelNotFound { path: "/proj/m.gguf".to_string() })
    );
    assert!(e.message().contains("not found"));
    n.runner_started();
    assert_eq!(n.generate("q", None, true).unwrap_err(), GenerateError::AlreadyRunning);
}

#[test]
fn llm_node_done_carries_all_tokens() {
    let mut n = CLLawM::init();
    n.set_model("/m.gguf", None);
    n.runner_started();
    let s1 = n.process(vec![
        Event::StdoutChunk("Hel".to_string()),
        Event::Stderr("load".to_string()),
        Event::Stdout("ignored".to_string()),
    ]);
    assert_eq!(
        s1,
        vec![
            LlmSignal::TokenGenerated("Hel".to_string()),
            LlmSignal::InferenceStderr("load".to_string())
        ]
    );
    let s2 = n.process(vec![Event::StdoutChunk("lo".to_string()), Event::Finished(0)]);
    assert_eq!(
        s2,
        vec![
            LlmSignal::TokenGenerated("lo".to_string()),
            LlmSignal::InferenceDone("Hello".to_string(), 0)
        ]
    );
    assert!(!n.is_running(true));
    assert!(n.process(vec![Event::StdoutChunk("late".to_string())]).is_empty());
    n.runner_started();
    let s3 = n.process(vec![Event::StdoutChunk("x".to_string()), Event::Finished(1)]);
    assert_eq!(s3[1], LlmSignal::InferenceDone("x".to_string(), 1));
}

#[test]
fn llm_node_failure_clears_text() {
    let mut n = CLLawM::init();
    n.runner_started();
    n.process(vec![Event::StdoutChunk("partial".to_string())]);
    let s = n.process(vec![Event::Failed("wait failed: e".to_string())]);
    assert_eq!(s, vec![LlmSignal::InferenceFailed("wait failed: e".to_string())]);
    n.runner_started();
    let s = n.process(vec![Event::Finished(0)]);
    assert_eq!(s, vec![LlmSignal::InferenceDone(String::new(), 0)]);
}

#[test]
fn llm_spawn_failure_reports_inference_failed() {
    let mut n = CLLawM::init();
    n.set_model("/m.gguf", None);
    n.set_llama_cli("/definitely/not/llama-cli".to_string());
    let cmd = n.generate("hi", None, true).unwrap();
    assert_eq!(cmd.program, "/definitely/not/llama-cli");
    let s = n.spawn_failed("failed to spawn child process: No such file".to_string());
    assert_eq!(
        s,
        vec![LlmSignal::InferenceFailed("failed to spawn child process: No such file".to_string())]
    );
    assert!(!n.is_running(true));
    assert!(n.process(vec![Event::Finished(0)]).is_empty());
    assert!(n.generate("again", None, true).is_ok());
}
