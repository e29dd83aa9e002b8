use clawasm::{decimal_text, is_virtual_path, resolve_module_path, resolve_path, trim};

#[test]
fn passthrough_path_is_unchanged() {
    let p = resolve_module_path("/tmp/hello.wasm", None);
    assert_eq!(p, "/tmp/hello.wasm");
}

#[test]
fn passthrough_handles_relative_paths() {
    let p = resolve_module_path(
        "examples/hello-wasm/target/wasm32-wasip1/release/hello-wasm.wasm",
        None,
    );
    assert!(p.ends_with("hello-wasm.wasm"));
}

#[test]
fn resolve_plain_path_unchanged() {
    let p = resolve_path("/tmp/model.gguf", None);
    assert_eq!(p, "/tmp/model.gguf");
}

#[test]
fn resolve_relative_path_unchanged() {
    let p = resolve_path("models/gemma.gguf", None);
    assert_eq!(p, "models/gemma.gguf");
}

#[test]
fn virtual_paths_take_the_globalized_path() {
    assert!(is_virtual_path("res://hello.wasm"));
    assert!(is_virtual_path("user://x"));
    assert!(!is_virtual_path("res:/x"));
    assert!(!is_virtual_path(""));
    let p = resolve_module_path("res://hello.wasm", Some("/proj/hello.wasm".to_string()));
    assert_eq!(p, "/proj/hello.wasm");
    let p = resolve_path("user://m.gguf", Some("/home/u/m.gguf".to_string()));
    assert_eq!(p, "/home/u/m.gguf");
}

#[test]
fn decimal_text_matches_to_string() {
    for n in [0u32, 7, 10, 64, 128, 512, 4096, 100000, u32::MAX] {
        assert_eq!(decimal_text(n), n.to_string());
    }
}

#[test]
fn trim_matches_str_trim() {
    for s in ["", "   ", " a ", "\u{3000}x y\u{2028}", "\t\n v1.0 \r\n", "plain", "\u{85}z"] {
        assert_eq!(trim(s), s.trim());
    }
}
