use frc::runtime::{MemoryInjection, Runtime, RuntimeError};

#[test]
fn test_runtime_from_command() {
    assert_eq!(Runtime::from_command("node").unwrap(), Runtime::Node);
    assert_eq!(Runtime::from_command("NODE").unwrap(), Runtime::Node);
    assert_eq!(Runtime::from_command("npm").unwrap(), Runtime::Node);
    assert_eq!(Runtime::from_command("npx").unwrap(), Runtime::Node);
    assert_eq!(Runtime::from_command("pnpm").unwrap(), Runtime::Node);
    assert_eq!(Runtime::from_command("yarn").unwrap(), Runtime::Node);
    assert_eq!(Runtime::from_command("deno").unwrap(), Runtime::Deno);
    assert_eq!(Runtime::from_command("DENO").unwrap(), Runtime::Deno);
    assert_eq!(Runtime::from_command("bun").unwrap(), Runtime::Bun);
    assert!(Runtime::from_command("unknown").is_err());
}

#[test]
fn test_runtime_name() {
    assert_eq!(Runtime::Node.name(), "node");
    assert_eq!(Runtime::Deno.name(), "deno");
    assert_eq!(Runtime::Bun.name(), "bun");
}

#[test]
fn test_runtime_as_str() {
    assert_eq!(Runtime::Node.as_str(), "node");
    assert_eq!(Runtime::Deno.as_str(), "deno");
    assert_eq!(Runtime::Bun.as_str(), "bun");
}

#[test]
fn test_supports_memory_config() {
    assert!(Runtime::Node.supports_memory_config());
    assert!(Runtime::Deno.supports_memory_config());
    assert!(!Runtime::Bun.supports_memory_config());
}

#[test]
fn test_validate_memory() {
    let runtime = Runtime::Node;

    // Valid memory
    assert!(runtime.validate_memory(4096, 16).is_ok());
    assert!(runtime.validate_memory(8192, 32).is_ok());

    // Exceeds system memory
    assert!(runtime.validate_memory(20480, 16).is_err());

    // Warning: too high percentage
    let result = runtime.validate_memory(14336, 16).unwrap();
    assert!(result.contains("Warning"));

    // Warning: too low percentage
    let result = runtime.validate_memory(512, 16).unwrap();
    assert!(result.contains("Info"));

    // Bun doesn't validate
    assert!(Runtime::Bun.validate_memory(4096, 16).unwrap().is_empty());
}

#[test]
fn test_recommend_memory() {
    let node = Runtime::Node;
    assert!(node.recommend_memory(16).contains("For 16GB"));
    assert!(node.recommend_memory(32).contains("For 32GB"));
    assert!(node.recommend_memory(64).contains("For 64GB+"));

    let bun = Runtime::Bun;
    assert!(bun.recommend_memory(16).contains("automatically"));
}

#[test]
fn test_default_memory() {
    assert_eq!(Runtime::default_memory(8), 2048);
    assert_eq!(Runtime::default_memory(16), 4096);
    assert_eq!(Runtime::default_memory(32), 8192);
    assert_eq!(Runtime::default_memory(64), 16384);
    assert_eq!(Runtime::default_memory(128), 16384);
}

#[test]
fn test_is_oom_error() {
    let runtime = Runtime::Node;

    assert!(runtime.is_oom_error("FATAL ERROR: JavaScript heap out of memory"));
    assert!(runtime.is_oom_error("FATAL ERROR: Reached heap limit Allocation failed"));
    assert!(runtime.is_oom_error("some error heap out of memory details"));
    assert!(!runtime.is_oom_error("Some other error"));
    assert!(!runtime.is_oom_error("Success"));
}

#[test]
fn unknown_runtime_error_keeps_the_token() {
    match Runtime::from_command("Vite") {
        Err(RuntimeError::UnknownRuntime(token)) => assert_eq!(token, "Vite"),
        other => panic!("unexpected result: {:?}", other),
    }
    assert!(Runtime::from_command("").is_err());
    assert!(Runtime::from_command("nodejs").is_err());
}

#[test]
fn mixed_case_aliases_resolve() {
    assert_eq!(Runtime::from_command("Yarn").unwrap(), Runtime::Node);
    assert_eq!(Runtime::from_command("PNPM").unwrap(), Runtime::Node);
    assert_eq!(Runtime::from_command("BuN").unwrap(), Runtime::Bun);
    assert_eq!(Runtime::from_lowercase("npx"), Some(Runtime::Node));
    assert_eq!(Runtime::from_lowercase("NPX"), None);
}

#[test]
fn exceeding_memory_names_request_and_machine() {
    match Runtime::Deno.validate_memory(20480, 16) {
        Err(RuntimeError::ExceedsSystemMemory { memory_mb, system_gb }) => {
            assert_eq!(memory_mb, 20480);
            assert_eq!(system_gb, 16);
        }
        other => panic!("unexpected result: {:?}", other),
    }
    assert!(Runtime::Bun.validate_memory(20480, 16).unwrap().is_empty());
}

#[test]
fn validation_notes_have_exact_text() {
    assert_eq!(
        Runtime::Node.validate_memory(14336, 16).unwrap(),
        "⚠️  Warning: 87% of system memory (recommended: 20-40% dev, 50-75% prod)"
    );
    assert_eq!(
        Runtime::Node.validate_memory(512, 16).unwrap(),
        "ℹ️  Info: Only 3% of system memory, can increase for better performance"
    );
}

#[test]
fn validation_band_edges() {
    // exactly 75% and exactly 10% give no note
    assert_eq!(Runtime::Node.validate_memory(12288, 16).unwrap(), "");
    assert_eq!(Runtime::Node.validate_memory(1639, 16).unwrap(), "");
    // exactly the machine's memory is accepted, with a warning
    assert!(Runtime::Node.validate_memory(16384, 16).unwrap().contains("100%"));
    assert!(Runtime::Node.validate_memory(16385, 16).is_err());
    // a machine reported as 0 GB
    assert!(Runtime::Node.validate_memory(1, 0).is_err());
    assert_eq!(Runtime::Node.validate_memory(0, 0).unwrap(), "");
}

#[test]
fn recommendation_full_text() {
    assert_eq!(
        Runtime::Deno.recommend_memory(8),
        "For <16GB: 2048-4096 MB\nRule: Allocate 20-40% of system memory for development"
    );
    assert_eq!(
        Runtime::Bun.recommend_memory(128),
        "Bun manages memory automatically (GC at ~80% system memory)"
    );
}

#[test]
fn default_memory_is_monotone_on_tiers() {
    let mut last = 0;
    for gb in 0..200u64 {
        let d = Runtime::default_memory(gb);
        assert!(d >= last);
        last = d;
    }
    assert_eq!(Runtime::default_memory(15), 2048);
    assert_eq!(Runtime::default_memory(63), 8192);
}

#[test]
fn oom_signatures_each_match_in_any_case() {
    let rt = Runtime::Node;
    assert!(rt.check_oom_from_output("javascript HEAP out of MEMORY"));
    assert!(rt.check_oom_from_output("fatal error: REACHED HEAP LIMIT"));
    assert!(rt.check_oom_from_output("ALLOCATION FAILED - process out of memory"));
    assert!(rt.check_oom_from_output("xx Heap Out Of Memory xx"));
    assert!(!rt.check_oom_from_output(""));
    assert!(Runtime::signals_oom("allocation failed"));
    assert!(!Runtime::signals_oom("Allocation failed"));
}

#[test]
fn memory_injection_per_runtime() {
    match Runtime::Node.memory_injection(Some("4096"), "") {
        MemoryInjection::NodeOptions(v) => assert_eq!(v, "--max-old-space-size=4096"),
        other => panic!("unexpected: {:?}", other),
    }
    match Runtime::Node.memory_injection(Some("4096"), "--trace-warnings") {
        MemoryInjection::NodeOptions(v) => {
            assert_eq!(v, "--trace-warnings --max-old-space-size=4096")
        }
        other => panic!("unexpected: {:?}", other),
    }
    match Runtime::Deno.memory_injection(Some("8192"), "--x") {
        MemoryInjection::DenoV8Flag(v) => assert_eq!(v, "--max-old-space-size=8192"),
        other => panic!("unexpected: {:?}", other),
    }
    assert!(matches!(
        Runtime::Bun.memory_injection(Some("8192"), ""),
        MemoryInjection::Nothing
    ));
    assert!(matches!(
        Runtime::Node.memory_injection(None, "--x"),
        MemoryInjection::Nothing
    ));
}
