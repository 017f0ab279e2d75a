use frc::config::Config;
use frc::manager::{Manager, MemoryPlan, RunOutcome};
use frc::runtime::{Runtime, RuntimeError};

#[test]
fn explicit_memory_is_saved_then_reused() {
    let mut manager = Manager::new(Config::new());
    let explicit = Some("4096".to_string());
    let plan = manager.resolve_memory(Runtime::Node, &explicit, "/proj", 16).unwrap();
    assert_eq!(plan.memory(), Some("4096"));
    manager.save_project_config(Runtime::Node, "/proj".to_string(), "4096".to_string());
    let saved = manager.config.get_project("/proj").unwrap();
    assert_eq!(saved.runtime, "node");
    assert_eq!(saved.memory, "4096");

    let plan = manager.resolve_memory(Runtime::Node, &None, "/proj", 16).unwrap();
    assert!(matches!(plan, MemoryPlan::Saved { .. }));
    assert_eq!(plan.memory(), Some("4096"));
}

#[test]
fn explicit_memory_passes_through_unparsed() {
    let manager = Manager::new(Config::new());
    let plan = manager
        .resolve_memory(Runtime::Node, &Some("4g".to_string()), "/p", 16)
        .unwrap();
    match plan {
        MemoryPlan::Explicit { memory, note } => {
            assert_eq!(memory, "4g");
            assert_eq!(note, "");
        }
        other => panic!("unexpected: {:?}", other),
    }
    let plan = manager
        .resolve_memory(Runtime::Node, &Some("14336".to_string()), "/p", 16)
        .unwrap();
    match plan {
        MemoryPlan::Explicit { note, .. } => assert!(note.contains("Warning")),
        other => panic!("unexpected: {:?}", other),
    }
}

#[test]
fn explicit_memory_over_machine_fails() {
    let manager = Manager::new(Config::new());
    let r = manager.resolve_memory(Runtime::Node, &Some("999999".to_string()), "/p", 16);
    assert!(matches!(
        r,
        Err(RuntimeError::ExceedsSystemMemory { memory_mb: 999999, system_gb: 16 })
    ));
    // Bun takes no limit, so nothing is checked
    let r = manager.resolve_memory(Runtime::Bun, &Some("999999".to_string()), "/p", 16);
    assert_eq!(r.unwrap().memory(), Some("999999"));
}

#[test]
fn no_saved_record_suggests_default() {
    let mut config = Config::new();
    config.save_project_at("/p".to_string(), "deno".to_string(), "8192".to_string(), 1);
    let manager = Manager::new(config);
    match manager.resolve_memory(Runtime::Node, &None, "/other", 32).unwrap() {
        MemoryPlan::Suggest { recommended_mb } => assert_eq!(recommended_mb, 8192),
        other => panic!("unexpected: {:?}", other),
    }
    // a record saved for another runtime is not applied
    let plan = manager.resolve_memory(Runtime::Node, &None, "/p", 16).unwrap();
    assert!(matches!(plan, MemoryPlan::Suggest { recommended_mb: 4096 }));
    assert_eq!(plan.memory(), None);
    let plan = manager.resolve_memory(Runtime::Bun, &None, "/other", 16).unwrap();
    assert!(matches!(plan, MemoryPlan::Unset));
}

#[test]
fn oom_run_raises_saved_limit() {
    let mut config = Config::new();
    config.save_project_at("/p".to_string(), "node".to_string(), "4096".to_string(), 1);
    let mut manager = Manager::new(config);
    let outcome = manager.after_run(
        Runtime::Node,
        "/p",
        "FATAL ERROR: Reached heap limit Allocation failed - JavaScript heap out of memory",
        false,
    );
    match outcome {
        RunOutcome::OutOfMemory { raised: Some((old, new)) } => {
            assert_eq!(old, "4096");
            assert_eq!(new, "6144");
        }
        other => panic!("unexpected: {:?}", other),
    }
    assert_eq!(manager.config.get_project("/p").unwrap().memory, "6144");
}

#[test]
fn oom_without_record_changes_nothing() {
    let mut manager = Manager::new(Config::new());
    let outcome = manager.after_run(Runtime::Node, "/p", "heap out of memory", false);
    assert!(matches!(outcome, RunOutcome::OutOfMemory { raised: None }));
    assert!(manager.config.list_projects().is_empty());
}

#[test]
fn plain_failure_and_success() {
    let mut config = Config::new();
    config.save_project_at("/p".to_string(), "node".to_string(), "4096".to_string(), 1);
    let mut manager = Manager::new(config);
    assert!(matches!(
        manager.after_run(Runtime::Node, "/p", "TypeError: x is undefined", false),
        RunOutcome::Failed
    ));
    assert!(matches!(
        manager.after_run(Runtime::Node, "/p", "", true),
        RunOutcome::Succeeded
    ));
    assert_eq!(manager.config.get_project("/p").unwrap().memory, "4096");
}

#[test]
fn system_memory_reading_units() {
    assert_eq!(Manager::system_gb_from(17_179_869_184), 16);
    assert_eq!(Manager::system_gb_from(16_777_216), 16);
    assert_eq!(Manager::system_gb_from(0), 0);
}
