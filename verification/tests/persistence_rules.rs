use galactic_war::{AppConfig, PersistenceConfig, PersistenceWorker};

#[test]
fn test_default_config() {
    let config = AppConfig::default();
    assert!(config.persistence.enabled);
    assert_eq!(config.persistence.auto_save_interval, 30);
    assert_eq!(config.persistence.shutdown_timeout, 10);
    assert!(config.persistence.write_coalescing);
    assert_eq!(config.persistence.coalescing_delay_ms, 1000);
}

#[test]
fn test_persistence_config_default() {
    let config = PersistenceConfig::default();
    assert_eq!(config.auto_save_interval, 30);
    assert_eq!(config.shutdown_timeout, 10);
    assert!(config.enabled);
    assert!(config.write_coalescing);
    assert_eq!(config.coalescing_delay_ms, 1000);
}

#[test]
fn test_apply_overrides() {
    let mut config = AppConfig::default();
    config.apply_overrides(Some(false), Some(60), None, Some(false), Some(2000));
    assert!(!config.persistence.enabled);
    assert_eq!(config.persistence.auto_save_interval, 60);
    assert_eq!(config.persistence.shutdown_timeout, 10);
    assert!(!config.persistence.write_coalescing);
    assert_eq!(config.persistence.coalescing_delay_ms, 2000);
}

#[test]
fn test_coalescing_single_write() {
    // Coalescing on, delay 1000 ms: repeated mutations of one galaxy
    // inside the window cost exactly one durable write
    let config = PersistenceConfig {
        auto_save_interval: 1,
        shutdown_timeout: 10,
        enabled: true,
        write_coalescing: true,
        coalescing_delay_ms: 1000,
    };
    let mut worker = PersistenceWorker::new(config, 0);

    let mut writes = 0;
    for now in [100u64, 300, 600, 900] {
        let batch = worker.on_wake(now, vec!["alpha".to_string()]);
        writes += batch.iter().filter(|n| n.as_str() == "alpha").count();
        assert!(batch.is_empty());
    }
    let batch = worker.on_wake(1000, vec!["alpha".to_string()]);
    writes += batch.iter().filter(|n| n.as_str() == "alpha").count();
    assert_eq!(batch.len(), 1);
    assert_eq!(writes, 1);

    // The next window starts empty
    let batch = worker.on_wake(1100, vec![]);
    assert!(batch.is_empty());
}

#[test]
fn test_coalescing_merges_names() {
    let config = PersistenceConfig {
        write_coalescing: true,
        coalescing_delay_ms: 500,
        ..PersistenceConfig::default()
    };
    let mut worker = PersistenceWorker::new(config, 0);

    assert!(worker
        .on_wake(10, vec!["a".to_string(), "b".to_string()])
        .is_empty());
    assert!(worker
        .on_wake(20, vec!["b".to_string(), "c".to_string()])
        .is_empty());
    let batch = worker.on_wake(500, vec!["a".to_string()]);
    // Each name once, in first-seen order
    assert_eq!(batch, vec!["a".to_string(), "b".to_string(), "c".to_string()]);
}

#[test]
fn test_no_coalescing_writes_immediately() {
    let config = PersistenceConfig {
        write_coalescing: false,
        ..PersistenceConfig::default()
    };
    let mut worker = PersistenceWorker::new(config, 0);

    let batch = worker.on_wake(1, vec!["alpha".to_string(), "beta".to_string()]);
    assert_eq!(batch, vec!["alpha".to_string(), "beta".to_string()]);
    let batch = worker.on_wake(2, vec!["alpha".to_string()]);
    assert_eq!(batch, vec!["alpha".to_string()]);
}

#[test]
fn test_shutdown_signal() {
    let mut worker = PersistenceWorker::new(PersistenceConfig::default(), 0);
    assert!(!worker.shutdown_requested());
    worker.signal_shutdown();
    assert!(worker.shutdown_requested());
    assert_eq!(worker.config().shutdown_timeout, 10);
}
