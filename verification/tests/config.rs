use passe::config::{Change, Config, ConfigFile, Defaulted, DomainConfig};

fn stored(domain: &str, length: usize) -> (String, DomainConfig) {
    (String::from(domain), DomainConfig::default().with_length(length))
}

fn config_with(domains: Vec<(String, DomainConfig)>) -> Config {
    let mut file = ConfigFile::default();
    file.domains = domains;
    Config::new(file)
}

#[test]
fn resolution_prefers_pending_set() {
    let mut config = config_with(vec![stored("a.example", 20)]);
    config.add(String::from("a.example"), DomainConfig::default().with_length(7));
    match config.for_domain("a.example") {
        Defaulted::Explicit(c) => assert_eq!(c.length, 7),
        Defaulted::Default(_) => panic!("pending edit must win"),
    }
}

#[test]
fn resolution_pending_delete_beats_stored_value() {
    let mut config = config_with(vec![stored("a.example", 20)]);
    config.stage_delete(String::from("a.example"));
    match config.for_domain("a.example") {
        Defaulted::Explicit(_) => panic!("deleted domain must fall back"),
        Defaulted::Default(c) => assert_eq!(c.length, 10),
    }
}

#[test]
fn resolution_uses_stored_value() {
    let config = config_with(vec![stored("a.example", 20)]);
    match config.for_domain("a.example") {
        Defaulted::Explicit(c) => assert_eq!(c.length, 20),
        Defaulted::Default(_) => panic!("stored value must be explicit"),
    }
}

#[test]
fn resolution_falls_back_to_defaults() {
    let config = config_with(vec![stored("a.example", 20)]);
    match config.for_domain("new.example") {
        Defaulted::Explicit(_) => panic!("unknown domain must default"),
        Defaulted::Default(c) => assert_eq!(c.length, 10),
    }
}

#[test]
fn incremental_changes_hold_only_staged_edits() {
    let mut config = config_with(vec![stored("a.example", 20), stored("b.example", 12)]);
    config.add(String::from("c.example"), DomainConfig::default().with_length(8));
    let changes = config.changes();
    assert_eq!(changes.len(), 1);
    assert_eq!(changes[0].0, "c.example");
    assert!(matches!(changes[0].1, Change::Put(ref c) if c.length == 8));
}

#[test]
fn full_changes_cover_every_known_domain() {
    let config = config_with(vec![stored("a.example", 20), stored("b.example", 12)]);
    let full = config.full_changes();
    assert_eq!(full.len(), 2);
    assert_eq!(full[0].0, "a.example");
    assert!(matches!(full[0].1, Change::Put(ref c) if c.length == 20));
    assert_eq!(full[1].0, "b.example");
    assert!(matches!(full[1].1, Change::Put(ref c) if c.length == 12));
}

#[test]
fn post_sync_replaces_domains_and_clears_changes() {
    let mut config = config_with(vec![stored("a.example", 20)]);
    config.add(String::from("b.example"), DomainConfig::default().with_length(9));
    config.post_sync(vec![stored("b.example", 9), stored("c.example", 11)]);
    // The reconciled state is unsaved, so the configuration is dirty and
    // will reach durable storage on the next save.
    assert!(config.dirty);
    assert!(config.changes().is_empty());
    let names = config.domain_list();
    assert_eq!(names, vec![String::from("b.example"), String::from("c.example")]);
    match config.for_domain("a.example") {
        Defaulted::Explicit(_) => panic!("dropped domain must default"),
        Defaulted::Default(_) => {}
    }
}

#[test]
fn add_marks_dirty() {
    let mut config = config_with(vec![]);
    assert!(!config.dirty);
    config.add(String::from("a.example"), DomainConfig::default());
    assert!(config.dirty);
}

#[test]
fn underlying_unwraps_both_ways() {
    let e: Defaulted<u32> = Defaulted::Explicit(3);
    let d: Defaulted<u32> = Defaulted::Default(4);
    assert_eq!(e.underlying(), 3);
    assert_eq!(d.underlying(), 4);
}

#[test]
fn with_length_keeps_other_fields() {
    let mut c = DomainConfig::default();
    c.suffix = Some(String::from("sfx"));
    c.note = Some(String::from("a note"));
    let c = c.with_length(17);
    assert_eq!(c.length, 17);
    assert_eq!(c.suffix.as_deref(), Some("sfx"));
    assert_eq!(c.note.as_deref(), Some("a note"));
}
