use multiview_control::config_lock::{
    config_lock_guard, is_mutating, is_operational_or_recovery, EntitlementStatus,
};

#[test]
fn only_write_verbs_are_mutations() {
    assert!(is_mutating("POST"));
    assert!(is_mutating("PUT"));
    assert!(is_mutating("DELETE"));
    assert!(is_mutating("PATCH"));
    assert!(!is_mutating("GET"));
    assert!(!is_mutating("HEAD"));
    assert!(!is_mutating("OPTIONS"));
}

#[test]
fn licence_and_operational_paths_are_exempt() {
    // Recovery: the whole licence surface.
    assert!(is_operational_or_recovery("/api/v1/licence/lease"));
    assert!(is_operational_or_recovery("/licence/lease"));
    assert!(is_operational_or_recovery("/api/v1/licence"));
    // Operational continuity.
    assert!(is_operational_or_recovery("/api/v1/commands/start"));
    assert!(is_operational_or_recovery("/api/v1/commands/stop"));
    assert!(is_operational_or_recovery("/api/v1/commands/swap"));
    assert!(is_operational_or_recovery("/api/v1/salvos/s1/take"));
    assert!(is_operational_or_recovery("/api/v1/routing/video/take"));
    assert!(is_operational_or_recovery("/api/v1/tally/override"));
    assert!(is_operational_or_recovery("/api/v1/alarms/a1/ack"));
    assert!(is_operational_or_recovery("/api/v1/devices/d1/reboot"));
}

#[test]
fn configuration_paths_are_locked() {
    // Resource CRUD + config-apply are configuration, not operational.
    assert!(!is_operational_or_recovery("/api/v1/layouts/x"));
    assert!(!is_operational_or_recovery("/api/v1/sources/x"));
    assert!(!is_operational_or_recovery("/api/v1/outputs/x"));
    assert!(!is_operational_or_recovery("/api/v1/overlays/x"));
    assert!(!is_operational_or_recovery("/api/v1/commands/apply-layout"));
    assert!(!is_operational_or_recovery("/api/v1/config/working"));
    assert!(!is_operational_or_recovery("/api/v1/audio-routing"));
}

#[test]
fn the_lock_refuses_changes_and_names_the_way_out() {
    let lapsed = EntitlementStatus {
        config_locked: true,
        reasons: vec!["lease-expired".to_owned(), "offline".to_owned()],
    };
    let p = config_lock_guard("PUT", "/api/v1/sources/x", Some(&lapsed)).expect("refused");
    assert_eq!(p.status, 409);
    assert_eq!(p.code, "config_locked");
    assert_eq!(p.title, "Configuration locked (entitlement lapsed)");
    assert_eq!(p.instance, "/settings/licence");
    assert_eq!(
        p.detail,
        "configuration is locked because the entitlement lease has lapsed (lease-expired, \
         offline); the running program is unaffected (it keeps playing) \u{2014} install a fresh \
         lease at /settings/licence to unlock reconfiguration"
    );
    // Reads, the running show and the recovery pass.
    assert_eq!(config_lock_guard("GET", "/api/v1/sources/x", Some(&lapsed)), None);
    assert_eq!(config_lock_guard("POST", "/api/v1/commands/swap", Some(&lapsed)), None);
    assert_eq!(config_lock_guard("POST", "/api/v1/licence/lease", Some(&lapsed)), None);
    // Without evidence of a lapse everything passes.
    let fine = EntitlementStatus { config_locked: false, reasons: vec![] };
    assert_eq!(config_lock_guard("PUT", "/api/v1/sources/x", Some(&fine)), None);
    assert_eq!(config_lock_guard("PUT", "/api/v1/sources/x", None), None);
}
