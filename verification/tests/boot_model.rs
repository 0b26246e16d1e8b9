use multiview_control::boot_model::{
    file_name, load_resume_config, no_file_name, parent, state_dir_for, temp_path, BootModel,
    ResumeFault, StartMode,
};
use multiview_control::model::Config;
use std::path::Path;

fn config() -> Config {
    Config {
        sources: vec![],
        outputs: vec![],
        overlays: vec![],
        probes: vec![],
        devices: vec![],
        sync_groups: vec![],
        audio: None,
        salvos: vec![],
        tally_profiles: vec![],
        layout_body: None,
        layout_document: Err("none".to_owned()),
        layout_solved: Err("none".to_owned()),
    }
}

fn model(path: &str) -> BootModel {
    BootModel::new(path.to_owned(), config(), StartMode::Resume, false, Some("gone".to_owned()))
}

#[test]
fn paths_are_cut_as_the_platform_cuts_them() {
    for p in [
        "", "/", ".", "..", "a", "/a", "a/", "a/b", "a//b", "a/b/", "a/./b", "./a", "../a", "/.",
        "/./", "//a", "/a/b/.", "a/..", "a/b/c.toml", "/etc/multiview/boot.toml", "a/.b", "./",
        "a/.", "./.", "x/./.", "/..",
    ] {
        assert_eq!(parent(p), Path::new(p).parent().map(|q| q.to_str().unwrap()), "parent of {p:?}");
        assert_eq!(
            file_name(p),
            Path::new(p).file_name().map(|q| q.to_str().unwrap()),
            "file name of {p:?}"
        );
    }
}

#[test]
fn state_lies_beside_the_boot_file() {
    assert_eq!(state_dir_for("/etc/mv/boot.toml"), "/etc/mv/.multiview");
    assert_eq!(state_dir_for("boot.toml"), "./.multiview");
    assert_eq!(state_dir_for("/boot.toml"), "/.multiview");
    let m = model("/etc/mv/boot.toml");
    assert_eq!(m.boot_path(), "/etc/mv/boot.toml");
    assert_eq!(m.state_dir(), "/etc/mv/.multiview");
    assert_eq!(m.active_path(), "/etc/mv/.multiview/active.toml");
    assert_eq!(m.loaded_path(), "/etc/mv/.multiview/loaded.toml");
    assert_eq!(m.start(), StartMode::Resume);
    assert!(!m.resumed());
    assert_eq!(m.resume_fallback(), Some("gone"));
    assert!(m.loaded().sources.is_empty());
}

#[test]
fn writes_go_through_a_hidden_file_beside_the_target() {
    assert_eq!(temp_path("/d/active.toml").as_deref(), Some("/d/.active.toml.tmp"));
    assert_eq!(temp_path("active.toml").as_deref(), Some("./.active.toml.tmp"));
    assert_eq!(temp_path("/d/.."), None);
    assert_eq!(temp_path("/"), None);
    assert_eq!(no_file_name("/"), "atomic write target / has no file name");
}

#[test]
fn resuming_reports_what_is_wrong() {
    let at = |fault| load_resume_config("/d/boot.toml", Err(fault)).unwrap_err();
    assert_eq!(
        at(ResumeFault::Unreadable("no such file".to_owned())),
        "the persisted Running state /d/.multiview/active.toml cannot be read: no such file"
    );
    assert_eq!(
        at(ResumeFault::Unparsable("line 1".to_owned())),
        "the persisted Running state /d/.multiview/active.toml does not parse as TOML: line 1"
    );
    assert_eq!(
        at(ResumeFault::Invalid("no cells".to_owned())),
        "the persisted Running state /d/.multiview/active.toml does not validate: no cells"
    );
    assert_eq!(load_resume_config("/d/boot.toml", Ok(config())), Ok(config()));
}

#[test]
fn stale_content_never_overwrites_newer_content() {
    let mut m = model("boot.toml");
    assert_eq!(m.tickets_drawn(), 0);
    let old = m.next_write_ticket();
    let new = m.next_write_ticket();
    assert_eq!((old, new, m.tickets_drawn()), (1, 2, 2));
    assert_eq!((old, new), (1, 2));
    assert!(m.write_is_due(new));
    m.write_landed(new);
    assert!(!m.write_is_due(old), "the older composition comes too late");
    assert!(m.write_is_due(new));
}

#[test]
fn writes_and_reverts_are_remembered() {
    let mut m = model("boot.toml");
    assert_eq!(m.active_written_ms(), None);
    m.record_active_written(1_999_999);
    assert_eq!(m.active_written_ms(), Some(1));
    m.record_active_written(-1);
    assert_eq!(m.active_written_ms(), Some(-1), "rounded towards the past");
    assert!(!m.take_revert_incomplete());
    m.note_revert_incomplete();
    assert!(m.take_revert_incomplete());
    assert!(!m.take_revert_incomplete(), "the latch is taken once");
}
