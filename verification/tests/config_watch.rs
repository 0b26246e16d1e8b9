use std::collections::hash_map::DefaultHasher;
use std::hash::{Hash, Hasher};

use multiview_control::command::{command_bus, CommandBus};
use multiview_control::config_apply::Session;
use multiview_control::config_watch::{
    apply_incomplete_warning, confirm_server_write, content_hash, expect_server_write,
    invalid_warning, now_ms, requires_restart_warning, warning_subsystem, ConfigWatchHandle,
    Effect, Fingerprint, TextStep, WarningCode, WatchOptions, Watcher,
};
use multiview_control::model::{Config, ConfigDiff, Source, SourceChange};
use multiview_control::time::Duration;

fn config() -> Config {
    Config {
        sources: vec![],
        outputs: vec![],
        overlays: vec![],
        probes: vec![],
        devices: vec![],
        sync_groups: vec![],
        audio: None,
        salvos: vec![],
        tally_profiles: vec![],
        layout_body: None,
        layout_document: Err("none".to_owned()),
        layout_solved: Err("none".to_owned()),
    }
}

fn no_diff() -> ConfigDiff {
    ConfigDiff {
        sources: vec![],
        overlays: vec![],
        overlays_reordered: false,
        canvas_signal_changed: false,
        canvas_cosmetic_changed: false,
        layout_changed: false,
        changed_sections: vec![],
    }
}

/// A change by which one synthetic source is added.
fn added(id: &str) -> (Config, ConfigDiff) {
    let source = || Source {
        id: id.to_owned(),
        display_name: None,
        synthetic: true,
        body: Some("{}".to_owned()),
    };
    let mut c = config();
    c.sources = vec![source()];
    let mut d = no_diff();
    d.sources = vec![SourceChange::Added(Box::new(source()))];
    (c, d)
}

fn session() -> Session {
    Session { overlays_live: true, working_layout_id: None, running_canvas: None }
}

fn print(n: u64) -> Fingerprint {
    Fingerprint { len: n, modified: Some(u128::from(n)), inode: 1 }
}

fn watcher() -> Watcher {
    Watcher::new(config(), WatchOptions::default())
}

fn settle(w: &mut Watcher, n: u64) {
    assert!(!w.on_poll(Some(print(n))).read, "the first sight only marks a candidate");
    assert!(w.on_poll(Some(print(n))).read, "the second reads it");
}

fn text(
    w: &mut Watcher,
    n: u64,
    content: &str,
    parsed: Result<(Config, ConfigDiff), String>,
    bus: &mut CommandBus,
) -> TextStep {
    w.on_text(print(n), content.to_owned(), parsed, &session(), bus)
}

#[test]
fn content_is_hashed_as_std_hashes_strings() {
    for t in ["", "a", "start = \"boot\"\n", "\u{e9}"] {
        let mut h = DefaultHasher::new();
        t.hash(&mut h);
        assert_eq!(content_hash(t), h.finish());
    }
}

#[test]
fn a_change_is_read_when_it_has_settled_and_applied_once() {
    let mut w = watcher();
    let mut bus = command_bus(8);
    settle(&mut w, 1);
    let step = text(&mut w, 1, "one", Ok(added("bars")), &mut bus);
    assert_eq!(bus.try_drain().len(), 1);
    assert!(step.applied.is_some());
    assert_eq!(
        step.effects,
        vec![
            Effect::RunningChanged,
            Effect::RecordApplied("sources: bars added".to_owned()),
        ]
    );
    assert_eq!(w.baseline().sources.len(), 1);
    let again = w.on_poll(Some(print(1)));
    assert!(!again.read && again.effects.is_empty());
}

#[test]
fn an_invalid_document_changes_nothing_and_is_reported_once() {
    let mut w = watcher();
    let mut bus = command_bus(8);
    settle(&mut w, 1);
    let step = text(&mut w, 1, "bad", Err("no cells".to_owned()), &mut bus);
    assert_eq!(step.effects, vec![Effect::Reject("no cells".to_owned())]);
    assert!(step.applied.is_none() && bus.try_drain().is_empty());
    assert!(w.baseline().sources.is_empty());
    let again = w.on_poll(Some(print(1)));
    assert!(!again.read && again.effects.is_empty());
    // A valid write clears the warning.
    settle(&mut w, 2);
    let step = text(&mut w, 2, "good", Ok(added("bars")), &mut bus);
    assert_eq!(
        step.effects[0],
        Effect::ClearInvalid("a subsequent valid write applied".to_owned())
    );
}

#[test]
fn a_missing_file_is_reported_once() {
    let mut w = watcher();
    let mut reports = 0;
    for _ in 0..10 {
        let step = w.on_poll(None);
        assert!(!step.read);
        for e in step.effects {
            assert_eq!(e, Effect::Reject("the watched config file is missing".to_owned()));
            reports += 1;
        }
    }
    assert_eq!(reports, 1);
    // Seen again, it can be reported again.
    w.on_poll(Some(print(1)));
    let later: usize = (0..10).map(|_| w.on_poll(None).effects.len()).sum();
    assert_eq!(later, 1);
}

#[test]
fn an_unreadable_file_is_rejected() {
    let mut w = watcher();
    settle(&mut w, 1);
    assert_eq!(
        w.on_unreadable(print(1), "permission denied"),
        vec![Effect::Reject("the file cannot be read: permission denied".to_owned())]
    );
    assert!(!w.on_poll(Some(print(1))).read);
}

#[test]
fn a_shed_change_is_retried_until_it_lands() {
    let mut w = watcher();
    let mut bus = command_bus(1);
    settle(&mut w, 1);
    // The bus is full: nothing lands.
    bus.try_submit(multiview_control::command::Command::Start {
        op: multiview_control::command::OperationId::new(),
    })
    .unwrap();
    let step = text(&mut w, 1, "one", Ok(added("bars")), &mut bus);
    assert_eq!(
        step.effects,
        vec![
            Effect::RecordRejected(
                "partially applied: 1 engine command(s) shed on a full command bus; the watcher \
                 retries the whole change on its next poll"
                    .to_owned()
            ),
            Effect::RaiseIncomplete(1),
        ]
    );
    assert!(w.baseline().sources.is_empty(), "nothing counts as applied");
    assert_eq!(step.pending.map(|next| next.sources.len()), Some(1));
    bus.try_drain();
    settle(&mut w, 1);
    let step = text(&mut w, 1, "one", Ok(added("bars")), &mut bus);
    assert_eq!(
        step.effects,
        vec![
            Effect::ClearIncomplete,
            Effect::RunningChanged,
            Effect::RecordApplied("sources: bars added".to_owned()),
        ]
    );
    assert_eq!(w.baseline().sources.len(), 1);
}

#[test]
fn the_servers_own_write_is_adopted_without_being_applied() {
    let mut w = watcher();
    let mut bus = command_bus(8);
    w.expect_write("mine");
    w.mark_write_landed("mine");
    settle(&mut w, 1);
    let step = text(&mut w, 1, "mine", Ok(added("bars")), &mut bus);
    assert!(step.applied.is_none() && step.effects.is_empty() && bus.try_drain().is_empty());
    assert_eq!(w.baseline().sources.len(), 1);
    // The announcement is spent: the same content later is the last-observed one.
    settle(&mut w, 2);
    let step = text(&mut w, 2, "mine", Ok(added("bars")), &mut bus);
    assert!(step.applied.is_none() && step.effects.is_empty());
}

#[test]
fn content_that_was_resumed_from_is_not_applied_again() {
    let options = WatchOptions::default()
        .with_poll_interval(Duration::from_millis(50))
        .with_initial_observed("start".to_owned());
    assert_eq!(options.poll_interval.as_millis(), 50);
    let mut w = Watcher::new(config(), options);
    let mut bus = command_bus(8);
    settle(&mut w, 1);
    let step = text(&mut w, 1, "start", Ok(added("bars")), &mut bus);
    assert!(step.applied.is_none() && bus.try_drain().is_empty());
}

#[test]
fn an_empty_change_only_moves_the_baseline() {
    let mut w = watcher();
    let mut bus = command_bus(8);
    settle(&mut w, 1);
    let step = text(&mut w, 1, "# a comment", Ok((config(), no_diff())), &mut bus);
    assert!(step.applied.is_none());
    assert_eq!(step.effects, vec![Effect::RunningChanged]);
}

#[test]
fn sections_that_wait_stay_named_until_the_restart() {
    let mut w = watcher();
    let mut bus = command_bus(8);
    let mut d = no_diff();
    d.changed_sections = vec!["outputs".to_owned()];
    settle(&mut w, 1);
    let step = text(&mut w, 1, "one", Ok((config(), d)), &mut bus);
    assert_eq!(
        step.effects.last(),
        Some(&Effect::RequiresRestart(vec!["outputs".to_owned()]))
    );
    let mut d = no_diff();
    d.changed_sections = vec!["audio".to_owned()];
    settle(&mut w, 2);
    let step = text(&mut w, 2, "two", Ok((config(), d)), &mut bus);
    assert_eq!(
        step.effects.last(),
        Some(&Effect::RequiresRestart(vec!["audio".to_owned(), "outputs".to_owned()]))
    );
}

#[test]
fn announcements_are_consumed_once_and_can_be_taken_back() {
    let mut h = ConfigWatchHandle::new();
    h.expect_write("a");
    assert!(!h.consume_expected_for("b"));
    assert!(h.consume_expected_for("a"));
    assert!(!h.consume_expected_for("a"), "an announcement answers one write");
    expect_server_write(&mut h, "c");
    confirm_server_write(&mut h, "c");
    assert!(h.release_write("c"));
    assert!(!h.release_write("c"));
    expect_server_write(&mut h, "d");
    confirm_server_write(&mut h, "d");
    expect_server_write(&mut h, "e");
    h.drain_landed();
    assert!(!h.consume_expected_for("d"), "a landed one is superseded");
    assert!(h.consume_expected_for("e"), "one in flight is not");
    assert!(!h.is_stopping());
    h.stop();
    assert!(h.is_stopping());
}

#[test]
fn only_the_newest_announcements_are_kept() {
    let mut h = ConfigWatchHandle::default();
    for n in 0..9 {
        h.expect_write(&format!("{n}"));
    }
    assert!(!h.consume_expected_for("0"), "the oldest makes room");
    assert!(h.consume_expected_for("1") && h.consume_expected_for("8"));
}

#[test]
fn warnings_say_what_happened_and_what_to_do() {
    assert_eq!(warning_subsystem(), "config");
    let w = invalid_warning("/d/boot.toml", "no cells", 7, true);
    assert_eq!(w.code, WarningCode::ConfigFileInvalid);
    assert!(w.message.contains("/d/boot.toml") && w.message.contains("no cells"));
    assert_eq!((w.since, w.active), (7, true));
    let w = apply_incomplete_warning("/d/boot.toml", 3, 8, false);
    assert_eq!(w.code, WarningCode::ConfigFileApplyIncomplete);
    assert!(w.message.contains('3') && !w.active);
    let w = requires_restart_warning(&vec!["audio".to_owned(), "outputs".to_owned()], 9);
    assert_eq!(w.code, WarningCode::ConfigFileRequiresRestart);
    assert_eq!(
        w.message,
        "Section(s) [audio, outputs] of the config file changed since boot in ways that cannot \
         hot-apply; the running process may differ from the file until a restart."
    );
    assert_eq!(now_ms(-1), -1);
    assert_eq!(now_ms(1_999_999), 1);
}

#[test]
fn a_resumed_run_is_left_alone_however_often_the_file_is_polled() {
    let options = WatchOptions::default().with_initial_observed("start".to_owned());
    let mut w = Watcher::new(config(), options);
    let mut bus = command_bus(8);
    // The file is touched now and then, and always says the same.
    for n in [1, 1, 1, 2, 2, 2, 3, 1, 1, 2, 2] {
        let poll = w.on_poll(Some(print(n)));
        assert!(poll.effects.is_empty());
        if poll.read {
            let step = text(&mut w, n, "start", Ok(added("bars")), &mut bus);
            assert!(step.applied.is_none() && step.pending.is_none() && step.effects.is_empty());
        }
        assert!(bus.try_drain().is_empty());
        assert!(w.baseline().sources.is_empty());
    }
}

#[test]
fn a_write_announced_before_the_watcher_exists_is_not_applied() {
    let mut handle = ConfigWatchHandle::new();
    handle.expect_write("mine");
    handle.mark_write_landed("mine");
    let mut w = Watcher::new(config(), WatchOptions::default().with_handle(handle));
    assert!(!w.is_stopping());
    let mut bus = command_bus(8);
    settle(&mut w, 1);
    let step = text(&mut w, 1, "mine", Ok(added("bars")), &mut bus);
    assert!(step.applied.is_none() && step.effects.is_empty() && bus.try_drain().is_empty());
    assert_eq!(w.baseline().sources.len(), 1);
    w.stop();
    assert!(w.is_stopping());
    // A handle that was told to stop says so to its watcher.
    let mut stopped = ConfigWatchHandle::new();
    stopped.stop();
    assert!(Watcher::new(config(), WatchOptions::default().with_handle(stopped)).is_stopping());
}

#[test]
fn announcements_are_taken_back_one_by_one() {
    let mut handle = ConfigWatchHandle::new();
    for content in ["a", "b", "a", "a"] {
        handle.expect_write(content);
    }
    handle.mark_write_landed("b");
    assert!(handle.release_write("a"));
    assert!(handle.release_write("a"));
    assert!(handle.release_write("a"));
    assert!(!handle.release_write("a"));
    assert!(handle.release_write("b"));
    assert!(!handle.release_write("b"));
}
