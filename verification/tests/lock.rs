use sketchybar_now_playing::lock::{
    command_line_is_ours, lock_path, next_lock_step, owner_pid_from_text, uid_from_output,
    DaemonLock, LockEvent, LockStep,
};

#[test]
fn event_feed_lock_path() {
    assert_eq!(
        lock_path("now_playing_change", None, "501"),
        "/tmp/sketchybar-now-playing-501.event-now_playing_change.lock"
    );
}

#[test]
fn set_target_names_the_lock_and_event_is_ignored() {
    assert_eq!(
        lock_path("ignored", Some("now_playing"), "501"),
        "/tmp/sketchybar-now-playing-501.set-now_playing.lock"
    );
    assert_ne!(
        lock_path("x", Some("x"), "501"),
        lock_path("x", None, "501")
    );
}

#[test]
fn unsafe_characters_are_replaced() {
    assert_eq!(
        lock_path("a/b c:d", None, "0"),
        "/tmp/sketchybar-now-playing-0.event-a_b_c_d.lock"
    );
    assert_eq!(
        lock_path("héllo.x-y_z", None, "0"),
        "/tmp/sketchybar-now-playing-0.event-h_llo.x-y_z.lock"
    );
}

#[test]
fn uid_is_digits_or_unknown() {
    assert_eq!(uid_from_output(Some("501\n")), "501");
    assert_eq!(uid_from_output(Some("  \n")), "unknown");
    assert_eq!(uid_from_output(Some("50a1")), "unknown");
    assert_eq!(uid_from_output(None), "unknown");
}

#[test]
fn owner_pid_is_parsed_from_lock_text() {
    assert_eq!(owner_pid_from_text("42424242"), Some(42424242));
    assert_eq!(owner_pid_from_text(" 17\n"), Some(17));
    assert_eq!(owner_pid_from_text("+17"), Some(17));
    assert_eq!(owner_pid_from_text("-17"), None);
    assert_eq!(owner_pid_from_text("garbage"), None);
    assert_eq!(owner_pid_from_text(""), None);
    assert_eq!(owner_pid_from_text("4294967296"), None);
}

#[test]
fn command_line_match() {
    assert!(command_line_is_ours(Some("/usr/local/bin/sketchybar-now-playing daemon")));
    assert!(!command_line_is_ours(Some("/usr/bin/perl")));
    assert!(!command_line_is_ours(None));
}

#[test]
fn fresh_lock_is_acquired() {
    assert_eq!(next_lock_step(LockStep::Create, LockEvent::Created, 7), LockStep::Acquired);
    assert_eq!(next_lock_step(LockStep::Create, LockEvent::CreateError, 7), LockStep::Failed);
}

#[test]
fn second_acquire_in_same_process_is_duplicate() {
    let step = next_lock_step(LockStep::Create, LockEvent::AlreadyExists, 7);
    assert_eq!(step, LockStep::ReadOwner);
    assert_eq!(next_lock_step(step, LockEvent::Owner(Some(7)), 7), LockStep::Duplicate);
}

#[test]
fn live_owner_is_duplicate_and_stale_owner_taken_over() {
    let step = next_lock_step(LockStep::ReadOwner, LockEvent::Owner(Some(42424242)), 7);
    assert_eq!(step, LockStep::Probe(42424242));
    assert_eq!(next_lock_step(step, LockEvent::Probed(true), 7), LockStep::Duplicate);
    let step = next_lock_step(step, LockEvent::Probed(false), 7);
    assert_eq!(step, LockStep::TakeOver);
    assert_eq!(next_lock_step(step, LockEvent::Created, 7), LockStep::Acquired);
    assert_eq!(next_lock_step(step, LockEvent::AlreadyExists, 7), LockStep::Duplicate);
    assert_eq!(
        next_lock_step(LockStep::ReadOwner, LockEvent::Owner(None), 7),
        LockStep::TakeOver
    );
}

#[test]
fn final_steps_do_not_move() {
    for step in [LockStep::Acquired, LockStep::Duplicate, LockStep::Failed] {
        assert_eq!(next_lock_step(step, LockEvent::Created, 7), step);
    }
}

#[test]
fn release_removes_only_own_file() {
    let lock = DaemonLock::new("/tmp/x.lock".to_string(), 7);
    assert_eq!(lock.path(), "/tmp/x.lock");
    assert_eq!(lock.pid(), 7);
    assert!(lock.owns_file(Some(7)));
    assert!(!lock.owns_file(Some(8)));
    assert!(!lock.owns_file(None));
}
