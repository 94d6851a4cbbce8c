use umanux::userlib::files::LockEvent;
use umanux::userlib::files::LockOutcome;
use umanux::userlib::files::LockTable;
use umanux::userlib::files::append_line;
use umanux::userlib::files::evaluate_existing_lock;
use umanux::userlib::files::lock_file_name;
use umanux::userlib::files::lock_step;
use umanux::userlib::files::temp_file_name;
use umanux::Files;
use umanux::UserLibError;

#[test]
fn lock_mutual_exclusion() {
    // Acquiring a held lock fails; after release it succeeds again.
    let mut table = LockTable::new();
    assert!(table.try_acquire("/etc/passwd.lock", 100).is_ok());
    assert!(table.try_acquire("/etc/passwd.lock", 200).is_err());
    assert!(table.try_acquire("/etc/group.lock", 200).is_ok());
    table.release("/etc/passwd.lock");
    assert!(table.try_acquire("/etc/passwd.lock", 200).is_ok());
    // The other lock was untouched by the release.
    assert!(table.try_acquire("/etc/group.lock", 300).is_err());
}

#[test]
fn lock_artifact_names() {
    assert_eq!(lock_file_name("/etc/passwd"), "/etc/passwd.lock");
    assert_eq!(temp_file_name("/etc/passwd", 12397), "/etc/passwd.12397");
}

#[test]
fn lock_step_outcomes() {
    match lock_step(LockEvent::LinkCreated) {
        LockOutcome::Locked => {}
        LockOutcome::Failed(_) => panic!("a created link grants the lock"),
    }
    match lock_step(LockEvent::LinkExists { lock_content: "123\n".to_owned() }) {
        LockOutcome::Locked => panic!("an existing lock path denies the lock"),
        LockOutcome::Failed(e) => {
            assert_eq!(e, UserLibError::from("The file is currently locked by process 123"));
        }
    }
    match lock_step(LockEvent::LinkFailed { error: "oops".to_owned() }) {
        LockOutcome::Locked => panic!("a failed link denies the lock"),
        LockOutcome::Failed(e) => {
            assert_eq!(e, UserLibError::from("Failed to lock the file: oops"));
        }
    }
}

#[test]
fn existing_lock_verdicts() {
    let held = evaluate_existing_lock(" 4711 \u{0}\u{0}\n");
    assert_eq!(held, UserLibError::from("The file is currently locked by process 4711"));
    let damaged = evaluate_existing_lock("garbage");
    assert_eq!(damaged, UserLibError::from("Existing lock file with an invalid PID garbage"));
}

#[test]
fn append_line_keeps_single_trailing_newline() {
    assert_eq!(append_line("a:b\nc:d", "e:f"), "a:b\nc:d\ne:f\n");
    assert_eq!(append_line("a:b\n", "e:f"), "a:b\ne:f\n");
    assert_eq!(append_line("", "e:f"), "e:f\n");
}

#[test]
fn files_virtuality() {
    let all = Files {
        passwd: Some("p".to_owned()),
        shadow: Some("s".to_owned()),
        group: Some("g".to_owned()),
    };
    assert!(!all.is_virtual());
    let partial = Files { passwd: Some("p".to_owned()), shadow: None, group: None };
    assert!(partial.is_virtual());
    let none = Files { passwd: None, shadow: None, group: None };
    assert!(none.is_virtual());
    let defaults = Files::default();
    assert_eq!(defaults.passwd, Some("/etc/passwd".to_owned()));
    assert_eq!(defaults.shadow, Some("/etc/shadow".to_owned()));
    assert_eq!(defaults.group, Some("/etc/group".to_owned()));
}

#[test]
fn source_hash_detects_change() {
    let snap = umanux::userlib::hashes::SourceHash::new("alpha\nbeta\n");
    assert!(!snap.has_changed("alpha\nbeta\n"));
    assert!(snap.has_changed("alpha\nbeta\ngamma\n"));
    let all = umanux::userlib::hashes::Hashes::new("p", "s", "g");
    assert!(!all.passwd.has_changed("p"));
    assert!(all.group.has_changed("changed"));
}
