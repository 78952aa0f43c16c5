use legion::install_steps::{command_failure, installer_failure, DirectoryReplacement, ReplaceAction};

#[test]
fn replacing_runtime_restores_the_previous_install_on_swap_failure() {
    let (mut replacement, action) = DirectoryReplacement::start(false, true);
    assert!(matches!(action, ReplaceAction::MoveInstalledToBackup));
    assert!(matches!(replacement.on_done(Ok(())), ReplaceAction::MoveStagedToInstalled));
    assert!(matches!(
        replacement.on_done(Err("busy".to_owned())),
        ReplaceAction::RestoreBackup
    ));
    match replacement.on_done(Ok(())) {
        ReplaceAction::Done(Err(e)) => assert_eq!(e, "Could not install Ollama: busy"),
        _ => panic!("the failed swap is reported"),
    }
}

#[test]
fn removes_old_backups_and_copies_around_a_successful_swap() {
    let (mut replacement, action) = DirectoryReplacement::start(true, true);
    assert!(matches!(action, ReplaceAction::RemoveBackup));
    assert!(matches!(replacement.on_done(Ok(())), ReplaceAction::MoveInstalledToBackup));
    assert!(matches!(replacement.on_done(Ok(())), ReplaceAction::MoveStagedToInstalled));
    assert!(matches!(replacement.on_done(Ok(())), ReplaceAction::RemoveOldCopy));
    assert!(matches!(replacement.on_done(Ok(())), ReplaceAction::Done(Ok(()))));

    let (mut fresh, action) = DirectoryReplacement::start(false, false);
    assert!(matches!(action, ReplaceAction::MoveStagedToInstalled));
    match fresh.on_done(Err("denied".to_owned())) {
        ReplaceAction::Done(Err(e)) => assert_eq!(e, "Could not install Ollama: denied"),
        _ => panic!("nothing to restore"),
    }
}

#[test]
fn reports_a_failed_restore_too() {
    let (mut replacement, _) = DirectoryReplacement::start(false, true);
    replacement.on_done(Ok(()));
    replacement.on_done(Err("busy".to_owned()));
    match replacement.on_done(Err("gone".to_owned())) {
        ReplaceAction::Done(Err(e)) => assert_eq!(
            e,
            "Could not install Ollama: busy; restoring the previous install also failed: gone"
        ),
        _ => panic!("both failures are reported"),
    }
}

#[test]
fn names_exit_statuses() {
    assert_eq!(
        command_failure("Could not extract", Some(2)),
        "Could not extract: process exited with status 2."
    );
    assert_eq!(
        command_failure("Could not extract", None),
        "Could not extract: process exited with status without an exit code."
    );
    assert_eq!(
        installer_failure(Some(-5)),
        "The Ollama installer exited with status -5."
    );
}
