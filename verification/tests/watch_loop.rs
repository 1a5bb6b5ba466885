use asset_manifest::watch::{respond, WatchAction, WatchEvent};

#[test]
fn change_notification_triggers_one_regeneration() {
    assert_eq!(respond(WatchEvent::Changed), WatchAction::Regenerate);
}

#[test]
fn subsystem_error_is_logged_and_the_loop_continues() {
    assert_eq!(respond(WatchEvent::SubsystemError), WatchAction::LogAndContinue);
}
