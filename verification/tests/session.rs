//! The session of the user and the commands of the actions.

use mouse_clipboard::intercept::Action;
use mouse_clipboard::outcome::DispatchOutcome;
use mouse_clipboard::session::{
    invocation, judge, EnvSnapshot, ProcessReport, SessionEnvironment,
};

fn text(value: &str) -> Option<String> {
    Some(value.to_string())
}

fn nothing() -> EnvSnapshot {
    EnvSnapshot {
        dbus_address: None,
        display: None,
        xauthority: None,
        sudo_user: None,
        sudo_uid: None,
    }
}

fn pairs(session: &SessionEnvironment, action: Action) -> Vec<(String, String)> {
    invocation(action, session)
        .env
        .into_iter()
        .map(|entry| (entry.name, entry.value))
        .collect()
}

#[test]
fn session_of_a_plain_login() {
    let session = SessionEnvironment::resolve(EnvSnapshot {
        dbus_address: text("unix:path=/run/user/1000/bus"),
        display: text(":1"),
        xauthority: text("/run/user/1000/xauth_abc"),
        sudo_user: None,
        sudo_uid: None,
    });
    assert_eq!(session.dbus_address, text("unix:path=/run/user/1000/bus"));
    assert_eq!(session.display, text(":1"));
    assert_eq!(session.xauthority, text("/run/user/1000/xauth_abc"));
    assert_eq!(session.real_user, None);
}

#[test]
fn session_under_sudo() {
    let session = SessionEnvironment::resolve(EnvSnapshot {
        dbus_address: None,
        display: None,
        xauthority: None,
        sudo_user: text("ana"),
        sudo_uid: text("1001"),
    });
    assert_eq!(session.dbus_address, text("unix:path=/run/user/1001/bus"));
    assert_eq!(session.display, text(":0"));
    assert_eq!(session.xauthority, text("/home/ana/.Xauthority"));
    assert_eq!(session.real_user, text("ana"));
}

#[test]
fn what_is_set_wins_over_what_sudo_tells() {
    let session = SessionEnvironment::resolve(EnvSnapshot {
        dbus_address: text("unix:abstract=/tmp/dbus-1"),
        display: text(":7"),
        xauthority: text("/root/.Xauthority"),
        sudo_user: text("ana"),
        sudo_uid: text("1001"),
    });
    assert_eq!(session.dbus_address, text("unix:abstract=/tmp/dbus-1"));
    assert_eq!(session.display, text(":7"));
    assert_eq!(session.xauthority, text("/root/.Xauthority"));
    assert_eq!(session.real_user, text("ana"));
}

#[test]
fn session_with_nothing_to_go_by() {
    let session = SessionEnvironment::resolve(nothing());
    assert_eq!(session.dbus_address, None);
    assert_eq!(session.display, text(":0"));
    assert_eq!(session.xauthority, None);
    assert_eq!(session.real_user, None);
}

#[test]
fn each_fallback_goes_by_its_own_variable() {
    let mut snapshot = nothing();
    snapshot.sudo_uid = text("0");
    let session = SessionEnvironment::resolve(snapshot);
    assert_eq!(session.dbus_address, text("unix:path=/run/user/0/bus"));
    assert_eq!(session.xauthority, None);

    let mut snapshot = nothing();
    snapshot.sudo_user = text("");
    let session = SessionEnvironment::resolve(snapshot);
    assert_eq!(session.dbus_address, None);
    assert_eq!(session.xauthority, text("/home//.Xauthority"));
    assert_eq!(session.real_user, text(""));
}

#[test]
fn copying_presses_the_keys_in_the_own_environment() {
    let session = SessionEnvironment::resolve(EnvSnapshot {
        dbus_address: text("bus"),
        display: text(":1"),
        xauthority: text("file"),
        sudo_user: None,
        sudo_uid: None,
    });
    let command = invocation(Action::Copy, &session);
    assert_eq!(command.program, "xdotool");
    assert_eq!(command.args, vec!["key", "ctrl+c"]);
    assert!(command.env.is_empty());
}

#[test]
fn the_panel_is_shown_in_the_session_of_the_user() {
    let session = SessionEnvironment::resolve(EnvSnapshot {
        dbus_address: None,
        display: None,
        xauthority: None,
        sudo_user: text("ana"),
        sudo_uid: text("1001"),
    });
    let command = invocation(Action::ShowClipboard, &session);
    assert_eq!(command.program, "qdbus");
    assert_eq!(command.args, vec!["org.kde.klipper", "/klipper", "showKlipperPopupMenu"]);
    assert_eq!(
        pairs(&session, Action::ShowClipboard),
        vec![
            ("DBUS_SESSION_BUS_ADDRESS".to_string(), "unix:path=/run/user/1001/bus".to_string()),
            ("DISPLAY".to_string(), ":0".to_string()),
            ("XAUTHORITY".to_string(), "/home/ana/.Xauthority".to_string()),
        ]
    );
}

#[test]
fn a_variable_without_a_value_is_left_alone() {
    let session = SessionEnvironment::resolve(nothing());
    assert_eq!(
        pairs(&session, Action::ShowClipboard),
        vec![("DISPLAY".to_string(), ":0".to_string())]
    );
    let bare = SessionEnvironment {
        dbus_address: None,
        display: None,
        xauthority: text("/tmp/auth"),
        real_user: text("ana"),
    };
    assert_eq!(
        pairs(&bare, Action::ShowClipboard),
        vec![("XAUTHORITY".to_string(), "/tmp/auth".to_string())]
    );
}

#[test]
fn exit_status_zero_is_success() {
    let report = ProcessReport::Exited { success: true, stderr: "noise".to_string() };
    assert!(matches!(judge(report), DispatchOutcome::Succeeded));
    let report = ProcessReport::Exited { success: true, stderr: String::new() };
    assert!(matches!(judge(report), DispatchOutcome::Succeeded));
}

#[test]
fn anything_else_is_a_warning() {
    let report =
        ProcessReport::Exited { success: false, stderr: "Cannot find klipper".to_string() };
    match judge(report) {
        DispatchOutcome::Warning(message) => assert_eq!(message, "Cannot find klipper"),
        other => panic!("unexpected {:?}", other),
    }
    let report = ProcessReport::Exited { success: false, stderr: String::new() };
    match judge(report) {
        DispatchOutcome::Warning(message) => assert_eq!(message, ""),
        other => panic!("unexpected {:?}", other),
    }
    let report = ProcessReport::NotStarted { reason: "No such file or directory".to_string() };
    match judge(report) {
        DispatchOutcome::Warning(message) => assert_eq!(message, "No such file or directory"),
        other => panic!("unexpected {:?}", other),
    }
}
