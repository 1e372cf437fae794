//! The boundary to the action dispatcher: the session that an action is to
//! run in, the command that performs an action, and what the result of that
//! command means.
//!
//! The engine may run with elevated privilege while an action has to reach
//! the desktop session of the user who started it. So the variables that
//! lead to that session are worked out once, at startup, and handed to each
//! command that needs them.

use crate::intercept::Action;
use crate::outcome::{DispatchOutcome, DispatchOutcomeView};
use vstd::prelude::*;

verus! {

/// The mathematical value of a text that may be absent.
pub open spec fn text_of(text: Option<String>) -> Option<Seq<char>> {
    match text {
        Some(text) => Some(text@),
        None => None,
    }
}

/// What the environment of the process holds of the variables that lead to
/// the session; each is absent if it is unset or not valid text.
#[derive(Debug)]
pub struct EnvSnapshot {
    /// `DBUS_SESSION_BUS_ADDRESS`
    pub dbus_address: Option<String>,
    /// `DISPLAY`
    pub display: Option<String>,
    /// `XAUTHORITY`
    pub xauthority: Option<String>,
    /// `SUDO_USER`
    pub sudo_user: Option<String>,
    /// `SUDO_UID`
    pub sudo_uid: Option<String>,
}

/// The mathematical value of an [`EnvSnapshot`].
pub struct EnvSnapshotView {
    pub dbus_address: Option<Seq<char>>,
    pub display: Option<Seq<char>>,
    pub xauthority: Option<Seq<char>>,
    pub sudo_user: Option<Seq<char>>,
    pub sudo_uid: Option<Seq<char>>,
}

impl View for EnvSnapshot {
    type V = EnvSnapshotView;

    open spec fn view(&self) -> EnvSnapshotView {
        EnvSnapshotView {
            dbus_address: text_of(self.dbus_address),
            display: text_of(self.display),
            xauthority: text_of(self.xauthority),
            sudo_user: text_of(self.sudo_user),
            sudo_uid: text_of(self.sudo_uid),
        }
    }
}

/// The session that actions run in.
#[derive(Debug)]
pub struct SessionEnvironment {
    pub dbus_address: Option<String>,
    pub display: Option<String>,
    pub xauthority: Option<String>,
    pub real_user: Option<String>,
}

/// The mathematical value of a [`SessionEnvironment`].
pub struct SessionView {
    pub dbus_address: Option<Seq<char>>,
    pub display: Option<Seq<char>>,
    pub xauthority: Option<Seq<char>>,
    pub real_user: Option<Seq<char>>,
}

impl View for SessionEnvironment {
    type V = SessionView;

    open spec fn view(&self) -> SessionView {
        SessionView {
            dbus_address: text_of(self.dbus_address),
            display: text_of(self.display),
            xauthority: text_of(self.xauthority),
            real_user: text_of(self.real_user),
        }
    }
}

/// The session that a snapshot leads to. A bus address that is not set is
/// that of the user who called `sudo`, if there is one; the display falls
/// back to `:0`; the authority file falls back to the one in the home
/// directory of that user.
pub open spec fn resolved(snapshot: EnvSnapshotView) -> SessionView {
    SessionView {
        dbus_address: match snapshot.dbus_address {
            Some(address) => Some(address),
            None => match snapshot.sudo_uid {
                Some(uid) => Some("unix:path=/run/user/"@ + uid + "/bus"@),
                None => None,
            },
        },
        display: match snapshot.display {
            Some(display) => Some(display),
            None => Some(":0"@),
        },
        xauthority: match snapshot.xauthority {
            Some(file) => Some(file),
            None => match snapshot.sudo_user {
                Some(user) => Some("/home/"@ + user + "/.Xauthority"@),
                None => None,
            },
        },
        real_user: snapshot.sudo_user,
    }
}

/// `head`, `middle` and `tail` joined.
fn join(head: &str, middle: &str, tail: &str) -> (joined: String)
    ensures
        joined@ == head@ + middle@ + tail@,
{
    let mut joined = head.to_owned();
    joined.append(middle);
    joined.append(tail);
    joined
}

impl SessionEnvironment {
    /// Works out the session from what the environment holds.
    pub fn resolve(snapshot: EnvSnapshot) -> (session: SessionEnvironment)
        ensures
            session@ == resolved(snapshot@),
    {
        let dbus_address = match snapshot.dbus_address {
            Some(address) => Some(address),
            None => match &snapshot.sudo_uid {
                Some(uid) => Some(join("unix:path=/run/user/", uid.as_str(), "/bus")),
                None => None,
            },
        };
        let display = match snapshot.display {
            Some(display) => Some(display),
            None => Some(":0".to_owned()),
        };
        let xauthority = match snapshot.xauthority {
            Some(file) => Some(file),
            None => match &snapshot.sudo_user {
                Some(user) => Some(join("/home/", user.as_str(), "/.Xauthority")),
                None => None,
            },
        };
        SessionEnvironment { dbus_address, display, xauthority, real_user: snapshot.sudo_user }
    }
}

/// One variable that a command is started with.
#[derive(Debug)]
pub struct EnvOverride {
    pub name: String,
    pub value: String,
}

/// A command of the operating system: the program, its arguments, and the
/// variables that replace those of the engine's own environment.
#[derive(Debug)]
pub struct Invocation {
    pub program: String,
    pub args: Vec<String>,
    pub env: Vec<EnvOverride>,
}

/// The mathematical value of an [`Invocation`].
pub struct InvocationView {
    pub program: Seq<char>,
    pub args: Seq<Seq<char>>,
    pub env: Seq<(Seq<char>, Seq<char>)>,
}

/// The mathematical value of a list of variables.
pub open spec fn overrides_of(env: Seq<EnvOverride>) -> Seq<(Seq<char>, Seq<char>)> {
    env.map_values(|entry: EnvOverride| (entry.name@, entry.value@))
}

impl View for Invocation {
    type V = InvocationView;

    open spec fn view(&self) -> InvocationView {
        InvocationView {
            program: self.program@,
            args: self.args.deep_view(),
            env: overrides_of(self.env@),
        }
    }
}

/// The variable `name`, if the session has a value for it.
pub open spec fn override_for(name: Seq<char>, value: Option<Seq<char>>) -> Seq<
    (Seq<char>, Seq<char>),
> {
    match value {
        Some(value) => seq![(name, value)],
        None => Seq::empty(),
    }
}

/// The command that performs an action. Copying presses Ctrl+C through
/// `xdotool`, in the engine's own environment. The clipboard panel is shown by
/// a call to the clipboard service over the session bus, in the session of
/// the user.
pub open spec fn invocation_for(action: Action, session: SessionView) -> InvocationView {
    match action {
        Action::Copy => InvocationView {
            program: "xdotool"@,
            args: seq!["key"@, "ctrl+c"@],
            env: Seq::empty(),
        },
        Action::ShowClipboard => InvocationView {
            program: "qdbus"@,
            args: seq!["org.kde.klipper"@, "/klipper"@, "showKlipperPopupMenu"@],
            env: override_for("DBUS_SESSION_BUS_ADDRESS"@, session.dbus_address) + override_for(
                "DISPLAY"@,
                session.display,
            ) + override_for("XAUTHORITY"@, session.xauthority),
        },
    }
}

/// Adds the variable `name` to `env` if there is a value for it.
fn push_override(env: &mut Vec<EnvOverride>, name: &str, value: &Option<String>)
    ensures
        overrides_of(final(env)@) == overrides_of(old(env)@) + override_for(
            name@,
            text_of(*value),
        ),
{
    match value {
        Some(value) => {
            let entry = EnvOverride { name: name.to_owned(), value: value.clone() };
            env.push(entry);
            proof {
                assert(overrides_of(env@) =~= overrides_of(old(env)@) + seq![(name@, value@)]);
            }
        },
        None => {
            proof {
                assert(overrides_of(env@) =~= overrides_of(old(env)@) + Seq::empty());
            }
        },
    }
}

/// The command that performs `action` in `session`.
pub fn invocation(action: Action, session: &SessionEnvironment) -> (command: Invocation)
    ensures
        command@ == invocation_for(action, session@),
{
    let mut args: Vec<String> = Vec::new();
    let mut env: Vec<EnvOverride> = Vec::new();
    proof {
        assert(overrides_of(env@) =~= Seq::empty());
    }
    match action {
        Action::Copy => {
            args.push("key".to_owned());
            args.push("ctrl+c".to_owned());
            let command = Invocation { program: "xdotool".to_owned(), args, env };
            proof {
                assert(command@.args =~= invocation_for(action, session@).args);
            }
            command
        },
        Action::ShowClipboard => {
            args.push("org.kde.klipper".to_owned());
            args.push("/klipper".to_owned());
            args.push("showKlipperPopupMenu".to_owned());
            push_override(&mut env, "DBUS_SESSION_BUS_ADDRESS", &session.dbus_address);
            push_override(&mut env, "DISPLAY", &session.display);
            push_override(&mut env, "XAUTHORITY", &session.xauthority);
            let command = Invocation { program: "qdbus".to_owned(), args, env };
            proof {
                assert(command@.args =~= invocation_for(action, session@).args);
                assert(command@.env =~= invocation_for(action, session@).env);
            }
            command
        },
    }
}

/// What became of a command.
#[derive(Debug)]
pub enum ProcessReport {
    /// The command ran to its end, with exit status zero or not, and wrote
    /// this to its error stream.
    Exited { success: bool, stderr: String },
    /// The command could not be started.
    NotStarted { reason: String },
}

/// The mathematical value of a [`ProcessReport`].
pub enum ProcessReportView {
    Exited { success: bool, stderr: Seq<char> },
    NotStarted { reason: Seq<char> },
}

impl View for ProcessReport {
    type V = ProcessReportView;

    open spec fn view(&self) -> ProcessReportView {
        match self {
            ProcessReport::Exited { success, stderr } => ProcessReportView::Exited {
                success: *success,
                stderr: stderr@,
            },
            ProcessReport::NotStarted { reason } => ProcessReportView::NotStarted {
                reason: reason@,
            },
        }
    }
}

/// An action has succeeded exactly if its command exited with status zero.
/// Anything else is a warning, with what the command wrote to its error
/// stream or with the reason why it did not start.
pub open spec fn judged(report: ProcessReportView) -> DispatchOutcomeView {
    match report {
        ProcessReportView::Exited { success, stderr } => if success {
            DispatchOutcomeView::Succeeded
        } else {
            DispatchOutcomeView::Warning(stderr)
        },
        ProcessReportView::NotStarted { reason } => DispatchOutcomeView::Warning(reason),
    }
}

/// What the dispatcher reports for a command that ended as `report` says.
pub fn judge(report: ProcessReport) -> (outcome: DispatchOutcome)
    ensures
        outcome@ == judged(report@),
{
    match report {
        ProcessReport::Exited { success, stderr } => if success {
            DispatchOutcome::Succeeded
        } else {
            DispatchOutcome::Warning(stderr)
        },
        ProcessReport::NotStarted { reason } => DispatchOutcome::Warning(reason),
    }
}

} // verus!
