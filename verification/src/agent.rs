//! The launchd agent that starts the gesture engine at login.

use vstd::prelude::*;

use crate::text::{decimal, push_decimal};

verus! {

/// The label of the launchd agent.
pub const LAUNCH_AGENT_LABEL: &'static str = "lt.ovi.mx-gestures";

/// Where the agent's standard output and error go.
pub const LOG_PATH: &'static str = "/tmp/mx-gestures.log";

/// The property list of the launchd agent that runs `exe`: label
/// `lt.ovi.mx-gestures`, program arguments `[exe]`, run at load, kept
/// alive, standard output and error appended to `/tmp/mx-gestures.log`.
pub open spec fn launch_agent_plist_text(exe: Seq<char>) -> Seq<char> {
    "<?xml version=\"1.0\" encoding=\"UTF-8\"?>\n<!DOCTYPE plist PUBLIC \"-//Apple//DTD PLIST 1.0//EN\" \"http://www.apple.com/DTDs/PropertyList-1.0.dtd\">\n<plist version=\"1.0\">\n<dict>\n    <key>Label</key><string>lt.ovi.mx-gestures</string>\n    <key>ProgramArguments</key>\n    <array><string>"@
        + exe
        + "</string></array>\n    <key>RunAtLoad</key><true/>\n    <key>KeepAlive</key><true/>\n    <key>StandardOutPath</key><string>/tmp/mx-gestures.log</string>\n    <key>StandardErrorPath</key><string>/tmp/mx-gestures.log</string>\n</dict>\n</plist>\n"@
}

/// The property list of the launchd agent that runs the executable `exe`.
pub fn launch_agent_plist(exe: &str) -> (s: String)
    ensures
        s@ == launch_agent_plist_text(exe@),
{
    let mut s = String::from_str(
        "<?xml version=\"1.0\" encoding=\"UTF-8\"?>\n<!DOCTYPE plist PUBLIC \"-//Apple//DTD PLIST 1.0//EN\" \"http://www.apple.com/DTDs/PropertyList-1.0.dtd\">\n<plist version=\"1.0\">\n<dict>\n    <key>Label</key><string>lt.ovi.mx-gestures</string>\n    <key>ProgramArguments</key>\n    <array><string>",
    );
    s.append(exe);
    s.append(
        "</string></array>\n    <key>RunAtLoad</key><true/>\n    <key>KeepAlive</key><true/>\n    <key>StandardOutPath</key><string>/tmp/mx-gestures.log</string>\n    <key>StandardErrorPath</key><string>/tmp/mx-gestures.log</string>\n</dict>\n</plist>\n",
    );
    s
}

/// The launchctl domain of a user's GUI session: `gui/<uid>`.
pub fn launchctl_domain(uid: u32) -> (s: String)
    ensures
        s@ == "gui/"@ + decimal(uid as nat),
{
    let mut s = String::from_str("gui/");
    push_decimal(&mut s, uid);
    s
}

} // verus!
