use mx_gestures::agent::{launch_agent_plist, launchctl_domain, LAUNCH_AGENT_LABEL, LOG_PATH};

#[test]
fn plist_matches_launchd_format() {
    let exe = "/Applications/MX Gestures.app/Contents/MacOS/mx-gestures";
    let expected = format!(
        r#"<?xml version="1.0" encoding="UTF-8"?>
<!DOCTYPE plist PUBLIC "-//Apple//DTD PLIST 1.0//EN" "http://www.apple.com/DTDs/PropertyList-1.0.dtd">
<plist version="1.0">
<dict>
    <key>Label</key><string>{LAUNCH_AGENT_LABEL}</string>
    <key>ProgramArguments</key>
    <array><string>{}</string></array>
    <key>RunAtLoad</key><true/>
    <key>KeepAlive</key><true/>
    <key>StandardOutPath</key><string>{LOG_PATH}</string>
    <key>StandardErrorPath</key><string>{LOG_PATH}</string>
</dict>
</plist>
"#,
        exe
    );
    assert_eq!(launch_agent_plist(exe), expected);
    assert_eq!(LAUNCH_AGENT_LABEL, "lt.ovi.mx-gestures");
    assert_eq!(LOG_PATH, "/tmp/mx-gestures.log");
}

#[test]
fn launchctl_domains() {
    assert_eq!(launchctl_domain(501), "gui/501");
    assert_eq!(launchctl_domain(0), "gui/0");
    assert_eq!(launchctl_domain(u32::MAX), "gui/4294967295");
}
