use companion::commands::{get_lcu_connection, ps_escape_single_quoted, shortcut_outcome, shortcut_script};
use companion::lcu::LockfileData;

#[test]
fn connection_result_never_carries_the_credential() {
    let r = get_lcu_connection(Ok(LockfileData { port: 2999, password: "secret".to_string() }));
    assert!(r.ok);
    assert_eq!(r.port, Some(2999));
    assert!(r.error.is_none());
    let r = get_lcu_connection(Err("missing".to_string()));
    assert!(!r.ok);
    assert_eq!(r.port, None);
    assert_eq!(r.error.as_deref(), Some("missing"));
}

#[test]
fn single_quotes_are_doubled() {
    assert_eq!(ps_escape_single_quoted("it's"), "it''s");
    assert_eq!(ps_escape_single_quoted("''"), "''''");
    assert_eq!(ps_escape_single_quoted("plain"), "plain");
    assert_eq!(ps_escape_single_quoted(""), "");
}

#[test]
fn shortcut_script_escapes_paths() {
    let s = shortcut_script("C:\\O'Neil\\app.exe", "C:\\O'Neil");
    assert_eq!(
        s,
        "$desktop = [Environment]::GetFolderPath('Desktop'); $shortcutPath = Join-Path $desktop 'Lelanation Companion.lnk'; $wsh = New-Object -ComObject WScript.Shell; $s = $wsh.CreateShortcut($shortcutPath); $s.TargetPath = 'C:\\O''Neil\\app.exe'; $s.WorkingDirectory = 'C:\\O''Neil'; $s.IconLocation = 'C:\\O''Neil\\app.exe,0'; $s.Description = 'Lelanation Companion'; $s.Save();"
    );
}

#[test]
fn shortcut_outcomes() {
    let ok = shortcut_outcome(true, "ignored").unwrap();
    assert!(ok.ok);
    assert_eq!(ok.message, "Desktop shortcut created.");
    assert_eq!(
        shortcut_outcome(false, "  \n").unwrap_err(),
        "PowerShell failed while creating desktop shortcut."
    );
    assert_eq!(shortcut_outcome(false, " boom \r\n").unwrap_err(), "PowerShell error: boom");
}
