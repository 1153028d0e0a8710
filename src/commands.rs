//! Results handed to the presentation layer, and the desktop-shortcut script.

use vstd::prelude::*;
use crate::lcu::LockfileData;
use crate::text::{chars_of, string_from_chars, trim, trim_range};

verus! {

/// Connection status for the presentation layer: the port only, never the
/// credential.
#[derive(Debug, Clone)]
pub struct LcuConnectionResult {
    pub ok: bool,
    pub port: Option<u16>,
    pub error: Option<String>,
}

/// Outcome of creating the desktop shortcut.
#[derive(Debug, Clone)]
pub struct ShortcutResult {
    pub ok: bool,
    pub message: String,
}

/// Strips the credential from a discovery outcome.
pub fn get_lcu_connection(found: Result<LockfileData, String>) -> (r: LcuConnectionResult)
    ensures
        found is Ok ==> r.ok && r.port == Some(found->Ok_0.port) && r.error is None,
        found is Err ==> !r.ok && r.port is None && (r.error matches Some(e) && e@
            == found->Err_0@),
{
    match found {
        Ok(data) => LcuConnectionResult { ok: true, port: Some(data.port), error: None },
        Err(e) => LcuConnectionResult { ok: false, port: None, error: Some(e) },
    }
}

/// `s` with every single quote doubled, as a PowerShell single-quoted string needs.
pub open spec fn ps_escaped(s: Seq<char>) -> Seq<char>
    decreases s.len(),
{
    if s.len() == 0 {
        seq![]
    } else if s.last() == '\'' {
        ps_escaped(s.drop_last()).push('\'').push('\'')
    } else {
        ps_escaped(s.drop_last()).push(s.last())
    }
}

/// Doubles every single quote of `input`.
pub fn ps_escape_single_quoted(input: &str) -> (r: String)
    ensures
        r@ == ps_escaped(input@),
{
    let cs = chars_of(input);
    let mut out: Vec<char> = Vec::new();
    let mut k: usize = 0;
    assert(cs@.subrange(0, 0) =~= seq![]);
    while k < cs.len()
        invariant
            k <= cs@.len(),
            out@ == ps_escaped(cs@.subrange(0, k as int)),
        decreases cs@.len() - k,
    {
        assert(cs@.subrange(0, k + 1).drop_last() =~= cs@.subrange(0, k as int));
        if cs[k] == '\'' {
            out.push('\'');
            out.push('\'');
        } else {
            out.push(cs[k]);
        }
        k = k + 1;
    }
    assert(cs@.subrange(0, k as int) =~= input@);
    string_from_chars(out.as_slice())
}

/// The PowerShell script that creates the desktop shortcut to `exe`, started
/// in `working_dir`.
pub open spec fn shortcut_script_spec(exe: Seq<char>, working_dir: Seq<char>) -> Seq<char> {
    "$desktop = [Environment]::GetFolderPath('Desktop'); $shortcutPath = Join-Path $desktop '"@
        + ps_escaped("Lelanation Companion.lnk"@)
        + "'; $wsh = New-Object -ComObject WScript.Shell; $s = $wsh.CreateShortcut($shortcutPath); $s.TargetPath = '"@
        + ps_escaped(exe) + "'; $s.WorkingDirectory = '"@ + ps_escaped(working_dir)
        + "'; $s.IconLocation = '"@ + ps_escaped(exe + ",0"@)
        + "'; $s.Description = 'Lelanation Companion'; $s.Save();"@
}

/// Builds the shortcut script, every interpolated value escaped.
pub fn shortcut_script(exe: &str, working_dir: &str) -> (r: String)
    ensures
        r@ == shortcut_script_spec(exe@, working_dir@),
{
    let mut icon = String::from_str(exe);
    icon.append(",0");
    let mut out = String::from_str(
        "$desktop = [Environment]::GetFolderPath('Desktop'); $shortcutPath = Join-Path $desktop '",
    );
    let name = ps_escape_single_quoted("Lelanation Companion.lnk");
    out.append(name.as_str());
    out.append(
        "'; $wsh = New-Object -ComObject WScript.Shell; $s = $wsh.CreateShortcut($shortcutPath); $s.TargetPath = '",
    );
    let target = ps_escape_single_quoted(exe);
    out.append(target.as_str());
    out.append("'; $s.WorkingDirectory = '");
    let dir = ps_escape_single_quoted(working_dir);
    out.append(dir.as_str());
    out.append("'; $s.IconLocation = '");
    let icon_escaped = ps_escape_single_quoted(icon.as_str());
    out.append(icon_escaped.as_str());
    out.append("'; $s.Description = 'Lelanation Companion'; $s.Save();");
    out
}

/// The outcome of running the shortcut script, from its exit status and
/// its error output.
pub open spec fn shortcut_outcome_spec(success: bool, stderr: Seq<char>) -> Result<
    Seq<char>,
    Seq<char>,
> {
    if success {
        Ok("Desktop shortcut created."@)
    } else if trim(stderr).len() == 0 {
        Err("PowerShell failed while creating desktop shortcut."@)
    } else {
        Err("PowerShell error: "@ + trim(stderr))
    }
}

/// Reports the outcome of running the shortcut script.
pub fn shortcut_outcome(success: bool, stderr: &str) -> (r: Result<ShortcutResult, String>)
    ensures
        match r {
            Ok(s) => s.ok && shortcut_outcome_spec(success, stderr@) == Ok::<
                Seq<char>,
                Seq<char>,
            >(s.message@),
            Err(e) => shortcut_outcome_spec(success, stderr@) == Err::<Seq<char>, Seq<char>>(e@),
        },
{
    if success {
        return Ok(
            ShortcutResult { ok: true, message: String::from_str("Desktop shortcut created.") },
        );
    }
    let cs = chars_of(stderr);
    assert(cs@.subrange(0, cs@.len() as int) =~= cs@);
    let (a, b) = trim_range(&cs, 0, cs.len());
    if a == b {
        Err(String::from_str("PowerShell failed while creating desktop shortcut."))
    } else {
        let mut msg = String::from_str("PowerShell error: ");
        msg.append(stderr.substring_char(a, b));
        Err(msg)
    }
}

} // verus!
