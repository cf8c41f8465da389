//! Pure helpers for the host launcher that embeds the engine.
//!
//! The launcher around the meter keeps a settings file, a single-instance
//! lock file, and a tray whose labels reflect service state.  The reading,
//! writing and removal of those files is the host's; what is decided here is
//! pure -- which paths to use and which label to show -- and verified.
//! Paths are rendered with `/` separators, as the host's path joins produce
//! on the platforms that use the lock file.

use vstd::prelude::*;

verus! {

/// Path of the launcher's settings file, next to the working directory.
pub fn launcher_settings_path() -> (path: String)
    ensures
        path@ == "./launcher_settings.json"@,
{
    String::from_str("./launcher_settings.json")
}

/// Display label for a service status: a running service is labelled
/// distinctly, any other status shows as stopped.
pub fn status_display(status: &str) -> (label: &'static str)
    ensures
        status@ == "Running"@ ==> label@ == "运行中"@,
        status@ != "Running"@ ==> label@ == "已停止"@,
{
    let s = String::from_str(status);
    let running = String::from_str("Running");
    if s == running {
        "运行中"
    } else {
        "已停止"
    }
}

/// Path of the single-instance lock file the host must remove on exit,
/// chosen from the home directory if the host found one, else from the
/// temporary directory if it found that, else the working directory.
pub fn cleanup_lock_file(home: Option<String>, temp: Option<String>) -> (path: String)
    ensures
        home matches Some(h) ==> path@ == h@ + "/.config/webplayer_launcher/launcher.lock"@,
        home is None ==> (temp matches Some(t) ==> path@ == t@ + "/launcher.lock"@),
        home is None && temp is None ==> path@ == "./launcher.lock"@,
{
    match home {
        Some(h) => h.concat("/.config/webplayer_launcher/launcher.lock"),
        None => match temp {
            Some(t) => t.concat("/launcher.lock"),
            None => String::from_str("./launcher.lock"),
        },
    }
}

} // verus!
