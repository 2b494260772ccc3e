//! Small pieces of the desktop integration: the web client address, the shortcut name
//! and the autostart entry.
use vstd::prelude::*;

use crate::text::{decimal, push_decimal, starts_with_seq, str_starts_with};

verus! {

/// The address of the server's web client on this machine, for the port `port`.
pub fn web_client_url(port: u16) -> (url: String)
    ensures
        url@ == "http://127.0.0.1:"@ + decimal(port as nat),
{
    let mut url = String::from_str("http://127.0.0.1:");
    push_decimal(&mut url, port as u64);
    url
}

/// The name of the desktop shortcut for the locale `locale`: the Chinese name for a locale
/// that starts with `zh`, the English one otherwise.
pub fn shortcut_name_for(locale: &str) -> (name: &'static str)
    ensures
        name@ == (if starts_with_seq(locale@, "zh"@) {
            "llama.cpp 启动器"@
        } else {
            "llama.cpp launcher"@
        }),
{
    if str_starts_with(locale, "zh") {
        "llama.cpp 启动器"
    } else {
        "llama.cpp launcher"
    }
}

/// Calls `sys_locale::get_locale`, which reads the user's locale from the system (such as
/// `zh-CN` or `en-US`), or gives `None` where the system names none. Nothing is stated of
/// the result: it depends on the machine it runs on.
#[verifier::external_body]
fn system_locale() -> (locale: Option<String>) {
    sys_locale::get_locale()
}

/// The name of the desktop shortcut for the user's locale (an empty locale where the
/// system names none).
pub fn get_shortcut_name() -> (name: &'static str)
    ensures
        name@ == "llama.cpp 启动器"@ || name@ == "llama.cpp launcher"@,
{
    match system_locale() {
        Some(locale) => shortcut_name_for(locale.as_str()),
        None => shortcut_name_for(""),
    }
}

/// The first lines of the autostart entry, up to the program's path.
pub open spec fn autostart_head() -> Seq<char> {
    "[Desktop Entry]\nType=Application\nName=LLama Launcher\nExec="@
}

/// The rest of the autostart entry, after the program's path.
pub open spec fn autostart_tail() -> Seq<char> {
    " --minimized\nHidden=false\nNoDisplay=false\nX-GNOME-Autostart-enabled=true\n"@
}

/// The XDG autostart entry that starts the program at `exe` minimised at login.
pub fn autostart_desktop_entry(exe: &str) -> (entry: String)
    ensures
        entry@ == autostart_head() + exe@ + autostart_tail(),
{
    let mut entry = String::from_str("[Desktop Entry]\nType=Application\nName=LLama Launcher\nExec=");
    entry.append(exe);
    entry.append(" --minimized\nHidden=false\nNoDisplay=false\nX-GNOME-Autostart-enabled=true\n");
    entry
}

/// The desktop entry of the Linux desktop shortcut: the program at `exe`, shown as `name`
/// with the icon at `icon`.
pub fn shortcut_desktop_entry(name: &str, exe: &str, icon: &str) -> (entry: String)
    ensures
        entry@ == "[Desktop Entry]\nType=Application\nName="@ + name@ + "\nExec="@ + exe@
            + "\nIcon="@ + icon@ + "\nTerminal=false\n"@,
{
    let mut entry = String::from_str("[Desktop Entry]\nType=Application\nName=");
    entry.append(name);
    entry.append("\nExec=");
    entry.append(exe);
    entry.append("\nIcon=");
    entry.append(icon);
    entry.append("\nTerminal=false\n");
    entry
}

} // verus!
