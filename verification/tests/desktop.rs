use llama_launcher::desktop::{
    autostart_desktop_entry, get_shortcut_name, shortcut_name_for, web_client_url,
};

#[test]
fn web_client_address() {
    assert_eq!(web_client_url(8080), "http://127.0.0.1:8080");
    assert_eq!(web_client_url(0), "http://127.0.0.1:0");
    assert_eq!(web_client_url(u16::MAX), "http://127.0.0.1:65535");
}

#[test]
fn shortcut_name_follows_the_locale() {
    assert_eq!(shortcut_name_for("zh-CN"), "llama.cpp 启动器");
    assert_eq!(shortcut_name_for("zh"), "llama.cpp 启动器");
    assert_eq!(shortcut_name_for("en-US"), "llama.cpp launcher");
    assert_eq!(shortcut_name_for("ZH-cn"), "llama.cpp launcher");
    assert_eq!(shortcut_name_for(""), "llama.cpp launcher");
    let name = get_shortcut_name();
    assert!(name == "llama.cpp 启动器" || name == "llama.cpp launcher");
}

#[test]
fn autostart_entry_starts_the_program_minimised() {
    assert_eq!(
        autostart_desktop_entry("/opt/launcher/llama_cpp_launcher"),
        "[Desktop Entry]\nType=Application\nName=LLama Launcher\nExec=/opt/launcher/llama_cpp_launcher --minimized\nHidden=false\nNoDisplay=false\nX-GNOME-Autostart-enabled=true\n"
    );
}

#[test]
fn shortcut_entry_names_program_and_icon() {
    assert_eq!(
        llama_launcher::desktop::shortcut_desktop_entry("llama.cpp launcher", "/opt/l/run", "/opt/l/icon.png"),
        "[Desktop Entry]\nType=Application\nName=llama.cpp launcher\nExec=/opt/l/run\nIcon=/opt/l/icon.png\nTerminal=false\n"
    );
}
