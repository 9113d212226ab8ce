use gamehub::steam_session::SessionStep;

#[test]
fn session_steps_in_page_order() {
    let titles: Vec<&str> = SessionStep::all().iter().map(|s| s.title()).collect();
    assert_eq!(
        titles,
        vec![
            "Install Steam",
            "Install Gamescope",
            "Create Gaming User (steam)",
            "Steam Auto-Start (Big Picture Mode)",
            "Gaming Optimizations"
        ]
    );
}

#[test]
fn install_steps_run_pacman() {
    assert_eq!(
        SessionStep::InstallSteam.command(),
        "pkexec pacman -S --noconfirm steam steam-native-runtime"
    );
    assert_eq!(SessionStep::InstallGamescope.command(), "pkexec pacman -S --noconfirm gamescope");
    assert_eq!(
        SessionStep::Optimize.command(),
        "pkexec pacman -S --noconfirm mangohud gamemode lib32-gamemode goverlay"
    );
    assert_eq!(SessionStep::InstallGamescope.button_label(), "Install");
    assert_eq!(SessionStep::Optimize.terminal_title(), "Gaming Optimizations");
}

#[test]
fn script_steps() {
    let user = SessionStep::CreateUser.command();
    assert!(user.starts_with("if ! id steam &>/dev/null; then pkexec useradd -m -G wheel -s /bin/bash steam"));
    assert!(user.ends_with("else echo 'User steam already exists'; fi"));
    assert_eq!(SessionStep::CreateUser.terminal_title(), "Create Gaming User");
    let auto = SessionStep::EnableAutostart.command();
    assert!(auto.contains("\nExec=/usr/bin/steam -silent -bigpicture\n"));
    assert!(auto.ends_with("EOF\necho 'Steam autostart configured'"));
    assert_eq!(SessionStep::EnableAutostart.button_label(), "Enable");
    assert_eq!(
        SessionStep::EnableAutostart.subtitle(),
        "Creates an autostart entry so Steam launches in Big Picture on login"
    );
}
