use gamehub::pacman::PacmanManager;

fn strings(v: &[&str]) -> Vec<String> {
    v.iter().map(|s| s.to_string()).collect()
}

#[test]
fn install_command_joins_packages() {
    assert_eq!(
        PacmanManager::install_command(&strings(&["steam", "steam-native-runtime"])),
        "pkexec pacman -S --noconfirm steam steam-native-runtime"
    );
}

#[test]
fn remove_command_single_package() {
    assert_eq!(
        PacmanManager::remove_command(&strings(&["wine"])),
        "pkexec pacman -Rns --noconfirm wine"
    );
}

#[test]
fn install_command_without_packages() {
    assert_eq!(PacmanManager::install_command(&[]), "pkexec pacman -S --noconfirm ");
}

#[test]
fn query_output_is_read_line_by_line() {
    let pm = PacmanManager::new("wine 9.0-1\nsteam 1.0.0.81-2\n\n   \nlonely\r\nmangohud 0.7.2-1\r\n");
    assert!(pm.is_installed("wine"));
    assert!(pm.is_installed("steam"));
    assert!(pm.is_installed("lonely"));
    assert!(pm.is_installed("mangohud"));
    assert!(!pm.is_installed("gamemode"));
    assert!(!pm.is_installed("win"));
    assert_eq!(pm.get_package_version("wine"), Some("9.0-1".to_string()));
    assert_eq!(pm.get_package_version("mangohud"), Some("0.7.2-1".to_string()));
    assert_eq!(pm.get_package_version("lonely"), None);
    assert_eq!(pm.get_package_version("gamemode"), None);
    assert_eq!(
        pm.get_installed_packages(),
        strings(&["wine", "steam", "lonely", "mangohud"])
    );
}

#[test]
fn empty_query_output_knows_no_package() {
    let pm = PacmanManager::new("");
    assert!(!pm.is_installed("wine"));
    assert!(pm.get_installed_packages().is_empty());
}

#[test]
fn first_listing_of_a_name_wins() {
    let pm = PacmanManager::new("wine 1\nwine 2\n");
    assert_eq!(pm.get_package_version("wine"), Some("1".to_string()));
}

#[test]
fn chaotic_aur_from_mirrorlist_or_config() {
    let with_pkg = PacmanManager::new("chaotic-mirrorlist 20240101-1\n");
    assert!(with_pkg.check_chaotic_aur(None));
    let without = PacmanManager::new("wine 9\n");
    assert!(!without.check_chaotic_aur(None));
    assert!(without.check_chaotic_aur(Some("[options]\n[chaotic-aur]\nInclude = /etc/pacman.d/chaotic-mirrorlist\n")));
    assert!(!without.check_chaotic_aur(Some("[core]\nInclude = /etc/pacman.d/mirrorlist\n")));
}

fn qi() -> String {
    [
        "Name            : wine-staging",
        "Version         : 9.0-1",
        "Description     : A compatibility layer: staging",
        "Provides        : wine=9.0  libwine.so=1-64",
        "Optional Deps   : ",
        "                  Name: not a field",
        "",
        "Name            : wine",
        "Version         : 8.0-2",
        "Provides        : None",
        "",
        "Name            : bash",
        "Version         : 5.2.026-2",
        "Provides        : sh",
        "",
    ]
    .join("\n")
}

#[test]
fn info_output_gives_names_versions_and_provisions() {
    let pm = PacmanManager::from_info(&qi());
    assert_eq!(pm.get_installed_packages(), strings(&["wine-staging", "wine", "bash"]));
    assert_eq!(pm.get_package_version("wine-staging"), Some("9.0-1".to_string()));
    assert_eq!(pm.get_package_version("bash"), Some("5.2.026-2".to_string()));
    assert!(!pm.is_installed("None"));
    assert!(!pm.is_installed("Name: not a field"));
}

#[test]
fn own_name_wins_over_provision() {
    let pm = PacmanManager::from_info(&qi());
    assert_eq!(pm.get_package_version("wine"), Some("8.0-2".to_string()));
}

#[test]
fn provided_name_is_answered_by_its_provider() {
    let pm = PacmanManager::from_info(&qi());
    assert!(pm.is_installed("sh"));
    assert_eq!(pm.get_package_version("sh"), Some("5.2.026-2".to_string()));
    assert!(pm.is_installed("libwine.so"));
    assert_eq!(pm.get_package_version("libwine.so"), Some("9.0-1".to_string()));
    assert!(!pm.is_installed("libwine.so=1-64"));
    assert!(!pm.is_installed("zsh"));
}

#[test]
fn empty_info_output_knows_no_package() {
    let pm = PacmanManager::from_info("");
    assert!(!pm.is_installed("bash"));
    assert!(pm.get_installed_packages().is_empty());
}

#[test]
fn command_words_are_prefix_then_packages() {
    let pkgs = strings(&["steam", "lib32-mesa", "gamemode"]);
    let cmd = PacmanManager::install_command(&pkgs);
    let words: Vec<&str> = cmd.split_whitespace().collect();
    assert_eq!(words, vec!["pkexec", "pacman", "-S", "--noconfirm", "steam", "lib32-mesa", "gamemode"]);
    let cmd = PacmanManager::remove_command(&pkgs);
    let words: Vec<&str> = cmd.split_whitespace().skip(4).collect();
    assert_eq!(words, vec!["steam", "lib32-mesa", "gamemode"]);
}
