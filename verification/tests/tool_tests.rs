use gamehub::pacman::PacmanManager;
use gamehub::tool_manager::{ToolCategory, ToolManager};

fn manager(db: &str) -> ToolManager {
    ToolManager::new(PacmanManager::new(db))
}

#[test]
fn catalogue_has_eleven_tools_in_three_categories() {
    let tools = manager("").all_tools();
    assert_eq!(tools.len(), 11);
    let ids: Vec<&str> = tools.iter().map(|t| t.id.as_str()).collect();
    assert_eq!(
        ids,
        vec![
            "wine", "proton-ge-custom-bin", "wine-ge-custom", "winetricks", "mangohud", "gamemode",
            "goverlay", "corectrl", "discord", "obs-studio", "protonup-qt"
        ]
    );
    assert!(tools.iter().all(|t| t.category != ToolCategory::ChaoticAur));
    assert_eq!(tools.iter().filter(|t| t.category == ToolCategory::WineCompatibility).count(), 4);
    assert_eq!(tools.iter().filter(|t| t.category == ToolCategory::Performance).count(), 4);
    assert_eq!(tools.iter().filter(|t| t.category == ToolCategory::Additional).count(), 3);
}

#[test]
fn tool_commands_by_id() {
    let m = manager("");
    assert_eq!(m.install_command("wine"), Some("pkexec pacman -S --noconfirm wine".to_string()));
    assert_eq!(
        m.remove_command("obs-studio"),
        Some("pkexec pacman -Rns --noconfirm obs-studio".to_string())
    );
    assert_eq!(m.install_command("no-such-tool"), None);
    assert_eq!(m.remove_command("no-such-tool"), None);
}

#[test]
fn tool_installed_state_and_version() {
    let m = manager("mangohud 0.7.2-1\ngoverlay 1.1-1\nsome-pkg 3\n");
    assert!(m.is_installed("mangohud"));
    assert!(!m.is_installed("gamemode"));
    assert!(m.is_installed("some-pkg"));
    assert_eq!(m.get_version("mangohud"), Some("0.7.2-1".to_string()));
    assert_eq!(m.get_version("gamemode"), None);
    assert_eq!(m.get_version("some-pkg"), None);
}

#[test]
fn installed_tools_by_category() {
    let m = manager("goverlay 1\nmangohud 2\ndiscord 3\n");
    let perf: Vec<String> = m
        .get_installed_by_category(&ToolCategory::Performance)
        .into_iter()
        .map(|t| t.id)
        .collect();
    assert_eq!(perf, vec!["mangohud".to_string(), "goverlay".to_string()]);
    let add = m.get_installed_by_category(&ToolCategory::Additional);
    assert_eq!(add.len(), 1);
    assert_eq!(add[0].name, "Discord");
    assert!(m.get_installed_by_category(&ToolCategory::WineCompatibility).is_empty());
    assert!(m.get_installed_by_category(&ToolCategory::ChaoticAur).is_empty());
}

#[test]
fn tool_manager_chaotic_aur() {
    assert!(manager("chaotic-mirrorlist 1\n").check_chaotic_aur(None));
    assert!(!manager("").check_chaotic_aur(Some("")));
}

#[test]
fn categories_split_installed_tools() {
    let m = manager("wine 1\nwinetricks 2\ngamemode 3\ncorectrl 4\nobs-studio 5\nprotonup-qt 6\n");
    let mut listed: Vec<String> = Vec::new();
    for c in [ToolCategory::WineCompatibility, ToolCategory::Performance, ToolCategory::Additional] {
        for t in m.get_installed_by_category(&c) {
            assert!(!listed.contains(&t.id));
            listed.push(t.id);
        }
    }
    let installed: Vec<String> =
        m.all_tools().into_iter().filter(|t| m.is_installed(&t.id)).map(|t| t.id).collect();
    listed.sort();
    let mut expected = installed.clone();
    expected.sort();
    assert_eq!(listed, expected);
    assert_eq!(installed.len(), 6);
}

#[test]
fn tool_provided_by_another_package_is_installed() {
    let info = [
        "Name            : wine-staging",
        "Version         : 9.0-1",
        "Provides        : wine=9.0",
        "",
    ]
    .join("\n");
    let m = ToolManager::new(PacmanManager::from_info(&info));
    assert!(m.is_installed("wine"));
    assert_eq!(m.get_version("wine"), Some("9.0-1".to_string()));
    assert!(!m.is_installed("winetricks"));
}
