use gamehub::launcher_manager::{
    is_svg_data, strip_language_fallbacks, IconAction, IconEvent, IconStage, LauncherManager,
};
use gamehub::pacman::PacmanManager;

fn manager(db: &str, home: &str) -> LauncherManager {
    LauncherManager::new(PacmanManager::new(db), home)
}

#[test]
fn catalogue_has_five_launchers() {
    let ls = manager("", "/home/u").all_launchers();
    let names: Vec<&str> = ls.iter().map(|l| l.name).collect();
    assert_eq!(names, vec!["Steam", "Lutris", "Heroic Games Launcher", "Bottles", "Minigalaxy"]);
    assert_eq!(ls[0].packages, &["steam", "steam-native-runtime"]);
    assert_eq!(ls[2].command, "heroic");
}

#[test]
fn launcher_commands_by_id() {
    let m = manager("", "/home/u");
    assert_eq!(
        m.install_command("steam"),
        Some("pkexec pacman -S --noconfirm steam steam-native-runtime".to_string())
    );
    assert_eq!(
        m.remove_command("heroic-games-launcher-bin"),
        Some("pkexec pacman -Rns --noconfirm heroic-games-launcher-bin".to_string())
    );
    assert_eq!(m.install_command("heroic"), None);
}

#[test]
fn launcher_installed_by_first_package() {
    let m = manager("steam-native-runtime 1\nlutris 0.5.17-1\n", "/home/u");
    assert!(!m.is_installed("steam"));
    assert!(m.is_installed("lutris"));
    assert_eq!(m.get_version("lutris"), Some("0.5.17-1".to_string()));
    let installed: Vec<String> = m.get_installed().into_iter().map(|l| l.id).collect();
    assert_eq!(installed, vec!["lutris".to_string()]);
}

#[test]
fn icon_cache_dir_under_home() {
    assert_eq!(manager("", "/home/u").icon_cache_dir(), "/home/u/.local/share/gamehub/icons");
    assert_eq!(manager("", "/home/u/").icon_cache_dir(), "/home/u/.local/share/gamehub/icons");
    assert_eq!(manager("", "").icon_cache_dir(), ".local/share/gamehub/icons");
}

fn finish(a: IconAction) -> (Option<String>, Option<String>) {
    match a {
        IconAction::Finish { icon, discard } => (icon, discard),
        _ => panic!("expected the fetch to finish"),
    }
}

#[test]
fn icon_fetch_uses_cached_icon() {
    let m = manager("", "/home/u");
    let info = &m.all_launchers()[1];
    let mut f = m.icon_fetch(info);
    match f.step(IconEvent::Begin) {
        IconAction::CheckIcon { path } => assert_eq!(path, "/home/u/.local/share/gamehub/icons/lutris.png"),
        _ => panic!("expected a check"),
    }
    let (icon, discard) = finish(f.step(IconEvent::Existing(true)));
    assert_eq!(icon, Some("/home/u/.local/share/gamehub/icons/lutris.png".to_string()));
    assert_eq!(discard, None);
    assert_eq!(f.stage(), IconStage::Finished);
}

#[test]
fn icon_fetch_failed_download_discards_temp() {
    let m = manager("", "/home/u");
    let info = &m.all_launchers()[1];
    let mut f = m.icon_fetch(info);
    f.step(IconEvent::Begin);
    match f.step(IconEvent::Existing(false)) {
        IconAction::Download { url, dest } => {
            assert_eq!(url, info.icon_url);
            assert_eq!(dest, "/home/u/.local/share/gamehub/icons/lutris.tmp");
        }
        _ => panic!("expected a download"),
    }
    let (icon, discard) = finish(f.step(IconEvent::Downloaded { success: false, tmp_exists: true }));
    assert_eq!(icon, None);
    assert_eq!(discard, Some("/home/u/.local/share/gamehub/icons/lutris.tmp".to_string()));
}

#[test]
fn icon_fetch_converts_svg() {
    let m = manager("", "/h");
    let info = &m.all_launchers()[0];
    let mut f = m.icon_fetch(info);
    f.step(IconEvent::Begin);
    f.step(IconEvent::Existing(false));
    f.step(IconEvent::Downloaded { success: true, tmp_exists: true });
    match f.step(IconEvent::TempRead(Some(b"<svg xmlns=\"http://www.w3.org/2000/svg\"/>".to_vec()))) {
        IconAction::ConvertSvg { src, dest } => {
            assert_eq!(src, "/h/.local/share/gamehub/icons/steam.tmp");
            assert_eq!(dest, "/h/.local/share/gamehub/icons/steam.png");
        }
        _ => panic!("expected a conversion"),
    }
    let (icon, _) = finish(f.step(IconEvent::Converted { success: false, icon_exists: true }));
    assert_eq!(icon, None);
}

#[test]
fn icon_fetch_moves_png_into_place() {
    let m = manager("", "/h");
    let info = &m.all_launchers()[4];
    let mut f = m.icon_fetch(info);
    f.step(IconEvent::Begin);
    f.step(IconEvent::Existing(false));
    f.step(IconEvent::Downloaded { success: true, tmp_exists: true });
    match f.step(IconEvent::TempRead(Some(vec![0x89, b'P', b'N', b'G']))) {
        IconAction::MoveIntoPlace { src, dest } => {
            assert_eq!(src, "/h/.local/share/gamehub/icons/minigalaxy.tmp");
            assert_eq!(dest, "/h/.local/share/gamehub/icons/minigalaxy.png");
        }
        _ => panic!("expected a move"),
    }
    let (icon, _) = finish(f.step(IconEvent::Moved { icon_exists: true }));
    assert_eq!(icon, Some("/h/.local/share/gamehub/icons/minigalaxy.png".to_string()));
}

#[test]
fn icon_fetch_unreadable_temp_is_moved() {
    let m = manager("", "/h");
    let info = &m.all_launchers()[4];
    let mut f = m.icon_fetch(info);
    f.step(IconEvent::Begin);
    f.step(IconEvent::Existing(false));
    f.step(IconEvent::Downloaded { success: true, tmp_exists: true });
    assert!(matches!(f.step(IconEvent::TempRead(None)), IconAction::MoveIntoPlace { .. }));
}

#[test]
fn icon_fetch_out_of_order_event_finishes_empty() {
    let m = manager("", "/h");
    let info = &m.all_launchers()[0];
    let mut f = m.icon_fetch(info);
    let (icon, discard) = finish(f.step(IconEvent::Moved { icon_exists: true }));
    assert_eq!(icon, None);
    assert_eq!(discard, None);
}

#[test]
fn svg_signatures() {
    assert!(is_svg_data(&b"<svg>".to_vec()));
    assert!(is_svg_data(&b"<?xml version=\"1.0\"?>".to_vec()));
    assert!(!is_svg_data(&b"<sv".to_vec()));
    assert!(!is_svg_data(&b" <svg".to_vec()));
    assert!(!is_svg_data(&Vec::new()));
}

#[test]
fn language_fallbacks_are_stripped() {
    assert_eq!(strip_language_fallbacks("fa:en_US:en"), "fa");
    assert_eq!(strip_language_fallbacks("de_DE"), "de_DE");
    assert_eq!(strip_language_fallbacks(""), "");
    assert_eq!(strip_language_fallbacks(":en"), "");
}
