use gamehub::config::{Setting, SETTINGS_SCHEMA};
use gamehub::pacman::PacmanManager;
use gamehub::paths::{home_dir, join_path};
use gamehub::shell::{completion_label, shell_escape, shell_quote, wrap_command};
use gamehub::system_info::{
    dashboard_icon_path, display_name, installed_label, vulkan_label, InstalledLauncher,
    SystemInfo, SystemProbe,
};

const LSPCI: &str = "00:00.0 Host bridge: Intel Corporation Device 4660 (rev 02)\n\
00:02.0 VGA compatible controller: Intel Corporation AlderLake-S GT1 (rev 0c)\n\
01:00.0 3D controller: NVIDIA Corporation GA107M [GeForce RTX 3050 Mobile] (rev a1)\n";

#[test]
fn gpu_from_lspci() {
    let s = SystemInfo::new();
    // The text after the first colon, which lspci puts inside the slot address.
    assert_eq!(
        s.get_gpu_info(Some(LSPCI)),
        "02.0 VGA compatible controller: Intel Corporation AlderLake-S GT1 (rev 0c)"
    );
    assert_eq!(
        s.get_gpu_info(Some("3D controller: NVIDIA Corporation GA107M\n")),
        "NVIDIA Corporation GA107M"
    );
    assert_eq!(s.get_gpu_info(Some("00:00.0 Host bridge: Intel\n")), "No GPU detected");
    assert_eq!(s.get_gpu_info(Some("")), "No GPU detected");
    assert_eq!(s.get_gpu_info(None), "No GPU detected");
    assert_eq!(s.get_gpu_info(Some("VGA without colon\nx 3D: later\n")), "No GPU detected");
}

#[test]
fn driver_from_glxinfo() {
    let s = SystemInfo::new();
    let out = "name of display: :0\nOpenGL vendor string: AMD\nOpenGL renderer string: AMD Radeon RX 6600 (radeonsi, navi23, LLVM 17.0.6, DRM 3.57)  \r\nOpenGL version string: 4.6\n";
    assert_eq!(
        s.get_driver_info(Some(out)),
        "AMD Radeon RX 6600 (radeonsi, navi23, LLVM 17.0.6, DRM 3.57)"
    );
    assert_eq!(s.get_driver_info(None), "Error detecting driver (install mesa-utils?)");
    assert_eq!(s.get_driver_info(Some("nothing\n")), "Error detecting driver (install mesa-utils?)");
}

#[test]
fn whole_status() {
    let s = SystemInfo::new();
    let probe = SystemProbe {
        lspci: Some(LSPCI.to_string()),
        glxinfo: None,
        vulkaninfo_ok: true,
        pacman_conf: Some("[chaotic-aur]\n".to_string()),
    };
    let st = s.gather_all(&probe, &PacmanManager::new(""));
    assert_eq!(st.gpu, "02.0 VGA compatible controller: Intel Corporation AlderLake-S GT1 (rev 0c)");
    assert_eq!(st.driver, "Error detecting driver (install mesa-utils?)");
    assert!(st.vulkan_supported);
    assert!(st.chaotic_aur_installed);
    assert!(!s.check_chaotic_aur(&PacmanManager::new(""), None));
}

#[test]
fn launchers_on_path() {
    let s = SystemInfo::new();
    assert_eq!(s.launcher_commands(), vec!["steam", "lutris", "heroic", "bottles", "minigalaxy"]);
    let found = s.get_installed_launchers(&[true, false, true, false, true]);
    let ids: Vec<&str> = found.iter().map(|l| l.id.as_str()).collect();
    assert_eq!(ids, vec!["steam", "heroic-games-launcher-bin", "minigalaxy"]);
    assert_eq!(found[1].name, Some("Heroic Games Launcher".to_string()));
    assert_eq!(found[1].command, "heroic");
    assert_eq!(found[1].icon, None);
    assert!(s.get_installed_launchers(&[]).is_empty());
}

#[test]
fn dashboard_labels() {
    assert_eq!(vulkan_label(true), "Available");
    assert_eq!(vulkan_label(false), "Not detected");
    assert_eq!(installed_label(true), "Installed");
    assert_eq!(installed_label(false), "Not installed");
    let l = InstalledLauncher { id: "x".into(), name: None, icon: None, command: "x".into() };
    assert_eq!(display_name(&l), "Unknown");
}

#[test]
fn dashboard_icon_matches_cache() {
    assert_eq!(
        dashboard_icon_path("/home/u", "steam"),
        "/home/u/.local/share/gamehub/icons/steam.png"
    );
    let lm = gamehub::launcher_manager::LauncherManager::new(PacmanManager::new(""), "/home/u/");
    assert_eq!(
        join_path(lm.icon_cache_dir(), "steam.png"),
        dashboard_icon_path("/home/u/", "steam")
    );
}

#[test]
fn path_joining() {
    assert_eq!(join_path("/a", "b"), "/a/b");
    assert_eq!(join_path("/a/", "b"), "/a/b");
    assert_eq!(join_path("", "b"), "b");
    assert_eq!(join_path("/a", "/b"), "/b");
    assert_eq!(home_dir(None), "/tmp");
    assert_eq!(home_dir(Some("/home/u")), "/home/u");
}

#[test]
fn settings_keys_and_commands() {
    assert_eq!(SETTINGS_SCHEMA, "com.parchlinux.gamehub");
    assert_eq!(Setting::AutoUpdate.key(), "auto-update");
    assert_eq!(Setting::WelcomeBannerDismissed.key(), "welcome-banner-dismissed");
    assert_eq!(Setting::AutoUpdate.apply_command(true), None);
    assert_eq!(
        Setting::PerformanceCpuGovernor.apply_command(false),
        Some("pkexec bash -c 'echo powersave | tee /sys/devices/system/cpu/cpu*/cpufreq/scaling_governor'")
    );
    assert_eq!(
        Setting::EsyncFsync.apply_command(false),
        Some("pkexec rm -f /etc/security/limits.d/99-esync.conf")
    );
    assert_eq!(Setting::GamingKernelParameters.command_title(), Some("Kernel Parameters"));
    assert_eq!(Setting::ShowNotifications.command_title(), None);
}

#[test]
fn settings_commands_elevated_without_sudo() {
    assert_eq!(
        Setting::GamingKernelParameters.apply_command(false),
        Some("pkexec bash -c 'rm -f /etc/sysctl.d/99-gaming.conf && sysctl --system'")
    );
    let all = [
        Setting::AutoUpdate,
        Setting::ShowNotifications,
        Setting::PerformanceCpuGovernor,
        Setting::GamingKernelParameters,
        Setting::EsyncFsync,
        Setting::WelcomeBannerDismissed,
    ];
    for s in all {
        for on in [true, false] {
            if let Some(c) = s.apply_command(on) {
                assert!(c.starts_with("pkexec "));
                assert!(!c.contains("sudo"));
            }
        }
    }
}

#[test]
fn shell_quoting() {
    assert_eq!(shell_escape("it's"), "it'\\''s");
    assert_eq!(shell_escape("plain"), "plain");
    assert_eq!(shell_quote("a'b'"), "'a'\\''b'\\'''");
    assert_eq!(shell_quote(""), "''");
    assert_ne!(shell_escape("'"), "'");
    assert_ne!(shell_escape("a'b"), "a'b");
    assert_eq!(shell_escape("a b\\c"), "a b\\c");
}

#[test]
fn terminal_wrapping() {
    assert_eq!(wrap_command("ls"), "ls\necho ''\necho '--- EXIT CODE: $? ---'\n");
    assert_eq!(completion_label(true), "✓ Command completed successfully");
    assert_eq!(completion_label(false), "✗ Command failed");
}
