//! The hub's preferences: the GSettings schema and key of each preference,
//! and the system command that switching a gaming tweak runs.
use vstd::prelude::*;
use crate::text::{contains, occurs_at, starts_with};

verus! {

/// The GSettings schema that holds the preferences.
pub const SETTINGS_SCHEMA: &'static str = "com.parchlinux.gamehub";

/// A preference of the hub.
#[derive(Debug, Clone, Copy, PartialEq, Eq, Structural)]
pub enum Setting {
    AutoUpdate,
    ShowNotifications,
    PerformanceCpuGovernor,
    GamingKernelParameters,
    EsyncFsync,
    WelcomeBannerDismissed,
}

/// The GSettings key of a preference.
pub open spec fn spec_key(s: Setting) -> Seq<char> {
    match s {
        Setting::AutoUpdate => "auto-update"@,
        Setting::ShowNotifications => "show-notifications"@,
        Setting::PerformanceCpuGovernor => "performance-cpu-governor"@,
        Setting::GamingKernelParameters => "gaming-kernel-parameters"@,
        Setting::EsyncFsync => "esync-fsync"@,
        Setting::WelcomeBannerDismissed => "welcome-banner-dismissed"@,
    }
}

/// The command that switching a gaming tweak on or off runs; the other
/// preferences run none.
pub open spec fn spec_apply_command(s: Setting, enabled: bool) -> Option<Seq<char>> {
    match s {
        Setting::PerformanceCpuGovernor => Some(
            if enabled {
                "pkexec bash -c 'echo performance | tee /sys/devices/system/cpu/cpu*/cpufreq/scaling_governor'"@
            } else {
                "pkexec bash -c 'echo powersave | tee /sys/devices/system/cpu/cpu*/cpufreq/scaling_governor'"@
            },
        ),
        Setting::GamingKernelParameters => Some(
            if enabled {
                "pkexec bash -c 'echo \"vm.max_map_count=2147483642\" > /etc/sysctl.d/99-gaming.conf && sysctl --system'"@
            } else {
                "pkexec bash -c 'rm -f /etc/sysctl.d/99-gaming.conf && sysctl --system'"@
            },
        ),
        Setting::EsyncFsync => Some(
            if enabled {
                "pkexec bash -c 'echo \"* hard nofile 1048576\" >> /etc/security/limits.d/99-esync.conf && echo \"* soft nofile 1048576\" >> /etc/security/limits.d/99-esync.conf'"@
            } else {
                "pkexec rm -f /etc/security/limits.d/99-esync.conf"@
            },
        ),
        _ => None,
    }
}

/// The title of the terminal that runs a tweak's command.
pub open spec fn spec_command_title(s: Setting) -> Option<Seq<char>> {
    match s {
        Setting::PerformanceCpuGovernor => Some("CPU Governor"@),
        Setting::GamingKernelParameters => Some("Kernel Parameters"@),
        Setting::EsyncFsync => Some("Esync/Fsync"@),
        _ => None,
    }
}

/// The view of an optional string slice.
pub open spec fn opt_static_view(o: Option<&'static str>) -> Option<Seq<char>> {
    match o {
        Some(s) => Some(s@),
        None => None,
    }
}

impl Setting {
    /// The GSettings key of the preference.
    pub fn key(&self) -> (k: &'static str)
        ensures
            k@ == spec_key(*self),
    {
        match self {
            Setting::AutoUpdate => "auto-update",
            Setting::ShowNotifications => "show-notifications",
            Setting::PerformanceCpuGovernor => "performance-cpu-governor",
            Setting::GamingKernelParameters => "gaming-kernel-parameters",
            Setting::EsyncFsync => "esync-fsync",
            Setting::WelcomeBannerDismissed => "welcome-banner-dismissed",
        }
    }

    /// The command that switching the preference on or off runs, if any.
    pub fn apply_command(&self, enabled: bool) -> (c: Option<&'static str>)
        ensures
            opt_static_view(c) == spec_apply_command(*self, enabled),
    {
        match self {
            Setting::PerformanceCpuGovernor => Some(
                if enabled {
                    "pkexec bash -c 'echo performance | tee /sys/devices/system/cpu/cpu*/cpufreq/scaling_governor'"
                } else {
                    "pkexec bash -c 'echo powersave | tee /sys/devices/system/cpu/cpu*/cpufreq/scaling_governor'"
                },
            ),
            Setting::GamingKernelParameters => Some(
                if enabled {
                    "pkexec bash -c 'echo \"vm.max_map_count=2147483642\" > /etc/sysctl.d/99-gaming.conf && sysctl --system'"
                } else {
                    "pkexec bash -c 'rm -f /etc/sysctl.d/99-gaming.conf && sysctl --system'"
                },
            ),
            Setting::EsyncFsync => Some(
                if enabled {
                    "pkexec bash -c 'echo \"* hard nofile 1048576\" >> /etc/security/limits.d/99-esync.conf && echo \"* soft nofile 1048576\" >> /etc/security/limits.d/99-esync.conf'"
                } else {
                    "pkexec rm -f /etc/security/limits.d/99-esync.conf"
                },
            ),
            _ => None,
        }
    }

    /// The title of the terminal that runs the preference's command, if any.
    pub fn command_title(&self) -> (t: Option<&'static str>)
        ensures
            opt_static_view(t) == spec_command_title(*self),
    {
        match self {
            Setting::PerformanceCpuGovernor => Some("CPU Governor"),
            Setting::GamingKernelParameters => Some("Kernel Parameters"),
            Setting::EsyncFsync => Some("Esync/Fsync"),
            _ => None,
        }
    }
}

/// Law: distinct preferences are stored under distinct keys.
pub proof fn lemma_keys_distinct(a: Setting, b: Setting)
    requires
        a != b,
    ensures
        spec_key(a) != spec_key(b),
{
    reveal_strlit("auto-update");
    reveal_strlit("show-notifications");
    reveal_strlit("performance-cpu-governor");
    reveal_strlit("gaming-kernel-parameters");
    reveal_strlit("esync-fsync");
    reveal_strlit("welcome-banner-dismissed");
    if spec_key(a) == spec_key(b) {
        assert(spec_key(a).len() == spec_key(b).len());
        assert(spec_key(a)[0] == spec_key(b)[0]);
        assert(spec_key(a)[1] == spec_key(b)[1]);
    }
}

/// Law: a preference runs a command on both switches or on neither, and it
/// has a terminal title exactly when it runs one.
pub proof fn lemma_commands_titled(s: Setting, enabled: bool)
    ensures
        spec_apply_command(s, enabled) is Some <==> spec_apply_command(s, !enabled) is Some,
        spec_apply_command(s, enabled) is Some <==> spec_command_title(s) is Some,
{
}

/// A command in which "sudo" occurs nowhere.
pub open spec fn free_of_sudo(c: Seq<char>) -> bool {
    !contains(c, "sudo"@)
}

/// No occurrence of the letters of "sudo" begins at index `i` or later.
pub open spec fn sudo_free_from(c: Seq<char>, i: int) -> bool
    decreases c.len() - i,
{
    if i < 0 || i + 4 > c.len() {
        true
    } else {
        !(c[i] == 's' && c[i + 1] == 'u' && c[i + 2] == 'd' && c[i + 3] == 'o')
            && sudo_free_from(c, i + 1)
    }
}

/// A sequence with no index at which the letters of "sudo" begin does not
/// contain it.
proof fn lemma_no_sudo(c: Seq<char>)
    requires
        sudo_free_from(c, 0),
    ensures
        free_of_sudo(c),
{
    reveal_strlit("sudo");
    assert forall|i: int| !occurs_at(c, "sudo"@, i) by {
        if occurs_at(c, "sudo"@, i) {
            lemma_sudo_free_at(c, 0, i);
            let w = c.subrange(i, i + 4);
            assert(w[0] == c[i] && w[1] == c[i + 1] && w[2] == c[i + 2] && w[3] == c[i + 3]);
        }
    }
}

proof fn lemma_sudo_free_at(c: Seq<char>, j: int, i: int)
    requires
        sudo_free_from(c, j),
        0 <= j <= i,
        i + 4 <= c.len(),
    ensures
        !(c[i] == 's' && c[i + 1] == 'u' && c[i + 2] == 'd' && c[i + 3] == 'o'),
    decreases i - j,
{
    if j < i {
        lemma_sudo_free_at(c, j + 1, i);
    }
}

proof fn lemma_cpu_on_elevated()
    ensures
        starts_with("pkexec bash -c 'echo performance | tee /sys/devices/system/cpu/cpu*/cpufreq/scaling_governor'"@, "pkexec "@),
        free_of_sudo("pkexec bash -c 'echo performance | tee /sys/devices/system/cpu/cpu*/cpufreq/scaling_governor'"@),
{
    reveal_strlit("pkexec ");
    reveal_strlit("pkexec bash -c 'echo performance | tee /sys/devices/system/cpu/cpu*/cpufreq/scaling_governor'");
    reveal_with_fuel(sudo_free_from, 200);
    assert(sudo_free_from("pkexec bash -c 'echo performance | tee /sys/devices/system/cpu/cpu*/cpufreq/scaling_governor'"@, 0));
    lemma_no_sudo("pkexec bash -c 'echo performance | tee /sys/devices/system/cpu/cpu*/cpufreq/scaling_governor'"@);
    assert("pkexec bash -c 'echo performance | tee /sys/devices/system/cpu/cpu*/cpufreq/scaling_governor'"@.subrange(0, 7) =~= "pkexec "@);
}

proof fn lemma_cpu_off_elevated()
    ensures
        starts_with("pkexec bash -c 'echo powersave | tee /sys/devices/system/cpu/cpu*/cpufreq/scaling_governor'"@, "pkexec "@),
        free_of_sudo("pkexec bash -c 'echo powersave | tee /sys/devices/system/cpu/cpu*/cpufreq/scaling_governor'"@),
{
    reveal_strlit("pkexec ");
    reveal_strlit("pkexec bash -c 'echo powersave | tee /sys/devices/system/cpu/cpu*/cpufreq/scaling_governor'");
    reveal_with_fuel(sudo_free_from, 200);
    assert(sudo_free_from("pkexec bash -c 'echo powersave | tee /sys/devices/system/cpu/cpu*/cpufreq/scaling_governor'"@, 0));
    lemma_no_sudo("pkexec bash -c 'echo powersave | tee /sys/devices/system/cpu/cpu*/cpufreq/scaling_governor'"@);
    assert("pkexec bash -c 'echo powersave | tee /sys/devices/system/cpu/cpu*/cpufreq/scaling_governor'"@.subrange(0, 7) =~= "pkexec "@);
}

#[verifier::rlimit(100)]
proof fn lemma_kernel_on_elevated()
    ensures
        starts_with("pkexec bash -c 'echo \"vm.max_map_count=2147483642\" > /etc/sysctl.d/99-gaming.conf && sysctl --system'"@, "pkexec "@),
        free_of_sudo("pkexec bash -c 'echo \"vm.max_map_count=2147483642\" > /etc/sysctl.d/99-gaming.conf && sysctl --system'"@),
{
    reveal_strlit("pkexec ");
    reveal_strlit("pkexec bash -c 'echo \"vm.max_map_count=2147483642\" > /etc/sysctl.d/99-gaming.conf && sysctl --system'");
    reveal_with_fuel(sudo_free_from, 200);
    assert(sudo_free_from("pkexec bash -c 'echo \"vm.max_map_count=2147483642\" > /etc/sysctl.d/99-gaming.conf && sysctl --system'"@, 150));
    assert(sudo_free_from("pkexec bash -c 'echo \"vm.max_map_count=2147483642\" > /etc/sysctl.d/99-gaming.conf && sysctl --system'"@, 120));
    assert(sudo_free_from("pkexec bash -c 'echo \"vm.max_map_count=2147483642\" > /etc/sysctl.d/99-gaming.conf && sysctl --system'"@, 90));
    assert(sudo_free_from("pkexec bash -c 'echo \"vm.max_map_count=2147483642\" > /etc/sysctl.d/99-gaming.conf && sysctl --system'"@, 60));
    assert(sudo_free_from("pkexec bash -c 'echo \"vm.max_map_count=2147483642\" > /etc/sysctl.d/99-gaming.conf && sysctl --system'"@, 30));
    assert(sudo_free_from("pkexec bash -c 'echo \"vm.max_map_count=2147483642\" > /etc/sysctl.d/99-gaming.conf && sysctl --system'"@, 0));
    lemma_no_sudo("pkexec bash -c 'echo \"vm.max_map_count=2147483642\" > /etc/sysctl.d/99-gaming.conf && sysctl --system'"@);
    assert("pkexec bash -c 'echo \"vm.max_map_count=2147483642\" > /etc/sysctl.d/99-gaming.conf && sysctl --system'"@.subrange(0, 7) =~= "pkexec "@);
}

proof fn lemma_kernel_off_elevated()
    ensures
        starts_with("pkexec bash -c 'rm -f /etc/sysctl.d/99-gaming.conf && sysctl --system'"@, "pkexec "@),
        free_of_sudo("pkexec bash -c 'rm -f /etc/sysctl.d/99-gaming.conf && sysctl --system'"@),
{
    reveal_strlit("pkexec ");
    reveal_strlit("pkexec bash -c 'rm -f /etc/sysctl.d/99-gaming.conf && sysctl --system'");
    reveal_with_fuel(sudo_free_from, 200);
    assert(sudo_free_from("pkexec bash -c 'rm -f /etc/sysctl.d/99-gaming.conf && sysctl --system'"@, 0));
    lemma_no_sudo("pkexec bash -c 'rm -f /etc/sysctl.d/99-gaming.conf && sysctl --system'"@);
    assert("pkexec bash -c 'rm -f /etc/sysctl.d/99-gaming.conf && sysctl --system'"@.subrange(0, 7) =~= "pkexec "@);
}

#[verifier::rlimit(100)]
proof fn lemma_esync_on_elevated()
    ensures
        starts_with("pkexec bash -c 'echo \"* hard nofile 1048576\" >> /etc/security/limits.d/99-esync.conf && echo \"* soft nofile 1048576\" >> /etc/security/limits.d/99-esync.conf'"@, "pkexec "@),
        free_of_sudo("pkexec bash -c 'echo \"* hard nofile 1048576\" >> /etc/security/limits.d/99-esync.conf && echo \"* soft nofile 1048576\" >> /etc/security/limits.d/99-esync.conf'"@),
{
    reveal_strlit("pkexec ");
    reveal_strlit("pkexec bash -c 'echo \"* hard nofile 1048576\" >> /etc/security/limits.d/99-esync.conf && echo \"* soft nofile 1048576\" >> /etc/security/limits.d/99-esync.conf'");
    reveal_with_fuel(sudo_free_from, 200);
    assert(sudo_free_from("pkexec bash -c 'echo \"* hard nofile 1048576\" >> /etc/security/limits.d/99-esync.conf && echo \"* soft nofile 1048576\" >> /etc/security/limits.d/99-esync.conf'"@, 150));
    assert(sudo_free_from("pkexec bash -c 'echo \"* hard nofile 1048576\" >> /etc/security/limits.d/99-esync.conf && echo \"* soft nofile 1048576\" >> /etc/security/limits.d/99-esync.conf'"@, 120));
    assert(sudo_free_from("pkexec bash -c 'echo \"* hard nofile 1048576\" >> /etc/security/limits.d/99-esync.conf && echo \"* soft nofile 1048576\" >> /etc/security/limits.d/99-esync.conf'"@, 90));
    assert(sudo_free_from("pkexec bash -c 'echo \"* hard nofile 1048576\" >> /etc/security/limits.d/99-esync.conf && echo \"* soft nofile 1048576\" >> /etc/security/limits.d/99-esync.conf'"@, 60));
    assert(sudo_free_from("pkexec bash -c 'echo \"* hard nofile 1048576\" >> /etc/security/limits.d/99-esync.conf && echo \"* soft nofile 1048576\" >> /etc/security/limits.d/99-esync.conf'"@, 30));
    assert(sudo_free_from("pkexec bash -c 'echo \"* hard nofile 1048576\" >> /etc/security/limits.d/99-esync.conf && echo \"* soft nofile 1048576\" >> /etc/security/limits.d/99-esync.conf'"@, 0));
    lemma_no_sudo("pkexec bash -c 'echo \"* hard nofile 1048576\" >> /etc/security/limits.d/99-esync.conf && echo \"* soft nofile 1048576\" >> /etc/security/limits.d/99-esync.conf'"@);
    assert("pkexec bash -c 'echo \"* hard nofile 1048576\" >> /etc/security/limits.d/99-esync.conf && echo \"* soft nofile 1048576\" >> /etc/security/limits.d/99-esync.conf'"@.subrange(0, 7) =~= "pkexec "@);
}

proof fn lemma_esync_off_elevated()
    ensures
        starts_with("pkexec rm -f /etc/security/limits.d/99-esync.conf"@, "pkexec "@),
        free_of_sudo("pkexec rm -f /etc/security/limits.d/99-esync.conf"@),
{
    reveal_strlit("pkexec ");
    reveal_strlit("pkexec rm -f /etc/security/limits.d/99-esync.conf");
    reveal_with_fuel(sudo_free_from, 200);
    assert(sudo_free_from("pkexec rm -f /etc/security/limits.d/99-esync.conf"@, 0));
    lemma_no_sudo("pkexec rm -f /etc/security/limits.d/99-esync.conf"@);
    assert("pkexec rm -f /etc/security/limits.d/99-esync.conf"@.subrange(0, 7) =~= "pkexec "@);
}

/// Law: every command that a preference runs is elevated by `pkexec`, and
/// none calls `sudo`, so no password is asked for in the terminal.
pub proof fn lemma_commands_use_pkexec(s: Setting, enabled: bool)
    ensures
        spec_apply_command(s, enabled) matches Some(c) ==> starts_with(c, "pkexec "@)
            && free_of_sudo(c),
{
    lemma_cpu_on_elevated();
    lemma_cpu_off_elevated();
    lemma_kernel_on_elevated();
    lemma_kernel_off_elevated();
    lemma_esync_on_elevated();
    lemma_esync_off_elevated();
}

/// `p` occurs in `s` at index `i`, so `s` contains it.
proof fn lemma_found_at(s: Seq<char>, p: Seq<char>, i: int)
    requires
        0 <= i,
        i + p.len() <= s.len(),
        s.subrange(i, i + p.len()) == p,
    ensures
        contains(s, p),
{
    assert(occurs_at(s, p, i));
}

proof fn lemma_cpu_on_contents()
    ensures
        "pkexec bash -c 'echo performance | tee /sys/devices/system/cpu/cpu*/cpufreq/scaling_governor'"@.len() == 93,
        contains("pkexec bash -c 'echo performance | tee /sys/devices/system/cpu/cpu*/cpufreq/scaling_governor'"@, "echo performance |"@),
        contains("pkexec bash -c 'echo performance | tee /sys/devices/system/cpu/cpu*/cpufreq/scaling_governor'"@, "tee /sys/devices/system/cpu/cpu*/cpufreq/scaling_governor"@),
{
    reveal_strlit("pkexec bash -c 'echo performance | tee /sys/devices/system/cpu/cpu*/cpufreq/scaling_governor'");
    reveal_strlit("echo performance |");
    assert("pkexec bash -c 'echo performance | tee /sys/devices/system/cpu/cpu*/cpufreq/scaling_governor'"@.subrange(16, 34) =~= "echo performance |"@);
    lemma_found_at("pkexec bash -c 'echo performance | tee /sys/devices/system/cpu/cpu*/cpufreq/scaling_governor'"@, "echo performance |"@, 16);
    reveal_strlit("tee /sys/devices/system/cpu/cpu*/cpufreq/scaling_governor");
    assert("pkexec bash -c 'echo performance | tee /sys/devices/system/cpu/cpu*/cpufreq/scaling_governor'"@.subrange(35, 92) =~= "tee /sys/devices/system/cpu/cpu*/cpufreq/scaling_governor"@);
    lemma_found_at("pkexec bash -c 'echo performance | tee /sys/devices/system/cpu/cpu*/cpufreq/scaling_governor'"@, "tee /sys/devices/system/cpu/cpu*/cpufreq/scaling_governor"@, 35);
}

proof fn lemma_cpu_off_contents()
    ensures
        "pkexec bash -c 'echo powersave | tee /sys/devices/system/cpu/cpu*/cpufreq/scaling_governor'"@.len() == 91,
        contains("pkexec bash -c 'echo powersave | tee /sys/devices/system/cpu/cpu*/cpufreq/scaling_governor'"@, "echo powersave |"@),
        contains("pkexec bash -c 'echo powersave | tee /sys/devices/system/cpu/cpu*/cpufreq/scaling_governor'"@, "tee /sys/devices/system/cpu/cpu*/cpufreq/scaling_governor"@),
{
    reveal_strlit("pkexec bash -c 'echo powersave | tee /sys/devices/system/cpu/cpu*/cpufreq/scaling_governor'");
    reveal_strlit("echo powersave |");
    assert("pkexec bash -c 'echo powersave | tee /sys/devices/system/cpu/cpu*/cpufreq/scaling_governor'"@.subrange(16, 32) =~= "echo powersave |"@);
    lemma_found_at("pkexec bash -c 'echo powersave | tee /sys/devices/system/cpu/cpu*/cpufreq/scaling_governor'"@, "echo powersave |"@, 16);
    reveal_strlit("tee /sys/devices/system/cpu/cpu*/cpufreq/scaling_governor");
    assert("pkexec bash -c 'echo powersave | tee /sys/devices/system/cpu/cpu*/cpufreq/scaling_governor'"@.subrange(33, 90) =~= "tee /sys/devices/system/cpu/cpu*/cpufreq/scaling_governor"@);
    lemma_found_at("pkexec bash -c 'echo powersave | tee /sys/devices/system/cpu/cpu*/cpufreq/scaling_governor'"@, "tee /sys/devices/system/cpu/cpu*/cpufreq/scaling_governor"@, 33);
}

proof fn lemma_kernel_on_contents()
    ensures
        "pkexec bash -c 'echo \"vm.max_map_count=2147483642\" > /etc/sysctl.d/99-gaming.conf && sysctl --system'"@.len() == 101,
        contains("pkexec bash -c 'echo \"vm.max_map_count=2147483642\" > /etc/sysctl.d/99-gaming.conf && sysctl --system'"@, "echo \"vm.max_map_count=2147483642\" > /etc/sysctl.d/99-gaming.conf"@),
        contains("pkexec bash -c 'echo \"vm.max_map_count=2147483642\" > /etc/sysctl.d/99-gaming.conf && sysctl --system'"@, "sysctl --system"@),
{
    reveal_strlit("pkexec bash -c 'echo \"vm.max_map_count=2147483642\" > /etc/sysctl.d/99-gaming.conf && sysctl --system'");
    reveal_strlit("echo \"vm.max_map_count=2147483642\" > /etc/sysctl.d/99-gaming.conf");
    assert("pkexec bash -c 'echo \"vm.max_map_count=2147483642\" > /etc/sysctl.d/99-gaming.conf && sysctl --system'"@.subrange(16, 81) =~= "echo \"vm.max_map_count=2147483642\" > /etc/sysctl.d/99-gaming.conf"@);
    lemma_found_at("pkexec bash -c 'echo \"vm.max_map_count=2147483642\" > /etc/sysctl.d/99-gaming.conf && sysctl --system'"@, "echo \"vm.max_map_count=2147483642\" > /etc/sysctl.d/99-gaming.conf"@, 16);
    reveal_strlit("sysctl --system");
    assert("pkexec bash -c 'echo \"vm.max_map_count=2147483642\" > /etc/sysctl.d/99-gaming.conf && sysctl --system'"@.subrange(85, 100) =~= "sysctl --system"@);
    lemma_found_at("pkexec bash -c 'echo \"vm.max_map_count=2147483642\" > /etc/sysctl.d/99-gaming.conf && sysctl --system'"@, "sysctl --system"@, 85);
}

proof fn lemma_kernel_off_contents()
    ensures
        "pkexec bash -c 'rm -f /etc/sysctl.d/99-gaming.conf && sysctl --system'"@.len() == 70,
        contains("pkexec bash -c 'rm -f /etc/sysctl.d/99-gaming.conf && sysctl --system'"@, "rm -f /etc/sysctl.d/99-gaming.conf"@),
        contains("pkexec bash -c 'rm -f /etc/sysctl.d/99-gaming.conf && sysctl --system'"@, "sysctl --system"@),
{
    reveal_strlit("pkexec bash -c 'rm -f /etc/sysctl.d/99-gaming.conf && sysctl --system'");
    reveal_strlit("rm -f /etc/sysctl.d/99-gaming.conf");
    assert("pkexec bash -c 'rm -f /etc/sysctl.d/99-gaming.conf && sysctl --system'"@.subrange(16, 50) =~= "rm -f /etc/sysctl.d/99-gaming.conf"@);
    lemma_found_at("pkexec bash -c 'rm -f /etc/sysctl.d/99-gaming.conf && sysctl --system'"@, "rm -f /etc/sysctl.d/99-gaming.conf"@, 16);
    reveal_strlit("sysctl --system");
    assert("pkexec bash -c 'rm -f /etc/sysctl.d/99-gaming.conf && sysctl --system'"@.subrange(54, 69) =~= "sysctl --system"@);
    lemma_found_at("pkexec bash -c 'rm -f /etc/sysctl.d/99-gaming.conf && sysctl --system'"@, "sysctl --system"@, 54);
}

proof fn lemma_esync_on_contents()
    ensures
        "pkexec bash -c 'echo \"* hard nofile 1048576\" >> /etc/security/limits.d/99-esync.conf && echo \"* soft nofile 1048576\" >> /etc/security/limits.d/99-esync.conf'"@.len() == 157,
        contains("pkexec bash -c 'echo \"* hard nofile 1048576\" >> /etc/security/limits.d/99-esync.conf && echo \"* soft nofile 1048576\" >> /etc/security/limits.d/99-esync.conf'"@, "echo \"* hard nofile 1048576\" >> /etc/security/limits.d/99-esync.conf"@),
        contains("pkexec bash -c 'echo \"* hard nofile 1048576\" >> /etc/security/limits.d/99-esync.conf && echo \"* soft nofile 1048576\" >> /etc/security/limits.d/99-esync.conf'"@, "echo \"* soft nofile 1048576\" >> /etc/security/limits.d/99-esync.conf"@),
{
    reveal_strlit("pkexec bash -c 'echo \"* hard nofile 1048576\" >> /etc/security/limits.d/99-esync.conf && echo \"* soft nofile 1048576\" >> /etc/security/limits.d/99-esync.conf'");
    reveal_strlit("echo \"* hard nofile 1048576\" >> /etc/security/limits.d/99-esync.conf");
    assert("pkexec bash -c 'echo \"* hard nofile 1048576\" >> /etc/security/limits.d/99-esync.conf && echo \"* soft nofile 1048576\" >> /etc/security/limits.d/99-esync.conf'"@.subrange(16, 84) =~= "echo \"* hard nofile 1048576\" >> /etc/security/limits.d/99-esync.conf"@);
    lemma_found_at("pkexec bash -c 'echo \"* hard nofile 1048576\" >> /etc/security/limits.d/99-esync.conf && echo \"* soft nofile 1048576\" >> /etc/security/limits.d/99-esync.conf'"@, "echo \"* hard nofile 1048576\" >> /etc/security/limits.d/99-esync.conf"@, 16);
    reveal_strlit("echo \"* soft nofile 1048576\" >> /etc/security/limits.d/99-esync.conf");
    assert("pkexec bash -c 'echo \"* hard nofile 1048576\" >> /etc/security/limits.d/99-esync.conf && echo \"* soft nofile 1048576\" >> /etc/security/limits.d/99-esync.conf'"@.subrange(88, 156) =~= "echo \"* soft nofile 1048576\" >> /etc/security/limits.d/99-esync.conf"@);
    lemma_found_at("pkexec bash -c 'echo \"* hard nofile 1048576\" >> /etc/security/limits.d/99-esync.conf && echo \"* soft nofile 1048576\" >> /etc/security/limits.d/99-esync.conf'"@, "echo \"* soft nofile 1048576\" >> /etc/security/limits.d/99-esync.conf"@, 88);
}

proof fn lemma_esync_off_contents()
    ensures
        "pkexec rm -f /etc/security/limits.d/99-esync.conf"@.len() == 49,
        contains("pkexec rm -f /etc/security/limits.d/99-esync.conf"@, "rm -f /etc/security/limits.d/99-esync.conf"@),
{
    reveal_strlit("pkexec rm -f /etc/security/limits.d/99-esync.conf");
    reveal_strlit("rm -f /etc/security/limits.d/99-esync.conf");
    assert("pkexec rm -f /etc/security/limits.d/99-esync.conf"@.subrange(7, 49) =~= "rm -f /etc/security/limits.d/99-esync.conf"@);
    lemma_found_at("pkexec rm -f /etc/security/limits.d/99-esync.conf"@, "rm -f /etc/security/limits.d/99-esync.conf"@, 7);
}

/// Law: switching a tweak on and switching it off run different commands;
/// the CPU governor is set to `performance` when switched on and to
/// `powersave` when switched off, on every CPU; the kernel parameters are
/// written to `/etc/sysctl.d/99-gaming.conf` when switched on and that file is
/// removed when switched off, the settings being reloaded either way; the
/// open-file limits for Esync/Fsync are written, hard and soft, to
/// `/etc/security/limits.d/99-esync.conf` when switched on and that file is
/// removed when switched off.
pub proof fn lemma_tweak_commands()
    ensures
        forall|s: Setting|
            spec_apply_command(s, true) is Some ==> spec_apply_command(s, true) != spec_apply_command(
                s,
                false,
            ),
        ({
            let on = spec_apply_command(Setting::PerformanceCpuGovernor, true)->0;
            let off = spec_apply_command(Setting::PerformanceCpuGovernor, false)->0;
            &&& contains(on, "echo performance |"@)
            &&& contains(off, "echo powersave |"@)
            &&& contains(on, "tee /sys/devices/system/cpu/cpu*/cpufreq/scaling_governor"@)
            &&& contains(off, "tee /sys/devices/system/cpu/cpu*/cpufreq/scaling_governor"@)
        }),
        ({
            let on = spec_apply_command(Setting::GamingKernelParameters, true)->0;
            let off = spec_apply_command(Setting::GamingKernelParameters, false)->0;
            &&& contains(on, "echo \"vm.max_map_count=2147483642\" > /etc/sysctl.d/99-gaming.conf"@)
            &&& contains(off, "rm -f /etc/sysctl.d/99-gaming.conf"@)
            &&& contains(on, "sysctl --system"@)
            &&& contains(off, "sysctl --system"@)
        }),
        ({
            let on = spec_apply_command(Setting::EsyncFsync, true)->0;
            let off = spec_apply_command(Setting::EsyncFsync, false)->0;
            &&& contains(on, "echo \"* hard nofile 1048576\" >> /etc/security/limits.d/99-esync.conf"@)
            &&& contains(on, "echo \"* soft nofile 1048576\" >> /etc/security/limits.d/99-esync.conf"@)
            &&& contains(off, "rm -f /etc/security/limits.d/99-esync.conf"@)
        }),
{
    lemma_cpu_on_contents();
    lemma_cpu_off_contents();
    lemma_kernel_on_contents();
    lemma_kernel_off_contents();
    lemma_esync_on_contents();
    lemma_esync_off_contents();
    assert forall|s: Setting|
        spec_apply_command(s, true) is Some implies spec_apply_command(s, true)
            != spec_apply_command(s, false) by {
        match s {
            Setting::PerformanceCpuGovernor => {},
            Setting::GamingKernelParameters => {},
            Setting::EsyncFsync => {},
            _ => {},
        }
    }
}

} // verus!
