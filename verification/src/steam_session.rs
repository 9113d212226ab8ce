//! The steps that set up a dedicated Steam gaming session: what each step is
//! called and the shell command it runs in the terminal.
use vstd::prelude::*;
use crate::pacman::{install_prefix, lemma_command_words, spec_install_command, string_views, PacmanManager};
use crate::text::{contains, is_ws, occurs_at, starts_with, words};

verus! {

broadcast use vstd::string::group_string_axioms;

/// A step of setting up the gaming session, in the order the page shows them.
#[derive(Debug, Clone, Copy, PartialEq, Eq, Structural)]
pub enum SessionStep {
    InstallSteam,
    InstallGamescope,
    CreateUser,
    EnableAutostart,
    Optimize,
}

/// The packages a step installs, for the steps that install packages.
pub open spec fn spec_step_packages(step: SessionStep) -> Option<Seq<Seq<char>>> {
    match step {
        SessionStep::InstallSteam => Some(seq!["steam"@, "steam-native-runtime"@]),
        SessionStep::InstallGamescope => Some(seq!["gamescope"@]),
        SessionStep::Optimize => Some(
            seq!["mangohud"@, "gamemode"@, "lib32-gamemode"@, "goverlay"@],
        ),
        _ => None,
    }
}

/// The command that creates the `steam` user unless it exists.
pub open spec fn create_user_command() -> Seq<char> {
    "if ! id steam &>/dev/null; then pkexec useradd -m -G wheel -s /bin/bash steam && echo 'Created user: steam' && echo 'Set a password with: sudo passwd steam'; else echo 'User steam already exists'; fi"@
}

/// The command that writes the autostart entry launching Steam in Big
/// Picture mode.
pub open spec fn autostart_command() -> Seq<char> {
    "mkdir -p ~/.config/autostart && cat > ~/.config/autostart/steam-bigpicture.desktop << 'EOF'\n[Desktop Entry]\nType=Application\nName=Steam Big Picture\nExec=/usr/bin/steam -silent -bigpicture\nX-GNOME-Autostart-enabled=true\nEOF\necho 'Steam autostart configured'"@
}

/// The command a step runs: the pacman install command of its packages, or
/// its own shell script.
pub open spec fn spec_step_command(step: SessionStep) -> Seq<char> {
    match spec_step_packages(step) {
        Some(p) => spec_install_command(p),
        None => if step == SessionStep::CreateUser {
            create_user_command()
        } else {
            autostart_command()
        },
    }
}

/// The title of the row that offers a step.
pub open spec fn spec_step_title(step: SessionStep) -> Seq<char> {
    match step {
        SessionStep::InstallSteam => "Install Steam"@,
        SessionStep::InstallGamescope => "Install Gamescope"@,
        SessionStep::CreateUser => "Create Gaming User (steam)"@,
        SessionStep::EnableAutostart => "Steam Auto-Start (Big Picture Mode)"@,
        SessionStep::Optimize => "Gaming Optimizations"@,
    }
}

/// What the row of a step says it does.
pub open spec fn spec_step_subtitle(step: SessionStep) -> Seq<char> {
    match step {
        SessionStep::InstallSteam => "Installs Steam and Steam Native Runtime"@,
        SessionStep::InstallGamescope => "Micro-compositor for gamescope session (gaming-focused Wayland compositor)"@,
        SessionStep::CreateUser => "Creates a dedicated 'steam' user with auto-login for gaming mode"@,
        SessionStep::EnableAutostart => "Creates an autostart entry so Steam launches in Big Picture on login"@,
        SessionStep::Optimize => "Install GameMode, MangoHud, and performance tweaks"@,
    }
}

/// The label of the button that runs a step.
pub open spec fn spec_step_button_label(step: SessionStep) -> Seq<char> {
    match step {
        SessionStep::InstallSteam => "Install"@,
        SessionStep::InstallGamescope => "Install"@,
        SessionStep::CreateUser => "Create"@,
        SessionStep::EnableAutostart => "Enable"@,
        SessionStep::Optimize => "Optimize"@,
    }
}

/// The title of the terminal that runs a step.
pub open spec fn spec_step_terminal_title(step: SessionStep) -> Seq<char> {
    match step {
        SessionStep::InstallSteam => "Install Steam"@,
        SessionStep::InstallGamescope => "Install Gamescope"@,
        SessionStep::CreateUser => "Create Gaming User"@,
        SessionStep::EnableAutostart => "Enable Steam Auto-Start"@,
        SessionStep::Optimize => "Gaming Optimizations"@,
    }
}

/// The steps in the order the page shows them.
pub open spec fn spec_session_steps() -> Seq<SessionStep> {
    seq![
        SessionStep::InstallSteam,
        SessionStep::InstallGamescope,
        SessionStep::CreateUser,
        SessionStep::EnableAutostart,
        SessionStep::Optimize,
    ]
}

/// Owned copies of string slices, in order.
fn strings_of(names: &[&str]) -> (v: Vec<String>)
    ensures
        string_views(v@) == names@.map_values(|n: &str| n@),
{
    let mut v: Vec<String> = Vec::new();
    let mut i: usize = 0;
    while i < names.len()
        invariant
            i <= names@.len(),
            string_views(v@) == names@.take(i as int).map_values(|n: &str| n@),
        decreases names@.len() - i,
    {
        let ghost before = v@;
        let s = String::from_str(names[i]);
        v.push(s);
        assert(names@.take(i + 1) =~= names@.take(i as int).push(names@[i as int]));
        assert(string_views(v@) =~= string_views(before).push(s@));
        assert(string_views(v@) =~= names@.take(i + 1).map_values(|n: &str| n@));
        i = i + 1;
    }
    assert(names@.take(names@.len() as int) =~= names@);
    v
}

impl SessionStep {
    /// The steps in the order the page shows them.
    pub fn all() -> (v: Vec<SessionStep>)
        ensures
            v@ == spec_session_steps(),
    {
        let v = vec![
            SessionStep::InstallSteam,
            SessionStep::InstallGamescope,
            SessionStep::CreateUser,
            SessionStep::EnableAutostart,
            SessionStep::Optimize,
        ];
        assert(v@ =~= spec_session_steps());
        v
    }

    /// The title of the row that offers the step.
    pub fn title(&self) -> (t: &'static str)
        ensures
            t@ == spec_step_title(*self),
    {
        match self {
            SessionStep::InstallSteam => "Install Steam",
            SessionStep::InstallGamescope => "Install Gamescope",
            SessionStep::CreateUser => "Create Gaming User (steam)",
            SessionStep::EnableAutostart => "Steam Auto-Start (Big Picture Mode)",
            SessionStep::Optimize => "Gaming Optimizations",
        }
    }

    /// What the row says the step does.
    pub fn subtitle(&self) -> (t: &'static str)
        ensures
            t@ == spec_step_subtitle(*self),
    {
        match self {
            SessionStep::InstallSteam => "Installs Steam and Steam Native Runtime",
            SessionStep::InstallGamescope => "Micro-compositor for gamescope session (gaming-focused Wayland compositor)",
            SessionStep::CreateUser => "Creates a dedicated 'steam' user with auto-login for gaming mode",
            SessionStep::EnableAutostart => "Creates an autostart entry so Steam launches in Big Picture on login",
            SessionStep::Optimize => "Install GameMode, MangoHud, and performance tweaks",
        }
    }

    /// The label of the button that runs the step.
    pub fn button_label(&self) -> (t: &'static str)
        ensures
            t@ == spec_step_button_label(*self),
    {
        match self {
            SessionStep::InstallSteam => "Install",
            SessionStep::InstallGamescope => "Install",
            SessionStep::CreateUser => "Create",
            SessionStep::EnableAutostart => "Enable",
            SessionStep::Optimize => "Optimize",
        }
    }

    /// The title of the terminal that runs the step.
    pub fn terminal_title(&self) -> (t: &'static str)
        ensures
            t@ == spec_step_terminal_title(*self),
    {
        match self {
            SessionStep::InstallSteam => "Install Steam",
            SessionStep::InstallGamescope => "Install Gamescope",
            SessionStep::CreateUser => "Create Gaming User",
            SessionStep::EnableAutostart => "Enable Steam Auto-Start",
            SessionStep::Optimize => "Gaming Optimizations",
        }
    }

    /// The shell command the step runs.
    pub fn command(&self) -> (c: String)
        ensures
            c@ == spec_step_command(*self),
    {
        match self {
            SessionStep::InstallSteam => {
                let names: [&str; 2] = ["steam", "steam-native-runtime"];
                let p = strings_of(&names);
                assert(names@.map_values(|n: &str| n@) =~= seq!["steam"@, "steam-native-runtime"@]);
                PacmanManager::install_command(&p)
            },
            SessionStep::InstallGamescope => {
                let names: [&str; 1] = ["gamescope"];
                let p = strings_of(&names);
                assert(names@.map_values(|n: &str| n@) =~= seq!["gamescope"@]);
                PacmanManager::install_command(&p)
            },
            SessionStep::Optimize => {
                let names: [&str; 4] = ["mangohud", "gamemode", "lib32-gamemode", "goverlay"];
                let p = strings_of(&names);
                assert(names@.map_values(|n: &str| n@) =~= seq![
                    "mangohud"@,
                    "gamemode"@,
                    "lib32-gamemode"@,
                    "goverlay"@,
                ]);
                PacmanManager::install_command(&p)
            },
            SessionStep::CreateUser => String::from_str(
                "if ! id steam &>/dev/null; then pkexec useradd -m -G wheel -s /bin/bash steam && echo 'Created user: steam' && echo 'Set a password with: sudo passwd steam'; else echo 'User steam already exists'; fi",
            ),
            SessionStep::EnableAutostart => String::from_str(
                "mkdir -p ~/.config/autostart && cat > ~/.config/autostart/steam-bigpicture.desktop << 'EOF'\n[Desktop Entry]\nType=Application\nName=Steam Big Picture\nExec=/usr/bin/steam -silent -bigpicture\nX-GNOME-Autostart-enabled=true\nEOF\necho 'Steam autostart configured'",
            ),
        }
    }
}

proof fn lemma_autostart_contents()
    ensures
        starts_with(autostart_command(), "mkdir -p ~/.config/autostart && "@),
        contains(autostart_command(), "cat > ~/.config/autostart/steam-bigpicture.desktop"@),
        contains(autostart_command(), "Exec=/usr/bin/steam -silent -bigpicture"@),
{
    reveal_strlit("mkdir -p ~/.config/autostart && cat > ~/.config/autostart/steam-bigpicture.desktop << 'EOF'\n[Desktop Entry]\nType=Application\nName=Steam Big Picture\nExec=/usr/bin/steam -silent -bigpicture\nX-GNOME-Autostart-enabled=true\nEOF\necho 'Steam autostart configured'");
    reveal_strlit("mkdir -p ~/.config/autostart && ");
    assert("mkdir -p ~/.config/autostart && cat > ~/.config/autostart/steam-bigpicture.desktop << 'EOF'\n[Desktop Entry]\nType=Application\nName=Steam Big Picture\nExec=/usr/bin/steam -silent -bigpicture\nX-GNOME-Autostart-enabled=true\nEOF\necho 'Steam autostart configured'"@.subrange(0, 32) =~= "mkdir -p ~/.config/autostart && "@);
    assert(occurs_at("mkdir -p ~/.config/autostart && cat > ~/.config/autostart/steam-bigpicture.desktop << 'EOF'\n[Desktop Entry]\nType=Application\nName=Steam Big Picture\nExec=/usr/bin/steam -silent -bigpicture\nX-GNOME-Autostart-enabled=true\nEOF\necho 'Steam autostart configured'"@, "mkdir -p ~/.config/autostart && "@, 0));
    reveal_strlit("cat > ~/.config/autostart/steam-bigpicture.desktop");
    assert("mkdir -p ~/.config/autostart && cat > ~/.config/autostart/steam-bigpicture.desktop << 'EOF'\n[Desktop Entry]\nType=Application\nName=Steam Big Picture\nExec=/usr/bin/steam -silent -bigpicture\nX-GNOME-Autostart-enabled=true\nEOF\necho 'Steam autostart configured'"@.subrange(32, 82) =~= "cat > ~/.config/autostart/steam-bigpicture.desktop"@);
    assert(occurs_at("mkdir -p ~/.config/autostart && cat > ~/.config/autostart/steam-bigpicture.desktop << 'EOF'\n[Desktop Entry]\nType=Application\nName=Steam Big Picture\nExec=/usr/bin/steam -silent -bigpicture\nX-GNOME-Autostart-enabled=true\nEOF\necho 'Steam autostart configured'"@, "cat > ~/.config/autostart/steam-bigpicture.desktop"@, 32));
    reveal_strlit("Exec=/usr/bin/steam -silent -bigpicture");
    assert("mkdir -p ~/.config/autostart && cat > ~/.config/autostart/steam-bigpicture.desktop << 'EOF'\n[Desktop Entry]\nType=Application\nName=Steam Big Picture\nExec=/usr/bin/steam -silent -bigpicture\nX-GNOME-Autostart-enabled=true\nEOF\necho 'Steam autostart configured'"@.subrange(148, 187) =~= "Exec=/usr/bin/steam -silent -bigpicture"@);
    assert(occurs_at("mkdir -p ~/.config/autostart && cat > ~/.config/autostart/steam-bigpicture.desktop << 'EOF'\n[Desktop Entry]\nType=Application\nName=Steam Big Picture\nExec=/usr/bin/steam -silent -bigpicture\nX-GNOME-Autostart-enabled=true\nEOF\necho 'Steam autostart configured'"@, "Exec=/usr/bin/steam -silent -bigpicture"@, 148));
}

proof fn lemma_create_user_contents()
    ensures
        contains(create_user_command(), "pkexec useradd -m -G wheel -s /bin/bash steam"@),
{
    reveal_strlit("if ! id steam &>/dev/null; then pkexec useradd -m -G wheel -s /bin/bash steam && echo 'Created user: steam' && echo 'Set a password with: sudo passwd steam'; else echo 'User steam already exists'; fi");
    reveal_strlit("pkexec useradd -m -G wheel -s /bin/bash steam");
    assert("if ! id steam &>/dev/null; then pkexec useradd -m -G wheel -s /bin/bash steam && echo 'Created user: steam' && echo 'Set a password with: sudo passwd steam'; else echo 'User steam already exists'; fi"@.subrange(32, 77) =~= "pkexec useradd -m -G wheel -s /bin/bash steam"@);
    assert(occurs_at("if ! id steam &>/dev/null; then pkexec useradd -m -G wheel -s /bin/bash steam && echo 'Created user: steam' && echo 'Set a password with: sudo passwd steam'; else echo 'User steam already exists'; fi"@, "pkexec useradd -m -G wheel -s /bin/bash steam"@, 32));
}

/// The names have no whitespace and none is empty.
proof fn lemma_plain_names(ps: Seq<Seq<char>>)
    requires
        forall|i: int, j: int|
            0 <= i < ps.len() && 0 <= j < ps[i].len() ==> (#[trigger] ps[i][j] as u32) > 0x20
                && (ps[i][j] as u32) < 0x7f,
        forall|i: int| 0 <= i < ps.len() ==> (#[trigger] ps[i]).len() > 0,
    ensures
        forall|i: int, j: int|
            0 <= i < ps.len() && 0 <= j < ps[i].len() ==> !is_ws(#[trigger] ps[i][j]),
{
}

/// Law: the install steps run pacman's install command, whose words after
/// `pkexec pacman -S --noconfirm` are exactly their packages: Steam with its
/// native runtime; Gamescope; MangoHud, GameMode (also 32-bit) and GOverlay.
/// The auto-start step creates `~/.config/autostart` and writes into it the
/// desktop entry that starts Steam in Big Picture mode; the user step creates
/// the `steam` user through `pkexec`.
pub proof fn lemma_session_commands()
    ensures
        words(spec_step_command(SessionStep::InstallSteam)) == words(install_prefix()) + seq![
            "steam"@,
            "steam-native-runtime"@,
        ],
        words(spec_step_command(SessionStep::InstallGamescope)) == words(install_prefix()) + seq![
            "gamescope"@,
        ],
        words(spec_step_command(SessionStep::Optimize)) == words(install_prefix()) + seq![
            "mangohud"@,
            "gamemode"@,
            "lib32-gamemode"@,
            "goverlay"@,
        ],
        starts_with(spec_step_command(SessionStep::EnableAutostart), "mkdir -p ~/.config/autostart && "@),
        contains(
            spec_step_command(SessionStep::EnableAutostart),
            "cat > ~/.config/autostart/steam-bigpicture.desktop"@,
        ),
        contains(spec_step_command(SessionStep::EnableAutostart), "Exec=/usr/bin/steam -silent -bigpicture"@),
        contains(spec_step_command(SessionStep::CreateUser), "pkexec useradd -m -G wheel -s /bin/bash steam"@),
{
    lemma_autostart_contents();
    lemma_create_user_contents();
    reveal_strlit("steam");
    reveal_strlit("steam-native-runtime");
    reveal_strlit("gamescope");
    reveal_strlit("mangohud");
    reveal_strlit("gamemode");
    reveal_strlit("lib32-gamemode");
    reveal_strlit("goverlay");
    let a = seq!["steam"@, "steam-native-runtime"@];
    let b = seq!["gamescope"@];
    let c = seq!["mangohud"@, "gamemode"@, "lib32-gamemode"@, "goverlay"@];
    lemma_plain_names(a);
    lemma_plain_names(b);
    lemma_plain_names(c);
    lemma_command_words(a);
    lemma_command_words(b);
    lemma_command_words(c);
}

} // verus!
