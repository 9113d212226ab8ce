//! What the dashboard shows of the system: the graphics card and driver read
//! from `lspci` and `glxinfo`, Vulkan and Chaotic AUR status, and which game
//! launchers are on the `PATH`.
use vstd::prelude::*;
use crate::pacman::{lookup, EntryView, PacmanManager};
use crate::paths::{join_path, path_join};
use crate::text::{
    after_first, after_first_exec, chars_of, contains, contains_exec, lines, lines_exec,
    string_of, trim, trim_exec, views,
};

verus! {

broadcast use vstd::string::group_string_axioms;

/// The state of the gaming environment.
#[derive(Debug, Clone)]
pub struct SystemStatus {
    pub gpu: String,
    pub driver: String,
    pub vulkan_supported: bool,
    pub chaotic_aur_installed: bool,
}

impl Default for SystemStatus {
    fn default() -> (s: Self)
        ensures
            s.gpu@ == Seq::<char>::empty(),
            s.driver@ == Seq::<char>::empty(),
            !s.vulkan_supported,
            !s.chaotic_aur_installed,
    {
        SystemStatus {
            gpu: String::new(),
            driver: String::new(),
            vulkan_supported: false,
            chaotic_aur_installed: false,
        }
    }
}

/// A game launcher found on the `PATH`.
#[derive(Debug, Clone)]
pub struct InstalledLauncher {
    pub id: String,
    pub name: Option<String>,
    pub icon: Option<String>,
    pub command: String,
}

/// What the system tools reported: the output of `lspci` and of `glxinfo`
/// (`None` when they could not be run), whether `vulkaninfo` succeeded, and
/// pacman's configuration (`None` when it could not be read).
pub struct SystemProbe {
    pub lspci: Option<String>,
    pub glxinfo: Option<String>,
    pub vulkaninfo_ok: bool,
    pub pacman_conf: Option<String>,
}

/// The first line that contains `a` or `b`.
pub open spec fn first_line_with(ls: Seq<Seq<char>>, a: Seq<char>, b: Seq<char>) -> Option<Seq<char>>
    decreases ls.len(),
{
    if ls.len() == 0 {
        None
    } else if contains(ls[0], a) || contains(ls[0], b) {
        Some(ls[0])
    } else {
        first_line_with(ls.drop_first(), a, b)
    }
}

/// What follows the first `:` of the first line of `out` that contains `a` or
/// `b`, trimmed; else `fallback`.
pub open spec fn field_after_colon(
    out: Option<Seq<char>>,
    a: Seq<char>,
    b: Seq<char>,
    fallback: Seq<char>,
) -> Seq<char> {
    match out {
        Some(o) => match first_line_with(lines(o), a, b) {
            Some(l) => match after_first(l, ':') {
                Some(rest) => trim(rest),
                None => fallback,
            },
            None => fallback,
        },
        None => fallback,
    }
}

/// The graphics card named by `lspci`'s output.
pub open spec fn spec_gpu_info(out: Option<Seq<char>>) -> Seq<char> {
    field_after_colon(out, "VGA"@, "3D"@, "No GPU detected"@)
}

/// The renderer named by `glxinfo`'s output.
pub open spec fn spec_driver_info(out: Option<Seq<char>>) -> Seq<char> {
    field_after_colon(
        out,
        "OpenGL renderer string"@,
        "OpenGL renderer string"@,
        "Error detecting driver (install mesa-utils?)"@,
    )
}

/// The view of an optional string slice.
pub open spec fn opt_str_view(o: Option<&str>) -> Option<Seq<char>> {
    match o {
        Some(s) => Some(s@),
        None => None,
    }
}

/// The launchers looked for on the `PATH`: id, name and command.
pub open spec fn launcher_probes() -> Seq<(Seq<char>, Seq<char>, Seq<char>)> {
    seq![
        ("steam"@, "Steam"@, "steam"@),
        ("lutris"@, "Lutris"@, "lutris"@),
        ("heroic-games-launcher-bin"@, "Heroic Games Launcher"@, "heroic"@),
        ("bottles"@, "Bottles"@, "bottles"@),
        ("minigalaxy"@, "Minigalaxy"@, "minigalaxy"@),
    ]
}

/// The probed launchers that were found, in order (a probe without a flag
/// counts as not found).
pub open spec fn found_launchers(
    probes: Seq<(Seq<char>, Seq<char>, Seq<char>)>,
    found: Seq<bool>,
) -> Seq<(Seq<char>, Seq<char>, Seq<char>)>
    decreases probes.len(),
{
    if probes.len() == 0 {
        seq![]
    } else {
        let i = probes.len() - 1;
        found_launchers(probes.drop_last(), found) + if i < found.len() && found[i] {
            seq![probes[i]]
        } else {
            seq![]
        }
    }
}

/// Abstract view of an installed launcher as the dashboard lists it.
pub open spec fn installed_launcher_view(l: InstalledLauncher) -> (Seq<char>, Option<Seq<char>>, Option<Seq<char>>, Seq<char>) {
    (l.id@, crate::text::opt_view(l.name), crate::text::opt_view(l.icon), l.command@)
}

fn first_field_after_colon(
    out: &str,
    a: &str,
    b: &str,
) -> (r: Option<String>)
    ensures
        match first_line_with(lines(out@), a@, b@) {
            Some(l) => match after_first(l, ':') {
                Some(rest) => r is Some && r->0@ == trim(rest),
                None => r is None,
            },
            None => r is None,
        },
{
    let o = chars_of(out);
    let av = chars_of(a);
    let bv = chars_of(b);
    let ls = lines_exec(&o);
    let ghost lv = views(ls@);
    let mut i: usize = 0;
    assert(lv.skip(0) =~= lv);
    while i < ls.len()
        invariant
            i <= ls@.len(),
            lv == views(ls@),
            lv == lines(o@),
            o@ == out@,
            av@ == a@,
            bv@ == b@,
            first_line_with(lv, a@, b@) == first_line_with(lv.skip(i as int), a@, b@),
        decreases ls@.len() - i,
    {
        assert(lv.skip(i as int)[0] == ls@[i as int]@);
        if contains_exec(&ls[i], &av) || contains_exec(&ls[i], &bv) {
            assert(first_line_with(lv.skip(i as int), a@, b@) == Some(ls@[i as int]@));
            assert(first_line_with(lines(out@), a@, b@) == Some(ls@[i as int]@));
            let found = after_first_exec(&ls[i], ':');
            match found {
                Some(rest) => {
                    let t = trim_exec(&rest);
                    let r = string_of(&t);
                    assert(after_first(ls@[i as int]@, ':') == Some(rest@));
                    return Some(r);
                },
                None => {
                    return None;
                },
            }
        }
        assert(lv.skip(i as int).drop_first() =~= lv.skip(i + 1));
        i = i + 1;
    }
    None
}

/// Reads the state of the gaming environment from what the system tools
/// reported.
pub struct SystemInfo;

impl SystemInfo {
    /// The reader.
    pub fn new() -> Self {
        SystemInfo
    }

    /// The graphics card: what follows the first `:` of the first line of
    /// `lspci`'s output that mentions `VGA` or `3D`, trimmed; "No GPU
    /// detected" when there is none or `lspci` could not be run.
    pub fn get_gpu_info(&self, lspci_output: Option<&str>) -> (g: String)
        ensures
            g@ == spec_gpu_info(opt_str_view(lspci_output)),
    {
        match lspci_output {
            Some(out) => match first_field_after_colon(out, "VGA", "3D") {
                Some(g) => g,
                None => String::from_str("No GPU detected"),
            },
            None => String::from_str("No GPU detected"),
        }
    }

    /// The graphics driver: what follows the first `:` of the first line of
    /// `glxinfo`'s output with the OpenGL renderer string, trimmed; an error
    /// text when there is none or `glxinfo` could not be run.
    pub fn get_driver_info(&self, glxinfo_output: Option<&str>) -> (d: String)
        ensures
            d@ == spec_driver_info(opt_str_view(glxinfo_output)),
    {
        match glxinfo_output {
            Some(out) => match first_field_after_colon(
                out,
                "OpenGL renderer string",
                "OpenGL renderer string",
            ) {
                Some(d) => d,
                None => String::from_str("Error detecting driver (install mesa-utils?)"),
            },
            None => String::from_str("Error detecting driver (install mesa-utils?)"),
        }
    }

    /// Is the Chaotic AUR set up (see `PacmanManager::check_chaotic_aur`)?
    pub fn check_chaotic_aur(&self, pacman: &PacmanManager, pacman_conf: Option<&str>) -> (b: bool)
        ensures
            b == (lookup(pacman@, "chaotic-mirrorlist"@) is Some || match pacman_conf {
                Some(c) => contains(c@, "chaotic-aur"@),
                None => false,
            }),
    {
        pacman.check_chaotic_aur(pacman_conf)
    }

    /// The whole status from what the system tools reported.
    pub fn gather_all(&self, probe: &SystemProbe, pacman: &PacmanManager) -> (s: SystemStatus)
        ensures
            s.gpu@ == spec_gpu_info(crate::text::opt_view(probe.lspci)),
            s.driver@ == spec_driver_info(crate::text::opt_view(probe.glxinfo)),
            s.vulkan_supported == probe.vulkaninfo_ok,
            s.chaotic_aur_installed == (lookup(pacman@, "chaotic-mirrorlist"@) is Some
                || match probe.pacman_conf {
                Some(c) => contains(c@, "chaotic-aur"@),
                None => false,
            }),
    {
        let lspci = match &probe.lspci {
            Some(s) => Some(s.as_str()),
            None => None,
        };
        let glxinfo = match &probe.glxinfo {
            Some(s) => Some(s.as_str()),
            None => None,
        };
        let conf = match &probe.pacman_conf {
            Some(s) => Some(s.as_str()),
            None => None,
        };
        SystemStatus {
            gpu: self.get_gpu_info(lspci),
            driver: self.get_driver_info(glxinfo),
            vulkan_supported: probe.vulkaninfo_ok,
            chaotic_aur_installed: self.check_chaotic_aur(pacman, conf),
        }
    }

    /// The commands looked for on the `PATH`, in the order of the launchers.
    pub fn launcher_commands(&self) -> (v: Vec<&'static str>)
        ensures
            v@.len() == launcher_probes().len(),
            forall|i: int| 0 <= i < v@.len() ==> v@[i]@ == #[trigger] launcher_probes()[i].2,
    {
        vec!["steam", "lutris", "heroic", "bottles", "minigalaxy"]
    }

    /// The launchers found on the `PATH`, given for each command of
    /// `launcher_commands` (in order) whether it was found.
    pub fn get_installed_launchers(&self, found: &[bool]) -> (r: Vec<InstalledLauncher>)
        ensures
            r@.map_values(|l: InstalledLauncher| installed_launcher_view(l)) == found_launchers(
                launcher_probes(),
                found@,
            ).map_values(
                |p: (Seq<char>, Seq<char>, Seq<char>)|
                    (p.0, Some(p.1), None::<Seq<char>>, p.2),
            ),
    {
        let probes: Vec<(&'static str, &'static str, &'static str)> = vec![
            ("steam", "Steam", "steam"),
            ("lutris", "Lutris", "lutris"),
            ("heroic-games-launcher-bin", "Heroic Games Launcher", "heroic"),
            ("bottles", "Bottles", "bottles"),
            ("minigalaxy", "Minigalaxy", "minigalaxy"),
        ];
        let ghost pv = probes@.map_values(
            |p: (&str, &str, &str)| (p.0@, p.1@, p.2@),
        );
        assert(pv =~= launcher_probes());
        let mut r: Vec<InstalledLauncher> = Vec::new();
        let mut i: usize = 0;
        assert(pv.take(0) =~= Seq::<(Seq<char>, Seq<char>, Seq<char>)>::empty());
        while i < probes.len()
            invariant
                i <= probes@.len(),
                pv == probes@.map_values(|p: (&str, &str, &str)| (p.0@, p.1@, p.2@)),
                r@.map_values(|l: InstalledLauncher| installed_launcher_view(l)) == found_launchers(
                    pv.take(i as int),
                    found@,
                ).map_values(
                    |p: (Seq<char>, Seq<char>, Seq<char>)|
                        (p.0, Some(p.1), None::<Seq<char>>, p.2),
                ),
            decreases probes@.len() - i,
        {
            let ghost before = r@;
            let ghost t = pv.take(i + 1);
            proof {
                assert(t.drop_last() =~= pv.take(i as int));
                assert(t[i as int] == pv[i as int]);
            }
            if i < found.len() && found[i] {
                let (id, name, command) = probes[i];
                let l = InstalledLauncher {
                    id: String::from_str(id),
                    name: Some(String::from_str(name)),
                    icon: None,
                    command: String::from_str(command),
                };
                r.push(l);
                assert(r@.map_values(|l: InstalledLauncher| installed_launcher_view(l))
                    =~= before.map_values(|l: InstalledLauncher| installed_launcher_view(l)).push(
                    installed_launcher_view(l),
                ));
                assert(found_launchers(t, found@) =~= found_launchers(pv.take(i as int), found@).push(pv[i as int]));
            } else {
                assert(found_launchers(t, found@) =~= found_launchers(pv.take(i as int), found@));
            }
            i = i + 1;
        }
        assert(pv.take(probes@.len() as int) =~= pv);
        r
    }
}

/// Where the dashboard looks for a launcher's cached icon under a home
/// directory.
pub open spec fn spec_dashboard_icon(home: Seq<char>, id: Seq<char>) -> Seq<char> {
    path_join(home, ".local/share/gamehub/icons/"@ + id + ".png"@)
}

/// Where the dashboard looks for a launcher's cached icon.
pub fn dashboard_icon_path(home: &str, id: &str) -> (p: String)
    ensures
        p@ == spec_dashboard_icon(home@, id@),
{
    let mut rel = String::from_str(".local/share/gamehub/icons/");
    rel.append(id);
    rel.append(".png");
    join_path(home, rel.as_str())
}

/// Law: the dashboard looks for a launcher's icon exactly where the launcher
/// page caches it, for any launcher id that is not an absolute path.
pub proof fn lemma_dashboard_icon_is_cached_icon(home: Seq<char>, id: Seq<char>)
    requires
        !crate::text::starts_with(id, "/"@),
    ensures
        spec_dashboard_icon(home, id) == crate::launcher_manager::icon_file(
            crate::launcher_manager::icon_cache_dir(home),
            id,
        ),
{
    reveal_strlit("/");
    reveal_strlit(".local/share/gamehub/icons/");
    reveal_strlit(".local/share/gamehub/icons");
    reveal_strlit(".png");
    let dir = ".local/share/gamehub/icons"@;
    let rel = ".local/share/gamehub/icons/"@ + id + ".png"@;
    let file = id + ".png"@;
    assert(!crate::text::starts_with(dir, "/"@)) by {
        assert(dir.subrange(0, 1)[0] == '.');
    }
    assert(!crate::text::starts_with(rel, "/"@)) by {
        assert(rel.subrange(0, 1)[0] == '.');
    }
    assert(!crate::text::starts_with(file, "/"@)) by {
        if id.len() > 0 {
            assert(file.subrange(0, 1) =~= id.subrange(0, 1));
        } else {
            assert(file.subrange(0, 1)[0] == '.');
        }
    }
    let d = path_join(home, dir);
    assert(d.len() > 0 && d.last() == 's');
    assert(rel =~= dir + seq!['/'] + file);
    if home.len() == 0 {
        assert(d == dir);
    } else if home.last() == '/' {
        assert(path_join(home, rel) =~= d + seq!['/'] + file);
    } else {
        assert(path_join(home, rel) =~= d + seq!['/'] + file);
    }
}

/// The label for Vulkan support.
pub fn vulkan_label(supported: bool) -> (l: &'static str)
    ensures
        l@ == if supported {
            "Available"@
        } else {
            "Not detected"@
        },
{
    if supported {
        "Available"
    } else {
        "Not detected"
    }
}

/// The label for something that may be installed.
pub fn installed_label(installed: bool) -> (l: &'static str)
    ensures
        l@ == if installed {
            "Installed"@
        } else {
            "Not installed"@
        },
{
    if installed {
        "Installed"
    } else {
        "Not installed"
    }
}

/// The name the dashboard shows for a launcher: its name, or "Unknown".
pub fn display_name(l: &InstalledLauncher) -> (n: String)
    ensures
        n@ == match l.name {
            Some(s) => s@,
            None => "Unknown"@,
        },
{
    match &l.name {
        Some(s) => s.clone(),
        None => String::from_str("Unknown"),
    }
}

/// The first line holding `a` or `b` is line `j` when line `j` holds one of
/// them and no line before it does; there is none when no line does.
proof fn lemma_first_line_with(ls: Seq<Seq<char>>, a: Seq<char>, b: Seq<char>, j: int)
    requires
        0 <= j <= ls.len(),
        forall|k: int| 0 <= k < j ==> !contains(#[trigger] ls[k], a) && !contains(ls[k], b),
        j < ls.len() ==> contains(ls[j], a) || contains(ls[j], b),
    ensures
        first_line_with(ls, a, b) == if j < ls.len() { Some(ls[j]) } else { None },
    decreases j,
{
    if ls.len() > 0 && j > 0 {
        let t = ls.drop_first();
        assert(!contains(ls[0], a) && !contains(ls[0], b));
        assert forall|k: int| 0 <= k < j - 1 implies !contains(#[trigger] t[k], a) && !contains(t[k], b) by {
            assert(t[k] == ls[k + 1]);
        }
        if j < ls.len() {
            assert(t[j - 1] == ls[j]);
        }
        lemma_first_line_with(t, a, b, j - 1);
    }
}

/// Law: the graphics card is read from the first line of `lspci`'s output
/// that mentions `VGA` or `3D`, whichever kind comes first: it is what
/// follows that line's first `:`, trimmed ("No GPU detected" when the line has
/// no `:`). With no such line, or no output, no card is detected.
pub proof fn lemma_gpu_from_first_display_line(out: Seq<char>, j: int)
    requires
        0 <= j <= lines(out).len(),
        forall|k: int|
            0 <= k < j ==> !contains(#[trigger] lines(out)[k], "VGA"@) && !contains(
                lines(out)[k],
                "3D"@,
            ),
        j < lines(out).len() ==> contains(lines(out)[j], "VGA"@) || contains(lines(out)[j], "3D"@),
    ensures
        j < lines(out).len() ==> spec_gpu_info(Some(out)) == match after_first(lines(out)[j], ':') {
            Some(rest) => trim(rest),
            None => "No GPU detected"@,
        },
        j == lines(out).len() ==> spec_gpu_info(Some(out)) == "No GPU detected"@,
        spec_gpu_info(None) == "No GPU detected"@,
{
    lemma_first_line_with(lines(out), "VGA"@, "3D"@, j);
}

/// Law: the driver is read from the first line of `glxinfo`'s output that
/// mentions the OpenGL renderer string: what follows its first `:`, trimmed;
/// with no such line (or no `:` in it), or no output, an error text asks for
/// mesa-utils.
pub proof fn lemma_driver_from_renderer_line(out: Seq<char>, j: int)
    requires
        0 <= j <= lines(out).len(),
        forall|k: int| 0 <= k < j ==> !contains(#[trigger] lines(out)[k], "OpenGL renderer string"@),
        j < lines(out).len() ==> contains(lines(out)[j], "OpenGL renderer string"@),
    ensures
        j < lines(out).len() ==> spec_driver_info(Some(out)) == match after_first(lines(out)[j], ':') {
            Some(rest) => trim(rest),
            None => "Error detecting driver (install mesa-utils?)"@,
        },
        j == lines(out).len() ==> spec_driver_info(Some(out))
            == "Error detecting driver (install mesa-utils?)"@,
        spec_driver_info(None) == "Error detecting driver (install mesa-utils?)"@,
{
    lemma_first_line_with(lines(out), "OpenGL renderer string"@, "OpenGL renderer string"@, j);
}

/// Law: the dashboard looks on the `PATH` for exactly the launchers of the
/// launcher catalogue, in its order, each under its id, name and command.
pub proof fn lemma_probes_follow_launcher_catalogue()
    ensures
        launcher_probes().len() == crate::launcher_manager::launcher_catalog().len(),
        forall|i: int|
            0 <= i < launcher_probes().len() ==> #[trigger] launcher_probes()[i] == (
                crate::launcher_manager::launcher_catalog()[i].id,
                crate::launcher_manager::launcher_catalog()[i].name,
                crate::launcher_manager::launcher_catalog()[i].command,
            ),
{
}

/// Every probe that was found is listed, and the list keeps the probes'
/// order.
proof fn lemma_found_listed(
    probes: Seq<(Seq<char>, Seq<char>, Seq<char>)>,
    found: Seq<bool>,
    i: int,
)
    requires
        0 <= i < probes.len(),
        i < found.len() && found[i],
    ensures
        found_launchers(probes.take(i), found).len() < found_launchers(probes, found).len(),
        found_launchers(probes, found)[found_launchers(probes.take(i), found).len() as int]
            == probes[i],
    decreases probes.len(),
{
    let front = probes.drop_last();
    if i == probes.len() - 1 {
        assert(probes.take(i) =~= front);
    } else {
        assert(front[i] == probes[i]);
        assert(front.take(i) =~= probes.take(i));
        lemma_found_listed(front, found, i);
    }
}

/// Law: every launcher found on the `PATH` is listed among the installed
/// launchers, after those found before it in the catalogue's order.
pub proof fn lemma_found_launcher_listed(found: Seq<bool>, i: int)
    requires
        0 <= i < launcher_probes().len(),
        i < found.len() && found[i],
    ensures
        found_launchers(launcher_probes(), found).contains(launcher_probes()[i]),
        found_launchers(launcher_probes().take(i), found).len() < found_launchers(
            launcher_probes(),
            found,
        ).len(),
{
    lemma_found_listed(launcher_probes(), found, i);
    let k = found_launchers(launcher_probes().take(i), found).len() as int;
    assert(found_launchers(launcher_probes(), found)[k] == launcher_probes()[i]);
}

} // verus!
