//! The catalogue of game launchers, what the hub decides about each from the
//! local package database, and the steps that fetch a launcher's icon into
//! the local cache.
use vstd::prelude::*;
use crate::pacman::{
    lemma_lookup_some, lookup, spec_install_command, spec_package_version, spec_remove_command, EntryView,
    PacmanManager,
};
use crate::paths::{join_path, path_join};
use crate::text::{
    chars_of, index_of_from, len_before, lemma_len_before_bound, opt_view, slice_vec, str_eq,
    string_of,
};
use crate::tool_manager::str_views;

verus! {

broadcast use vstd::string::group_string_axioms;

/// A game launcher that the hub offers: its id, display name, the pacman
/// packages that provide it (the first one decides whether it is installed),
/// the command that starts it, where its icon is downloaded from, and a
/// description.
pub struct LauncherInfo {
    pub id: String,
    pub name: &'static str,
    pub packages: &'static [&'static str],
    pub command: &'static str,
    pub icon_url: &'static str,
    pub description: &'static str,
}

/// Abstract view of a launcher.
#[verifier::ext_equal]
pub struct LauncherView {
    pub id: Seq<char>,
    pub name: Seq<char>,
    pub packages: Seq<Seq<char>>,
    pub command: Seq<char>,
    pub icon_url: Seq<char>,
    pub description: Seq<char>,
}

impl View for LauncherInfo {
    type V = LauncherView;

    open spec fn view(&self) -> LauncherView {
        LauncherView {
            id: self.id@,
            name: self.name@,
            packages: str_views(self.packages@),
            command: self.command@,
            icon_url: self.icon_url@,
            description: self.description@,
        }
    }
}

/// The views of a sequence of launchers.
pub open spec fn launcher_views(v: Seq<LauncherInfo>) -> Seq<LauncherView> {
    v.map_values(|l: LauncherInfo| l@)
}

/// The hub's catalogue of launchers, in display order.
pub open spec fn launcher_catalog() -> Seq<LauncherView> {
    seq![
        LauncherView {
            id: "steam"@,
            name: "Steam"@,
            packages: seq!["steam"@, "steam-native-runtime"@],
            command: "steam"@,
            icon_url: "https://upload.wikimedia.org/wikipedia/commons/8/83/Steam_icon_logo.svg"@,
            description: "The ultimate entertainment platform"@,
        },
        LauncherView {
            id: "lutris"@,
            name: "Lutris"@,
            packages: seq!["lutris"@],
            command: "lutris"@,
            icon_url: "https://raw.githubusercontent.com/lutris/lutris/master/share/icons/hicolor/128x128/apps/net.lutris.Lutris.png"@,
            description: "Open source gaming platform"@,
        },
        LauncherView {
            id: "heroic-games-launcher-bin"@,
            name: "Heroic Games Launcher"@,
            packages: seq!["heroic-games-launcher-bin"@],
            command: "heroic"@,
            icon_url: "https://raw.githubusercontent.com/Heroic-Games-Launcher/HeroicGamesLauncher/main/flatpak/com.heroicgameslauncher.hgl.png"@,
            description: "Epic Games, GOG, and Amazon Games launcher"@,
        },
        LauncherView {
            id: "bottles"@,
            name: "Bottles"@,
            packages: seq!["bottles"@],
            command: "bottles"@,
            icon_url: "https://raw.githubusercontent.com/bottlesdevs/Bottles/main/data/icons/hicolor/scalable/apps/com.usebottles.bottles.svg"@,
            description: "Run Windows software and games"@,
        },
        LauncherView {
            id: "minigalaxy"@,
            name: "Minigalaxy"@,
            packages: seq!["minigalaxy"@],
            command: "minigalaxy"@,
            icon_url: "https://raw.githubusercontent.com/sharkwouter/minigalaxy/master/data/icons/128x128/io.github.sharkwouter.Minigalaxy.png"@,
            description: "Simple GOG client"@,
        },
    ]
}

/// `i` is the first position of a launcher with this id.
pub open spec fn launcher_position(ls: Seq<LauncherView>, id: Seq<char>, i: int) -> bool {
    &&& 0 <= i < ls.len()
    &&& ls[i].id == id
    &&& forall|j: int| 0 <= j < i ==> ls[j].id != id
}

/// The first launcher with this id, if any.
pub open spec fn find_launcher(ls: Seq<LauncherView>, id: Seq<char>) -> Option<LauncherView> {
    if exists|i: int| launcher_position(ls, id, i) {
        Some(ls[choose|i: int| launcher_position(ls, id, i)])
    } else {
        None
    }
}

/// Whether the launcher with this id is installed: its first package is, or,
/// for an id that names no launcher, the package of that name is.
pub open spec fn launcher_installed(db: Seq<EntryView>, id: Seq<char>) -> bool {
    match find_launcher(launcher_catalog(), id) {
        Some(l) => lookup(db, l.packages[0]) is Some,
        None => lookup(db, id) is Some,
    }
}

/// The launchers of `ls` that are installed, in order.
pub open spec fn installed_launchers(ls: Seq<LauncherView>, db: Seq<EntryView>) -> Seq<
    LauncherView,
>
    decreases ls.len(),
{
    if ls.len() == 0 {
        seq![]
    } else {
        installed_launchers(ls.drop_last(), db) + if launcher_installed(db, ls.last().id) {
            seq![ls.last()]
        } else {
            seq![]
        }
    }
}

/// Where the icon cache lives under a home directory.
pub open spec fn icon_cache_dir(home: Seq<char>) -> Seq<char> {
    path_join(home, ".local/share/gamehub/icons"@)
}

pub proof fn lemma_launcher_find_at(ls: Seq<LauncherView>, id: Seq<char>, i: int)
    requires
        launcher_position(ls, id, i),
    ensures
        find_launcher(ls, id) == Some(ls[i]),
{
    let k = choose|k: int| launcher_position(ls, id, k);
    assert(i == k);
}

fn launcher(
    id: &'static str,
    name: &'static str,
    packages: &'static [&'static str],
    command: &'static str,
    icon_url: &'static str,
    description: &'static str,
) -> (l: LauncherInfo)
    ensures
        l.id@ == id@,
        l.name == name,
        l.packages == packages,
        l.command == command,
        l.icon_url == icon_url,
        l.description == description,
{
    LauncherInfo { id: String::from_str(id), name, packages, command, icon_url, description }
}

/// The packages of a launcher as owned strings.
fn package_strings(packages: &'static [&'static str]) -> (v: Vec<String>)
    ensures
        v@.map_values(|x: String| x@) == str_views(packages@),
{
    let mut v: Vec<String> = Vec::new();
    let mut i: usize = 0;
    while i < packages.len()
        invariant
            i <= packages@.len(),
            v@.map_values(|x: String| x@) == str_views(packages@.take(i as int)),
        decreases packages@.len() - i,
    {
        let s = String::from_str(packages[i]);
        let ghost before = v@;
        v.push(s);
        assert(v@.map_values(|x: String| x@) =~= before.map_values(|x: String| x@).push(s@));
        assert(packages@.take(i + 1) =~= packages@.take(i as int).push(packages@[i as int]));
        i = i + 1;
    }
    assert(packages@.take(packages@.len() as int) =~= packages@);
    v
}

/// A copy of a launcher.
fn copy_launcher(l: &LauncherInfo) -> (c: LauncherInfo)
    ensures
        c@ == l@,
{
    LauncherInfo {
        id: l.id.clone(),
        name: l.name,
        packages: l.packages,
        command: l.command,
        icon_url: l.icon_url,
        description: l.description,
    }
}

/// The first position of a launcher with this id.
fn position(ls: &Vec<LauncherInfo>, launcher_id: &str) -> (r: Option<usize>)
    ensures
        r matches Some(i) ==> launcher_position(launcher_views(ls@), launcher_id@, i as int),
        r is None ==> find_launcher(launcher_views(ls@), launcher_id@) is None,
{
    let ghost vs = launcher_views(ls@);
    let mut i: usize = 0;
    while i < ls.len()
        invariant
            i <= ls@.len(),
            vs == launcher_views(ls@),
            forall|j: int| 0 <= j < i ==> vs[j].id != launcher_id@,
        decreases ls@.len() - i,
    {
        if str_eq(ls[i].id.as_str(), launcher_id) {
            return Some(i);
        }
        i = i + 1;
    }
    None
}

/// The hub's view of the game launchers, over a snapshot of the local package
/// database and the location of the icon cache.
pub struct LauncherManager {
    pacman: PacmanManager,
    cache_dir: String,
}

impl LauncherManager {
    /// A manager over the given package database, with its icon cache under
    /// the given home directory.
    pub fn new(pacman: PacmanManager, home: &str) -> (m: Self)
        ensures
            m.db() == pacman@,
            m.cache_dir() == icon_cache_dir(home@),
    {
        let cache_dir = join_path(home, ".local/share/gamehub/icons");
        Self { pacman, cache_dir }
    }

    /// The package database the manager consults.
    pub closed spec fn db(&self) -> Seq<EntryView> {
        self.pacman@
    }

    /// The directory of the icon cache.
    pub closed spec fn cache_dir(&self) -> Seq<char> {
        self.cache_dir@
    }

    /// The directory of the icon cache.
    pub fn icon_cache_dir(&self) -> (d: &str)
        ensures
            d@ == self.cache_dir(),
    {
        self.cache_dir.as_str()
    }

    /// All launchers of the catalogue, in display order.
    pub fn all_launchers(&self) -> (ls: Vec<LauncherInfo>)
        ensures
            launcher_views(ls@) == launcher_catalog(),
            forall|i: int| 0 <= i < ls@.len() ==> ls@[i].packages@.len() >= 1,
    {
        let v = vec![
            launcher(
                "steam",
                "Steam",
                &["steam", "steam-native-runtime"],
                "steam",
                "https://upload.wikimedia.org/wikipedia/commons/8/83/Steam_icon_logo.svg",
                "The ultimate entertainment platform",
            ),
            launcher(
                "lutris",
                "Lutris",
                &["lutris"],
                "lutris",
                "https://raw.githubusercontent.com/lutris/lutris/master/share/icons/hicolor/128x128/apps/net.lutris.Lutris.png",
                "Open source gaming platform",
            ),
            launcher(
                "heroic-games-launcher-bin",
                "Heroic Games Launcher",
                &["heroic-games-launcher-bin"],
                "heroic",
                "https://raw.githubusercontent.com/Heroic-Games-Launcher/HeroicGamesLauncher/main/flatpak/com.heroicgameslauncher.hgl.png",
                "Epic Games, GOG, and Amazon Games launcher",
            ),
            launcher(
                "bottles",
                "Bottles",
                &["bottles"],
                "bottles",
                "https://raw.githubusercontent.com/bottlesdevs/Bottles/main/data/icons/hicolor/scalable/apps/com.usebottles.bottles.svg",
                "Run Windows software and games",
            ),
            launcher(
                "minigalaxy",
                "Minigalaxy",
                &["minigalaxy"],
                "minigalaxy",
                "https://raw.githubusercontent.com/sharkwouter/minigalaxy/master/data/icons/128x128/io.github.sharkwouter.Minigalaxy.png",
                "Simple GOG client",
            ),
        ];
        assert(str_views(v@[0].packages@) =~= seq!["steam"@, "steam-native-runtime"@]);
        assert(v@[0]@ =~= launcher_catalog()[0]);
        assert(str_views(v@[1].packages@) =~= seq!["lutris"@]);
        assert(v@[1]@ =~= launcher_catalog()[1]);
        assert(str_views(v@[2].packages@) =~= seq!["heroic-games-launcher-bin"@]);
        assert(v@[2]@ =~= launcher_catalog()[2]);
        assert(str_views(v@[3].packages@) =~= seq!["bottles"@]);
        assert(v@[3]@ =~= launcher_catalog()[3]);
        assert(str_views(v@[4].packages@) =~= seq!["minigalaxy"@]);
        assert(v@[4]@ =~= launcher_catalog()[4]);
        assert(launcher_views(v@) =~= launcher_catalog());
        v
    }

    /// Is the launcher with this id installed? A launcher of the catalogue is
    /// installed when its first package is; an id that names no launcher is
    /// taken as a package name.
    pub fn is_installed(&self, launcher_id: &str) -> (b: bool)
        ensures
            b == launcher_installed(self.db(), launcher_id@),
    {
        let ls = self.all_launchers();
        match position(&ls, launcher_id) {
            Some(i) => {
                proof {
                    lemma_launcher_find_at(launcher_views(ls@), launcher_id@, i as int);
                    assert(ls@[i as int]@.packages[0] == ls@[i as int].packages@[0]@);
                }
                self.pacman.is_installed(ls[i].packages[0])
            },
            None => self.pacman.is_installed(launcher_id),
        }
    }

    /// The installed launchers, in catalogue order.
    pub fn get_installed(&self) -> (r: Vec<LauncherInfo>)
        ensures
            launcher_views(r@) == installed_launchers(launcher_catalog(), self.db()),
    {
        let ls = self.all_launchers();
        let mut r: Vec<LauncherInfo> = Vec::new();
        let mut i: usize = 0;
        assert(launcher_catalog().take(0) =~= Seq::<LauncherView>::empty());
        while i < ls.len()
            invariant
                i <= ls@.len(),
                launcher_views(ls@) == launcher_catalog(),
                launcher_views(r@) == installed_launchers(
                    launcher_catalog().take(i as int),
                    self.db(),
                ),
            decreases ls@.len() - i,
        {
            let ghost before = r@;
            proof {
                let t = launcher_catalog().take(i + 1);
                assert(t.drop_last() =~= launcher_catalog().take(i as int));
                assert(t.last() == ls@[i as int]@);
            }
            if self.is_installed(ls[i].id.as_str()) {
                let c = copy_launcher(&ls[i]);
                r.push(c);
                assert(launcher_views(r@) =~= launcher_views(before).push(c@));
            } else {
                assert(launcher_views(before) + seq![] =~= launcher_views(before));
            }
            i = i + 1;
        }
        assert(launcher_catalog().take(ls@.len() as int) =~= launcher_catalog());
        r
    }

    /// The command line that installs the packages of the launcher with this
    /// id, or `None` when no launcher has it.
    pub fn install_command(&self, launcher_id: &str) -> (r: Option<String>)
        ensures
            match find_launcher(launcher_catalog(), launcher_id@) {
                Some(l) => r is Some && r->0@ == spec_install_command(l.packages),
                None => r is None,
            },
    {
        let ls = self.all_launchers();
        match position(&ls, launcher_id) {
            Some(i) => {
                proof {
                    lemma_launcher_find_at(launcher_views(ls@), launcher_id@, i as int);
                }
                let packages = package_strings(ls[i].packages);
                Some(PacmanManager::install_command(packages.as_slice()))
            },
            None => None,
        }
    }

    /// The command line that removes the packages of the launcher with this
    /// id, or `None` when no launcher has it.
    pub fn remove_command(&self, launcher_id: &str) -> (r: Option<String>)
        ensures
            match find_launcher(launcher_catalog(), launcher_id@) {
                Some(l) => r is Some && r->0@ == spec_remove_command(l.packages),
                None => r is None,
            },
    {
        let ls = self.all_launchers();
        match position(&ls, launcher_id) {
            Some(i) => {
                proof {
                    lemma_launcher_find_at(launcher_views(ls@), launcher_id@, i as int);
                }
                let packages = package_strings(ls[i].packages);
                Some(PacmanManager::remove_command(packages.as_slice()))
            },
            None => None,
        }
    }

    /// The installed version of the launcher with this id: that of its first
    /// package; `None` when no launcher has the id.
    pub fn get_version(&self, launcher_id: &str) -> (r: Option<String>)
        ensures
            opt_view(r) == match find_launcher(launcher_catalog(), launcher_id@) {
                Some(l) => spec_package_version(self.db(), l.packages[0]),
                None => None,
            },
    {
        let ls = self.all_launchers();
        match position(&ls, launcher_id) {
            Some(i) => {
                proof {
                    lemma_launcher_find_at(launcher_views(ls@), launcher_id@, i as int);
                    assert(ls@[i as int]@.packages[0] == ls@[i as int].packages@[0]@);
                }
                self.pacman.get_package_version(ls[i].packages[0])
            },
            None => None,
        }
    }
}

/// The `LANGUAGE` value a spawned program gets: the first language of the
/// list, without the fallbacks that follow the first `:`.
pub open spec fn spec_strip_language_fallbacks(language: Seq<char>) -> Seq<char> {
    language.take(len_before(language, ':') as int)
}

/// Strips the fallbacks from a `LANGUAGE` value (`fa:en_US:en` becomes `fa`).
pub fn strip_language_fallbacks(language: &str) -> (r: String)
    ensures
        r@ == spec_strip_language_fallbacks(language@),
{
    let v = chars_of(language);
    let k = index_of_from(&v, ':', 0);
    assert(v@.skip(0) =~= v@);
    let first = slice_vec(&v, 0, k);
    assert(first@ =~= v@.take(k as int));
    string_of(&first)
}

// ---------------------------------------------------------------------------
// Laws
// ---------------------------------------------------------------------------

/// No two launchers of the catalogue share an id.
pub proof fn lemma_launcher_ids_distinct()
    ensures
        forall|i: int, j: int|
            0 <= i < j < launcher_catalog().len() ==> launcher_catalog()[i].id
                != launcher_catalog()[j].id,
{
    reveal_strlit("steam");
    reveal_strlit("lutris");
    reveal_strlit("heroic-games-launcher-bin");
    reveal_strlit("bottles");
    reveal_strlit("minigalaxy");
    let c = launcher_catalog();
    assert forall|i: int, j: int| 0 <= i < j < c.len() implies c[i].id != c[j].id by {
        if c[i].id == c[j].id {
            assert(c[i].id.len() == c[j].id.len());
            assert(c[i].id[0] == c[j].id[0]);
        }
    }
}

/// Every launcher of the catalogue is found by its own id.
pub proof fn lemma_find_own_launcher(i: int)
    requires
        0 <= i < launcher_catalog().len(),
    ensures
        find_launcher(launcher_catalog(), launcher_catalog()[i].id) == Some(launcher_catalog()[i]),
{
    lemma_launcher_ids_distinct();
    lemma_launcher_find_at(launcher_catalog(), launcher_catalog()[i].id, i);
}

/// The installed launchers are launchers of the catalogue that are installed.
pub proof fn lemma_installed_launchers_sound(ls: Seq<LauncherView>, db: Seq<EntryView>)
    ensures
        forall|k: int| 0 <= k < installed_launchers(ls, db).len() ==> {
            let l = #[trigger] installed_launchers(ls, db)[k];
            &&& ls.contains(l)
            &&& launcher_installed(db, l.id)
        },
    decreases ls.len(),
{
    if ls.len() > 0 {
        lemma_installed_launchers_sound(ls.drop_last(), db);
        let r = installed_launchers(ls, db);
        let p = installed_launchers(ls.drop_last(), db);
        assert forall|k: int| 0 <= k < r.len() implies {
            let l = #[trigger] r[k];
            &&& ls.contains(l)
            &&& launcher_installed(db, l.id)
        } by {
            if k < p.len() {
                assert(r[k] == p[k]);
                let w = choose|w: int| 0 <= w < ls.drop_last().len() && ls.drop_last()[w] == p[k];
                assert(ls[w] == p[k]);
            } else {
                assert(ls[ls.len() - 1] == ls.last());
            }
        }
    }
}

// ---------------------------------------------------------------------------
// Fetching a launcher's icon into the cache
// ---------------------------------------------------------------------------

/// How far the fetch of an icon has come.
#[derive(Debug, Clone, Copy, PartialEq, Eq, Structural)]
pub enum IconStage {
    Start,
    AwaitExisting,
    AwaitDownload,
    AwaitRead,
    AwaitConvert,
    AwaitMove,
    Finished,
}

/// What the caller reports after doing what the last action asked.
pub enum IconEvent {
    /// The fetch begins.
    Begin,
    /// Whether the icon is already in the cache.
    Existing(bool),
    /// Whether the download succeeded, and whether the temporary file exists.
    Downloaded { success: bool, tmp_exists: bool },
    /// The bytes of the temporary file, or `None` when it could not be read.
    TempRead(Option<Vec<u8>>),
    /// Whether the SVG converter succeeded, and whether the icon now exists.
    Converted { success: bool, icon_exists: bool },
    /// Whether the icon exists after the temporary file was moved in place.
    Moved { icon_exists: bool },
}

/// What the caller is asked to do next.
pub enum IconAction {
    /// Report whether `path` exists.
    CheckIcon { path: String },
    /// Download `url` to `dest`, then report the outcome.
    Download { url: String, dest: String },
    /// Read the file at `path` and report its bytes.
    ReadTemp { path: String },
    /// Render the SVG at `src` as a 128x128 PNG at `dest`, delete `src`, and
    /// report the outcome.
    ConvertSvg { src: String, dest: String },
    /// Rename `src` to `dest` and report whether `dest` exists.
    MoveIntoPlace { src: String, dest: String },
    /// The fetch is over: delete `discard` if given; `icon` is the cached
    /// icon, if there is one.
    Finish { icon: Option<String>, discard: Option<String> },
}

/// Abstract view of an action.
pub enum IconActionView {
    CheckIcon(Seq<char>),
    Download(Seq<char>, Seq<char>),
    ReadTemp(Seq<char>),
    ConvertSvg(Seq<char>, Seq<char>),
    MoveIntoPlace(Seq<char>, Seq<char>),
    Finish(Option<Seq<char>>, Option<Seq<char>>),
}

impl View for IconAction {
    type V = IconActionView;

    open spec fn view(&self) -> IconActionView {
        match self {
            IconAction::CheckIcon { path } => IconActionView::CheckIcon(path@),
            IconAction::Download { url, dest } => IconActionView::Download(url@, dest@),
            IconAction::ReadTemp { path } => IconActionView::ReadTemp(path@),
            IconAction::ConvertSvg { src, dest } => IconActionView::ConvertSvg(src@, dest@),
            IconAction::MoveIntoPlace { src, dest } => IconActionView::MoveIntoPlace(src@, dest@),
            IconAction::Finish { icon, discard } => IconActionView::Finish(
                opt_view(*icon),
                opt_view(*discard),
            ),
        }
    }
}

/// The bytes begin like an SVG document: `<svg` or `<?xml`.
pub open spec fn svg_signature(b: Seq<u8>) -> bool {
    ||| (b.len() >= 4 && b.take(4) == seq![0x3cu8, 0x73u8, 0x76u8, 0x67u8])
    ||| (b.len() >= 5 && b.take(5) == seq![0x3cu8, 0x3fu8, 0x78u8, 0x6du8, 0x6cu8])
}

/// One step of an icon fetch: from the stage and what the caller reports, the
/// next stage and what the caller is asked to do.
pub open spec fn icon_transition(
    stage: IconStage,
    icon: Seq<char>,
    tmp: Seq<char>,
    url: Seq<char>,
    ev: IconEvent,
) -> (IconStage, IconActionView) {
    match (stage, ev) {
        (IconStage::Start, IconEvent::Begin) => (
            IconStage::AwaitExisting,
            IconActionView::CheckIcon(icon),
        ),
        (IconStage::AwaitExisting, IconEvent::Existing(true)) => (
            IconStage::Finished,
            IconActionView::Finish(Some(icon), None),
        ),
        (IconStage::AwaitExisting, IconEvent::Existing(false)) => (
            IconStage::AwaitDownload,
            IconActionView::Download(url, tmp),
        ),
        (IconStage::AwaitDownload, IconEvent::Downloaded { success, tmp_exists }) => {
            if success && tmp_exists {
                (IconStage::AwaitRead, IconActionView::ReadTemp(tmp))
            } else {
                (IconStage::Finished, IconActionView::Finish(None, Some(tmp)))
            }
        },
        (IconStage::AwaitRead, IconEvent::TempRead(bytes)) => {
            if bytes matches Some(b) && svg_signature(b@) {
                (IconStage::AwaitConvert, IconActionView::ConvertSvg(tmp, icon))
            } else {
                (IconStage::AwaitMove, IconActionView::MoveIntoPlace(tmp, icon))
            }
        },
        (IconStage::AwaitConvert, IconEvent::Converted { success, icon_exists }) => (
            IconStage::Finished,
            IconActionView::Finish(if success && icon_exists { Some(icon) } else { None }, None),
        ),
        (IconStage::AwaitMove, IconEvent::Moved { icon_exists }) => (
            IconStage::Finished,
            IconActionView::Finish(if icon_exists { Some(icon) } else { None }, None),
        ),
        _ => (IconStage::Finished, IconActionView::Finish(None, None)),
    }
}

/// Does the data begin like an SVG document?
pub fn is_svg_data(b: &Vec<u8>) -> (r: bool)
    ensures
        r == svg_signature(b@),
{
    let svg = b.len() >= 4 && b[0] == 0x3c && b[1] == 0x73 && b[2] == 0x76 && b[3] == 0x67;
    let xml = b.len() >= 5 && b[0] == 0x3c && b[1] == 0x3f && b[2] == 0x78 && b[3] == 0x6d && b[4]
        == 0x6c;
    proof {
        if b@.len() >= 4 {
            assert(svg <==> b@.take(4) =~= seq![0x3cu8, 0x73u8, 0x76u8, 0x67u8]);
        }
        if b@.len() >= 5 {
            assert(xml <==> b@.take(5) =~= seq![0x3cu8, 0x3fu8, 0x78u8, 0x6du8, 0x6cu8]);
        }
    }
    svg || xml
}

fn copy_string(s: &String) -> (c: String)
    ensures
        c@ == s@,
{
    s.clone()
}

/// The fetch of one launcher's icon into the cache, driven step by step by a
/// caller that does the file and network work.
pub struct IconFetch {
    stage: IconStage,
    icon_path: String,
    tmp_path: String,
    url: String,
}

impl IconFetch {
    /// The current stage.
    pub closed spec fn spec_stage(&self) -> IconStage {
        self.stage
    }

    /// Where the icon is cached.
    pub closed spec fn spec_icon_path(&self) -> Seq<char> {
        self.icon_path@
    }

    /// Where the download lands before it is checked.
    pub closed spec fn spec_tmp_path(&self) -> Seq<char> {
        self.tmp_path@
    }

    /// Where the icon is downloaded from.
    pub closed spec fn spec_url(&self) -> Seq<char> {
        self.url@
    }

    /// The current stage.
    pub fn stage(&self) -> (s: IconStage)
        ensures
            s == self.spec_stage(),
    {
        self.stage
    }

    /// Takes one step: the caller reports `ev` and gets the next action.
    pub fn step(&mut self, ev: IconEvent) -> (a: IconAction)
        ensures
            (final(self).spec_stage(), a@) == icon_transition(
                old(self).spec_stage(),
                old(self).spec_icon_path(),
                old(self).spec_tmp_path(),
                old(self).spec_url(),
                ev,
            ),
            final(self).spec_icon_path() == old(self).spec_icon_path(),
            final(self).spec_tmp_path() == old(self).spec_tmp_path(),
            final(self).spec_url() == old(self).spec_url(),
    {
        let icon = copy_string(&self.icon_path);
        let tmp = copy_string(&self.tmp_path);
        match (self.stage, ev) {
            (IconStage::Start, IconEvent::Begin) => {
                self.stage = IconStage::AwaitExisting;
                IconAction::CheckIcon { path: icon }
            },
            (IconStage::AwaitExisting, IconEvent::Existing(existing)) => {
                if existing {
                    self.stage = IconStage::Finished;
                    IconAction::Finish { icon: Some(icon), discard: None }
                } else {
                    self.stage = IconStage::AwaitDownload;
                    IconAction::Download { url: copy_string(&self.url), dest: tmp }
                }
            },
            (IconStage::AwaitDownload, IconEvent::Downloaded { success, tmp_exists }) => {
                if success && tmp_exists {
                    self.stage = IconStage::AwaitRead;
                    IconAction::ReadTemp { path: tmp }
                } else {
                    self.stage = IconStage::Finished;
                    IconAction::Finish { icon: None, discard: Some(tmp) }
                }
            },
            (IconStage::AwaitRead, IconEvent::TempRead(bytes)) => {
                let svg = match &bytes {
                    Some(b) => is_svg_data(b),
                    None => false,
                };
                if svg {
                    self.stage = IconStage::AwaitConvert;
                    IconAction::ConvertSvg { src: tmp, dest: icon }
                } else {
                    self.stage = IconStage::AwaitMove;
                    IconAction::MoveIntoPlace { src: tmp, dest: icon }
                }
            },
            (IconStage::AwaitConvert, IconEvent::Converted { success, icon_exists }) => {
                self.stage = IconStage::Finished;
                if success && icon_exists {
                    IconAction::Finish { icon: Some(icon), discard: None }
                } else {
                    IconAction::Finish { icon: None, discard: None }
                }
            },
            (IconStage::AwaitMove, IconEvent::Moved { icon_exists }) => {
                self.stage = IconStage::Finished;
                if icon_exists {
                    IconAction::Finish { icon: Some(icon), discard: None }
                } else {
                    IconAction::Finish { icon: None, discard: None }
                }
            },
            _ => {
                self.stage = IconStage::Finished;
                IconAction::Finish { icon: None, discard: None }
            },
        }
    }
}

/// Where a launcher's icon is cached under a cache directory.
pub open spec fn icon_file(cache_dir: Seq<char>, id: Seq<char>) -> Seq<char> {
    path_join(cache_dir, id + ".png"@)
}

/// Where a launcher's icon is downloaded to before it is checked.
pub open spec fn icon_tmp_file(cache_dir: Seq<char>, id: Seq<char>) -> Seq<char> {
    path_join(cache_dir, id + ".tmp"@)
}

impl LauncherManager {
    /// Starts the fetch of a launcher's icon into the cache.
    pub fn icon_fetch(&self, info: &LauncherInfo) -> (f: IconFetch)
        ensures
            f.spec_stage() == IconStage::Start,
            f.spec_icon_path() == icon_file(self.cache_dir(), info.id@),
            f.spec_tmp_path() == icon_tmp_file(self.cache_dir(), info.id@),
            f.spec_url() == info.icon_url@,
    {
        let mut png = info.id.clone();
        png.append(".png");
        let mut tmp = info.id.clone();
        tmp.append(".tmp");
        IconFetch {
            stage: IconStage::Start,
            icon_path: join_path(self.cache_dir.as_str(), png.as_str()),
            tmp_path: join_path(self.cache_dir.as_str(), tmp.as_str()),
            url: String::from_str(info.icon_url),
        }
    }
}

/// What fetching an icon gives, step by step as the hub does it: the cached
/// icon if it is there; otherwise nothing if the download failed or left no
/// file; otherwise, for SVG data, the converted icon if the conversion
/// succeeded and produced it; for other data, the icon if it exists once the
/// download was moved into place.
pub open spec fn fetch_outcome(
    icon: Seq<char>,
    existing: bool,
    download_ok: bool,
    tmp_exists: bool,
    bytes: Option<Vec<u8>>,
    converted: bool,
    converted_exists: bool,
    moved_exists: bool,
) -> Option<Seq<char>> {
    if existing {
        Some(icon)
    } else if !download_ok || !tmp_exists {
        None
    } else if bytes matches Some(b) && svg_signature(b@) {
        if converted && converted_exists {
            Some(icon)
        } else {
            None
        }
    } else if moved_exists {
        Some(icon)
    } else {
        None
    }
}

/// The last action of a fetch whose caller answers each action with the given
/// facts.
pub open spec fn icon_run(
    icon: Seq<char>,
    tmp: Seq<char>,
    url: Seq<char>,
    existing: bool,
    download_ok: bool,
    tmp_exists: bool,
    bytes: Option<Vec<u8>>,
    converted: bool,
    converted_exists: bool,
    moved_exists: bool,
) -> IconActionView {
    let (s1, a1) = icon_transition(IconStage::Start, icon, tmp, url, IconEvent::Begin);
    let (s2, a2) = icon_transition(s1, icon, tmp, url, IconEvent::Existing(existing));
    if s2 == IconStage::Finished {
        a2
    } else {
        let (s3, a3) = icon_transition(
            s2,
            icon,
            tmp,
            url,
            IconEvent::Downloaded { success: download_ok, tmp_exists },
        );
        if s3 == IconStage::Finished {
            a3
        } else {
            let (s4, a4) = icon_transition(s3, icon, tmp, url, IconEvent::TempRead(bytes));
            let ev = if s4 == IconStage::AwaitConvert {
                IconEvent::Converted { success: converted, icon_exists: converted_exists }
            } else {
                IconEvent::Moved { icon_exists: moved_exists }
            };
            icon_transition(s4, icon, tmp, url, ev).1
        }
    }
}

/// Driven to its end, a fetch finishes with the icon that the hub's
/// step-by-step procedure gives, and asks for the temporary file to be
/// deleted exactly when the download failed or left no file.
pub proof fn lemma_icon_fetch_outcome(
    icon: Seq<char>,
    tmp: Seq<char>,
    url: Seq<char>,
    existing: bool,
    download_ok: bool,
    tmp_exists: bool,
    bytes: Option<Vec<u8>>,
    converted: bool,
    converted_exists: bool,
    moved_exists: bool,
)
    ensures
        icon_run(
            icon,
            tmp,
            url,
            existing,
            download_ok,
            tmp_exists,
            bytes,
            converted,
            converted_exists,
            moved_exists,
        ) == IconActionView::Finish(
            fetch_outcome(
                icon,
                existing,
                download_ok,
                tmp_exists,
                bytes,
                converted,
                converted_exists,
                moved_exists,
            ),
            if !existing && !(download_ok && tmp_exists) {
                Some(tmp)
            } else {
                None
            },
        ),
{
}

/// Every installed launcher of `ls` is listed among the installed ones.
proof fn lemma_installed_launchers_complete(ls: Seq<LauncherView>, db: Seq<EntryView>, i: int)
    requires
        0 <= i < ls.len(),
        launcher_installed(db, ls[i].id),
    ensures
        installed_launchers(ls, db).contains(ls[i]),
    decreases ls.len(),
{
    let front = ls.drop_last();
    let p = installed_launchers(front, db);
    let r = installed_launchers(ls, db);
    if i < ls.len() - 1 {
        assert(front[i] == ls[i]);
        lemma_installed_launchers_complete(front, db, i);
        let k = choose|k: int| 0 <= k < p.len() && p[k] == ls[i];
        assert(r[k] == p[k]);
    } else {
        assert(ls.last() == ls[i]);
        assert(r[p.len() as int] == ls[i]);
    }
}

/// Law: a launcher of the catalogue is installed exactly when pacman knows
/// its first package, that is when some installed package has that name or
/// provides it; and every installed launcher of the catalogue is listed
/// among the installed launchers.
pub proof fn lemma_launcher_installed_by_first_package(db: Seq<EntryView>)
    ensures
        forall|i: int|
            0 <= i < launcher_catalog().len() ==> (launcher_installed(
                db,
                #[trigger] launcher_catalog()[i].id,
            ) <==> lookup(db, launcher_catalog()[i].packages[0]) is Some),
        forall|i: int|
            0 <= i < launcher_catalog().len() ==> (launcher_installed(
                db,
                #[trigger] launcher_catalog()[i].id,
            ) <==> exists|k: int|
                #![trigger db[k]]
                0 <= k < db.len() && (db[k].0 == launcher_catalog()[i].packages[0]
                    || db[k].2.contains(launcher_catalog()[i].packages[0]))),
        forall|i: int|
            0 <= i < launcher_catalog().len() && launcher_installed(
                db,
                #[trigger] launcher_catalog()[i].id,
            ) ==> installed_launchers(launcher_catalog(), db).contains(launcher_catalog()[i]),
{
    let c = launcher_catalog();
    assert forall|i: int| 0 <= i < c.len() implies (launcher_installed(db, #[trigger] c[i].id)
        <==> lookup(db, c[i].packages[0]) is Some) && (launcher_installed(db, c[i].id) <==> exists|k: int|
            #![trigger db[k]]
            0 <= k < db.len() && (db[k].0 == c[i].packages[0] || db[k].2.contains(c[i].packages[0])))
        && (launcher_installed(db, c[i].id) ==> installed_launchers(c, db).contains(c[i])) by {
        lemma_find_own_launcher(i);
        lemma_lookup_some(db, c[i].packages[0]);
        if launcher_installed(db, c[i].id) {
            lemma_installed_launchers_complete(c, db, i);
        }
    }
}

/// Law: a `LANGUAGE` list loses everything from its first `:` on, so a
/// spawned program sees one language: the result is a prefix of the list
/// with no `:` in it, followed in the list by a `:` or by nothing; a list
/// without `:` is kept whole.
pub proof fn lemma_first_language_only(language: Seq<char>)
    ensures
        ({
            let r = spec_strip_language_fallbacks(language);
            &&& r.len() <= language.len()
            &&& r == language.take(r.len() as int)
            &&& forall|j: int| 0 <= j < r.len() ==> r[j] != ':'
            &&& r.len() < language.len() ==> language[r.len() as int] == ':'
            &&& (forall|j: int| 0 <= j < language.len() ==> language[j] != ':') ==> r == language
        }),
{
    lemma_len_before_bound(language, ':');
    let r = spec_strip_language_fallbacks(language);
    assert forall|j: int| 0 <= j < r.len() implies r[j] != ':' by {
        assert(r[j] == language[j]);
    }
    if forall|j: int| 0 <= j < language.len() ==> language[j] != ':' {
        if r.len() < language.len() {
            assert(language[r.len() as int] == ':');
        }
        assert(r =~= language);
    }
}

} // verus!
