//! The catalogue of gaming tools, and what the hub decides about a tool from
//! the local package database: whether it is installed, its version, and the
//! command lines that install or remove it.
use vstd::prelude::*;
use crate::pacman::{
    lemma_lookup_some, lookup, spec_install_command, spec_package_version, spec_remove_command, EntryView,
    PacmanManager,
};
use crate::text::{contains, opt_view, str_eq};

verus! {

broadcast use vstd::string::group_string_axioms;

/// What a tool is for.
#[derive(Debug, Clone, Copy, PartialEq, Eq, Structural)]
pub enum ToolCategory {
    WineCompatibility,
    Performance,
    Additional,
    ChaoticAur,
}

/// A gaming tool that the hub offers: its id, display name, the pacman
/// packages that provide it (the first one decides whether it is installed),
/// a description and its category.
pub struct ToolInfo {
    pub id: String,
    pub name: &'static str,
    pub packages: &'static [&'static str],
    pub description: &'static str,
    pub category: ToolCategory,
}

/// Abstract view of a tool.
#[verifier::ext_equal]
pub struct ToolView {
    pub id: Seq<char>,
    pub name: Seq<char>,
    pub packages: Seq<Seq<char>>,
    pub description: Seq<char>,
    pub category: ToolCategory,
}

/// The views of a sequence of string slices.
pub open spec fn str_views(s: Seq<&str>) -> Seq<Seq<char>> {
    s.map_values(|p: &str| p@)
}

impl View for ToolInfo {
    type V = ToolView;

    open spec fn view(&self) -> ToolView {
        ToolView {
            id: self.id@,
            name: self.name@,
            packages: str_views(self.packages@),
            description: self.description@,
            category: self.category,
        }
    }
}

/// The views of a sequence of tools.
pub open spec fn tool_views(v: Seq<ToolInfo>) -> Seq<ToolView> {
    v.map_values(|t: ToolInfo| t@)
}

/// A tool of the catalogue with a single package named like its id.
pub open spec fn catalog_tool(
    id: Seq<char>,
    name: Seq<char>,
    description: Seq<char>,
    category: ToolCategory,
) -> ToolView {
    ToolView { id, name, packages: seq![id], description, category }
}

/// The hub's catalogue of gaming tools, in display order.
pub open spec fn tool_catalog() -> Seq<ToolView> {
    seq![
        catalog_tool("wine"@, "Wine"@, "Run Windows applications on Linux"@, ToolCategory::WineCompatibility),
        catalog_tool("proton-ge-custom-bin"@, "Proton-GE"@, "Custom Proton build for better game compatibility"@, ToolCategory::WineCompatibility),
        catalog_tool("wine-ge-custom"@, "Wine-GE"@, "GloriousEggroll's Wine build"@, ToolCategory::WineCompatibility),
        catalog_tool("winetricks"@, "Winetricks"@, "Install Windows components in Wine"@, ToolCategory::WineCompatibility),
        catalog_tool("mangohud"@, "MangoHud"@, "Vulkan and OpenGL overlay for monitoring FPS, CPU, GPU"@, ToolCategory::Performance),
        catalog_tool("gamemode"@, "GameMode"@, "Optimize system performance for gaming"@, ToolCategory::Performance),
        catalog_tool("goverlay"@, "GOverlay"@, "Graphical UI to configure MangoHud"@, ToolCategory::Performance),
        catalog_tool("corectrl"@, "CoreCtrl"@, "Control your CPU and GPU for better performance"@, ToolCategory::Performance),
        catalog_tool("discord"@, "Discord"@, "Voice and text chat for gamers"@, ToolCategory::Additional),
        catalog_tool("obs-studio"@, "OBS Studio"@, "Stream and record your gameplay"@, ToolCategory::Additional),
        catalog_tool("protonup-qt"@, "ProtonUp-Qt"@, "Install and manage Proton-GE versions"@, ToolCategory::Additional),
    ]
}

/// `i` is the first position of a tool with this id.
pub open spec fn tool_position(ts: Seq<ToolView>, id: Seq<char>, i: int) -> bool {
    &&& 0 <= i < ts.len()
    &&& ts[i].id == id
    &&& forall|j: int| 0 <= j < i ==> ts[j].id != id
}

/// The first tool with this id, if any.
pub open spec fn find_tool(ts: Seq<ToolView>, id: Seq<char>) -> Option<ToolView> {
    if exists|i: int| tool_position(ts, id, i) {
        Some(ts[choose|i: int| tool_position(ts, id, i)])
    } else {
        None
    }
}

/// The package whose installation decides whether the tool with this id is
/// installed: the tool's first package, or the id itself when no tool has it.
pub open spec fn deciding_package(id: Seq<char>) -> Seq<char> {
    match find_tool(tool_catalog(), id) {
        Some(t) => t.packages[0],
        None => id,
    }
}

/// Whether the tool with this id is installed, given the package database.
pub open spec fn tool_installed(db: Seq<EntryView>, id: Seq<char>) -> bool {
    lookup(db, deciding_package(id)) is Some
}

/// The tools of `ts` in `category` that are installed, in order.
pub open spec fn installed_in_category(
    ts: Seq<ToolView>,
    category: ToolCategory,
    db: Seq<EntryView>,
) -> Seq<ToolView>
    decreases ts.len(),
{
    if ts.len() == 0 {
        seq![]
    } else {
        let t = ts.last();
        installed_in_category(ts.drop_last(), category, db) + if t.category == category
            && tool_installed(db, t.id) {
            seq![t]
        } else {
            seq![]
        }
    }
}

pub proof fn lemma_position_unique(ts: Seq<ToolView>, id: Seq<char>, i: int, k: int)
    requires
        tool_position(ts, id, i),
        tool_position(ts, id, k),
    ensures
        i == k,
{
}

pub proof fn lemma_find_at(ts: Seq<ToolView>, id: Seq<char>, i: int)
    requires
        tool_position(ts, id, i),
    ensures
        find_tool(ts, id) == Some(ts[i]),
{
    let k = choose|k: int| tool_position(ts, id, k);
    lemma_position_unique(ts, id, i, k);
}

fn tool(
    id: &'static str,
    name: &'static str,
    packages: &'static [&'static str],
    description: &'static str,
    category: ToolCategory,
) -> (t: ToolInfo)
    ensures
        t.id@ == id@,
        t.name == name,
        t.packages == packages,
        t.description == description,
        t.category == category,
{
    ToolInfo { id: String::from_str(id), name, packages, description, category }
}

/// The packages of a tool as owned strings.
fn package_strings(packages: &'static [&'static str]) -> (v: Vec<String>)
    ensures
        v@.map_values(|x: String| x@) == str_views(packages@),
{
    let mut v: Vec<String> = Vec::new();
    let mut i: usize = 0;
    while i < packages.len()
        invariant
            i <= packages@.len(),
            v@.map_values(|x: String| x@) == str_views(packages@.take(i as int)),
        decreases packages@.len() - i,
    {
        let s = String::from_str(packages[i]);
        let ghost before = v@;
        v.push(s);
        assert(v@.map_values(|x: String| x@) =~= before.map_values(|x: String| x@).push(s@));
        assert(packages@.take(i + 1) =~= packages@.take(i as int).push(packages@[i as int]));
        assert(v@.map_values(|x: String| x@) =~= str_views(packages@.take(i + 1)));
        i = i + 1;
    }
    assert(packages@.take(packages@.len() as int) =~= packages@);
    v
}

/// The hub's view of the gaming tools, over a snapshot of the local package
/// database.
pub struct ToolManager {
    pacman: PacmanManager,
}

impl ToolManager {
    /// A manager over the given package database.
    pub fn new(pacman: PacmanManager) -> (m: Self)
        ensures
            m.db() == pacman@,
    {
        Self { pacman }
    }

    /// The package database the manager consults.
    pub closed spec fn db(&self) -> Seq<EntryView> {
        self.pacman@
    }

    /// All tools of the catalogue, in display order.
    pub fn all_tools(&self) -> (tools: Vec<ToolInfo>)
        ensures
            tool_views(tools@) == tool_catalog(),
            forall|i: int| 0 <= i < tools@.len() ==> tools@[i].packages@.len() >= 1,
    {
        let v = vec![
            tool("wine", "Wine", &["wine"], "Run Windows applications on Linux", ToolCategory::WineCompatibility),
            tool("proton-ge-custom-bin", "Proton-GE", &["proton-ge-custom-bin"], "Custom Proton build for better game compatibility", ToolCategory::WineCompatibility),
            tool("wine-ge-custom", "Wine-GE", &["wine-ge-custom"], "GloriousEggroll's Wine build", ToolCategory::WineCompatibility),
            tool("winetricks", "Winetricks", &["winetricks"], "Install Windows components in Wine", ToolCategory::WineCompatibility),
            tool("mangohud", "MangoHud", &["mangohud"], "Vulkan and OpenGL overlay for monitoring FPS, CPU, GPU", ToolCategory::Performance),
            tool("gamemode", "GameMode", &["gamemode"], "Optimize system performance for gaming", ToolCategory::Performance),
            tool("goverlay", "GOverlay", &["goverlay"], "Graphical UI to configure MangoHud", ToolCategory::Performance),
            tool("corectrl", "CoreCtrl", &["corectrl"], "Control your CPU and GPU for better performance", ToolCategory::Performance),
            tool("discord", "Discord", &["discord"], "Voice and text chat for gamers", ToolCategory::Additional),
            tool("obs-studio", "OBS Studio", &["obs-studio"], "Stream and record your gameplay", ToolCategory::Additional),
            tool("protonup-qt", "ProtonUp-Qt", &["protonup-qt"], "Install and manage Proton-GE versions", ToolCategory::Additional),
        ];
        assert(str_views(v@[0].packages@) =~= seq!["wine"@]);
        assert(v@[0]@ =~= tool_catalog()[0]);
        assert(str_views(v@[1].packages@) =~= seq!["proton-ge-custom-bin"@]);
        assert(v@[1]@ =~= tool_catalog()[1]);
        assert(str_views(v@[2].packages@) =~= seq!["wine-ge-custom"@]);
        assert(v@[2]@ =~= tool_catalog()[2]);
        assert(str_views(v@[3].packages@) =~= seq!["winetricks"@]);
        assert(v@[3]@ =~= tool_catalog()[3]);
        assert(str_views(v@[4].packages@) =~= seq!["mangohud"@]);
        assert(v@[4]@ =~= tool_catalog()[4]);
        assert(str_views(v@[5].packages@) =~= seq!["gamemode"@]);
        assert(v@[5]@ =~= tool_catalog()[5]);
        assert(str_views(v@[6].packages@) =~= seq!["goverlay"@]);
        assert(v@[6]@ =~= tool_catalog()[6]);
        assert(str_views(v@[7].packages@) =~= seq!["corectrl"@]);
        assert(v@[7]@ =~= tool_catalog()[7]);
        assert(str_views(v@[8].packages@) =~= seq!["discord"@]);
        assert(v@[8]@ =~= tool_catalog()[8]);
        assert(str_views(v@[9].packages@) =~= seq!["obs-studio"@]);
        assert(v@[9]@ =~= tool_catalog()[9]);
        assert(str_views(v@[10].packages@) =~= seq!["protonup-qt"@]);
        assert(v@[10]@ =~= tool_catalog()[10]);
        assert(tool_views(v@) =~= tool_catalog());
        v
    }

    /// Is the tool with this id installed? A tool of the catalogue is
    /// installed when its first package is; an id that names no tool is taken
    /// as a package name.
    pub fn is_installed(&self, tool_id: &str) -> (b: bool)
        ensures
            b == tool_installed(self.db(), tool_id@),
    {
        let tools = self.all_tools();
        match position(&tools, tool_id) {
            Some(i) => {
                proof {
                    lemma_find_at(tool_views(tools@), tool_id@, i as int);
                    assert(tools@[i as int]@.packages[0] == tools@[i as int].packages@[0]@);
                }
                self.pacman.is_installed(tools[i].packages[0])
            },
            None => self.pacman.is_installed(tool_id),
        }
    }

    /// The installed tools of a category, in catalogue order.
    pub fn get_installed_by_category(&self, category: &ToolCategory) -> (r: Vec<ToolInfo>)
        ensures
            tool_views(r@) == installed_in_category(tool_catalog(), *category, self.db()),
    {
        let tools = self.all_tools();
        let mut r: Vec<ToolInfo> = Vec::new();
        let mut i: usize = 0;
        assert(tool_catalog().take(0) =~= Seq::<ToolView>::empty());
        while i < tools.len()
            invariant
                i <= tools@.len(),
                tool_views(tools@) == tool_catalog(),
                tool_views(r@) == installed_in_category(
                    tool_catalog().take(i as int),
                    *category,
                    self.db(),
                ),
            decreases tools@.len() - i,
        {
            let ghost before = r@;
            proof {
                let t = tool_catalog().take(i + 1);
                assert(t.drop_last() =~= tool_catalog().take(i as int));
                assert(t.last() == tools@[i as int]@);
            }
            if tools[i].category == *category && self.is_installed(tools[i].id.as_str()) {
                let c = copy_tool(&tools[i]);
                r.push(c);
                assert(tool_views(r@) =~= tool_views(before).push(c@));
            } else {
                assert(tool_views(before) + seq![] =~= tool_views(before));
            }
            i = i + 1;
        }
        assert(tool_catalog().take(tools@.len() as int) =~= tool_catalog());
        r
    }

    /// Is the Chaotic AUR set up (see `PacmanManager::check_chaotic_aur`)?
    pub fn check_chaotic_aur(&self, pacman_conf: Option<&str>) -> (b: bool)
        ensures
            b == (lookup(self.db(), "chaotic-mirrorlist"@) is Some || match pacman_conf {
                Some(c) => contains(c@, "chaotic-aur"@),
                None => false,
            }),
    {
        self.pacman.check_chaotic_aur(pacman_conf)
    }

    /// The command line that installs the packages of the tool with this id,
    /// or `None` when no tool has it.
    pub fn install_command(&self, tool_id: &str) -> (r: Option<String>)
        ensures
            match find_tool(tool_catalog(), tool_id@) {
                Some(t) => r is Some && r->0@ == spec_install_command(t.packages),
                None => r is None,
            },
    {
        let tools = self.all_tools();
        match position(&tools, tool_id) {
            Some(i) => {
                proof {
                    lemma_find_at(tool_views(tools@), tool_id@, i as int);
                }
                let packages = package_strings(tools[i].packages);
                Some(PacmanManager::install_command(packages.as_slice()))
            },
            None => None,
        }
    }

    /// The command line that removes the packages of the tool with this id,
    /// or `None` when no tool has it.
    pub fn remove_command(&self, tool_id: &str) -> (r: Option<String>)
        ensures
            match find_tool(tool_catalog(), tool_id@) {
                Some(t) => r is Some && r->0@ == spec_remove_command(t.packages),
                None => r is None,
            },
    {
        let tools = self.all_tools();
        match position(&tools, tool_id) {
            Some(i) => {
                proof {
                    lemma_find_at(tool_views(tools@), tool_id@, i as int);
                }
                let packages = package_strings(tools[i].packages);
                Some(PacmanManager::remove_command(packages.as_slice()))
            },
            None => None,
        }
    }

    /// The installed version of the tool with this id: that of its first
    /// package; `None` when no tool has the id.
    pub fn get_version(&self, tool_id: &str) -> (r: Option<String>)
        ensures
            opt_view(r) == match find_tool(tool_catalog(), tool_id@) {
                Some(t) => spec_package_version(self.db(), t.packages[0]),
                None => None,
            },
    {
        let tools = self.all_tools();
        match position(&tools, tool_id) {
            Some(i) => {
                proof {
                    lemma_find_at(tool_views(tools@), tool_id@, i as int);
                    assert(tools@[i as int]@.packages[0] == tools@[i as int].packages@[0]@);
                }
                self.pacman.get_package_version(tools[i].packages[0])
            },
            None => None,
        }
    }
}

/// A copy of a tool.
fn copy_tool(t: &ToolInfo) -> (c: ToolInfo)
    ensures
        c@ == t@,
{
    ToolInfo {
        id: t.id.clone(),
        name: t.name,
        packages: t.packages,
        description: t.description,
        category: t.category,
    }
}

/// The first position of a tool with this id.
fn position(tools: &Vec<ToolInfo>, tool_id: &str) -> (r: Option<usize>)
    ensures
        r matches Some(i) ==> tool_position(tool_views(tools@), tool_id@, i as int),
        r is None ==> find_tool(tool_views(tools@), tool_id@) is None,
{
    let ghost ts = tool_views(tools@);
    let mut i: usize = 0;
    while i < tools.len()
        invariant
            i <= tools@.len(),
            ts == tool_views(tools@),
            forall|j: int| 0 <= j < i ==> ts[j].id != tool_id@,
        decreases tools@.len() - i,
    {
        if str_eq(tools[i].id.as_str(), tool_id) {
            return Some(i);
        }
        i = i + 1;
    }
    None
}

// ---------------------------------------------------------------------------
// Laws
// ---------------------------------------------------------------------------

/// No two tools of the catalogue share an id.
pub proof fn lemma_tool_ids_distinct()
    ensures
        forall|i: int, j: int|
            0 <= i < j < tool_catalog().len() ==> tool_catalog()[i].id != tool_catalog()[j].id,
{
    reveal_strlit("wine");
    reveal_strlit("proton-ge-custom-bin");
    reveal_strlit("wine-ge-custom");
    reveal_strlit("winetricks");
    reveal_strlit("mangohud");
    reveal_strlit("gamemode");
    reveal_strlit("goverlay");
    reveal_strlit("corectrl");
    reveal_strlit("discord");
    reveal_strlit("obs-studio");
    reveal_strlit("protonup-qt");
    let c = tool_catalog();
    assert forall|i: int, j: int| 0 <= i < j < c.len() implies c[i].id != c[j].id by {
        if c[i].id == c[j].id {
            assert(c[i].id.len() == c[j].id.len());
            assert(c[i].id[0] == c[j].id[0]);
            assert(c[i].id[c[i].id.len() - 1] == c[j].id[c[j].id.len() - 1]);
        }
    }
}

/// The catalogue holds eleven tools, each with one package, spread over the
/// wine/compatibility, performance and additional categories; none is in the
/// Chaotic AUR category.
pub proof fn lemma_tool_catalog_shape()
    ensures
        tool_catalog().len() == 11,
        forall|i: int| 0 <= i < 11 ==> (#[trigger] tool_catalog()[i]).packages.len() == 1,
        forall|i: int| 0 <= i < 11 ==> (#[trigger] tool_catalog()[i]).category != ToolCategory::ChaoticAur,
{
}

/// Every tool of the catalogue is found by its own id.
pub proof fn lemma_find_own_tool(i: int)
    requires
        0 <= i < tool_catalog().len(),
    ensures
        find_tool(tool_catalog(), tool_catalog()[i].id) == Some(tool_catalog()[i]),
{
    lemma_tool_ids_distinct();
    lemma_find_at(tool_catalog(), tool_catalog()[i].id, i);
}

/// The installed tools of a category are tools of the catalogue, of that
/// category, and installed.
pub proof fn lemma_installed_in_category_sound(ts: Seq<ToolView>, category: ToolCategory, db: Seq<EntryView>)
    ensures
        forall|k: int| 0 <= k < installed_in_category(ts, category, db).len() ==> {
            let t = #[trigger] installed_in_category(ts, category, db)[k];
            &&& ts.contains(t)
            &&& t.category == category
            &&& tool_installed(db, t.id)
        },
    decreases ts.len(),
{
    if ts.len() > 0 {
        lemma_installed_in_category_sound(ts.drop_last(), category, db);
        let r = installed_in_category(ts, category, db);
        let p = installed_in_category(ts.drop_last(), category, db);
        assert forall|k: int| 0 <= k < r.len() implies {
            let t = #[trigger] r[k];
            &&& ts.contains(t)
            &&& t.category == category
            &&& tool_installed(db, t.id)
        } by {
            if k < p.len() {
                assert(r[k] == p[k]);
                let t = p[k];
                let w = choose|w: int| 0 <= w < ts.drop_last().len() && ts.drop_last()[w] == t;
                assert(ts[w] == t);
            } else {
                assert(r[k] == ts.last());
                assert(ts[ts.len() - 1] == ts.last());
            }
        }
    }
}

/// Every installed tool of `ts` is listed among the installed tools of its
/// own category.
proof fn lemma_installed_in_category_complete(ts: Seq<ToolView>, db: Seq<EntryView>, i: int)
    requires
        0 <= i < ts.len(),
        tool_installed(db, ts[i].id),
    ensures
        installed_in_category(ts, ts[i].category, db).contains(ts[i]),
    decreases ts.len(),
{
    let t = ts[i];
    let front = ts.drop_last();
    let p = installed_in_category(front, t.category, db);
    let r = installed_in_category(ts, t.category, db);
    if i < ts.len() - 1 {
        assert(front[i] == t);
        lemma_installed_in_category_complete(front, db, i);
        let k = choose|k: int| 0 <= k < p.len() && p[k] == t;
        assert(r[k] == p[k]);
    } else {
        assert(ts.last() == t);
        assert(r[p.len() as int] == t);
    }
}

/// Law: the wine/compatibility, performance and additional categories split
/// the installed tools of the catalogue: no tool is listed in two
/// categories, and a tool of the catalogue is listed in one of the three
/// exactly when it is installed.
pub proof fn lemma_categories_split_installed(db: Seq<EntryView>)
    ensures
        forall|a: ToolCategory, b: ToolCategory, t: ToolView|
            a != b && #[trigger] installed_in_category(tool_catalog(), a, db).contains(t)
                ==> !#[trigger] installed_in_category(tool_catalog(), b, db).contains(t),
        forall|i: int|
            0 <= i < tool_catalog().len() ==> (tool_installed(db, #[trigger] tool_catalog()[i].id)
                <==> {
                ||| installed_in_category(tool_catalog(), ToolCategory::WineCompatibility, db).contains(tool_catalog()[i])
                ||| installed_in_category(tool_catalog(), ToolCategory::Performance, db).contains(tool_catalog()[i])
                ||| installed_in_category(tool_catalog(), ToolCategory::Additional, db).contains(tool_catalog()[i])
            }),
{
    let c = tool_catalog();
    assert forall|a: ToolCategory, b: ToolCategory, t: ToolView|
        a != b && #[trigger] installed_in_category(c, a, db).contains(t) implies
        !#[trigger] installed_in_category(c, b, db).contains(t) by {
        lemma_installed_in_category_sound(c, a, db);
        lemma_installed_in_category_sound(c, b, db);
        let ra = installed_in_category(c, a, db);
        let rb = installed_in_category(c, b, db);
        let k = choose|k: int| 0 <= k < ra.len() && ra[k] == t;
        assert(ra[k].category == a);
        if rb.contains(t) {
            let m = choose|m: int| 0 <= m < rb.len() && rb[m] == t;
            assert(rb[m].category == b);
        }
    }
    assert forall|i: int| 0 <= i < c.len() implies (tool_installed(db, #[trigger] c[i].id) <==> {
        ||| installed_in_category(c, ToolCategory::WineCompatibility, db).contains(c[i])
        ||| installed_in_category(c, ToolCategory::Performance, db).contains(c[i])
        ||| installed_in_category(c, ToolCategory::Additional, db).contains(c[i])
    }) by {
        lemma_tool_catalog_shape();
        assert(c[i].category != ToolCategory::ChaoticAur);
        if tool_installed(db, c[i].id) {
            lemma_installed_in_category_complete(c, db, i);
        }
        lemma_installed_in_category_sound(c, ToolCategory::WineCompatibility, db);
        lemma_installed_in_category_sound(c, ToolCategory::Performance, db);
        lemma_installed_in_category_sound(c, ToolCategory::Additional, db);
        let t = c[i];
        let rw = installed_in_category(c, ToolCategory::WineCompatibility, db);
        let rp = installed_in_category(c, ToolCategory::Performance, db);
        let ra = installed_in_category(c, ToolCategory::Additional, db);
        if rw.contains(t) {
            let k = choose|k: int| 0 <= k < rw.len() && rw[k] == t;
            assert(tool_installed(db, rw[k].id));
        }
        if rp.contains(t) {
            let k = choose|k: int| 0 <= k < rp.len() && rp[k] == t;
            assert(tool_installed(db, rp[k].id));
        }
        if ra.contains(t) {
            let k = choose|k: int| 0 <= k < ra.len() && ra[k] == t;
            assert(tool_installed(db, ra[k].id));
        }
    }
}

/// No tool is ever listed as installed in the Chaotic AUR category.
pub proof fn lemma_chaotic_category_empty(db: Seq<EntryView>)
    ensures
        installed_in_category(tool_catalog(), ToolCategory::ChaoticAur, db).len() == 0,
{
    lemma_installed_in_category_sound(tool_catalog(), ToolCategory::ChaoticAur, db);
    let r = installed_in_category(tool_catalog(), ToolCategory::ChaoticAur, db);
    if r.len() > 0 {
        let t = r[0];
        let w = choose|w: int| 0 <= w < tool_catalog().len() && tool_catalog()[w] == t;
        lemma_tool_catalog_shape();
        assert(tool_catalog()[w].category != ToolCategory::ChaoticAur);
    }
}

/// Law: a tool of the catalogue is installed exactly when pacman knows its
/// first package, that is when some installed package has that name or
/// provides it.
pub proof fn lemma_tool_installed_by_first_package(db: Seq<EntryView>)
    ensures
        forall|i: int|
            0 <= i < tool_catalog().len() ==> (tool_installed(db, #[trigger] tool_catalog()[i].id)
                <==> lookup(db, tool_catalog()[i].packages[0]) is Some),
        forall|i: int|
            0 <= i < tool_catalog().len() ==> (tool_installed(db, #[trigger] tool_catalog()[i].id)
                <==> exists|k: int|
                #![trigger db[k]]
                0 <= k < db.len() && (db[k].0 == tool_catalog()[i].packages[0]
                    || db[k].2.contains(tool_catalog()[i].packages[0]))),
{
    let c = tool_catalog();
    assert forall|i: int| 0 <= i < c.len() implies (tool_installed(db, #[trigger] c[i].id)
        <==> lookup(db, c[i].packages[0]) is Some) && (tool_installed(db, c[i].id) <==> exists|k: int|
            #![trigger db[k]]
            0 <= k < db.len() && (db[k].0 == c[i].packages[0] || db[k].2.contains(c[i].packages[0])))
        by {
        lemma_find_own_tool(i);
        lemma_lookup_some(db, c[i].packages[0]);
    }
}

/// Law: each tool of the catalogue is installed with the one package named
/// like the tool's id.
pub proof fn lemma_tool_package_is_id()
    ensures
        forall|i: int|
            0 <= i < tool_catalog().len() ==> (#[trigger] tool_catalog()[i]).packages == seq![
                tool_catalog()[i].id,
            ],
{
}

} // verus!
