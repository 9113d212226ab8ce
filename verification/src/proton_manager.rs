//! Compatibility tools (Proton builds, DXVK, VKD3D-Proton): their catalogue,
//! which GitHub release assets the hub offers for each, which installed
//! directories belong to which tool, and the steps that install a release.
use vstd::prelude::*;
use crate::paths::{join_path, path_join};
use crate::shell::{shell_quote, shell_quoted};
use crate::text::{
    chars_of, contains, occurs_at, opt_view, starts_with, str_contains, str_starts_with, strip_prefix,
    strip_prefix_exec, trim_end_pattern, trim_end_pattern_exec, trim_start_char,
    trim_start_char_exec, string_of, string_of_range,
};

verus! {

broadcast use vstd::string::group_string_axioms;

// ---------------------------------------------------------------------------
// Outside calls
// ---------------------------------------------------------------------------

/// Whether `regex::Regex::new` accepts the pattern.
pub uninterp spec fn regex_compiles(pattern: Seq<char>) -> bool;

/// Whether `regex::Regex::is_match` finds a match of the compiled pattern
/// anywhere in the haystack.
pub uninterp spec fn regex_is_match(pattern: Seq<char>, haystack: Seq<char>) -> bool;

/// Compiles `pattern` with `regex::Regex::new` and, when that succeeds,
/// searches `haystack` with `Regex::is_match`. Claimed: the result is `None`
/// exactly when the pattern does not compile, and otherwise whether there is
/// a match; both are functions of the pattern and haystack alone.
#[verifier::external_body]
fn regex_search(pattern: &str, haystack: &str) -> (r: Option<bool>)
    ensures
        r is Some <==> regex_compiles(pattern@),
        r matches Some(b) ==> b == regex_is_match(pattern@, haystack@),
{
    match regex::Regex::new(pattern) {
        Ok(re) => Some(re.is_match(haystack)),
        Err(_) => None,
    }
}

/// The Unicode lowercase mapping of a string (std `str::to_lowercase`).
pub uninterp spec fn lowercase(s: Seq<char>) -> Seq<char>;

/// The ASCII lowercase form of a character: `A`..`Z` become `a`..`z`, every
/// other character stays.
pub open spec fn ascii_lower_char(c: char) -> char {
    if 'A' <= c && c <= 'Z' {
        ((c as u32) + 32) as char
    } else {
        c
    }
}

/// Every character of the sequence is ASCII.
pub open spec fn all_ascii(s: Seq<char>) -> bool {
    forall|i: int| 0 <= i < s.len() ==> (s[i] as u32) < 128
}

/// `r` begins, for every ASCII prefix of `s`, with that prefix in ASCII
/// lowercase form.
pub open spec fn lowers_ascii_prefixes(s: Seq<char>, r: Seq<char>) -> bool {
    forall|k: int|
        0 <= k <= s.len() && #[trigger] all_ascii(s.take(k)) ==> k <= r.len() && r.take(k)
            == s.take(k).map_values(|c: char| ascii_lower_char(c))
}

/// std `str::to_lowercase`. Claimed: the result is a function of the
/// characters of `s` alone, and an ASCII prefix of `s` comes out first, with
/// `A`..`Z` turned into `a`..`z` and its other characters kept (Unicode maps
/// each ASCII character to its ASCII lowercase form, whatever follows it);
/// so an all-ASCII string comes out character by character in that form.
/// What the mapping does to other characters is left unsaid.
#[verifier::external_body]
fn to_lowercase(s: &str) -> (r: String)
    ensures
        r@ == lowercase(s@),
        lowers_ascii_prefixes(s@, r@),
        all_ascii(s@) ==> r@ == s@.map_values(|c: char| ascii_lower_char(c)),
{
    s.to_lowercase()
}

// ---------------------------------------------------------------------------
// The catalogue
// ---------------------------------------------------------------------------

/// How the hub recognises, by its directory name, an installed version of a
/// tool.
#[derive(Debug, Clone, Copy)]
pub enum NameRule {
    /// The name starts with the prefix.
    Prefix(&'static str),
    /// The name starts with the prefix and its lowercase form does not contain
    /// the marker.
    PrefixWithout(&'static str, &'static str),
    /// The lowercase form of the name contains both parts.
    LowerContainsBoth(&'static str, &'static str),
}

/// Does checking the name against the rule look at its lowercase form?
pub open spec fn rule_lowercases(rule: NameRule, name: Seq<char>) -> bool {
    match rule {
        NameRule::Prefix(_) => false,
        NameRule::PrefixWithout(p, _) => starts_with(name, p@),
        NameRule::LowerContainsBoth(_, _) => true,
    }
}

/// What is known of the lowercase form of a name: its ASCII prefix in ASCII
/// lowercase, and all of it so when the name is ASCII.
pub open spec fn lowercase_known(name: Seq<char>) -> bool {
    &&& lowers_ascii_prefixes(name, lowercase(name))
    &&& all_ascii(name) ==> lowercase(name) == name.map_values(|c: char| ascii_lower_char(c))
}

/// Does the name satisfy the rule?
pub open spec fn rule_matches(rule: NameRule, name: Seq<char>) -> bool {
    match rule {
        NameRule::Prefix(p) => starts_with(name, p@),
        NameRule::PrefixWithout(p, marker) => starts_with(name, p@) && !contains(
            lowercase(name),
            marker@,
        ),
        NameRule::LowerContainsBoth(a, b) => contains(lowercase(name), a@) && contains(
            lowercase(name),
            b@,
        ),
    }
}

/// A compatibility tool: its id, display name, description, GitHub
/// repository, the pattern its release assets must match, the text an asset
/// name must contain for the right architecture (if any), the directory it is
/// installed under (empty for tools installed with Lutris' runtime), and how
/// its installed versions are recognised.
#[derive(Clone, Copy)]
pub struct CompatTool {
    pub id: &'static str,
    pub name: &'static str,
    pub description: &'static str,
    pub repo: &'static str,
    pub asset_filter: &'static str,
    pub arch_filter: Option<&'static str>,
    pub install_subdir: &'static str,
    pub match_rule: NameRule,
}

/// Abstract view of a compatibility tool.
pub struct CompatView {
    pub id: Seq<char>,
    pub name: Seq<char>,
    pub description: Seq<char>,
    pub repo: Seq<char>,
    pub asset_filter: Seq<char>,
    pub arch_filter: Option<Seq<char>>,
    pub install_subdir: Seq<char>,
    pub match_rule: NameRule,
}

impl View for CompatTool {
    type V = CompatView;

    open spec fn view(&self) -> CompatView {
        CompatView {
            id: self.id@,
            name: self.name@,
            description: self.description@,
            repo: self.repo@,
            asset_filter: self.asset_filter@,
            arch_filter: match self.arch_filter {
                Some(a) => Some(a@),
                None => None,
            },
            install_subdir: self.install_subdir@,
            match_rule: self.match_rule,
        }
    }
}

/// The views of a sequence of compatibility tools.
pub open spec fn compat_views(v: Seq<CompatTool>) -> Seq<CompatView> {
    v.map_values(|t: CompatTool| t@)
}

/// The hub's catalogue of compatibility tools, in display order.
pub open spec fn compat_catalog() -> Seq<CompatView> {
    seq![
        CompatView {
            id: "ge-proton"@,
            name: "GE-Proton"@,
            description: "Custom Proton build by GloriousEggroll with improved game compatibility"@,
            repo: "GloriousEggroll/proton-ge-custom"@,
            asset_filter: "GE-Proton.*\\.tar\\.gz"@,
            arch_filter: None,
            install_subdir: "compatibilitytools.d"@,
            match_rule: NameRule::PrefixWithout("GE-Proton", "rtsp"),
        },
        CompatView {
            id: "proton-cachyos"@,
            name: "Proton-CachyOS"@,
            description: "Proton optimized by CachyOS with additional patches"@,
            repo: "CachyOS/proton-cachyos"@,
            asset_filter: "proton-cachyos.*\\.tar\\.(?:xz|zst)"@,
            arch_filter: Some("-x86_64.tar"@),
            install_subdir: "compatibilitytools.d"@,
            match_rule: NameRule::Prefix("proton-cachyos"),
        },
        CompatView {
            id: "ge-proton-rtsp"@,
            name: "GE-Proton RTSP"@,
            description: "GE-Proton with RTSP patches for better video playback"@,
            repo: "SpookySkeletons/proton-ge-rtsp"@,
            asset_filter: "GE-Proton.*\\.tar\\.gz"@,
            arch_filter: None,
            install_subdir: "compatibilitytools.d"@,
            match_rule: NameRule::LowerContainsBoth("ge-proton", "rtsp"),
        },
        CompatView {
            id: "dxvk"@,
            name: "DXVK"@,
            description: "DirectX 9/10/11 to Vulkan translation layer"@,
            repo: "doitsujin/dxvk"@,
            asset_filter: "dxvk-.*\\.tar\\.gz"@,
            arch_filter: None,
            install_subdir: ""@,
            match_rule: NameRule::Prefix("dxvk-"),
        },
        CompatView {
            id: "vkd3d-proton"@,
            name: "VKD3D-Proton"@,
            description: "DirectX 12 to Vulkan translation layer"@,
            repo: "HansKristian-Work/vkd3d-proton"@,
            asset_filter: "vkd3d-proton-.*\\.tar\\.zst"@,
            arch_filter: None,
            install_subdir: ""@,
            match_rule: NameRule::Prefix("vkd3d-proton-"),
        },
    ]
}

/// The manager of compatibility tools.
pub struct ProtonManager;

impl ProtonManager {
    /// The manager.
    pub fn new() -> Self {
        ProtonManager
    }

    /// All compatibility tools of the catalogue, in display order.
    pub fn available_tools() -> (tools: Vec<CompatTool>)
        ensures
            compat_views(tools@) == compat_catalog(),
    {
        let v = vec![
            CompatTool {
                id: "ge-proton",
                name: "GE-Proton",
                description: "Custom Proton build by GloriousEggroll with improved game compatibility",
                repo: "GloriousEggroll/proton-ge-custom",
                asset_filter: "GE-Proton.*\\.tar\\.gz",
                arch_filter: None,
                install_subdir: "compatibilitytools.d",
                match_rule: NameRule::PrefixWithout("GE-Proton", "rtsp"),
            },
            CompatTool {
                id: "proton-cachyos",
                name: "Proton-CachyOS",
                description: "Proton optimized by CachyOS with additional patches",
                repo: "CachyOS/proton-cachyos",
                asset_filter: "proton-cachyos.*\\.tar\\.(?:xz|zst)",
                arch_filter: Some("-x86_64.tar"),
                install_subdir: "compatibilitytools.d",
                match_rule: NameRule::Prefix("proton-cachyos"),
            },
            CompatTool {
                id: "ge-proton-rtsp",
                name: "GE-Proton RTSP",
                description: "GE-Proton with RTSP patches for better video playback",
                repo: "SpookySkeletons/proton-ge-rtsp",
                asset_filter: "GE-Proton.*\\.tar\\.gz",
                arch_filter: None,
                install_subdir: "compatibilitytools.d",
                match_rule: NameRule::LowerContainsBoth("ge-proton", "rtsp"),
            },
            CompatTool {
                id: "dxvk",
                name: "DXVK",
                description: "DirectX 9/10/11 to Vulkan translation layer",
                repo: "doitsujin/dxvk",
                asset_filter: "dxvk-.*\\.tar\\.gz",
                arch_filter: None,
                install_subdir: "",
                match_rule: NameRule::Prefix("dxvk-"),
            },
            CompatTool {
                id: "vkd3d-proton",
                name: "VKD3D-Proton",
                description: "DirectX 12 to Vulkan translation layer",
                repo: "HansKristian-Work/vkd3d-proton",
                asset_filter: "vkd3d-proton-.*\\.tar\\.zst",
                arch_filter: None,
                install_subdir: "",
                match_rule: NameRule::Prefix("vkd3d-proton-"),
            },
        ];
        assert(compat_views(v@) =~= compat_catalog());
        v
    }
}

// ---------------------------------------------------------------------------
// Installed versions and release versions
// ---------------------------------------------------------------------------

/// A version of a tool from the prefix of an asset name: what follows the
/// prefix, without leading dashes and archive suffixes, put after the prefix
/// and a dash; `None` when the name lacks the prefix or nothing is left.
pub open spec fn prefix_version(name: Seq<char>, prefix: Seq<char>) -> Option<Seq<char>> {
    match strip_prefix(name, prefix) {
        Some(rest) => {
            let v = trim_end_pattern(
                trim_end_pattern(
                    trim_end_pattern(trim_start_char(rest, '-'), ".tar.gz"@),
                    ".tar.zst"@,
                ),
                ".tar.xz"@,
            );
            if v.len() > 0 {
                Some(prefix + "-"@ + v)
            } else {
                None
            }
        },
        None => None,
    }
}

/// The version shown for a release asset: from the first known prefix that
/// gives one, else the release tag without leading `v`s.
pub open spec fn spec_extract_version(name: Seq<char>, tag: Seq<char>) -> Seq<char> {
    if let Some(v) = prefix_version(name, "GE-Proton"@) {
        v
    } else if let Some(v) = prefix_version(name, "proton-cachyos"@) {
        v
    } else if let Some(v) = prefix_version(name, "dxvk"@) {
        v
    } else if let Some(v) = prefix_version(name, "vkd3d-proton"@) {
        v
    } else {
        trim_start_char(tag, 'v')
    }
}

fn try_prefix_version(name: &Vec<char>, prefix: &str) -> (r: Option<String>)
    ensures
        opt_view(r) == prefix_version(name@, prefix@),
{
    let p = chars_of(prefix);
    match strip_prefix_exec(name, &p) {
        Some(rest) => {
            let a = trim_start_char_exec(&rest, '-');
            let gz = chars_of(".tar.gz");
            let zst = chars_of(".tar.zst");
            let xz = chars_of(".tar.xz");
            let b = trim_end_pattern_exec(&a, &gz);
            let c = trim_end_pattern_exec(&b, &zst);
            let v = trim_end_pattern_exec(&c, &xz);
            if v.len() > 0 {
                let mut out = String::from_str(prefix);
                out.append("-");
                let vs = string_of(&v);
                out.append(vs.as_str());
                Some(out)
            } else {
                None
            }
        },
        None => None,
    }
}

/// A downloadable release asset as the GitHub API lists it (missing fields
/// read as empty).
pub struct AssetEntry {
    pub name: String,
    pub browser_download_url: String,
}

/// A release as the GitHub API lists it (missing text fields read as empty;
/// `assets` is `None` when the release has no asset list).
pub struct ReleaseEntry {
    pub tag_name: String,
    pub body: String,
    pub assets: Option<Vec<AssetEntry>>,
}

/// Abstract view of an asset: its name and download URL.
pub type AssetView = (Seq<char>, Seq<char>);

impl View for AssetEntry {
    type V = AssetView;

    open spec fn view(&self) -> AssetView {
        (self.name@, self.browser_download_url@)
    }
}

/// The views of a sequence of assets.
pub open spec fn asset_views(v: Seq<AssetEntry>) -> Seq<AssetView> {
    v.map_values(|a: AssetEntry| a@)
}

/// Abstract view of a release entry.
pub struct ReleaseEntryView {
    pub tag_name: Seq<char>,
    pub body: Seq<char>,
    pub assets: Option<Seq<AssetView>>,
}

impl View for ReleaseEntry {
    type V = ReleaseEntryView;

    open spec fn view(&self) -> ReleaseEntryView {
        ReleaseEntryView {
            tag_name: self.tag_name@,
            body: self.body@,
            assets: match self.assets {
                Some(v) => Some(asset_views(v@)),
                None => None,
            },
        }
    }
}

/// The views of a sequence of release entries.
pub open spec fn release_entry_views(v: Seq<ReleaseEntry>) -> Seq<ReleaseEntryView> {
    v.map_values(|r: ReleaseEntry| r@)
}

/// The releases a GitHub API response lists, as `serde_json::from_str` reads
/// the body into a `Vec<serde_json::Value>` (none when that fails): for each
/// release its `tag_name` and `body`, and for each asset of its `assets`
/// array its `name` and `browser_download_url`, a missing or non-string text
/// field read as empty and a missing or non-array asset list as `None`.
pub uninterp spec fn json_release_entries(body: Seq<char>) -> Seq<ReleaseEntryView>;

/// Reads the releases of a GitHub API response with `serde_json::from_str`
/// into `serde_json::Value`s and takes their fields out with `Value`'s index
/// and `as_str` / `as_array`. Claimed: the result is a function of the body's
/// characters alone, named `json_release_entries`.
#[verifier::external_body]
fn parse_releases(body: &str) -> (r: Vec<ReleaseEntry>)
    ensures
        release_entry_views(r@) == json_release_entries(body@),
{
    let text = |v: &serde_json::Value, k: &str| v[k].as_str().unwrap_or("").to_string();
    let releases: Vec<serde_json::Value> = serde_json::from_str(body).unwrap_or_default();
    releases.iter().map(|r| ReleaseEntry {
        tag_name: text(r, "tag_name"),
        body: text(r, "body"),
        assets: r["assets"].as_array().map(|a| a.iter().map(|x| AssetEntry {
            name: text(x, "name"),
            browser_download_url: text(x, "browser_download_url"),
        }).collect()),
    }).collect()
}

/// A release version that the hub offers: its version, the asset to download,
/// where from, and the release notes.
#[derive(Clone)]
pub struct ReleaseInfo {
    pub version: String,
    pub asset_name: String,
    pub download_url: String,
    pub body: String,
}

/// Abstract view of an offered release.
#[verifier::ext_equal]
pub struct ReleaseInfoView {
    pub version: Seq<char>,
    pub asset_name: Seq<char>,
    pub download_url: Seq<char>,
    pub body: Seq<char>,
}

impl View for ReleaseInfo {
    type V = ReleaseInfoView;

    open spec fn view(&self) -> ReleaseInfoView {
        ReleaseInfoView {
            version: self.version@,
            asset_name: self.asset_name@,
            download_url: self.download_url@,
            body: self.body@,
        }
    }
}

/// The views of a sequence of offered releases.
pub open spec fn release_info_views(v: Seq<ReleaseInfo>) -> Seq<ReleaseInfoView> {
    v.map_values(|r: ReleaseInfo| r@)
}

/// The asset name matches the tool's asset pattern (a pattern that does not
/// compile matches nothing).
pub open spec fn filter_matches(tool: CompatView, name: Seq<char>) -> bool {
    regex_compiles(tool.asset_filter) && regex_is_match(tool.asset_filter, name)
}

/// The asset is offered for the tool, given whether its name matched the
/// tool's asset pattern: it matched, it has a download URL, and its name has
/// the tool's architecture text, if the tool has one.
pub open spec fn asset_qualifies_with(tool: CompatView, asset: AssetView, filter_matched: bool) -> bool {
    &&& filter_matched
    &&& asset.1.len() > 0
    &&& match tool.arch_filter {
        Some(arch) => contains(asset.0, arch),
        None => true,
    }
}

/// The first asset of the list that is offered for the tool.
pub open spec fn first_qualifying(tool: CompatView, assets: Seq<AssetView>) -> Option<AssetView>
    decreases assets.len(),
{
    if assets.len() == 0 {
        None
    } else if asset_qualifies_with(tool, assets[0], filter_matches(tool, assets[0].0)) {
        Some(assets[0])
    } else {
        first_qualifying(tool, assets.drop_first())
    }
}

/// What the hub offers of one release: its first offered asset, with the
/// version taken from the asset name and tag, and the release notes.
pub open spec fn release_choice(tool: CompatView, r: ReleaseEntryView) -> Option<ReleaseInfoView> {
    match r.assets {
        Some(assets) => match first_qualifying(tool, assets) {
            Some(a) => Some(
                ReleaseInfoView {
                    version: spec_extract_version(a.0, r.tag_name),
                    asset_name: a.0,
                    download_url: a.1,
                    body: r.body,
                },
            ),
            None => None,
        },
        None => None,
    }
}

/// What the hub offers of a list of releases, in order.
pub open spec fn releases_choice(tool: CompatView, rs: Seq<ReleaseEntryView>) -> Seq<ReleaseInfoView>
    decreases rs.len(),
{
    if rs.len() == 0 {
        seq![]
    } else {
        releases_choice(tool, rs.drop_last()) + match release_choice(tool, rs.last()) {
            Some(r) => seq![r],
            None => seq![],
        }
    }
}

/// What to report after listing the releases of a tool.
#[derive(Debug, Clone, Copy, PartialEq, Eq, Structural)]
pub enum FetchReport {
    /// Releases were found, or the response was empty.
    Fine,
    /// Nothing was found and GitHub refused for its rate limit.
    RateLimited,
    /// Nothing was found in a non-empty response.
    NothingParsed,
}

/// The report for a listing with `found` releases from a response `body`.
pub open spec fn spec_fetch_report(found: bool, body: Seq<char>) -> FetchReport {
    if !found && body.len() > 0 {
        if contains(body, "API rate limit"@) || contains(body, "rate limit"@) {
            FetchReport::RateLimited
        } else {
            FetchReport::NothingParsed
        }
    } else {
        FetchReport::Fine
    }
}

fn copy_release(r: &ReleaseInfo) -> (c: ReleaseInfo)
    ensures
        c@ == r@,
{
    ReleaseInfo {
        version: r.version.clone(),
        asset_name: r.asset_name.clone(),
        download_url: r.download_url.clone(),
        body: r.body.clone(),
    }
}

impl CompatTool {
    /// Is a directory of this name an installed version of the tool?
    pub fn matches_installed(&self, name: &str) -> (b: bool)
        ensures
            b == rule_matches(self.match_rule, name@),
            rule_lowercases(self.match_rule, name@) ==> lowercase_known(name@),
    {
        match self.match_rule {
            NameRule::Prefix(p) => str_starts_with(name, p),
            NameRule::PrefixWithout(p, marker) => {
                if str_starts_with(name, p) {
                    let lower = to_lowercase(name);
                    !str_contains(lower.as_str(), marker)
                } else {
                    false
                }
            },
            NameRule::LowerContainsBoth(a, b) => {
                let lower = to_lowercase(name);
                str_contains(lower.as_str(), a) && str_contains(lower.as_str(), b)
            },
        }
    }
}

impl ProtonManager {
    /// The version shown for a release asset (see `spec_extract_version`).
    pub fn extract_version(asset_name: &str, tag: &str) -> (v: String)
        ensures
            v@ == spec_extract_version(asset_name@, tag@),
    {
        let name = chars_of(asset_name);
        if let Some(v) = try_prefix_version(&name, "GE-Proton") {
            return v;
        }
        if let Some(v) = try_prefix_version(&name, "proton-cachyos") {
            return v;
        }
        if let Some(v) = try_prefix_version(&name, "dxvk") {
            return v;
        }
        if let Some(v) = try_prefix_version(&name, "vkd3d-proton") {
            return v;
        }
        let t = chars_of(tag);
        let r = trim_start_char_exec(&t, 'v');
        string_of(&r)
    }

    /// The GitHub API address that lists the tool's latest releases.
    pub fn releases_url(tool: &CompatTool) -> (u: String)
        ensures
            u@ == "https://api.github.com/repos/"@ + tool.repo@ + "/releases?per_page=30"@,
    {
        let mut u = String::from_str("https://api.github.com/repos/");
        u.append(tool.repo);
        u.append("/releases?per_page=30");
        u
    }

    /// Does the asset name match the tool's asset pattern?
    pub fn asset_matches_filter(tool: &CompatTool, name: &str) -> (b: bool)
        ensures
            b == filter_matches(tool@, name@),
    {
        match regex_search(tool.asset_filter, name) {
            Some(m) => m,
            None => false,
        }
    }

    /// Is the asset offered for the tool, given whether its name matched the
    /// tool's asset pattern?
    pub fn asset_qualifies(tool: &CompatTool, asset: &AssetEntry, filter_matched: bool) -> (b: bool)
        ensures
            b == asset_qualifies_with(tool@, asset@, filter_matched),
    {
        if !filter_matched || asset.browser_download_url.as_str().unicode_len() == 0 {
            return false;
        }
        match tool.arch_filter {
            Some(arch) => str_contains(asset.name.as_str(), arch),
            None => true,
        }
    }

    /// What the hub offers of one release (see `release_choice`).
    pub fn pick_release(tool: &CompatTool, release: &ReleaseEntry) -> (r: Option<ReleaseInfo>)
        ensures
            match r {
                Some(x) => release_choice(tool@, release@) == Some(x@),
                None => release_choice(tool@, release@) is None,
            },
    {
        match &release.assets {
            None => None,
            Some(assets) => {
                let ghost av = asset_views(assets@);
                assert(release.assets == Some(*assets));
                assert(release@.assets == Some(av));
                let mut i: usize = 0;
                assert(av.skip(0) =~= av);
                while i < assets.len()
                    invariant
                        i <= assets@.len(),
                        av == asset_views(assets@),
                        release@.assets == Some(av),
                        first_qualifying(tool@, av) == first_qualifying(tool@, av.skip(i as int)),
                    decreases assets@.len() - i,
                {
                    let a = &assets[i];
                    assert(av.skip(i as int)[0] == a@);
                    let matched = Self::asset_matches_filter(tool, a.name.as_str());
                    if Self::asset_qualifies(tool, a, matched) {
                        let version = Self::extract_version(
                            a.name.as_str(),
                            release.tag_name.as_str(),
                        );
                        let info = ReleaseInfo {
                            version,
                            asset_name: a.name.clone(),
                            download_url: a.browser_download_url.clone(),
                            body: release.body.clone(),
                        };
                        assert(first_qualifying(tool@, av.skip(i as int)) == Some(a@));
                        assert(info@ =~= release_choice(tool@, release@)->0);
                        return Some(info);
                    }
                    assert(av.skip(i as int).drop_first() =~= av.skip(i + 1));
                    i = i + 1;
                }
                None
            },
        }
    }

    /// The releases the hub offers for the tool from the body of GitHub's
    /// answer to `releases_url`: the releases it lists, chosen from as
    /// `list_available_releases` does.
    pub fn releases_from_response(tool: &CompatTool, body: &str) -> (r: Vec<ReleaseInfo>)
        ensures
            release_info_views(r@) == releases_choice(tool@, json_release_entries(body@)),
    {
        let releases = parse_releases(body);
        Self::list_available_releases(tool, &releases)
    }

    /// The releases the hub offers for the tool from the releases GitHub
    /// listed: for each release in order, its first asset that matches the
    /// tool's pattern, has a download URL and fits the architecture.
    pub fn list_available_releases(tool: &CompatTool, releases: &[ReleaseEntry]) -> (r: Vec<
        ReleaseInfo,
    >)
        ensures
            release_info_views(r@) == releases_choice(tool@, release_entry_views(releases@)),
    {
        let ghost rv = release_entry_views(releases@);
        let mut r: Vec<ReleaseInfo> = Vec::new();
        let mut i: usize = 0;
        assert(rv.take(0) =~= Seq::<ReleaseEntryView>::empty());
        while i < releases.len()
            invariant
                i <= releases@.len(),
                rv == release_entry_views(releases@),
                release_info_views(r@) == releases_choice(tool@, rv.take(i as int)),
            decreases releases@.len() - i,
        {
            let ghost before = r@;
            proof {
                let t = rv.take(i + 1);
                assert(t.drop_last() =~= rv.take(i as int));
                assert(t.last() == releases@[i as int]@);
            }
            match Self::pick_release(tool, &releases[i]) {
                Some(x) => {
                    r.push(x);
                    assert(release_info_views(r@) =~= release_info_views(before).push(x@));
                },
                None => {
                    assert(release_info_views(before) + seq![] =~= release_info_views(before));
                },
            }
            i = i + 1;
        }
        assert(rv.take(releases@.len() as int) =~= rv);
        r
    }

    /// What to report after a listing that found `found` releases in the
    /// response `body`.
    pub fn fetch_report(found: bool, body: &str) -> (f: FetchReport)
        ensures
            f == spec_fetch_report(found, body@),
    {
        if !found && body.unicode_len() > 0 {
            if str_contains(body, "API rate limit") || str_contains(body, "rate limit") {
                FetchReport::RateLimited
            } else {
                FetchReport::NothingParsed
            }
        } else {
            FetchReport::Fine
        }
    }
}

// ---------------------------------------------------------------------------
// Where tools are installed
// ---------------------------------------------------------------------------

/// The places, relative to the home directory, where Steam looks for
/// compatibility tools.
pub open spec fn steam_dir_suffixes() -> Seq<Seq<char>> {
    seq![
        ".steam/root/compatibilitytools.d"@,
        ".steam/steam/compatibilitytools.d"@,
        ".local/share/Steam/compatibilitytools.d"@,
        ".var/app/com.valvesoftware.Steam/data/Steam/compatibilitytools.d"@,
    ]
}

/// The places, relative to the home directory, where Lutris keeps its Wine
/// runners.
pub open spec fn lutris_dir_suffixes() -> Seq<Seq<char>> {
    seq![
        ".local/share/lutris/runners/wine"@,
        ".var/app/net.lutris.Lutris/data/lutris/runners/wine"@,
    ]
}

/// The suffixes joined to the home directory.
pub open spec fn under_home(home: Seq<char>, suffixes: Seq<Seq<char>>) -> Seq<Seq<char>> {
    suffixes.map_values(|s: Seq<char>| path_join(home, s))
}

/// The candidates that exist, in order (a candidate without a flag counts as
/// missing).
pub open spec fn present_only(candidates: Seq<Seq<char>>, present: Seq<bool>) -> Seq<Seq<char>>
    decreases candidates.len(),
{
    if candidates.len() == 0 {
        seq![]
    } else {
        let i = candidates.len() - 1;
        present_only(candidates.drop_last(), present) + if i < present.len() && present[i] {
            seq![candidates[i]]
        } else {
            seq![]
        }
    }
}

/// The string views of a sequence of strings.
pub open spec fn svs(v: Seq<String>) -> Seq<Seq<char>> {
    v.map_values(|s: String| s@)
}

fn join_all(home: &str, rels: &[&'static str]) -> (v: Vec<String>)
    ensures
        svs(v@) == rels@.map_values(|s: &str| path_join(home@, s@)),
{
    let mut v: Vec<String> = Vec::new();
    let mut i: usize = 0;
    while i < rels.len()
        invariant
            i <= rels@.len(),
            svs(v@) == rels@.take(i as int).map_values(|s: &str| path_join(home@, s@)),
        decreases rels@.len() - i,
    {
        let p = join_path(home, rels[i]);
        let ghost before = v@;
        v.push(p);
        assert(svs(v@) =~= svs(before).push(p@));
        assert(rels@.take(i + 1) =~= rels@.take(i as int).push(rels@[i as int]));
        i = i + 1;
    }
    assert(rels@.take(rels@.len() as int) =~= rels@);
    v
}

fn keep_present(candidates: Vec<String>, present: &[bool]) -> (v: Vec<String>)
    ensures
        svs(v@) == present_only(svs(candidates@), present@),
{
    let ghost cv = svs(candidates@);
    let mut v: Vec<String> = Vec::new();
    let mut i: usize = 0;
    assert(cv.take(0) =~= Seq::<Seq<char>>::empty());
    while i < candidates.len()
        invariant
            i <= candidates@.len(),
            cv == svs(candidates@),
            svs(v@) == present_only(cv.take(i as int), present@),
        decreases candidates@.len() - i,
    {
        let ghost before = v@;
        proof {
            let t = cv.take(i + 1);
            assert(t.drop_last() =~= cv.take(i as int));
            assert(t[i as int] == candidates@[i as int]@);
        }
        if i < present.len() && present[i] {
            let c = candidates[i].clone();
            v.push(c);
            assert(svs(v@) =~= svs(before).push(c@));
        } else {
            assert(svs(before) + seq![] =~= svs(before));
        }
        i = i + 1;
    }
    assert(cv.take(candidates@.len() as int) =~= cv);
    v
}

/// An entry found in one of the install locations: its path, and whether it
/// is a directory.
pub struct DirEntry {
    pub path: String,
    pub is_dir: bool,
}

/// The name of a directory entry: what follows the last `/` of its path (the
/// whole path when it has none).
pub open spec fn entry_name(path: Seq<char>) -> Seq<char>
    decreases path.len(),
{
    if path.len() == 0 || path.last() == '/' {
        seq![]
    } else {
        entry_name(path.drop_last()).push(path.last())
    }
}

/// The part of a path after its last `/`, or the whole path.
pub fn entry_name_of(path: &str) -> (n: String)
    ensures
        n@ == entry_name(path@),
{
    let v = chars_of(path);
    let mut a: usize = v.len();
    assert(v@.take(a as int) =~= v@);
    assert(v@.skip(a as int) =~= Seq::<char>::empty());
    assert(entry_name(v@) + Seq::<char>::empty() =~= entry_name(v@));
    while a > 0 && v[a - 1] != '/'
        invariant
            a <= v.len(),
            v@ == path@,
            entry_name(v@) == entry_name(v@.take(a as int)) + v@.skip(a as int),
        decreases a,
    {
        proof {
            let t = v@.take(a as int);
            assert(t.drop_last() =~= v@.take(a - 1));
            assert(t.last() == v@[a - 1]);
            assert(v@.skip(a - 1) =~= seq![v@[a - 1]] + v@.skip(a as int));
            assert(entry_name(t) == entry_name(t.drop_last()).push(t.last()));
            assert(entry_name(t.drop_last()).push(t.last()) + v@.skip(a as int)
                =~= entry_name(v@.take(a - 1)) + v@.skip(a - 1));
        }
        a = a - 1;
    }
    proof {
        let t = v@.take(a as int);
        assert(entry_name(t) =~= Seq::<char>::empty());
        assert(entry_name(v@) =~= v@.subrange(a as int, v@.len() as int));
    }
    string_of_range(&v, a, v.len())
}

/// An installed version of a tool: its directory name and path.
pub struct InstalledVersion {
    pub version: String,
    pub path: String,
}

/// Abstract view of an installed version.
pub type InstalledView = (Seq<char>, Seq<char>);

impl View for InstalledVersion {
    type V = InstalledView;

    open spec fn view(&self) -> InstalledView {
        (self.version@, self.path@)
    }
}

/// Abstract view of a directory entry: its path, and whether it is a
/// directory.
pub open spec fn dir_entry_view(e: DirEntry) -> (Seq<char>, bool) {
    (e.path@, e.is_dir)
}

/// The installed versions of a tool among directory entries, in order: the
/// directories whose name the tool's rule accepts, each with its name and
/// path.
pub open spec fn installed_among(rule: NameRule, entries: Seq<(Seq<char>, bool)>) -> Seq<
    InstalledView,
>
    decreases entries.len(),
{
    if entries.len() == 0 {
        seq![]
    } else {
        let e = entries.last();
        installed_among(rule, entries.drop_last()) + if e.1 && rule_matches(
            rule,
            entry_name(e.0),
        ) {
            seq![(entry_name(e.0), e.0)]
        } else {
            seq![]
        }
    }
}

/// The place a Proton build is installed to: the first Steam location that
/// exists, else Steam's default location under the home directory.
pub open spec fn spec_steam_install_base(home: Seq<char>, steam_dirs: Seq<Seq<char>>) -> Seq<char> {
    if steam_dirs.len() > 0 {
        steam_dirs[0]
    } else {
        path_join(home, ".steam/steam/compatibilitytools.d"@)
    }
}

/// The place a release of the tool is installed to.
pub open spec fn spec_install_base(tool: CompatView, home: Seq<char>, steam_dirs: Seq<Seq<char>>) -> Seq<
    char,
> {
    if tool.install_subdir.len() == 0 {
        path_join(home, ".local/share/lutris/runtime"@)
    } else {
        spec_steam_install_base(home, steam_dirs)
    }
}

/// The `tar` option that decompresses an archive with this name.
pub open spec fn spec_decompress_flag(asset_name: Seq<char>) -> Seq<char> {
    if crate::text::ends_with(asset_name, ".zst"@) {
        "--zstd"@
    } else if crate::text::ends_with(asset_name, ".xz"@) {
        "--xz"@
    } else {
        "-z"@
    }
}

impl ProtonManager {
    /// The places where Steam may look for compatibility tools, under the
    /// home directory.
    pub fn steam_dir_candidates(home: &str) -> (v: Vec<String>)
        ensures
            svs(v@) == under_home(home@, steam_dir_suffixes()),
    {
        let v = join_all(
            home,
            &[
                ".steam/root/compatibilitytools.d",
                ".steam/steam/compatibilitytools.d",
                ".local/share/Steam/compatibilitytools.d",
                ".var/app/com.valvesoftware.Steam/data/Steam/compatibilitytools.d",
            ],
        );
        assert(svs(v@) =~= under_home(home@, steam_dir_suffixes()));
        v
    }

    /// The Steam locations that exist, given for each candidate (in the
    /// order of `steam_dir_candidates`) whether it exists.
    pub fn steam_install_dirs(home: &str, present: &[bool]) -> (v: Vec<String>)
        ensures
            svs(v@) == present_only(under_home(home@, steam_dir_suffixes()), present@),
    {
        keep_present(Self::steam_dir_candidates(home), present)
    }

    /// The places where Lutris may keep Wine runners, under the home
    /// directory.
    pub fn lutris_dir_candidates(home: &str) -> (v: Vec<String>)
        ensures
            svs(v@) == under_home(home@, lutris_dir_suffixes()),
    {
        let v = join_all(
            home,
            &[
                ".local/share/lutris/runners/wine",
                ".var/app/net.lutris.Lutris/data/lutris/runners/wine",
            ],
        );
        assert(svs(v@) =~= under_home(home@, lutris_dir_suffixes()));
        v
    }

    /// The Lutris locations that exist, given for each candidate (in the
    /// order of `lutris_dir_candidates`) whether it exists.
    pub fn lutris_wine_dirs(home: &str, present: &[bool]) -> (v: Vec<String>)
        ensures
            svs(v@) == present_only(under_home(home@, lutris_dir_suffixes()), present@),
    {
        keep_present(Self::lutris_dir_candidates(home), present)
    }

    /// The installed versions of the tool among the entries of the Steam
    /// locations: the directories whose name the tool recognises.
    pub fn list_installed(tool: &CompatTool, entries: &[DirEntry]) -> (r: Vec<InstalledVersion>)
        ensures
            r@.map_values(|v: InstalledVersion| v@) == installed_among(
                tool.match_rule,
                entries@.map_values(|e: DirEntry| dir_entry_view(e)),
            ),
    {
        let ghost ev = entries@.map_values(|e: DirEntry| dir_entry_view(e));
        let mut r: Vec<InstalledVersion> = Vec::new();
        let mut i: usize = 0;
        assert(ev.take(0) =~= Seq::<(Seq<char>, bool)>::empty());
        while i < entries.len()
            invariant
                i <= entries@.len(),
                ev == entries@.map_values(|e: DirEntry| dir_entry_view(e)),
                r@.map_values(|v: InstalledVersion| v@) == installed_among(
                    tool.match_rule,
                    ev.take(i as int),
                ),
            decreases entries@.len() - i,
        {
            let ghost before = r@;
            proof {
                let t = ev.take(i + 1);
                assert(t.drop_last() =~= ev.take(i as int));
                assert(t.last() == dir_entry_view(entries@[i as int]));
            }
            let e = &entries[i];
            let name = entry_name_of(e.path.as_str());
            if e.is_dir && tool.matches_installed(name.as_str()) {
                let v = InstalledVersion { version: name, path: e.path.clone() };
                r.push(v);
                assert(r@.map_values(|v: InstalledVersion| v@) =~= before.map_values(
                    |v: InstalledVersion| v@,
                ).push(v@));
            } else {
                assert(before.map_values(|v: InstalledVersion| v@) + seq![] =~= before.map_values(
                    |v: InstalledVersion| v@,
                ));
            }
            i = i + 1;
        }
        assert(ev.take(entries@.len() as int) =~= ev);
        r
    }

    /// Where a Proton build is installed: the first existing Steam location,
    /// else Steam's default location under the home directory.
    pub fn steam_install_base(home: &str, steam_dirs: &[String]) -> (p: String)
        ensures
            p@ == spec_steam_install_base(home@, svs(steam_dirs@)),
    {
        if steam_dirs.len() > 0 {
            steam_dirs[0].clone()
        } else {
            join_path(home, ".steam/steam/compatibilitytools.d")
        }
    }

    /// Where a release of the tool is installed: Lutris' runtime directory for
    /// tools without an install subdirectory, else the Steam location.
    pub fn install_base(tool: &CompatTool, home: &str, steam_dirs: &[String]) -> (p: String)
        ensures
            p@ == spec_install_base(tool@, home@, svs(steam_dirs@)),
    {
        if tool.install_subdir.unicode_len() == 0 {
            join_path(home, ".local/share/lutris/runtime")
        } else {
            Self::steam_install_base(home, steam_dirs)
        }
    }

    /// The `tar` option that decompresses the archive: zstd for `.zst`, xz
    /// for `.xz`, gzip otherwise.
    pub fn decompress_flag(asset_name: &str) -> (f: &'static str)
        ensures
            f@ == spec_decompress_flag(asset_name@),
    {
        if crate::text::str_ends_with(asset_name, ".zst") {
            "--zstd"
        } else if crate::text::str_ends_with(asset_name, ".xz") {
            "--xz"
        } else {
            "-z"
        }
    }
}

// ---------------------------------------------------------------------------
// Installing a release
// ---------------------------------------------------------------------------

/// How far an installation has come.
#[derive(Debug, Clone, Copy, PartialEq, Eq, Structural)]
pub enum InstallStage {
    Start,
    AwaitBaseDir,
    AwaitDownload,
    AwaitExtract,
    Finished,
}

/// What the caller reports after doing what the last action asked.
pub enum InstallEvent {
    /// The installation begins.
    Begin,
    /// Whether the install directory could be created (with the error text).
    BaseDirCreated(Result<(), String>),
    /// Whether the download succeeded.
    Downloaded(bool),
    /// Whether the extraction succeeded.
    Extracted(bool),
}

/// What the caller is asked to do next.
pub enum InstallAction {
    /// Create the directory `path` and its parents, and report the outcome.
    CreateDir { path: String },
    /// Create `staging_dir` (ignoring failure), download `url` to `dest`, and
    /// report whether the download succeeded.
    Download { url: String, dest: String, staging_dir: &'static str },
    /// Extract `archive` into `dest` with `tar` and the decompression option
    /// `flag`, delete `archive`, and report whether the extraction succeeded.
    Extract { archive: String, dest: String, flag: &'static str },
    /// The installation is over: delete `discard` if given; `result` is the
    /// message for the user.
    Finish { result: Result<String, String>, discard: Option<String> },
}

/// Abstract view of an install action.
pub enum InstallActionView {
    CreateDir(Seq<char>),
    Download(Seq<char>, Seq<char>, Seq<char>),
    Extract(Seq<char>, Seq<char>, Seq<char>),
    Finish(Result<Seq<char>, Seq<char>>, Option<Seq<char>>),
}

/// The view of a result of strings.
pub open spec fn result_view(r: Result<String, String>) -> Result<Seq<char>, Seq<char>> {
    match r {
        Ok(s) => Ok(s@),
        Err(e) => Err(e@),
    }
}

impl View for InstallAction {
    type V = InstallActionView;

    open spec fn view(&self) -> InstallActionView {
        match self {
            InstallAction::CreateDir { path } => InstallActionView::CreateDir(path@),
            InstallAction::Download { url, dest, staging_dir } => InstallActionView::Download(
                url@,
                dest@,
                staging_dir@,
            ),
            InstallAction::Extract { archive, dest, flag } => InstallActionView::Extract(
                archive@,
                dest@,
                flag@,
            ),
            InstallAction::Finish { result, discard } => InstallActionView::Finish(
                result_view(*result),
                opt_view(*discard),
            ),
        }
    }
}

/// The directory downloads are staged in.
pub open spec fn staging_dir() -> Seq<char> {
    "/tmp/gamehub-proton"@
}

/// The event is one the stage waits for.
pub open spec fn install_event_fits(stage: InstallStage, ev: InstallEvent) -> bool {
    match (stage, ev) {
        (InstallStage::Start, InstallEvent::Begin) => true,
        (InstallStage::AwaitBaseDir, InstallEvent::BaseDirCreated(_)) => true,
        (InstallStage::AwaitDownload, InstallEvent::Downloaded(_)) => true,
        (InstallStage::AwaitExtract, InstallEvent::Extracted(_)) => true,
        _ => false,
    }
}

/// The message of a finished installation.
pub open spec fn installed_message(version: Seq<char>, base: Seq<char>) -> Seq<char> {
    "Installed "@ + version + " to "@ + base
}

/// One step of an installation.
pub open spec fn install_transition(
    stage: InstallStage,
    base: Seq<char>,
    archive: Seq<char>,
    url: Seq<char>,
    flag: Seq<char>,
    version: Seq<char>,
    ev: InstallEvent,
) -> (InstallStage, InstallActionView) {
    match (stage, ev) {
        (InstallStage::Start, InstallEvent::Begin) => (
            InstallStage::AwaitBaseDir,
            InstallActionView::CreateDir(base),
        ),
        (InstallStage::AwaitBaseDir, InstallEvent::BaseDirCreated(Err(e))) => (
            InstallStage::Finished,
            InstallActionView::Finish(Err(e@), None),
        ),
        (InstallStage::AwaitBaseDir, InstallEvent::BaseDirCreated(Ok(()))) => (
            InstallStage::AwaitDownload,
            InstallActionView::Download(url, archive, staging_dir()),
        ),
        (InstallStage::AwaitDownload, InstallEvent::Downloaded(false)) => (
            InstallStage::Finished,
            InstallActionView::Finish(Err("Download failed"@), Some(archive)),
        ),
        (InstallStage::AwaitDownload, InstallEvent::Downloaded(true)) => (
            InstallStage::AwaitExtract,
            InstallActionView::Extract(archive, base, flag),
        ),
        (InstallStage::AwaitExtract, InstallEvent::Extracted(true)) => (
            InstallStage::Finished,
            InstallActionView::Finish(Ok(installed_message(version, base)), None),
        ),
        (InstallStage::AwaitExtract, InstallEvent::Extracted(false)) => (
            InstallStage::Finished,
            InstallActionView::Finish(Err("Extraction failed"@), None),
        ),
        _ => (InstallStage::Finished, InstallActionView::Finish(Err(seq![]), None)),
    }
}

/// An installation of one release of a tool, driven step by step by a caller
/// that does the file, network and archive work.
pub struct VersionInstall {
    stage: InstallStage,
    base: String,
    archive: String,
    url: String,
    flag: &'static str,
    version: String,
}

impl VersionInstall {
    /// The current stage.
    pub closed spec fn spec_stage(&self) -> InstallStage {
        self.stage
    }

    /// Where the release is installed.
    pub closed spec fn spec_base(&self) -> Seq<char> {
        self.base@
    }

    /// Where the archive is downloaded to.
    pub closed spec fn spec_archive(&self) -> Seq<char> {
        self.archive@
    }

    /// Where the archive is downloaded from.
    pub closed spec fn spec_url(&self) -> Seq<char> {
        self.url@
    }

    /// The decompression option for `tar`.
    pub closed spec fn spec_flag(&self) -> Seq<char> {
        self.flag@
    }

    /// The version being installed.
    pub closed spec fn spec_version(&self) -> Seq<char> {
        self.version@
    }

    /// The current stage.
    pub fn stage(&self) -> (s: InstallStage)
        ensures
            s == self.spec_stage(),
    {
        self.stage
    }

    /// Takes one step: the caller reports `ev`, which must be the event the
    /// stage waits for, and gets the next action.
    pub fn step(&mut self, ev: InstallEvent) -> (a: InstallAction)
        requires
            install_event_fits(old(self).spec_stage(), ev),
        ensures
            (final(self).spec_stage(), a@) == install_transition(
                old(self).spec_stage(),
                old(self).spec_base(),
                old(self).spec_archive(),
                old(self).spec_url(),
                old(self).spec_flag(),
                old(self).spec_version(),
                ev,
            ),
            final(self).spec_base() == old(self).spec_base(),
            final(self).spec_archive() == old(self).spec_archive(),
            final(self).spec_url() == old(self).spec_url(),
            final(self).spec_flag() == old(self).spec_flag(),
            final(self).spec_version() == old(self).spec_version(),
    {
        match ev {
            InstallEvent::Begin => {
                self.stage = InstallStage::AwaitBaseDir;
                InstallAction::CreateDir { path: self.base.clone() }
            },
            InstallEvent::BaseDirCreated(Err(e)) => {
                self.stage = InstallStage::Finished;
                InstallAction::Finish { result: Err(e), discard: None }
            },
            InstallEvent::BaseDirCreated(Ok(())) => {
                self.stage = InstallStage::AwaitDownload;
                InstallAction::Download {
                    url: self.url.clone(),
                    dest: self.archive.clone(),
                    staging_dir: "/tmp/gamehub-proton",
                }
            },
            InstallEvent::Downloaded(false) => {
                self.stage = InstallStage::Finished;
                InstallAction::Finish {
                    result: Err(String::from_str("Download failed")),
                    discard: Some(self.archive.clone()),
                }
            },
            InstallEvent::Downloaded(true) => {
                self.stage = InstallStage::AwaitExtract;
                InstallAction::Extract {
                    archive: self.archive.clone(),
                    dest: self.base.clone(),
                    flag: self.flag,
                }
            },
            InstallEvent::Extracted(true) => {
                self.stage = InstallStage::Finished;
                let mut m = String::from_str("Installed ");
                m.append(self.version.as_str());
                m.append(" to ");
                m.append(self.base.as_str());
                InstallAction::Finish { result: Ok(m), discard: None }
            },
            InstallEvent::Extracted(false) => {
                self.stage = InstallStage::Finished;
                InstallAction::Finish {
                    result: Err(String::from_str("Extraction failed")),
                    discard: None,
                }
            },
        }
    }
}

/// What installing a release gives, step by step as the hub does it: the
/// error of creating the install directory; else "Download failed" when the
/// download fails; else, after extracting, the success message or
/// "Extraction failed".
pub open spec fn install_outcome(
    base: Seq<char>,
    version: Seq<char>,
    created: Result<(), String>,
    downloaded: bool,
    extracted: bool,
) -> Result<Seq<char>, Seq<char>> {
    match created {
        Err(e) => Err(e@),
        Ok(()) => if !downloaded {
            Err("Download failed"@)
        } else if extracted {
            Ok(installed_message(version, base))
        } else {
            Err("Extraction failed"@)
        },
    }
}

/// The last action of an installation whose caller answers each action with
/// the given outcomes.
pub open spec fn install_run(
    base: Seq<char>,
    archive: Seq<char>,
    url: Seq<char>,
    flag: Seq<char>,
    version: Seq<char>,
    created: Result<(), String>,
    downloaded: bool,
    extracted: bool,
) -> InstallActionView {
    let (s1, a1) = install_transition(InstallStage::Start, base, archive, url, flag, version, InstallEvent::Begin);
    let (s2, a2) = install_transition(s1, base, archive, url, flag, version, InstallEvent::BaseDirCreated(created));
    if s2 == InstallStage::Finished {
        a2
    } else {
        let (s3, a3) = install_transition(s2, base, archive, url, flag, version, InstallEvent::Downloaded(downloaded));
        if s3 == InstallStage::Finished {
            a3
        } else {
            install_transition(s3, base, archive, url, flag, version, InstallEvent::Extracted(extracted)).1
        }
    }
}

/// Driven to its end, an installation finishes with the result the hub's
/// step-by-step procedure gives, and asks for the archive to be deleted
/// exactly when its download failed.
pub proof fn lemma_install_outcome(
    base: Seq<char>,
    archive: Seq<char>,
    url: Seq<char>,
    flag: Seq<char>,
    version: Seq<char>,
    created: Result<(), String>,
    downloaded: bool,
    extracted: bool,
)
    ensures
        install_run(base, archive, url, flag, version, created, downloaded, extracted)
            == InstallActionView::Finish(
            install_outcome(base, version, created, downloaded, extracted),
            if created is Ok && !downloaded {
                Some(archive)
            } else {
                None
            },
        ),
{
}

impl ProtonManager {
    /// Starts the installation of a release of the tool, with the home
    /// directory and the Steam locations that exist.
    pub fn install_version(
        tool: &CompatTool,
        release: &ReleaseInfo,
        home: &str,
        steam_dirs: &[String],
    ) -> (inst: VersionInstall)
        ensures
            inst.spec_stage() == InstallStage::Start,
            inst.spec_base() == spec_install_base(tool@, home@, svs(steam_dirs@)),
            inst.spec_archive() == path_join(staging_dir(), release.asset_name@),
            inst.spec_url() == release.download_url@,
            inst.spec_flag() == spec_decompress_flag(release.asset_name@),
            inst.spec_version() == release.version@,
    {
        VersionInstall {
            stage: InstallStage::Start,
            base: Self::install_base(tool, home, steam_dirs),
            archive: join_path("/tmp/gamehub-proton", release.asset_name.as_str()),
            url: release.download_url.clone(),
            flag: Self::decompress_flag(release.asset_name.as_str()),
            version: release.version.clone(),
        }
    }

    /// The result of removing an installed version at `path`, given the
    /// outcome of deleting the directory (`None` when it did not exist).
    pub fn remove_version(path: &str, removal: Option<Result<(), String>>) -> (r: Result<
        String,
        String,
    >)
        ensures
            result_view(r) == match removal {
                None => Err("Directory not found"@),
                Some(Err(e)) => Err(e@),
                Some(Ok(())) => Ok("Removed "@ + path@),
            },
    {
        match removal {
            None => Err(String::from_str("Directory not found")),
            Some(Err(e)) => Err(e),
            Some(Ok(())) => {
                let mut m = String::from_str("Removed ");
                m.append(path);
                Ok(m)
            },
        }
    }

    /// The shell command line that installs a release into `install_dir`:
    /// make the directory, download the archive into `/tmp`, extract it with
    /// the right decompression, and delete it; every path and the URL are
    /// quoted.
    pub fn install_shell_command(install_dir: &str, release: &ReleaseInfo) -> (c: String)
        ensures
            c@ == "mkdir -p "@ + shell_quoted(install_dir@) + " && cd /tmp && curl -fsSL -o "@
                + shell_quoted(release.asset_name@) + " "@ + shell_quoted(release.download_url@)
                + " && tar "@ + spec_decompress_flag(release.asset_name@) + " -xf "@
                + shell_quoted(release.asset_name@) + " -C "@ + shell_quoted(install_dir@)
                + " && rm -f "@ + shell_quoted(release.asset_name@),
    {
        let dir = shell_quote(install_dir);
        let asset = shell_quote(release.asset_name.as_str());
        let url = shell_quote(release.download_url.as_str());
        let flag = Self::decompress_flag(release.asset_name.as_str());
        let mut c = String::from_str("mkdir -p ");
        c.append(dir.as_str());
        c.append(" && cd /tmp && curl -fsSL -o ");
        c.append(asset.as_str());
        c.append(" ");
        c.append(url.as_str());
        c.append(" && tar ");
        c.append(flag);
        c.append(" -xf ");
        c.append(asset.as_str());
        c.append(" -C ");
        c.append(dir.as_str());
        c.append(" && rm -f ");
        c.append(asset.as_str());
        c
    }

    /// The shell command line that deletes an installed version.
    pub fn remove_shell_command(path: &str) -> (c: String)
        ensures
            c@ == "rm -rf "@ + shell_quoted(path@),
    {
        let mut c = String::from_str("rm -rf ");
        let q = shell_quote(path);
        c.append(q.as_str());
        c
    }

    /// The title of the terminal that installs a release of a tool.
    pub fn install_title(tool: &CompatTool, release: &ReleaseInfo) -> (t: String)
        ensures
            t@ == "Install "@ + tool.name@ + " — "@ + release.version@,
    {
        let mut t = String::from_str("Install ");
        t.append(tool.name);
        t.append(" — ");
        t.append(release.version.as_str());
        t
    }

    /// The release notes shown for a release.
    pub fn release_notes(release: &ReleaseInfo) -> (t: String)
        ensures
            t@ == if release.body@.len() == 0 {
                "No release notes available."@
            } else {
                release.body@
            },
    {
        if release.body.as_str().unicode_len() == 0 {
            String::from_str("No release notes available.")
        } else {
            release.body.clone()
        }
    }
}

// ---------------------------------------------------------------------------
// Collecting the release lists of all tools
// ---------------------------------------------------------------------------

/// The release lists of all tools as they arrive, one per tool, in any order.
pub struct ReleaseCollector {
    releases: Vec<Vec<ReleaseInfo>>,
    received: usize,
}

impl ReleaseCollector {
    /// The release list held for each tool (empty until it arrives).
    pub closed spec fn spec_releases(&self) -> Seq<Seq<ReleaseInfoView>> {
        self.releases@.map_values(|v: Vec<ReleaseInfo>| release_info_views(v@))
    }

    /// How many lists have arrived.
    pub closed spec fn spec_received(&self) -> nat {
        self.received as nat
    }

    /// A collector for `tool_count` tools, holding an empty list for each.
    pub fn new(tool_count: usize) -> (c: Self)
        ensures
            c.spec_releases().len() == tool_count,
            forall|i: int| 0 <= i < tool_count ==> (#[trigger] c.spec_releases()[i]).len() == 0,
            c.spec_received() == 0,
    {
        let mut releases: Vec<Vec<ReleaseInfo>> = Vec::new();
        let mut i: usize = 0;
        while i < tool_count
            invariant
                i <= tool_count,
                releases@.len() == i,
                forall|j: int| 0 <= j < i ==> (#[trigger] releases@[j])@.len() == 0,
            decreases tool_count - i,
        {
            releases.push(Vec::new());
            i = i + 1;
        }
        ReleaseCollector { releases, received: 0 }
    }

    /// Takes the release list of tool `i`: it replaces what was held for that
    /// tool, the lists of the other tools stay, and one more list has arrived.
    pub fn receive(&mut self, i: usize, list: Vec<ReleaseInfo>)
        requires
            i < old(self).spec_releases().len(),
            old(self).spec_received() < usize::MAX,
        ensures
            final(self).spec_releases() == old(self).spec_releases().update(
                i as int,
                release_info_views(list@),
            ),
            final(self).spec_received() == old(self).spec_received() + 1,
    {
        let ghost before = self.releases@;
        let ghost lv = release_info_views(list@);
        self.releases.set(i, list);
        self.received = self.received + 1;
        assert(self.releases@.map_values(|v: Vec<ReleaseInfo>| release_info_views(v@))
            =~= before.map_values(|v: Vec<ReleaseInfo>| release_info_views(v@)).update(i as int, lv));
    }

    /// Have as many lists arrived as there are tools?
    pub fn is_complete(&self) -> (b: bool)
        ensures
            b == (self.spec_received() >= self.spec_releases().len()),
    {
        self.received >= self.releases.len()
    }

    /// The lists, one per tool.
    pub fn into_releases(self) -> (r: Vec<Vec<ReleaseInfo>>)
        ensures
            r@.map_values(|v: Vec<ReleaseInfo>| release_info_views(v@)) == self.spec_releases(),
    {
        self.releases
    }
}

// ---------------------------------------------------------------------------
// Laws
// ---------------------------------------------------------------------------

/// Law: no installed directory is taken both for GE-Proton and for GE-Proton
/// RTSP.
pub proof fn lemma_ge_proton_rtsp_disjoint(name: Seq<char>)
    ensures
        !(rule_matches(compat_catalog()[0].match_rule, name) && rule_matches(
            compat_catalog()[2].match_rule,
            name,
        )),
{
}

/// Law: a directory whose name starts with "GE-Proton" is taken by exactly
/// one of GE-Proton and GE-Proton RTSP, given what `str::to_lowercase` is
/// stated to do with the name's ASCII prefix.
pub proof fn lemma_ge_proton_claimed_once(name: Seq<char>)
    requires
        starts_with(name, "GE-Proton"@),
        lowercase_known(name),
    ensures
        rule_matches(compat_catalog()[0].match_rule, name) != rule_matches(
            compat_catalog()[2].match_rule,
            name,
        ),
{
    reveal_strlit("GE-Proton");
    reveal_strlit("ge-proton");
    let p = name.take(9);
    assert(p =~= "GE-Proton"@);
    assert(all_ascii(p));
    let lower = lowercase(name);
    assert(lower.take(9) == p.map_values(|c: char| ascii_lower_char(c)));
    assert(lower.take(9) =~= "ge-proton"@);
    assert(lower.subrange(0, 9) =~= lower.take(9));
    assert(occurs_at(lower, "ge-proton"@, 0));
}

/// Each installed version found among the entries is the name and path of a
/// directory entry whose name the rule accepts.
proof fn lemma_installed_among_from_entries(
    rule: NameRule,
    entries: Seq<(Seq<char>, bool)>,
    j: int,
)
    requires
        0 <= j < installed_among(rule, entries).len(),
    ensures
        exists|i: int|
            0 <= i < entries.len() && entries[i].1 && rule_matches(rule, entry_name(entries[i].0))
                && installed_among(rule, entries)[j] == (entry_name(entries[i].0), entries[i].0),
    decreases entries.len(),
{
    let front = entries.drop_last();
    let e = entries.last();
    let r = installed_among(rule, entries);
    if j < installed_among(rule, front).len() {
        lemma_installed_among_from_entries(rule, front, j);
        let i = choose|i: int|
            0 <= i < front.len() && front[i].1 && rule_matches(rule, entry_name(front[i].0))
                && installed_among(rule, front)[j] == (entry_name(front[i].0), front[i].0);
        assert(entries[i] == front[i]);
        assert(r[j] == installed_among(rule, front)[j]);
    } else {
        assert(r[j] == (entry_name(e.0), e.0));
        assert(entries[entries.len() - 1] == e);
    }
}

/// Law: among the entries of the same install locations, GE-Proton and
/// GE-Proton RTSP never list the same path; every GE-Proton version starts
/// with "GE-Proton" and its lowercase form has no "rtsp", and the lowercase
/// form of every GE-Proton RTSP version contains "ge-proton" and "rtsp".
pub proof fn lemma_ge_proton_rtsp_paths_disjoint(entries: Seq<(Seq<char>, bool)>)
    ensures
        ({
            let ge = installed_among(compat_catalog()[0].match_rule, entries);
            let rtsp = installed_among(compat_catalog()[2].match_rule, entries);
            &&& forall|x: int, y: int|
                0 <= x < ge.len() && 0 <= y < rtsp.len() ==> ge[x].1 != rtsp[y].1
            &&& forall|x: int|
                0 <= x < ge.len() ==> starts_with(ge[x].0, "GE-Proton"@) && !contains(
                    lowercase(#[trigger] ge[x].0),
                    "rtsp"@,
                )
            &&& forall|y: int|
                0 <= y < rtsp.len() ==> contains(lowercase(#[trigger] rtsp[y].0), "ge-proton"@)
                    && contains(lowercase(rtsp[y].0), "rtsp"@)
        }),
{
    let ge_rule = compat_catalog()[0].match_rule;
    let rtsp_rule = compat_catalog()[2].match_rule;
    let ge = installed_among(ge_rule, entries);
    let rtsp = installed_among(rtsp_rule, entries);
    assert forall|x: int| 0 <= x < ge.len() implies rule_matches(ge_rule, #[trigger] ge[x].0) by {
        lemma_installed_among_from_entries(ge_rule, entries, x);
    }
    assert forall|y: int| 0 <= y < rtsp.len() implies rule_matches(
        rtsp_rule,
        #[trigger] rtsp[y].0,
    ) by {
        lemma_installed_among_from_entries(rtsp_rule, entries, y);
    }
    assert forall|x: int, y: int| 0 <= x < ge.len() && 0 <= y < rtsp.len() implies ge[x].1
        != rtsp[y].1 by {
        lemma_installed_among_from_entries(ge_rule, entries, x);
        lemma_installed_among_from_entries(rtsp_rule, entries, y);
        let a = choose|i: int|
            0 <= i < entries.len() && entries[i].1 && rule_matches(ge_rule, entry_name(entries[i].0))
                && ge[x] == (entry_name(entries[i].0), entries[i].0);
        let b = choose|i: int|
            0 <= i < entries.len() && entries[i].1 && rule_matches(rtsp_rule, entry_name(entries[i].0))
                && rtsp[y] == (entry_name(entries[i].0), entries[i].0);
        lemma_ge_proton_rtsp_disjoint(entry_name(entries[a].0));
    }
}

/// Law: no two compatibility tools share an id.
pub proof fn lemma_compat_ids_distinct()
    ensures
        forall|i: int, j: int|
            0 <= i < j < compat_catalog().len() ==> compat_catalog()[i].id
                != compat_catalog()[j].id,
{
    reveal_strlit("ge-proton");
    reveal_strlit("proton-cachyos");
    reveal_strlit("ge-proton-rtsp");
    reveal_strlit("dxvk");
    reveal_strlit("vkd3d-proton");
    let c = compat_catalog();
    assert forall|i: int, j: int| 0 <= i < j < c.len() implies c[i].id != c[j].id by {
        if c[i].id == c[j].id {
            assert(c[i].id.len() == c[j].id.len());
            assert(c[i].id[0] == c[j].id[0]);
        }
    }
}

proof fn lemma_first_qualifying_sound(tool: CompatView, assets: Seq<AssetView>)
    ensures
        first_qualifying(tool, assets) matches Some(a) ==> assets.contains(a)
            && asset_qualifies_with(tool, a, filter_matches(tool, a.0)),
    decreases assets.len(),
{
    if assets.len() > 0 && !asset_qualifies_with(tool, assets[0], filter_matches(tool, assets[0].0)) {
        lemma_first_qualifying_sound(tool, assets.drop_first());
        if let Some(a) = first_qualifying(tool, assets) {
            let k = choose|k: int| 0 <= k < assets.drop_first().len() && assets.drop_first()[k] == a;
            assert(assets[k + 1] == a);
        }
    } else if assets.len() > 0 {
        assert(assets[0] == assets[0]);
    }
}

/// Law: the hub offers at most one asset per release, and every offered
/// asset matches the tool's pattern, has a download URL, fits the tool's
/// architecture, and belongs to one of the listed releases.
pub proof fn lemma_offered_releases_sound(tool: CompatView, rs: Seq<ReleaseEntryView>)
    ensures
        releases_choice(tool, rs).len() <= rs.len(),
        forall|k: int| 0 <= k < releases_choice(tool, rs).len() ==> {
            let o = #[trigger] releases_choice(tool, rs)[k];
            &&& filter_matches(tool, o.asset_name)
            &&& o.download_url.len() > 0
            &&& (tool.arch_filter matches Some(arch) ==> contains(o.asset_name, arch))
            &&& exists|j: int| 0 <= j < rs.len() && #[trigger] rs[j].body == o.body
        },
    decreases rs.len(),
{
    if rs.len() > 0 {
        lemma_offered_releases_sound(tool, rs.drop_last());
        let p = releases_choice(tool, rs.drop_last());
        let r = releases_choice(tool, rs);
        let last = rs.last();
        if let Some(assets) = last.assets {
            lemma_first_qualifying_sound(tool, assets);
        }
        assert forall|k: int| 0 <= k < r.len() implies {
            let o = #[trigger] r[k];
            &&& filter_matches(tool, o.asset_name)
            &&& o.download_url.len() > 0
            &&& (tool.arch_filter matches Some(arch) ==> contains(o.asset_name, arch))
            &&& exists|j: int| 0 <= j < rs.len() && #[trigger] rs[j].body == o.body
        } by {
            if k < p.len() {
                assert(r[k] == p[k]);
                let j = choose|j: int| 0 <= j < rs.drop_last().len() && #[trigger] rs.drop_last()[j].body == p[k].body;
                assert(rs[j] == rs.drop_last()[j]);
            } else {
                assert(rs[rs.len() - 1] == last);
            }
        }
    }
}

/// Law: a Proton-CachyOS asset is offered only for the standard x86_64 build.
pub proof fn lemma_cachyos_standard_arch(rs: Seq<ReleaseEntryView>)
    ensures
        forall|k: int| 0 <= k < releases_choice(compat_catalog()[1], rs).len() ==> contains(
            (#[trigger] releases_choice(compat_catalog()[1], rs)[k]).asset_name,
            "-x86_64.tar"@,
        ),
{
    lemma_offered_releases_sound(compat_catalog()[1], rs);
}

/// Law: the decompression option follows the archive's extension.
pub proof fn lemma_decompress_flag_by_extension(name: Seq<char>)
    ensures
        crate::text::ends_with(name, ".zst"@) ==> spec_decompress_flag(name) == "--zstd"@,
        !crate::text::ends_with(name, ".zst"@) && crate::text::ends_with(name, ".xz"@)
            ==> spec_decompress_flag(name) == "--xz"@,
        !crate::text::ends_with(name, ".zst"@) && !crate::text::ends_with(name, ".xz"@)
            ==> spec_decompress_flag(name) == "-z"@,
{
}

/// The lists held after the lists of the tools in `order` arrived, one after
/// the other, each tool's being `lists[tool]`.
pub open spec fn apply_receipts(
    held: Seq<Seq<ReleaseInfoView>>,
    order: Seq<int>,
    lists: Seq<Seq<ReleaseInfoView>>,
) -> Seq<Seq<ReleaseInfoView>>
    decreases order.len(),
{
    if order.len() == 0 {
        held
    } else {
        apply_receipts(held, order.drop_last(), lists).update(order.last(), lists[order.last()])
    }
}

proof fn lemma_apply_receipts(
    held: Seq<Seq<ReleaseInfoView>>,
    order: Seq<int>,
    lists: Seq<Seq<ReleaseInfoView>>,
)
    requires
        forall|j: int| 0 <= j < order.len() ==> 0 <= #[trigger] order[j] < held.len(),
    ensures
        apply_receipts(held, order, lists).len() == held.len(),
        forall|k: int|
            0 <= k < held.len() ==> #[trigger] apply_receipts(held, order, lists)[k] == if order.contains(
                k,
            ) {
                lists[k]
            } else {
                held[k]
            },
    decreases order.len(),
{
    if order.len() > 0 {
        let o = order.drop_last();
        assert forall|j: int| 0 <= j < o.len() implies 0 <= #[trigger] o[j] < held.len() by {
            assert(o[j] == order[j]);
        }
        lemma_apply_receipts(held, o, lists);
        let r = apply_receipts(held, order, lists);
        assert forall|k: int| 0 <= k < held.len() implies #[trigger] r[k] == if order.contains(k) {
            lists[k]
        } else {
            held[k]
        } by {
            if k != order.last() {
                if o.contains(k) {
                    let j = choose|j: int| 0 <= j < o.len() && o[j] == k;
                    assert(order[j] == k);
                }
                if order.contains(k) {
                    let j = choose|j: int| 0 <= j < order.len() && order[j] == k;
                    assert(j != order.len() - 1);
                    assert(o[j] == k);
                }
            } else {
                assert(order[order.len() - 1] == k);
            }
        }
    }
}

/// Law: whatever order the tools' release lists arrive in, once every tool's
/// list has arrived the collector holds each tool's own list; no list that
/// arrived earlier is lost.
pub proof fn lemma_every_list_kept(
    held: Seq<Seq<ReleaseInfoView>>,
    order: Seq<int>,
    lists: Seq<Seq<ReleaseInfoView>>,
)
    requires
        lists.len() == held.len(),
        forall|j: int| 0 <= j < order.len() ==> 0 <= #[trigger] order[j] < held.len(),
        forall|k: int| 0 <= k < held.len() ==> #[trigger] order.contains(k),
    ensures
        apply_receipts(held, order, lists) == lists,
{
    lemma_apply_receipts(held, order, lists);
    assert(apply_receipts(held, order, lists) =~= lists);
}

/// Law: a Proton build goes into the first Steam location that exists, in
/// the order the locations are tried; when none exists, into
/// `.steam/steam/compatibilitytools.d` under the home directory. A tool
/// installed with Lutris' runtime goes into `.local/share/lutris/runtime`
/// under the home directory, whichever Steam locations exist.
pub proof fn lemma_install_base_choice(tool: CompatView, home: Seq<char>, steam_dirs: Seq<Seq<char>>)
    ensures
        steam_dirs.len() > 0 ==> spec_steam_install_base(home, steam_dirs) == steam_dirs[0],
        steam_dirs.len() == 0 ==> spec_steam_install_base(home, steam_dirs) == path_join(
            home,
            ".steam/steam/compatibilitytools.d"@,
        ),
        tool.install_subdir.len() > 0 ==> spec_install_base(tool, home, steam_dirs)
            == spec_steam_install_base(home, steam_dirs),
        tool.install_subdir.len() == 0 ==> spec_install_base(tool, home, steam_dirs) == path_join(
            home,
            ".local/share/lutris/runtime"@,
        ),
{
}

/// Law: the installation of a release of a Proton build (a tool with an
/// install directory) targets the first existing Steam location.
pub proof fn lemma_install_targets_first_steam_dir(
    tool: CompatView,
    home: Seq<char>,
    steam_dirs: Seq<Seq<char>>,
    inst: VersionInstall,
)
    requires
        tool.install_subdir.len() > 0,
        steam_dirs.len() > 0,
        inst.spec_base() == spec_install_base(tool, home, steam_dirs),
    ensures
        inst.spec_base() == steam_dirs[0],
{
}

/// With none of the first `n` candidates present, none of them is kept.
proof fn lemma_present_none(c: Seq<Seq<char>>, p: Seq<bool>, n: int)
    requires
        0 <= n <= c.len(),
        forall|j: int| 0 <= j < n && j < p.len() ==> !p[j],
    ensures
        present_only(c.take(n), p).len() == 0,
    decreases n,
{
    if n > 0 {
        let t = c.take(n);
        assert(t.drop_last() =~= c.take(n - 1));
        lemma_present_none(c, p, n - 1);
    }
}

/// The first present candidate heads what is kept of every longer prefix.
proof fn lemma_present_first(c: Seq<Seq<char>>, p: Seq<bool>, k: int, n: int)
    requires
        0 <= k < n <= c.len(),
        k < p.len() && p[k],
        forall|j: int| 0 <= j < k && j < p.len() ==> !p[j],
    ensures
        present_only(c.take(n), p).len() > 0,
        present_only(c.take(n), p)[0] == c[k],
    decreases n,
{
    let t = c.take(n);
    assert(t.drop_last() =~= c.take(n - 1));
    if n == k + 1 {
        lemma_present_none(c, p, k);
        assert(t[n - 1] == c[k]);
    } else {
        lemma_present_first(c, p, k, n - 1);
    }
}

/// Law: the Steam locations that exist come in the order they are tried, so
/// the first of them is the first candidate that exists; with none existing
/// there are none.
pub proof fn lemma_first_existing_steam_dir(home: Seq<char>, present: Seq<bool>, k: int)
    requires
        0 <= k < steam_dir_suffixes().len(),
        k < present.len() && present[k],
        forall|j: int| 0 <= j < k ==> !present[j],
    ensures
        present_only(under_home(home, steam_dir_suffixes()), present).len() > 0,
        present_only(under_home(home, steam_dir_suffixes()), present)[0] == path_join(
            home,
            steam_dir_suffixes()[k],
        ),
{
    let c = under_home(home, steam_dir_suffixes());
    lemma_present_first(c, present, k, c.len() as int);
    assert(c.take(c.len() as int) =~= c);
}

/// Law: when no Steam location exists, none is listed.
pub proof fn lemma_no_existing_steam_dir(home: Seq<char>, present: Seq<bool>)
    requires
        forall|j: int| 0 <= j < present.len() ==> !present[j],
    ensures
        present_only(under_home(home, steam_dir_suffixes()), present).len() == 0,
{
    let c = under_home(home, steam_dir_suffixes());
    lemma_present_none(c, present, c.len() as int);
    assert(c.take(c.len() as int) =~= c);
}

/// The first asset offered for the tool is the first of the list that
/// qualifies; there is none when no asset qualifies.
proof fn lemma_first_qualifying_first(tool: CompatView, assets: Seq<AssetView>)
    ensures
        first_qualifying(tool, assets) is None <==> forall|k: int|
            0 <= k < assets.len() ==> !asset_qualifies_with(
                tool,
                #[trigger] assets[k],
                filter_matches(tool, assets[k].0),
            ),
        first_qualifying(tool, assets) matches Some(a) ==> exists|k: int|
            0 <= k < assets.len() && assets[k] == a && asset_qualifies_with(
                tool,
                a,
                filter_matches(tool, a.0),
            ) && forall|j: int|
                0 <= j < k ==> !asset_qualifies_with(
                    tool,
                    #[trigger] assets[j],
                    filter_matches(tool, assets[j].0),
                ),
    decreases assets.len(),
{
    if assets.len() > 0 {
        let t = assets.drop_first();
        lemma_first_qualifying_first(tool, t);
        if !asset_qualifies_with(tool, assets[0], filter_matches(tool, assets[0].0)) {
            if first_qualifying(tool, assets) is None {
                assert forall|k: int| 0 <= k < assets.len() implies !asset_qualifies_with(
                    tool,
                    #[trigger] assets[k],
                    filter_matches(tool, assets[k].0),
                ) by {
                    if k > 0 {
                        assert(assets[k] == t[k - 1]);
                    }
                }
            } else {
                let a = first_qualifying(tool, assets)->0;
                let k = choose|k: int|
                    0 <= k < t.len() && t[k] == a && asset_qualifies_with(
                        tool,
                        a,
                        filter_matches(tool, a.0),
                    ) && forall|j: int|
                        0 <= j < k ==> !asset_qualifies_with(
                            tool,
                            #[trigger] t[j],
                            filter_matches(tool, t[j].0),
                        );
                assert(assets[k + 1] == t[k]);
                assert forall|j: int| 0 <= j < k + 1 implies !asset_qualifies_with(
                    tool,
                    #[trigger] assets[j],
                    filter_matches(tool, assets[j].0),
                ) by {
                    if j > 0 {
                        assert(assets[j] == t[j - 1]);
                    }
                }
            }
        } else {
            assert(assets[0] == first_qualifying(tool, assets)->0);
        }
    }
}

/// Law: a release is offered exactly when it lists an asset that qualifies
/// for the tool (it matches the tool's pattern, has a download URL and fits
/// the architecture); what is offered is then the first such asset, under
/// the version taken from its name and the release tag, with the release's
/// notes.
pub proof fn lemma_release_offers_first_qualifying_asset(tool: CompatView, r: ReleaseEntryView)
    ensures
        release_choice(tool, r) is Some <==> (r.assets matches Some(a) && exists|k: int|
            0 <= k < a.len() && asset_qualifies_with(
                tool,
                #[trigger] a[k],
                filter_matches(tool, a[k].0),
            )),
        release_choice(tool, r) matches Some(o) ==> (r.assets matches Some(a) && exists|k: int|
            0 <= k < a.len() && asset_qualifies_with(tool, a[k], filter_matches(tool, a[k].0))
                && (forall|j: int|
                0 <= j < k ==> !asset_qualifies_with(
                    tool,
                    #[trigger] a[j],
                    filter_matches(tool, a[j].0),
                )) && o.asset_name == a[k].0 && o.download_url == a[k].1 && o.body == r.body
                && o.version == spec_extract_version(a[k].0, r.tag_name)),
{
    if let Some(a) = r.assets {
        lemma_first_qualifying_first(tool, a);
        if first_qualifying(tool, a) is None {
            if exists|k: int|
                0 <= k < a.len() && asset_qualifies_with(
                    tool,
                    #[trigger] a[k],
                    filter_matches(tool, a[k].0),
                ) {
                let k = choose|k: int|
                    0 <= k < a.len() && asset_qualifies_with(
                        tool,
                        #[trigger] a[k],
                        filter_matches(tool, a[k].0),
                    );
                assert(!asset_qualifies_with(tool, a[k], filter_matches(tool, a[k].0)));
            }
        } else {
            let x = first_qualifying(tool, a)->0;
            let k = choose|k: int|
                0 <= k < a.len() && a[k] == x && asset_qualifies_with(
                    tool,
                    x,
                    filter_matches(tool, x.0),
                ) && forall|j: int|
                    0 <= j < k ==> !asset_qualifies_with(
                        tool,
                        #[trigger] a[j],
                        filter_matches(tool, a[j].0),
                    );
            assert(asset_qualifies_with(tool, a[k], filter_matches(tool, a[k].0)));
        }
    }
}

/// Law: no release that is offered on its own is dropped from the listing,
/// and the listing keeps the releases' order.
pub proof fn lemma_every_offered_release_listed(tool: CompatView, rs: Seq<ReleaseEntryView>, j: int)
    requires
        0 <= j < rs.len(),
        release_choice(tool, rs[j]) is Some,
    ensures
        ({
            let before = releases_choice(tool, rs.take(j));
            &&& before.len() < releases_choice(tool, rs).len()
            &&& releases_choice(tool, rs)[before.len() as int] == release_choice(tool, rs[j])->0
        }),
    decreases rs.len(),
{
    let front = rs.drop_last();
    if j == rs.len() - 1 {
        assert(rs.take(j) =~= front);
        assert(rs.last() == rs[j]);
    } else {
        assert(front[j] == rs[j]);
        assert(front.take(j) =~= rs.take(j));
        lemma_every_offered_release_listed(tool, front, j);
    }
}

/// Law: with releases found, or an empty response, nothing is reported; with
/// nothing found in a non-empty response, GitHub's rate limit is reported when
/// the response mentions it, else that nothing could be read.
pub proof fn lemma_fetch_report_cases(found: bool, body: Seq<char>)
    ensures
        found ==> spec_fetch_report(found, body) == FetchReport::Fine,
        body.len() == 0 ==> spec_fetch_report(found, body) == FetchReport::Fine,
        !found && body.len() > 0 && contains(body, "rate limit"@) ==> spec_fetch_report(found, body)
            == FetchReport::RateLimited,
        !found && body.len() > 0 && !contains(body, "rate limit"@) ==> spec_fetch_report(
            found,
            body,
        ) == FetchReport::NothingParsed,
{
    reveal_strlit("API rate limit");
    reveal_strlit("rate limit");
    if contains(body, "API rate limit"@) {
        let i = choose|i: int| occurs_at(body, "API rate limit"@, i);
        assert(body.subrange(i + 4, i + 14) =~= body.subrange(i, i + 14).subrange(4, 14));
        assert("API rate limit"@.subrange(4, 14) =~= "rate limit"@);
        assert(occurs_at(body, "rate limit"@, i + 4));
    }
}

/// Removing a suffix that is there and then as long as it is there leaves
/// what removing it from the rest leaves; a suffix that is not there stays.
proof fn lemma_trim_end_appended(x: Seq<char>, p: Seq<char>)
    requires
        p.len() > 0,
    ensures
        trim_end_pattern(x + p, p) == trim_end_pattern(x, p),
        !crate::text::ends_with(x, p) ==> trim_end_pattern(x, p) == x,
{
    let y = x + p;
    assert(y.subrange(y.len() - p.len(), y.len() as int) =~= p);
    assert(y.take(y.len() - p.len()) =~= x);
}

/// The archive suffixes that a version loses.
pub open spec fn archive_suffix(ext: Seq<char>) -> bool {
    ext == ".tar.gz"@ || ext == ".tar.zst"@ || ext == ".tar.xz"@
}

/// Law: the version of an asset named after a known tool (`GE-Proton`,
/// `proton-cachyos`, `dxvk` or `vkd3d-proton`), then a version text and an
/// archive suffix, is the tool's name, a dash and that version text, when
/// the version text is not empty, does not start with a dash and does not
/// itself end with an archive suffix; the release tag is then not used.
pub proof fn lemma_version_from_asset_name(prefix: Seq<char>, v: Seq<char>, ext: Seq<char>, tag: Seq<char>)
    requires
        prefix == "GE-Proton"@ || prefix == "proton-cachyos"@ || prefix == "dxvk"@ || prefix
            == "vkd3d-proton"@,
        archive_suffix(ext),
        v.len() > 0,
        v[0] != '-',
        !crate::text::ends_with(v, ".tar.gz"@),
        !crate::text::ends_with(v, ".tar.zst"@),
        !crate::text::ends_with(v, ".tar.xz"@),
    ensures
        spec_extract_version(prefix + v + ext, tag) == prefix + "-"@ + v,
{
    reveal_strlit("GE-Proton");
    reveal_strlit("proton-cachyos");
    reveal_strlit("dxvk");
    reveal_strlit("vkd3d-proton");
    reveal_strlit(".tar.gz");
    reveal_strlit(".tar.zst");
    reveal_strlit(".tar.xz");
    let name = prefix + v + ext;
    let rest = v + ext;
    assert(name.subrange(0, prefix.len() as int) =~= prefix);
    assert(name.skip(prefix.len() as int) =~= rest);
    assert(strip_prefix(name, prefix) == Some(rest));
    assert(trim_start_char(rest, '-') == rest);
    let gz = ".tar.gz"@;
    let zst = ".tar.zst"@;
    let xz = ".tar.xz"@;
    lemma_trim_end_appended(v, gz);
    lemma_trim_end_appended(v, zst);
    lemma_trim_end_appended(v, xz);
    if ext == gz {
        assert(trim_end_pattern(rest, gz) == v);
    } else if ext == zst {
        assert(rest[rest.len() - 1] == 't');
        if crate::text::ends_with(rest, gz) {
            assert(rest.subrange(rest.len() - 7, rest.len() as int)[6] == rest[rest.len() - 1]);
        }
        lemma_trim_end_appended(rest, gz);
        assert(trim_end_pattern(rest, gz) == rest);
        assert(trim_end_pattern(rest, zst) == v);
    } else {
        assert(rest[rest.len() - 2] == 'x');
        if crate::text::ends_with(rest, gz) {
            assert(rest.subrange(rest.len() - 7, rest.len() as int)[5] == rest[rest.len() - 2]);
        }
        lemma_trim_end_appended(rest, gz);
        assert(rest[rest.len() - 1] == 'z');
        if crate::text::ends_with(rest, zst) {
            assert(rest.subrange(rest.len() - 8, rest.len() as int)[7] == rest[rest.len() - 1]);
        }
        lemma_trim_end_appended(rest, zst);
        assert(trim_end_pattern(rest, xz) == v);
    }
    assert(prefix_version(name, prefix) == Some(prefix + "-"@ + v));
    if prefix != "GE-Proton"@ {
        assert(name[0] != 'G');
        assert(!starts_with(name, "GE-Proton"@));
    }
    if prefix != "proton-cachyos"@ {
        assert(name[0] != 'p');
        assert(!starts_with(name, "proton-cachyos"@));
    }
    if prefix != "dxvk"@ {
        assert(name[0] != 'd');
        assert(!starts_with(name, "dxvk"@));
    }
}

/// Law: the version of an asset whose name starts with no known tool's name
/// is the release tag without its leading `v`s.
pub proof fn lemma_version_from_tag(name: Seq<char>, tag: Seq<char>, a: int)
    requires
        !starts_with(name, "GE-Proton"@),
        !starts_with(name, "proton-cachyos"@),
        !starts_with(name, "dxvk"@),
        !starts_with(name, "vkd3d-proton"@),
        0 <= a <= tag.len(),
        forall|j: int| 0 <= j < a ==> tag[j] == 'v',
        a == tag.len() || tag[a] != 'v',
    ensures
        spec_extract_version(name, tag) == tag.skip(a),
{
    crate::text::lemma_trim_start_char_skip(tag, 'v', a);
}

} // verus!
