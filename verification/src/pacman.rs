//! The pacman side of the library: what the local package database holds,
//! read from the output of `pacman -Q` or `pacman -Qi`, what pacman answers
//! when asked about one name, and the command lines that install or remove
//! packages.
use vstd::prelude::*;
use crate::text::{
    chars_of, contains, index_of_from, is_ws, join, join_strings, len_before, lemma_words_concat,
    lemma_words_of_join, lemma_words_trailing_ws, lines, lines_exec, occurs_at_exec, opt_view, slice_vec, str_contains, str_eq,
    strip_prefix, strip_prefix_exec, string_of, string_of_range, trim, trim_exec, views, words, words_exec,
};

verus! {

broadcast use vstd::string::group_string_axioms;

/// One installed package: its name, its version when one was listed, and
/// the names it provides (a listing of `pacman -Q` shows none).
pub struct PackageEntry {
    pub name: String,
    pub version: Option<String>,
    pub provides: Vec<String>,
}

/// Abstract view of a package entry: name, version, provided names.
pub type EntryView = (Seq<char>, Option<Seq<char>>, Seq<Seq<char>>);

impl View for PackageEntry {
    type V = EntryView;

    open spec fn view(&self) -> EntryView {
        (self.name@, match self.version {
            Some(v) => Some(v@),
            None => None,
        }, string_views(self.provides@))
    }
}

/// The entry that one line of `pacman -Q` output gives: its first field is
/// the name and its second field, if any, the version; a blank line gives
/// none.
pub open spec fn entry_of_line(l: Seq<char>) -> Option<EntryView> {
    let w = words(l);
    if w.len() == 0 {
        None
    } else {
        Some((w[0], if w.len() > 1 { Some(w[1]) } else { None }, seq![]))
    }
}

/// The entries of a sequence of lines, in order.
pub open spec fn entries_of_lines(ls: Seq<Seq<char>>) -> Seq<EntryView>
    decreases ls.len(),
{
    if ls.len() == 0 {
        seq![]
    } else {
        entries_of_lines(ls.drop_last()) + match entry_of_line(ls.last()) {
            Some(e) => seq![e],
            None => seq![],
        }
    }
}

/// The entries of the whole output of `pacman -Q`.
pub open spec fn query_entries(out: Seq<char>) -> Seq<EntryView> {
    entries_of_lines(lines(out))
}

/// The value of a field of `pacman -Qi` output on line `l`: the line starts
/// with the field's name, then only spaces up to a `:`, and the value is what
/// follows that `:`, trimmed.
pub open spec fn field_value(l: Seq<char>, key: Seq<char>) -> Option<Seq<char>> {
    match strip_prefix(l, key) {
        Some(rest) => {
            let k = len_before(rest, ':');
            if k < rest.len() && trim(rest.take(k as int)).len() == 0 {
                Some(trim(rest.skip(k + 1 as int)))
            } else {
                None
            }
        },
        None => None,
    }
}

/// The name that a provision such as `libfoo.so=1-64` provides: what stands
/// before its `=`.
pub open spec fn provision_name(w: Seq<char>) -> Seq<char> {
    w.take(len_before(w, '=') as int)
}

/// The names that a `Provides` field lists (`None` lists none).
pub open spec fn provisions(v: Seq<char>) -> Seq<Seq<char>> {
    if v == "None"@ {
        seq![]
    } else {
        words(v).map_values(|w: Seq<char>| provision_name(w))
    }
}

/// The packages read so far, after one more line of `pacman -Qi` output: a
/// `Name` field starts a package, and the `Version` and `Provides` fields
/// fill in the package started last; other lines change nothing.
pub open spec fn info_step(acc: Seq<EntryView>, l: Seq<char>) -> Seq<EntryView> {
    if let Some(n) = field_value(l, "Name"@) {
        acc.push((n, None, seq![]))
    } else if acc.len() == 0 {
        acc
    } else if let Some(v) = field_value(l, "Version"@) {
        let e = acc.last();
        acc.update(acc.len() - 1, (e.0, Some(v), e.2))
    } else if let Some(v) = field_value(l, "Provides"@) {
        let e = acc.last();
        acc.update(acc.len() - 1, (e.0, e.1, provisions(v)))
    } else {
        acc
    }
}

/// The packages that a sequence of `pacman -Qi` lines describes.
pub open spec fn info_entries_of(ls: Seq<Seq<char>>) -> Seq<EntryView>
    decreases ls.len(),
{
    if ls.len() == 0 {
        seq![]
    } else {
        info_step(info_entries_of(ls.drop_last()), ls.last())
    }
}

/// The packages that the whole output of `pacman -Qi` describes.
pub open spec fn info_entries(out: Seq<char>) -> Seq<EntryView> {
    info_entries_of(lines(out))
}

/// The first entry with the given name.
pub open spec fn lookup_named(entries: Seq<EntryView>, name: Seq<char>) -> Option<EntryView>
    decreases entries.len(),
{
    if entries.len() == 0 {
        None
    } else if entries[0].0 == name {
        Some(entries[0])
    } else {
        lookup_named(entries.drop_first(), name)
    }
}

/// The first entry that provides the given name.
pub open spec fn lookup_provider(entries: Seq<EntryView>, name: Seq<char>) -> Option<EntryView>
    decreases entries.len(),
{
    if entries.len() == 0 {
        None
    } else if entries[0].2.contains(name) {
        Some(entries[0])
    } else {
        lookup_provider(entries.drop_first(), name)
    }
}

/// The package that `pacman -Q name` reports: the one of that name, else the
/// first one (in the database's order) that provides the name.
pub open spec fn lookup(entries: Seq<EntryView>, name: Seq<char>) -> Option<EntryView> {
    match lookup_named(entries, name) {
        Some(e) => Some(e),
        None => lookup_provider(entries, name),
    }
}

/// The version that the database lists for `name`, if it lists `name` with
/// a version.
pub open spec fn spec_package_version(entries: Seq<EntryView>, name: Seq<char>) -> Option<Seq<char>> {
    match lookup(entries, name) {
        Some(e) => e.1,
        None => None,
    }
}

/// The prefix of every install command.
pub open spec fn install_prefix() -> Seq<char> {
    "pkexec pacman -S --noconfirm "@
}

/// The prefix of every remove command.
pub open spec fn remove_prefix() -> Seq<char> {
    "pkexec pacman -Rns --noconfirm "@
}

/// The command line that installs `packages`.
pub open spec fn spec_install_command(packages: Seq<Seq<char>>) -> Seq<char> {
    install_prefix() + join(packages, " "@)
}

/// The command line that removes `packages` with their unneeded dependencies.
pub open spec fn spec_remove_command(packages: Seq<Seq<char>>) -> Seq<char> {
    remove_prefix() + join(packages, " "@)
}

/// The views of a slice of strings.
pub open spec fn string_views(v: Seq<String>) -> Seq<Seq<char>> {
    v.map_values(|x: String| x@)
}

pub proof fn lemma_lookup_named_some(entries: Seq<EntryView>, name: Seq<char>)
    ensures
        lookup_named(entries, name) is Some <==> exists|i: int|
            0 <= i < entries.len() && #[trigger] entries[i].0 == name,
        lookup_named(entries, name) matches Some(e) ==> e.0 == name,
    decreases entries.len(),
{
    if entries.len() > 0 {
        lemma_lookup_named_some(entries.drop_first(), name);
        if entries[0].0 != name {
            if lookup_named(entries, name) is None {
                assert forall|i: int| 0 <= i < entries.len() implies #[trigger] entries[i].0
                    != name by {
                    if i > 0 {
                        assert(entries[i] == entries.drop_first()[i - 1]);
                    }
                }
            } else {
                let j = choose|j: int|
                    0 <= j < entries.drop_first().len() && #[trigger] entries.drop_first()[j].0
                        == name;
                assert(entries[j + 1] == entries.drop_first()[j]);
            }
        }
    }
}

pub proof fn lemma_lookup_provider_some(entries: Seq<EntryView>, name: Seq<char>)
    ensures
        lookup_provider(entries, name) is Some <==> exists|i: int|
            0 <= i < entries.len() && #[trigger] entries[i].2.contains(name),
        lookup_provider(entries, name) matches Some(e) ==> e.2.contains(name),
    decreases entries.len(),
{
    if entries.len() > 0 {
        lemma_lookup_provider_some(entries.drop_first(), name);
        if !entries[0].2.contains(name) {
            if lookup_provider(entries, name) is None {
                assert forall|i: int| 0 <= i < entries.len() implies !(
                #[trigger] entries[i].2.contains(name)) by {
                    if i > 0 {
                        assert(entries[i] == entries.drop_first()[i - 1]);
                    }
                }
            } else {
                let j = choose|j: int|
                    0 <= j < entries.drop_first().len() && #[trigger] entries.drop_first()[j].2.contains(
                        name,
                    );
                assert(entries[j + 1] == entries.drop_first()[j]);
            }
        }
    }
}

/// pacman knows a name exactly when a package has that name or provides it.
pub proof fn lemma_lookup_some(entries: Seq<EntryView>, name: Seq<char>)
    ensures
        lookup(entries, name) is Some <==> exists|i: int|
            #![trigger entries[i]]
            0 <= i < entries.len() && (entries[i].0 == name || entries[i].2.contains(name)),
{
    lemma_lookup_named_some(entries, name);
    lemma_lookup_provider_some(entries, name);
    if lookup(entries, name) is Some {
        if lookup_named(entries, name) is Some {
            let i = choose|i: int| 0 <= i < entries.len() && #[trigger] entries[i].0 == name;
            assert(entries[i].0 == name);
        } else {
            let i = choose|i: int| 0 <= i < entries.len() && #[trigger] entries[i].2.contains(name);
            assert(entries[i].2.contains(name));
        }
    } else {
        assert forall|i: int| 0 <= i < entries.len() implies !(entries[i].0 == name
            || entries[i].2.contains(name)) by {
            if entries[i].0 == name {
                assert(exists|i: int| 0 <= i < entries.len() && #[trigger] entries[i].0 == name);
            }
            if entries[i].2.contains(name) {
                assert(exists|i: int| 0 <= i < entries.len() && #[trigger] entries[i].2.contains(name));
            }
        }
    }
}

/// The local package database as pacman reported it.
pub struct PacmanManager {
    packages: Vec<PackageEntry>,
}

impl View for PacmanManager {
    type V = Seq<EntryView>;

    closed spec fn view(&self) -> Seq<EntryView> {
        self.packages@.map_values(|e: PackageEntry| e@)
    }
}

fn entry_from_words(w: &Vec<Vec<char>>) -> (e: PackageEntry)
    requires
        w.len() > 0,
    ensures
        Some(e@) == entry_of_line_words(views(w@)),
{
    let name = string_of(&w[0]);
    let version = if w.len() > 1 {
        Some(string_of(&w[1]))
    } else {
        None
    };
    let provides: Vec<String> = Vec::new();
    proof {
        assert(string_views(provides@) =~= Seq::<Seq<char>>::empty());
    }
    PackageEntry { name, version, provides }
}

/// The value of the field `key` on line `l`, if the line holds that field.
fn field_value_exec(l: &Vec<char>, key: &str) -> (r: Option<Vec<char>>)
    ensures
        r matches Some(v) ==> field_value(l@, key@) == Some(v@),
        r is None ==> field_value(l@, key@) is None,
{
    let kv = chars_of(key);
    match strip_prefix_exec(l, &kv) {
        Some(rest) => {
            let k = index_of_from(&rest, ':', 0);
            assert(rest@.skip(0) =~= rest@);
            if k < rest.len() {
                let head = slice_vec(&rest, 0, k);
                assert(head@ =~= rest@.take(k as int));
                let t = trim_exec(&head);
                if t.len() == 0 {
                    let tail = slice_vec(&rest, k + 1, rest.len());
                    assert(tail@ =~= rest@.skip(k + 1));
                    Some(trim_exec(&tail))
                } else {
                    None
                }
            } else {
                None
            }
        },
        None => None,
    }
}

/// The name a provision provides.
fn provision_name_exec(w: &Vec<char>) -> (r: String)
    ensures
        r@ == provision_name(w@),
{
    let k = index_of_from(w, '=', 0);
    assert(w@.skip(0) =~= w@);
    assert(w@.subrange(0, k as int) =~= w@.take(k as int));
    string_of_range(w, 0, k)
}

/// The names that a `Provides` value lists.
fn provisions_exec(v: &Vec<char>) -> (r: Vec<String>)
    ensures
        string_views(r@) == provisions(v@),
{
    let mut r: Vec<String> = Vec::new();
    let none = chars_of("None");
    if v.len() == none.len() && occurs_at_exec(v, &none, 0) {
        assert(v@ =~= v@.subrange(0, none@.len() as int));
        assert(string_views(r@) =~= Seq::<Seq<char>>::empty());
        return r;
    }
    proof {
        reveal_strlit("None");
        if v@ == "None"@ {
            assert(v@.subrange(0, 4) =~= v@);
            assert(crate::text::occurs_at(v@, none@, 0));
        }
    }
    let ws = words_exec(v);
    let mut i: usize = 0;
    while i < ws.len()
        invariant
            i <= ws@.len(),
            views(ws@) == words(v@),
            string_views(r@) == views(ws@).take(i as int).map_values(
                |w: Seq<char>| provision_name(w),
            ),
        decreases ws@.len() - i,
    {
        let n = provision_name_exec(&ws[i]);
        let ghost before = r@;
        r.push(n);
        assert(views(ws@)[i as int] == ws@[i as int]@);
        assert(views(ws@).take(i + 1) =~= views(ws@).take(i as int).push(ws@[i as int]@));
        assert(string_views(r@) =~= string_views(before).push(n@));
        assert(string_views(r@) =~= views(ws@).take(i + 1).map_values(
            |w: Seq<char>| provision_name(w),
        ));
        i = i + 1;
    }
    assert(views(ws@).take(ws@.len() as int) =~= views(ws@));
    r
}

/// Does the list of provided names hold `name`?
fn provides_name(provides: &Vec<String>, name: &str) -> (b: bool)
    ensures
        b == string_views(provides@).contains(name@),
{
    let mut i: usize = 0;
    while i < provides.len()
        invariant
            i <= provides@.len(),
            forall|j: int| 0 <= j < i ==> provides@[j]@ != name@,
        decreases provides@.len() - i,
    {
        if str_eq(provides[i].as_str(), name) {
            assert(string_views(provides@)[i as int] == name@);
            return true;
        }
        i = i + 1;
    }
    proof {
        if string_views(provides@).contains(name@) {
            let j = choose|j: int| 0 <= j < string_views(provides@).len() && string_views(provides@)[j] == name@;
            assert(provides@[j]@ == name@);
        }
    }
    false
}

/// The entry of a line given its words.
pub open spec fn entry_of_line_words(w: Seq<Seq<char>>) -> Option<EntryView> {
    if w.len() == 0 {
        None
    } else {
        Some((w[0], if w.len() > 1 { Some(w[1]) } else { None }, seq![]))
    }
}

impl PacmanManager {
    /// Reads the local package database from the output of `pacman -Q`
    /// (empty when pacman could not be run). Such a listing shows no
    /// provided names, so a name that a package only provides is not found;
    /// `from_info` reads them too.
    pub fn new(query_output: &str) -> (m: Self)
        ensures
            m@ == query_entries(query_output@),
    {
        let out = chars_of(query_output);
        let ls = lines_exec(&out);
        let mut packages: Vec<PackageEntry> = Vec::new();
        let mut i: usize = 0;
        assert(views(ls@).take(0) =~= Seq::<Seq<char>>::empty());
        while i < ls.len()
            invariant
                i <= ls.len(),
                views(ls@) == lines(out@),
                packages@.map_values(|e: PackageEntry| e@) == entries_of_lines(
                    views(ls@).take(i as int),
                ),
            decreases ls.len() - i,
        {
            let w = words_exec(&ls[i]);
            let ghost before = packages@.map_values(|e: PackageEntry| e@);
            proof {
                let t = views(ls@).take(i + 1);
                assert(t.drop_last() =~= views(ls@).take(i as int));
                assert(t.last() == ls@[i as int]@);
            }
            if w.len() > 0 {
                let e = entry_from_words(&w);
                packages.push(e);
                assert(packages@.map_values(|e: PackageEntry| e@) =~= before + seq![e@]);
            } else {
                assert(before + seq![] =~= before);
            }
            i = i + 1;
        }
        assert(views(ls@).take(ls.len() as int) =~= views(ls@));
        PacmanManager { packages }
    }

    /// Reads the local package database from the output of `pacman -Qi`
    /// (empty when pacman could not be run): each package's name, version
    /// and the names it provides.
    pub fn from_info(info_output: &str) -> (m: Self)
        ensures
            m@ == info_entries(info_output@),
    {
        let out = chars_of(info_output);
        let ls = lines_exec(&out);
        let mut packages: Vec<PackageEntry> = Vec::new();
        let mut i: usize = 0;
        assert(views(ls@).take(0) =~= Seq::<Seq<char>>::empty());
        while i < ls.len()
            invariant
                i <= ls.len(),
                views(ls@) == lines(out@),
                packages@.map_values(|e: PackageEntry| e@) == info_entries_of(
                    views(ls@).take(i as int),
                ),
            decreases ls.len() - i,
        {
            let ghost acc = packages@.map_values(|e: PackageEntry| e@);
            let ghost l = ls@[i as int]@;
            proof {
                let t = views(ls@).take(i + 1);
                assert(t.drop_last() =~= views(ls@).take(i as int));
                assert(t.last() == l);
            }
            let line = &ls[i];
            match field_value_exec(line, "Name") {
                Some(n) => {
                    let provides: Vec<String> = Vec::new();
                    let e = PackageEntry { name: string_of(&n), version: None, provides };
                    assert(string_views(provides@) =~= Seq::<Seq<char>>::empty());
                    packages.push(e);
                    assert(packages@.map_values(|e: PackageEntry| e@) =~= acc.push(e@));
                },
                None => {
                    if packages.len() > 0 {
                        match field_value_exec(line, "Version") {
                            Some(v) => {
                                let ghost before = packages@;
                                match packages.pop() {
                                    Some(mut e) => {
                                        assert(e@ == acc.last());
                                        e.version = Some(string_of(&v));
                                        packages.push(e);
                                        assert(packages@ =~= before.update(before.len() - 1, e));
                                        assert(packages@.map_values(|e: PackageEntry| e@) =~= acc.update(
                                            acc.len() - 1,
                                            e@,
                                        ));
                                    },
                                    None => {},
                                }
                            },
                            None => {
                                match field_value_exec(line, "Provides") {
                                    Some(v) => {
                                        let ghost before = packages@;
                                        match packages.pop() {
                                            Some(mut e) => {
                                                assert(e@ == acc.last());
                                                e.provides = provisions_exec(&v);
                                                packages.push(e);
                                                assert(packages@ =~= before.update(
                                                    before.len() - 1,
                                                    e,
                                                ));
                                                assert(packages@.map_values(|e: PackageEntry| e@)
                                                    =~= acc.update(acc.len() - 1, e@));
                                            },
                                            None => {},
                                        }
                                    },
                                    None => {},
                                }
                            },
                        }
                    }
                },
            }
            i = i + 1;
        }
        assert(views(ls@).take(ls.len() as int) =~= views(ls@));
        PacmanManager { packages }
    }

    /// Is `package` installed?
    pub fn is_installed(&self, package: &str) -> (b: bool)
        ensures
            b == (lookup(self@, package@) is Some),
            b <==> exists|i: int|
                #![trigger self@[i]]
                0 <= i < self@.len() && (self@[i].0 == package@ || self@[i].2.contains(package@)),
    {
        proof {
            lemma_lookup_some(self@, package@);
        }
        self.find(package).is_some()
    }

    fn find(&self, package: &str) -> (r: Option<usize>)
        ensures
            r matches Some(i) ==> i < self@.len() && lookup(self@, package@) == Some(self@[i as int]),
            r is None ==> lookup(self@, package@) is None,
    {
        match self.find_named(package) {
            Some(i) => Some(i),
            None => self.find_provider(package),
        }
    }

    fn find_named(&self, package: &str) -> (r: Option<usize>)
        ensures
            r matches Some(i) ==> i < self@.len() && lookup_named(self@, package@) == Some(
                self@[i as int],
            ),
            r is None ==> lookup_named(self@, package@) is None,
    {
        let mut i: usize = 0;
        assert(self@.skip(0) =~= self@);
        while i < self.packages.len()
            invariant
                i <= self@.len(),
                self@.len() == self.packages@.len(),
                lookup_named(self@, package@) == lookup_named(self@.skip(i as int), package@),
            decreases self@.len() - i,
        {
            assert(self@.skip(i as int)[0] == self.packages@[i as int]@);
            if str_eq(self.packages[i].name.as_str(), package) {
                return Some(i);
            }
            assert(self@.skip(i as int).drop_first() =~= self@.skip(i + 1));
            i = i + 1;
        }
        None
    }

    fn find_provider(&self, package: &str) -> (r: Option<usize>)
        ensures
            r matches Some(i) ==> i < self@.len() && lookup_provider(self@, package@) == Some(
                self@[i as int],
            ),
            r is None ==> lookup_provider(self@, package@) is None,
    {
        let mut i: usize = 0;
        assert(self@.skip(0) =~= self@);
        while i < self.packages.len()
            invariant
                i <= self@.len(),
                self@.len() == self.packages@.len(),
                lookup_provider(self@, package@) == lookup_provider(self@.skip(i as int), package@),
            decreases self@.len() - i,
        {
            assert(self@.skip(i as int)[0] == self.packages@[i as int]@);
            if provides_name(&self.packages[i].provides, package) {
                return Some(i);
            }
            assert(self@.skip(i as int).drop_first() =~= self@.skip(i + 1));
            i = i + 1;
        }
        None
    }

    /// The names of all installed packages, in the order pacman listed them.
    pub fn get_installed_packages(&self) -> (names: Vec<String>)
        ensures
            string_views(names@) == self@.map_values(|e: EntryView| e.0),
    {
        let mut names: Vec<String> = Vec::new();
        let mut i: usize = 0;
        while i < self.packages.len()
            invariant
                i <= self@.len(),
                self@.len() == self.packages@.len(),
                string_views(names@) == self@.take(i as int).map_values(|e: EntryView| e.0),
            decreases self@.len() - i,
        {
            let ghost before = names@;
            let n = self.packages[i].name.clone();
            names.push(n);
            assert(self@[i as int] == self.packages@[i as int]@);
            assert(names@ == before.push(n));
            assert(string_views(names@) =~= string_views(before).push(n@));
            assert(self@.take(i + 1) =~= self@.take(i as int).push(self@[i as int]));
            assert(string_views(names@) =~= self@.take(i + 1).map_values(|e: EntryView| e.0));
            i = i + 1;
        }
        assert(self@.take(self@.len() as int) =~= self@);
        names
    }

    /// The installed version of `package`, if it is installed and pacman
    /// listed a version for it.
    pub fn get_package_version(&self, package: &str) -> (v: Option<String>)
        ensures
            opt_view(v) == spec_package_version(self@, package@),
    {
        proof {
            lemma_lookup_some(self@, package@);
        }
        match self.find(package) {
            Some(i) => {
                assert(self@[i as int] == self.packages@[i as int]@);
                match &self.packages[i].version {
                    Some(s) => Some(s.clone()),
                    None => None,
                }
            },
            None => None,
        }
    }

    /// Is the Chaotic AUR set up: either its mirror list package is installed
    /// or pacman's configuration (`pacman_conf`, when it could be read) names
    /// the `chaotic-aur` repository.
    pub fn check_chaotic_aur(&self, pacman_conf: Option<&str>) -> (b: bool)
        ensures
            b == (lookup(self@, "chaotic-mirrorlist"@) is Some || match pacman_conf {
                Some(c) => contains(c@, "chaotic-aur"@),
                None => false,
            }),
    {
        if self.is_installed("chaotic-mirrorlist") {
            return true;
        }
        match pacman_conf {
            Some(c) => str_contains(c, "chaotic-aur"),
            None => false,
        }
    }

    /// The command line that installs `packages` without asking.
    pub fn install_command(packages: &[String]) -> (cmd: String)
        ensures
            cmd@ == spec_install_command(string_views(packages@)),
    {
        let mut cmd = String::from_str("pkexec pacman -S --noconfirm ");
        let joined = join_strings(packages, " ");
        cmd.append(joined.as_str());
        cmd
    }

    /// The command line that removes `packages`, their configuration and
    /// their unneeded dependencies, without asking.
    pub fn remove_command(packages: &[String]) -> (cmd: String)
        ensures
            cmd@ == spec_remove_command(string_views(packages@)),
    {
        let mut cmd = String::from_str("pkexec pacman -Rns --noconfirm ");
        let joined = join_strings(packages, " ");
        cmd.append(joined.as_str());
        cmd
    }
}

/// Law: a package has a version only if it is installed.
pub proof fn lemma_version_implies_installed(entries: Seq<EntryView>, name: Seq<char>)
    ensures
        spec_package_version(entries, name) is Some ==> lookup(entries, name) is Some,
{
}

/// Law: a command for a single package is the command prefix followed by the
/// package's name.
pub proof fn lemma_single_package_command(p: Seq<char>)
    ensures
        spec_install_command(seq![p]) == install_prefix() + p,
        spec_remove_command(seq![p]) == remove_prefix() + p,
{
}

/// Law: the install and the remove command of a package list name the same
/// packages in the same order.
pub proof fn lemma_install_remove_same_packages(packages: Seq<Seq<char>>)
    ensures
        spec_install_command(packages).skip(install_prefix().len() as int) == spec_remove_command(
            packages,
        ).skip(remove_prefix().len() as int),
{
    assert(spec_install_command(packages).skip(install_prefix().len() as int) =~= join(packages, " "@));
    assert(spec_remove_command(packages).skip(remove_prefix().len() as int) =~= join(packages, " "@));
}

/// Law: splitting an install or remove command at whitespace gives the
/// command's own words followed by exactly the packages it was made from,
/// when each package name is non-empty and has no whitespace.
pub proof fn lemma_command_words(packages: Seq<Seq<char>>)
    requires
        forall|i: int| 0 <= i < packages.len() ==> (#[trigger] packages[i]).len() > 0,
        forall|i: int, j: int|
            0 <= i < packages.len() && 0 <= j < packages[i].len() ==> !is_ws(
                #[trigger] packages[i][j],
            ),
    ensures
        words(spec_install_command(packages)) == words(install_prefix()) + packages,
        words(spec_remove_command(packages)) == words(remove_prefix()) + packages,
{
    reveal_strlit("pkexec pacman -S --noconfirm ");
    reveal_strlit("pkexec pacman -Rns --noconfirm ");
    lemma_words_of_join(packages);
    lemma_words_concat(install_prefix(), join(packages, " "@));
    lemma_words_concat(remove_prefix(), join(packages, " "@));
}

proof fn lemma_install_prefix_words()
    ensures
        words("pkexec pacman -S --noconfirm "@) == seq!["pkexec"@, "pacman"@, "-S"@, "--noconfirm"@],
{
    reveal_strlit("pkexec pacman -S --noconfirm ");
    reveal_strlit(" ");
    reveal_strlit("pkexec");
    reveal_strlit("pacman");
    reveal_strlit("-S");
    reveal_strlit("--noconfirm");
    let ps = seq!["pkexec"@, "pacman"@, "-S"@, "--noconfirm"@];
    assert(ps.take(2).drop_last() =~= ps.take(1));
    assert(ps.take(3).drop_last() =~= ps.take(2));
    assert(ps.take(4).drop_last() =~= ps.take(3));
    assert(ps.take(4) =~= ps);
    assert(join(ps.take(1), " "@) == ps[0]);
    assert(join(ps.take(2), " "@) == join(ps.take(1), " "@) + " "@ + ps[1]);
    assert(join(ps.take(3), " "@) == join(ps.take(2), " "@) + " "@ + ps[2]);
    assert(join(ps.take(4), " "@) == join(ps.take(3), " "@) + " "@ + ps[3]);
    assert(join(ps, " "@).push(' ') =~= "pkexec pacman -S --noconfirm "@);
    assert forall|i: int| 0 <= i < ps.len() implies (#[trigger] ps[i]).len() > 0 by {}
    assert forall|i: int, j: int| 0 <= i < ps.len() && 0 <= j < ps[i].len() implies !is_ws(
        #[trigger] ps[i][j],
    ) by {}
    lemma_words_of_join(ps);
    lemma_words_trailing_ws(join(ps, " "@), ' ');
}

proof fn lemma_remove_prefix_words()
    ensures
        words("pkexec pacman -Rns --noconfirm "@) == seq!["pkexec"@, "pacman"@, "-Rns"@, "--noconfirm"@],
{
    reveal_strlit("pkexec pacman -Rns --noconfirm ");
    reveal_strlit(" ");
    reveal_strlit("pkexec");
    reveal_strlit("pacman");
    reveal_strlit("-Rns");
    reveal_strlit("--noconfirm");
    let ps = seq!["pkexec"@, "pacman"@, "-Rns"@, "--noconfirm"@];
    assert(ps.take(2).drop_last() =~= ps.take(1));
    assert(ps.take(3).drop_last() =~= ps.take(2));
    assert(ps.take(4).drop_last() =~= ps.take(3));
    assert(ps.take(4) =~= ps);
    assert(join(ps.take(1), " "@) == ps[0]);
    assert(join(ps.take(2), " "@) == join(ps.take(1), " "@) + " "@ + ps[1]);
    assert(join(ps.take(3), " "@) == join(ps.take(2), " "@) + " "@ + ps[2]);
    assert(join(ps.take(4), " "@) == join(ps.take(3), " "@) + " "@ + ps[3]);
    assert(join(ps, " "@).push(' ') =~= "pkexec pacman -Rns --noconfirm "@);
    assert forall|i: int| 0 <= i < ps.len() implies (#[trigger] ps[i]).len() > 0 by {}
    assert forall|i: int, j: int| 0 <= i < ps.len() && 0 <= j < ps[i].len() implies !is_ws(
        #[trigger] ps[i][j],
    ) by {}
    lemma_words_of_join(ps);
    lemma_words_trailing_ws(join(ps, " "@), ' ');
}

/// Law: an install command is `pkexec pacman -S --noconfirm` followed by
/// its packages, and a remove command `pkexec pacman -Rns --noconfirm`
/// followed by its packages, word for word, when each package name is
/// non-empty and has no whitespace.
pub proof fn lemma_command_line_words(packages: Seq<Seq<char>>)
    requires
        forall|i: int| 0 <= i < packages.len() ==> (#[trigger] packages[i]).len() > 0,
        forall|i: int, j: int|
            0 <= i < packages.len() && 0 <= j < packages[i].len() ==> !is_ws(
                #[trigger] packages[i][j],
            ),
    ensures
        words(spec_install_command(packages)) == seq!["pkexec"@, "pacman"@, "-S"@, "--noconfirm"@]
            + packages,
        words(spec_remove_command(packages)) == seq![
            "pkexec"@,
            "pacman"@,
            "-Rns"@,
            "--noconfirm"@,
        ] + packages,
{
    lemma_command_words(packages);
    lemma_install_prefix_words();
    lemma_remove_prefix_words();
}

} // verus!
