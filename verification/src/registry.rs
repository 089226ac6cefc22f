//! The registry of plugin search directories and of the plugin files found
//! under them.

use vstd::prelude::*;

verus! {

/// What the file system reported about a candidate search directory.
#[derive(Debug, PartialEq, Eq)]
pub struct PathProbe {
    /// Whether anything exists at the path.
    pub exists: bool,
    /// Whether the path names a directory.
    pub is_dir: bool,
    /// The canonical absolute form of the path, or why it could not be had.
    pub canonical: Result<String, String>,
}

/// One entry met while walking a search directory.
#[derive(Debug, PartialEq, Eq)]
pub struct ScanEntry {
    /// The entry's full path.
    pub path: String,
    /// Whether the entry is a regular file.
    pub is_file: bool,
    /// The file name's extension, if it has one that is valid text.
    pub extension: Option<String>,
}

/// Search directories, in the order they were added, and discovered plugin
/// files, in the order they were found.
pub struct PluginRegistry {
    plugin_paths: Vec<String>,
    plugins: Vec<String>,
}

/// The texts of a sequence of strings.
pub open spec fn texts(v: Seq<String>) -> Seq<Seq<char>> {
    v.map_values(|s: String| s@)
}

/// The sequence without every occurrence of `x`, order kept.
pub open spec fn without(s: Seq<Seq<char>>, x: Seq<char>) -> Seq<Seq<char>>
    decreases s.len(),
{
    if s.len() == 0 {
        s
    } else if s.last() == x {
        without(s.drop_last(), x)
    } else {
        without(s.drop_last(), x).push(s.last())
    }
}

/// The prefix that marks an extended-length path on Windows.
pub open spec fn verbatim_prefix() -> Seq<char> {
    seq!['\\', '\\', '?', '\\']
}

/// A canonical path with the extended-length prefix, if any, taken off.
pub open spec fn cleaned(path: Seq<char>) -> Seq<char> {
    if verbatim_prefix().is_prefix_of(path) {
        path.skip(4)
    } else {
        path
    }
}

/// Whether an extension is `vst3`, letter case ignored.
pub open spec fn is_plugin_extension(ext: Seq<char>) -> bool {
    &&& ext.len() == 4
    &&& (ext[0] == 'v' || ext[0] == 'V')
    &&& (ext[1] == 's' || ext[1] == 'S')
    &&& (ext[2] == 't' || ext[2] == 'T')
    &&& ext[3] == '3'
}

/// Whether a walked entry is a plugin: a regular file with the plugin
/// extension.
pub open spec fn is_plugin_entry(e: ScanEntry) -> bool {
    e.is_file && match e.extension {
        Some(x) => is_plugin_extension(x@),
        None => false,
    }
}

/// The paths of the plugin entries of a walk, order kept.
pub open spec fn plugin_files(entries: Seq<ScanEntry>) -> Seq<Seq<char>>
    decreases entries.len(),
{
    if entries.len() == 0 {
        Seq::empty()
    } else if is_plugin_entry(entries.last()) {
        plugin_files(entries.drop_last()).push(entries.last().path@)
    } else {
        plugin_files(entries.drop_last())
    }
}

/// Why a probed path is refused as a search directory, if it is.
pub open spec fn path_refusal(path: Seq<char>, probe: PathProbe) -> Option<Seq<char>> {
    if !probe.exists {
        Some("Path does not exist: "@ + path)
    } else if !probe.is_dir {
        Some("Path is not a directory: "@ + path)
    } else {
        match probe.canonical {
            Ok(_) => None,
            Err(e) => Some("Failed to canonicalize path '"@ + path + "': "@ + e@),
        }
    }
}

/// The directory that a probed path adds to the registry when it is accepted.
pub open spec fn accepted_directory(probe: PathProbe) -> Seq<char> {
    match probe.canonical {
        Ok(c) => cleaned(c@),
        Err(_) => Seq::empty(),
    }
}

/// The number of leading paths that are accepted: the position of the first
/// refused one, or the length of the list.
pub open spec fn accepted_count(paths: Seq<(String, PathProbe)>) -> int
    decreases paths.len(),
{
    if paths.len() == 0 {
        0
    } else if path_refusal(paths[0].0@, paths[0].1) is Some {
        0
    } else {
        1 + accepted_count(paths.skip(1))
    }
}

/// The directories added by the leading `n` paths of a list.
pub open spec fn accepted_directories(paths: Seq<(String, PathProbe)>, n: int) -> Seq<Seq<char>> {
    Seq::new(n as nat, |i: int| accepted_directory(paths[i].1))
}

impl PluginRegistry {
    /// The search directories, as texts.
    pub closed spec fn paths(&self) -> Seq<Seq<char>> {
        texts(self.plugin_paths@)
    }

    /// The discovered plugin files, as texts.
    pub closed spec fn discovered(&self) -> Seq<Seq<char>> {
        texts(self.plugins@)
    }

    /// An empty registry.
    pub fn new() -> (r: Self)
        ensures
            r.paths() == Seq::<Seq<char>>::empty(),
            r.discovered() == Seq::<Seq<char>>::empty(),
    {
        let r = PluginRegistry { plugin_paths: Vec::new(), plugins: Vec::new() };
        assert(texts(r.plugin_paths@) =~= Seq::empty());
        assert(texts(r.plugins@) =~= Seq::empty());
        r
    }

    /// Takes the extended-length prefix off a canonical path.
    pub fn clean_path(canonical_path: &str) -> (r: String)
        ensures
            r@ == cleaned(canonical_path@),
    {
        let n: usize = canonical_path.unicode_len();
        if n >= 4 && canonical_path.get_char(0) == '\\' && canonical_path.get_char(1) == '\\'
            && canonical_path.get_char(2) == '?' && canonical_path.get_char(3) == '\\' {
            let rest = canonical_path.substring_char(4, n);
            assert(verbatim_prefix() =~= canonical_path@.subrange(0, 4));
            assert(rest@ =~= canonical_path@.skip(4));
            String::from_str(rest)
        } else {
            assert(!verbatim_prefix().is_prefix_of(canonical_path@)) by {
                if verbatim_prefix().is_prefix_of(canonical_path@) {
                    assert(canonical_path@.subrange(0, 4)[0] == verbatim_prefix()[0]);
                    assert(canonical_path@.subrange(0, 4)[1] == verbatim_prefix()[1]);
                    assert(canonical_path@.subrange(0, 4)[2] == verbatim_prefix()[2]);
                    assert(canonical_path@.subrange(0, 4)[3] == verbatim_prefix()[3]);
                }
            }
            String::from_str(canonical_path)
        }
    }

    /// Adds a search directory, given what the file system said of it.
    ///
    /// A path that does not exist, is no directory or cannot be made
    /// canonical is refused with a message and leaves the registry as it
    /// was; otherwise its cleaned canonical form is appended.
    pub fn add_plugin_path(&mut self, path: String, probe: &PathProbe) -> (r: Result<(), String>)
        ensures
            final(self).discovered() == old(self).discovered(),
            match path_refusal(path@, *probe) {
                Some(msg) => r is Err && r->Err_0@ == msg && final(self).paths() == old(self).paths(),
                None => r is Ok && final(self).paths() == old(self).paths().push(
                    accepted_directory(*probe),
                ),
            },
    {
        if !probe.exists {
            let mut msg = String::from_str("Path does not exist: ");
            msg.append(path.as_str());
            return Err(msg);
        }
        if !probe.is_dir {
            let mut msg = String::from_str("Path is not a directory: ");
            msg.append(path.as_str());
            return Err(msg);
        }
        match &probe.canonical {
            Err(e) => {
                let mut msg = String::from_str("Failed to canonicalize path '");
                msg.append(path.as_str());
                msg.append("': ");
                msg.append(e.as_str());
                Err(msg)
            },
            Ok(c) => {
                let clean = Self::clean_path(c.as_str());
                self.plugin_paths.push(clean);
                assert(texts(self.plugin_paths@) =~= texts(old(self).plugin_paths@).push(
                    cleaned(c@),
                ));
                Ok(())
            },
        }
    }

    /// Removes every search directory equal to `path`.
    pub fn remove_plugin_path(&mut self, path: &str)
        ensures
            final(self).paths() == without(old(self).paths(), path@),
            final(self).discovered() == old(self).discovered(),
    {
        self.plugin_paths = retain_other(&self.plugin_paths, path);
    }

    /// Replaces the search directories by the given ones, added in order.
    ///
    /// Stops at the first refused path and returns its message; the
    /// directories accepted before it stay.
    pub fn set_plugin_paths(&mut self, paths: Vec<(String, PathProbe)>) -> (r: Result<(), String>)
        ensures
            final(self).discovered() == old(self).discovered(),
            final(self).paths() == accepted_directories(paths@, accepted_count(paths@)),
            r is Ok <==> accepted_count(paths@) == paths@.len(),
            r is Err ==> Some(r->Err_0@) == path_refusal(
                paths@[accepted_count(paths@)].0@,
                paths@[accepted_count(paths@)].1,
            ),
    {
        self.plugin_paths.clear();
        assert(texts(self.plugin_paths@) =~= accepted_directories(paths@, 0));
        assert(paths@.skip(0) =~= paths@);
        let mut i: usize = 0;
        while i < paths.len()
            invariant
                0 <= i <= paths.len(),
                self.discovered() == old(self).discovered(),
                self.paths() == accepted_directories(paths@, i as int),
                accepted_count(paths@) == i + accepted_count(paths@.skip(i as int)),
            decreases paths.len() - i,
        {
            let path = paths[i].0.clone();
            let probe = &paths[i].1;
            assert(paths@.skip(i as int)[0] == paths@[i as int]);
            assert(paths@.skip(i as int).skip(1) =~= paths@.skip(i + 1));
            match self.add_plugin_path(path, probe) {
                Err(msg) => {
                    return Err(msg);
                },
                Ok(()) => {
                    assert(self.paths() =~= accepted_directories(paths@, i + 1));
                },
            }
            i = i + 1;
        }
        assert(paths@.skip(i as int).len() == 0);
        Ok(())
    }

    /// The search directories, in the order they were added.
    pub fn get_plugin_paths(&self) -> (r: &[String])
        ensures
            texts(r@) == self.paths(),
    {
        self.plugin_paths.as_slice()
    }

    /// Replaces the discovered plugins by the plugin files among the walked
    /// entries, in the order of the walk, and returns them.
    pub fn scan_plugins(&mut self, entries: &Vec<ScanEntry>) -> (r: Result<Vec<String>, String>)
        ensures
            final(self).paths() == old(self).paths(),
            final(self).discovered() == plugin_files(entries@),
            r is Ok,
            texts(r->Ok_0@) == plugin_files(entries@),
    {
        self.plugins.clear();
        assert(texts(self.plugins@) =~= plugin_files(entries@.subrange(0, 0)));
        let mut i: usize = 0;
        while i < entries.len()
            invariant
                0 <= i <= entries.len(),
                self.paths() == old(self).paths(),
                self.discovered() == plugin_files(entries@.subrange(0, i as int)),
            decreases entries.len() - i,
        {
            assert(entries@.subrange(0, i + 1).drop_last() =~= entries@.subrange(0, i as int));
            assert(entries@.subrange(0, i + 1).last() == entries@[i as int]);
            if is_plugin(&entries[i]) {
                self.add_plugin(entries[i].path.clone());
            }
            i = i + 1;
        }
        assert(entries@.subrange(0, i as int) =~= entries@);
        let found = clone_all(&self.plugins);
        Ok(found)
    }

    /// Appends a discovered plugin file.
    pub fn add_plugin(&mut self, plugin: String)
        ensures
            final(self).discovered() == old(self).discovered().push(plugin@),
            final(self).paths() == old(self).paths(),
    {
        self.plugins.push(plugin);
        assert(texts(self.plugins@) =~= texts(old(self).plugins@).push(plugin@));
    }

    /// Removes every discovered plugin file equal to `plugin`.
    pub fn remove_plugin(&mut self, plugin: &str)
        ensures
            final(self).discovered() == without(old(self).discovered(), plugin@),
            final(self).paths() == old(self).paths(),
    {
        self.plugins = retain_other(&self.plugins, plugin);
    }

    /// The discovered plugin files, in the order they were found.
    pub fn get_discovered_plugins(&self) -> (r: &[String])
        ensures
            texts(r@) == self.discovered(),
    {
        self.plugins.as_slice()
    }
}

/// Decides whether a walked entry is a plugin file.
pub fn is_plugin(e: &ScanEntry) -> (r: bool)
    ensures
        r == is_plugin_entry(*e),
{
    if !e.is_file {
        return false;
    }
    match &e.extension {
        None => false,
        Some(x) => {
            let s: &str = x.as_str();
            if s.unicode_len() != 4 {
                false
            } else {
                let c0 = s.get_char(0);
                let c1 = s.get_char(1);
                let c2 = s.get_char(2);
                let c3 = s.get_char(3);
                (c0 == 'v' || c0 == 'V') && (c1 == 's' || c1 == 'S') && (c2 == 't' || c2 == 'T')
                    && c3 == '3'
            }
        },
    }
}

/// A copy of the strings that differ from `x`, order kept.
fn retain_other(v: &Vec<String>, x: &str) -> (r: Vec<String>)
    ensures
        texts(r@) == without(texts(v@), x@),
{
    let needle: String = String::from_str(x);
    let mut out: Vec<String> = Vec::new();
    assert(texts(out@) =~= without(texts(v@.subrange(0, 0)), x@));
    let mut i: usize = 0;
    while i < v.len()
        invariant
            0 <= i <= v.len(),
            needle@ == x@,
            texts(out@) == without(texts(v@.subrange(0, i as int)), x@),
        decreases v.len() - i,
    {
        proof {
            let next = texts(v@.subrange(0, i + 1));
            assert(next.drop_last() =~= texts(v@.subrange(0, i as int)));
            assert(next.last() == v@[i as int]@);
        }
        if !(v[i] == needle) {
            let ghost before = out@;
            out.push(v[i].clone());
            assert(texts(out@) =~= texts(before).push(v@[i as int]@));
        }
        i = i + 1;
    }
    assert(v@.subrange(0, i as int) =~= v@);
    out
}

/// A copy of a list of strings.
fn clone_all(v: &Vec<String>) -> (r: Vec<String>)
    ensures
        texts(r@) == texts(v@),
{
    let mut out: Vec<String> = Vec::new();
    let mut i: usize = 0;
    while i < v.len()
        invariant
            0 <= i <= v.len(),
            texts(out@) == texts(v@.subrange(0, i as int)),
        decreases v.len() - i,
    {
        let ghost before = out@;
        out.push(v[i].clone());
        assert(texts(out@) =~= texts(before).push(v@[i as int]@));
        assert(texts(v@.subrange(0, i + 1)) =~= texts(v@.subrange(0, i as int)).push(
            v@[i as int]@,
        ));
        i = i + 1;
    }
    assert(v@.subrange(0, i as int) =~= v@);
    out
}

/// What removal leaves: nothing equal to the removed text, and every other
/// element as often as before.
pub proof fn lemma_without_removes_exactly(s: Seq<Seq<char>>, x: Seq<char>, y: Seq<char>)
    ensures
        !without(s, x).contains(x),
        y != x ==> without(s, x).to_multiset().count(y) == s.to_multiset().count(y),
        without(s, x).len() <= s.len(),
    decreases s.len(),
{
    broadcast use vstd::seq_lib::group_to_multiset_ensures;
    if s.len() > 0 {
        lemma_without_removes_exactly(s.drop_last(), x, y);
        let rest = without(s.drop_last(), x);
        assert(s =~= s.drop_last().push(s.last()));
        if s.last() != x {
            assert forall|k: int| 0 <= k < rest.push(s.last()).len() implies rest.push(
                s.last(),
            )[k] != x by {
                if k < rest.len() {
                    assert(rest.contains(rest[k]));
                }
            }
        }
    }
}

/// What the settings bag holds under the plugin search paths.
#[derive(Debug, PartialEq, Eq)]
pub enum StoredPaths {
    /// The bag has no such entry.
    Missing,
    /// The entry is there but is not a list.
    NotAList,
    /// The entry is a list; an element that is not text is `None`.
    List(Vec<Option<String>>),
}

/// The system-wide plugin directory.
pub open spec fn system_plugin_dir() -> Seq<char> {
    "/Program Files/Common Files/VST3"@
}

/// The system-wide directory for 32-bit plugins.
pub open spec fn system_plugin_dir_x86() -> Seq<char> {
    "/Program Files (x86)/Common Files/VST3"@
}

/// The plugin directory of a development checkout.
pub open spec fn workshop_plugin_dir() -> Seq<char> {
    "C:\\Coding\\Projects\\lyre\\plugins"@
}

/// The search directories used when none are stored: the per-user
/// directory, the two system-wide ones and the application's own.
pub open spec fn default_paths(user_dir: Seq<char>, app_dir: Seq<char>) -> Seq<Seq<char>> {
    seq![user_dir, system_plugin_dir(), system_plugin_dir_x86(), app_dir]
}

/// The elements of a stored list that are text, order kept.
pub open spec fn present(v: Seq<Option<String>>) -> Seq<Seq<char>>
    decreases v.len(),
{
    if v.len() == 0 {
        Seq::empty()
    } else {
        match v.last() {
            Some(s) => present(v.drop_last()).push(s@),
            None => present(v.drop_last()),
        }
    }
}

/// The search directories that the settings call for.
pub open spec fn settings_paths(stored: StoredPaths, user_dir: Seq<char>, app_dir: Seq<char>)
    -> Seq<Seq<char>> {
    match stored {
        StoredPaths::List(v) => present(v@),
        StoredPaths::NotAList => default_paths(user_dir, app_dir),
        StoredPaths::Missing => default_paths(user_dir, app_dir).push(workshop_plugin_dir()),
    }
}

/// Chooses the plugin search directories: the stored list where there is
/// one, its elements that are not text left out; otherwise the defaults,
/// and on a first start, when nothing is stored at all, also the plugin
/// directory of a development checkout.
pub fn settings_plugin_paths(stored: &StoredPaths, user_dir: &str, app_dir: &str) -> (r: Vec<
    String,
>)
    ensures
        texts(r@) == settings_paths(*stored, user_dir@, app_dir@),
{
    let mut out: Vec<String> = Vec::new();
    match stored {
        StoredPaths::List(v) => {
            let mut i: usize = 0;
            assert(texts(out@) =~= present(v@.subrange(0, 0)));
            while i < v.len()
                invariant
                    0 <= i <= v.len(),
                    texts(out@) == present(v@.subrange(0, i as int)),
                decreases v.len() - i,
            {
                assert(v@.subrange(0, i + 1).drop_last() =~= v@.subrange(0, i as int));
                assert(v@.subrange(0, i + 1).last() == v@[i as int]);
                match &v[i] {
                    Some(s) => {
                        let ghost before = out@;
                        out.push(s.clone());
                        assert(texts(out@) =~= texts(before).push(s@));
                    },
                    None => {},
                }
                i = i + 1;
            }
            assert(v@.subrange(0, i as int) =~= v@);
        },
        StoredPaths::NotAList => {
            out.push(String::from_str(user_dir));
            out.push(String::from_str("/Program Files/Common Files/VST3"));
            out.push(String::from_str("/Program Files (x86)/Common Files/VST3"));
            out.push(String::from_str(app_dir));
            assert(texts(out@) =~= default_paths(user_dir@, app_dir@));
        },
        StoredPaths::Missing => {
            out.push(String::from_str(user_dir));
            out.push(String::from_str("/Program Files/Common Files/VST3"));
            out.push(String::from_str("/Program Files (x86)/Common Files/VST3"));
            out.push(String::from_str(app_dir));
            out.push(String::from_str("C:\\Coding\\Projects\\lyre\\plugins"));
            assert(texts(out@) =~= default_paths(user_dir@, app_dir@).push(workshop_plugin_dir()));
        },
    }
    out
}

/// A registry with the given search directories, as far as they are
/// accepted: those before the first refused one.  Nothing is discovered yet.
pub fn create_plugin_registry_from_settings(paths: Vec<(String, PathProbe)>) -> (r: PluginRegistry)
    ensures
        r.paths() == accepted_directories(paths@, accepted_count(paths@)),
        r.discovered() == Seq::<Seq<char>>::empty(),
{
    let mut registry = PluginRegistry::new();
    let _ = registry.set_plugin_paths(paths);
    registry
}

} // verus!
