//! Where files are, and whether the plugin is enabled.
use vstd::prelude::*;

use crate::json;
use crate::json::{same_json, Json};
use crate::text;
use crate::text::{chars_of, same_text, text_of};

verus! {

// ---------------------------------------------------------------------------
// Paths
// ---------------------------------------------------------------------------

/// The path `rest`, starting from `base`.
pub open spec fn joined_path(base: Seq<char>, rest: Seq<char>) -> Seq<char> {
    if rest.len() > 0 && rest[0] == '/' {
        rest
    } else if base.len() == 0 || base.last() == '/' {
        base + rest
    } else {
        base + seq!['/'] + rest
    }
}

/// The path `rest`, starting from `base`.
pub fn join_path(base: &str, rest: &str) -> (r: String)
    ensures
        r@ == joined_path(base@, rest@),
{
    let b: Vec<char> = chars_of(base);
    let t: Vec<char> = chars_of(rest);
    if t.len() > 0 && t[0] == '/' {
        rest.to_owned()
    } else {
        let mut r = base.to_owned();
        if b.len() > 0 && b[b.len() - 1] != '/' {
            r.push('/');
            assert(r@ =~= base@ + seq!['/']);
        }
        r.append(rest);
        r
    }
}

/// How much of a path is no name: the slash that it starts with or, where it starts at the place
/// itself, the dot that says so.
pub open spec fn path_start(path: Seq<char>) -> nat {
    if path.len() > 0 && path[0] == '/' {
        1
    } else if path.len() > 0 && path[0] == '.' && (path.len() == 1 || path[1] == '/') {
        1
    } else {
        0
    }
}

/// Where the last part of a path starts: behind its last slash, or where its names start.
pub open spec fn part_start(path: Seq<char>, start: nat) -> int
    decreases path.len(),
{
    if path.len() <= start {
        start as int
    } else if path.last() == '/' {
        path.len() as int
    } else {
        part_start(path.drop_last(), start)
    }
}

/// A path without its last part, and the slash before that.
pub open spec fn without_part(path: Seq<char>, start: nat) -> Seq<char> {
    let k = part_start(path, start);
    path.take(
        if k > start {
            k - 1
        } else {
            start as int
        },
    )
}

/// A path up to its last name: what is empty, or stands for the place itself, is no name.
pub open spec fn up_to_name(path: Seq<char>, start: nat) -> Seq<char>
    decreases path.len(),
    via up_to_name_shrinks
{
    if path.len() <= start {
        path
    } else {
        let part = path.skip(part_start(path, start));
        if part.len() == 0 || part == seq!['.'] {
            up_to_name(without_part(path, start), start)
        } else {
            path
        }
    }
}

#[via_fn]
proof fn up_to_name_shrinks(path: Seq<char>, start: nat) {
    if path.len() > start {
        lemma_part_start(path, start);
    }
}

/// What [`part_start`] says.
proof fn lemma_part_start(path: Seq<char>, start: nat)
    requires
        path.len() >= start,
    ensures
        start <= part_start(path, start) <= path.len(),
        forall|i: int| part_start(path, start) <= i < path.len() ==> path[i] != '/',
        part_start(path, start) > start ==> path[part_start(path, start) - 1] == '/',
    decreases path.len(),
{
    if path.len() > start && path.last() != '/' {
        let front = path.drop_last();
        lemma_part_start(front, start);
        assert forall|i: int| part_start(path, start) <= i < path.len() implies path[i] != '/' by {
            if i < front.len() {
                assert(front[i] == path[i]);
            }
        }
    }
}

/// The directory of a path, unless it is the root or names nothing.
pub open spec fn parent_of(path: Seq<char>) -> Option<Seq<char>> {
    let start = path_start(path);
    let named = up_to_name(path, start);
    if named.len() > start {
        Some(up_to_name(without_part(named, start), start))
    } else if path.len() > 0 && path[0] == '.' {
        Some(Seq::empty())
    } else {
        None
    }
}

/// How long a path is up to its last name, where `len` characters of it are looked at.
fn name_end(path: &Vec<char>, start: usize, len: usize) -> (r: usize)
    requires
        start <= len <= path@.len(),
    ensures
        start <= r <= len,
        path@.take(r as int) == up_to_name(path@.take(len as int), start as nat),
        r > start ==> r - part_start(path@.take(r as int), start as nat) > 0,
{
    let mut end: usize = len;
    while end > start
        invariant
            start <= end <= len <= path@.len(),
            up_to_name(path@.take(len as int), start as nat) == up_to_name(
                path@.take(end as int),
                start as nat,
            ),
        ensures
            start <= end <= len,
            up_to_name(path@.take(len as int), start as nat) == path@.take(end as int),
            end > start ==> end - part_start(path@.take(end as int), start as nat) > 0,
        decreases end,
    {
        let k: usize = last_part(path, start, end);
        let ghost now = path@.take(end as int);
        proof {
            lemma_part_start(now, start as nat);
            assert(now.skip(k as int).len() == end - k);
        }
        if end == k || (end - k == 1 && path[k] == '.') {
            let next: usize = if k > start {
                k - 1
            } else {
                start
            };
            proof {
                assert(now.skip(k as int).len() == 1 ==> now.skip(k as int) =~= seq![
                    path@[k as int],
                ]);
                assert(without_part(now, start as nat) =~= path@.take(next as int));
            }
            end = next;
        } else {
            proof {
                assert(now.skip(k as int).len() == 1 ==> now.skip(k as int)[0] == path@[k as int]);
            }
            break;
        }
    }
    end
}

/// Where the last part of a path starts, where `len` characters of it are looked at.
fn last_part(path: &Vec<char>, start: usize, len: usize) -> (r: usize)
    requires
        start <= len <= path@.len(),
    ensures
        r == part_start(path@.take(len as int), start as nat),
        start <= r <= len,
{
    let mut k: usize = len;
    while k > start && path[k - 1] != '/'
        invariant
            start <= k <= len <= path@.len(),
            part_start(path@.take(len as int), start as nat) == part_start(
                path@.take(k as int),
                start as nat,
            ),
        decreases k,
    {
        assert(path@.take(k as int).drop_last() =~= path@.take(k - 1));
        assert(path@.take(k as int).last() == path@[k - 1]);
        k = k - 1;
    }
    proof {
        if k > start {
            assert(path@.take(k as int).last() == path@[k - 1]);
        }
    }
    k
}

/// The directory of a path, unless it is the root or names nothing.
pub fn parent_path(path: &str) -> (r: Option<String>)
    ensures
        text::option_view(r) == parent_of(path@),
{
    let v: Vec<char> = chars_of(path);
    let n: usize = v.len();
    let start: usize = if n > 0 && (v[0] == '/' || (v[0] == '.' && (n == 1 || v[1] == '/'))) {
        1
    } else {
        0
    };
    assert(v@.take(n as int) =~= v@);
    let end: usize = name_end(&v, start, n);
    if end > start {
        let k: usize = last_part(&v, start, end);
        let cut: usize = if k > start {
            k - 1
        } else {
            start
        };
        assert(without_part(v@.take(end as int), start as nat) =~= v@.take(cut as int));
        let len: usize = name_end(&v, start, cut);
        let mut parent: Vec<char> = Vec::new();
        assert(v@.take(0) =~= Seq::empty());
        for i in 0..len
            invariant
                len <= v@.len(),
                parent@ == v@.take(i as int),
        {
            parent.push(v[i]);
            assert(parent@ =~= v@.take(i + 1));
        }
        Some(text_of(&parent))
    } else if n > 0 && v[0] == '.' {
        proof {
            reveal_strlit("");
            assert(""@ =~= Seq::<char>::empty());
        }
        Some("".to_owned())
    } else {
        None
    }
}

/// What the environment says of where files are.
pub struct Environment {
    /// The configuration of the sidebar, `HERDR_CONFIG_PATH`.
    pub config_path: Option<String>,
    /// `XDG_CONFIG_HOME`.
    pub config_home: Option<String>,
    /// `XDG_STATE_HOME`.
    pub state_home: Option<String>,
    /// `HOME`.
    pub home: Option<String>,
    /// `HERDR_PLUGIN_CONFIG_DIR`.
    pub plugin_config: Option<String>,
    /// `HERDR_PLUGIN_STATE_DIR`.
    pub plugin_state: Option<String>,
}

/// `value`, or `other` where it is missing.
pub open spec fn or_else(value: Option<String>, other: Seq<char>) -> Seq<char> {
    match value {
        Some(v) => v@,
        None => other,
    }
}

/// A copy of `value`, or `other` where it is missing.
fn given_or(value: &Option<String>, other: String) -> (r: String)
    ensures
        r@ == or_else(*value, other@),
{
    match value {
        Some(v) => v.clone(),
        None => other,
    }
}

impl Environment {
    /// The directory of the configuration of the sidebar, where one is named that has a directory.
    pub open spec fn parent(self) -> Option<Seq<char>> {
        match self.config_path {
            Some(path) => parent_of(path@),
            None => None,
        }
    }

    /// The directory of configurations.
    pub open spec fn configs(self) -> Seq<char> {
        or_else(self.config_home, joined_path(or_else(self.home, ""@), ".config"@))
    }

    /// The directory of states.
    pub open spec fn states(self) -> Seq<char> {
        or_else(self.state_home, joined_path(or_else(self.home, ""@), ".local/state"@))
    }

    /// The directory of configurations.
    pub fn config_dir(&self) -> (r: String)
        ensures
            r@ == self.configs(),
    {
        let home = given_or(&self.home, "".to_owned());
        given_or(&self.config_home, join_path(home.as_str(), ".config"))
    }

    /// The directory of states.
    fn state_dir(&self) -> (r: String)
        ensures
            r@ == self.states(),
    {
        let home = given_or(&self.home, "".to_owned());
        given_or(&self.state_home, join_path(home.as_str(), ".local/state"))
    }

    /// The user configuration of the agent.
    pub fn devin_config_path(&self) -> (r: String)
        ensures
            r@ == joined_path(self.configs(), "devin/config.json"@),
    {
        join_path(self.config_dir().as_str(), "devin/config.json")
    }

    /// The configuration of the sidebar.
    pub fn config_path(&self) -> (r: String)
        ensures
            r@ == or_else(self.config_path, joined_path(self.configs(), "herdr/config.toml"@)),
    {
        given_or(&self.config_path, join_path(self.config_dir().as_str(), "herdr/config.toml"))
    }

    /// The list of plugins.
    pub fn registry_path(&self) -> (r: String)
        ensures
            r@ == joined_path(self.configs(), "herdr/plugins.json"@),
    {
        join_path(self.config_dir().as_str(), "herdr/plugins.json")
    }
}

/// The directories of the plugin.
#[derive(Clone, Debug)]
pub struct Paths {
    pub config: String,
    pub state: String,
}

/// The directory of the plugin's configuration.
pub open spec fn plugin_config(env: Environment) -> Seq<char> {
    or_else(
        env.plugin_config,
        joined_path(
            match env.parent() {
                Some(parent) => parent,
                None => joined_path(env.configs(), "herdr"@),
            },
            "plugins/config/agent-progress"@,
        ),
    )
}

/// The directory of the plugin's state.
pub open spec fn plugin_state(env: Environment) -> Seq<char> {
    or_else(env.plugin_state, joined_path(env.states(), "herdr/plugins/agent-progress"@))
}

impl Paths {
    /// The directories that the environment names, or else the usual ones.
    pub fn discover(env: &Environment) -> (r: Paths)
        ensures
            r.config@ == plugin_config(*env),
            r.state@ == plugin_state(*env),
    {
        let parent: Option<String> = match &env.config_path {
            Some(path) => parent_path(path.as_str()),
            None => None,
        };
        let base = given_or(&parent, join_path(env.config_dir().as_str(), "herdr"));
        Paths {
            config: given_or(
                &env.plugin_config,
                join_path(base.as_str(), "plugins/config/agent-progress"),
            ),
            state: given_or(
                &env.plugin_state,
                join_path(env.state_dir().as_str(), "herdr/plugins/agent-progress"),
            ),
        }
    }

    /// The database.
    pub fn db(&self) -> (r: String)
        ensures
            r@ == joined_path(self.state@, "progress.sqlite3"@),
    {
        join_path(self.state.as_str(), "progress.sqlite3")
    }

    /// The file that marks the plugin as configured.
    pub fn marker(&self) -> (r: String)
        ensures
            r@ == joined_path(self.config@, "enabled"@),
    {
        join_path(self.config.as_str(), "enabled")
    }

    /// The program that agents call.
    pub fn launcher(&self) -> (r: String)
        ensures
            r@ == joined_path(self.config@, "herdr-progress"@),
    {
        join_path(self.config.as_str(), "herdr-progress")
    }

    /// Whether the plugin is configured and enabled, where `marker` is what its marker holds and
    /// `registry` what the list of plugins holds that the marker names, as far as they can be read,
    /// and `files` tells of each of the [`manifests`] whether it is a file.
    pub fn enabled(marker: &Option<Json>, registry: &Option<Json>, files: &Vec<bool>) -> (r: bool)
        ensures
            r == (marker is Some && registry is Some && is_enabled(
                marker->0@,
                registry->0@,
                files@,
            )),
    {
        match (marker, registry) {
            (Some(m), Some(p)) => {
                if registry_of(m).is_none() {
                    return false;
                }
                let found: Vec<String> = manifests(m, p);
                let n: usize = if files.len() < found.len() {
                    files.len()
                } else {
                    found.len()
                };
                for i in 0..n
                    invariant
                        n <= files@.len(),
                        n <= found@.len(),
                        n == files@.len() || n == found@.len(),
                        text::views(found@) == manifests_in(m@, p@),
                        *marker == Some(*m),
                        *registry == Some(*p),
                        m@.member("registry"@).text() is Some,
                        forall|k: int| 0 <= k < i ==> !(#[trigger] files@[k]),
                {
                    if files[i] {
                        return true;
                    }
                }
                false
            },
            _ => false,
        }
    }
}

// ---------------------------------------------------------------------------
// The list of plugins
// ---------------------------------------------------------------------------

/// Whether the plugin is enabled, where `files` tells of each of its manifests whether it is a file.
pub open spec fn is_enabled(
    marker: json::JsonTree,
    registry: json::JsonTree,
    files: Seq<bool>,
) -> bool {
    marker.member("registry"@).text() is Some && exists|i: int|
        0 <= i < files.len() && i < manifests_in(marker, registry).len() && #[trigger] files[i]
}

/// Whether an entry of the list is this plugin, enabled.
pub open spec fn is_plugin(entry: json::JsonTree) -> bool {
    entry.member("plugin_id"@) == json::JsonTree::Text("agent-progress"@) && entry.member(
        "enabled"@,
    ) == json::JsonTree::Bool(true)
}

/// Whether an entry of the list is this plugin, enabled.
fn is_this_plugin(entry: &Json) -> (r: bool)
    ensures
        r == is_plugin(entry@),
{
    let named = match entry.text_of("plugin_id") {
        Some(id) => same_text(id.as_str(), "agent-progress"),
        None => false,
    };
    let enabled = match entry.get("enabled") {
        Some(flag) => flag.is_true(),
        None => false,
    };
    named && enabled
}

/// The first entry of `entries` that is this plugin, enabled.
pub open spec fn first_plugin(entries: Seq<json::JsonTree>) -> Option<json::JsonTree>
    decreases entries.len(),
{
    if entries.len() == 0 {
        None
    } else if is_plugin(entries[0]) {
        Some(entries[0])
    } else {
        first_plugin(entries.drop_first())
    }
}

/// The entry of this plugin in the list of plugins, where it is enabled.
pub fn find_plugin<'a>(registry: &'a Json) -> (r: Option<&'a Json>)
    ensures
        match registry@.list() {
            None => r is None,
            Some(entries) => match r {
                Some(p) => first_plugin(entries) == Some(p@),
                None => first_plugin(entries) is None,
            },
        },
{
    match registry.list() {
        None => None,
        Some(v) => {
            let n: usize = v.len();
            let ghost entries = json::trees(v@);
            assert(entries.skip(0) =~= entries);
            for i in 0..n
                invariant
                    n == v@.len(),
                    entries == json::trees(v@),
                    registry@.list() == Some(entries),
                    first_plugin(entries) == first_plugin(entries.skip(i as int)),
            {
                assert(entries.skip(i as int)[0] == v@[i as int]@);
                assert(entries.skip(i as int).drop_first() =~= entries.skip(i + 1));
                if is_this_plugin(&v[i]) {
                    return Some(&v[i]);
                }
            }
            None
        },
    }
}

/// The list of plugins that the marker names, if it names one.
pub fn registry_of<'a>(marker: &'a Json) -> (r: Option<&'a String>)
    ensures
        match r {
            Some(path) => marker@.member("registry"@).text() == Some(path@),
            None => marker@.member("registry"@).text() is None,
        },
{
    marker.text_of("registry")
}

/// The manifest of an entry of the list, where it is this plugin, enabled, and installed where the
/// marker says.
pub open spec fn manifest(marker: json::JsonTree, entry: json::JsonTree) -> Option<Seq<char>> {
    if is_plugin(entry) && json::same(entry.member("plugin_root"@), marker.member("root"@)) {
        entry.member("manifest_path"@).text()
    } else {
        None
    }
}

/// The manifests of all entries that have one.
pub open spec fn manifests_of(marker: json::JsonTree, entries: Seq<json::JsonTree>) -> Seq<
    Seq<char>,
>
    decreases entries.len(),
{
    if entries.len() == 0 {
        Seq::empty()
    } else {
        let before = manifests_of(marker, entries.drop_last());
        match manifest(marker, entries.last()) {
            Some(path) => before.push(path),
            None => before,
        }
    }
}

/// The manifests of this plugin in a list of plugins.
pub open spec fn manifests_in(marker: json::JsonTree, registry: json::JsonTree) -> Seq<Seq<char>> {
    match registry.list() {
        Some(entries) => manifests_of(marker, entries),
        None => Seq::empty(),
    }
}

/// Whether the members called `key` of `a` and `other` of `b` are equal.
fn same_members(a: &Json, key: &str, b: &Json, other: &str) -> (r: bool)
    ensures
        r == json::same(a@.member(key@), b@.member(other@)),
{
    let null = Json::Null;
    let x = match a.get(key) {
        Some(x) => x,
        None => &null,
    };
    let y = match b.get(other) {
        Some(y) => y,
        None => &null,
    };
    same_json(x, y)
}

/// The manifests of which one must be a file for the plugin to be enabled.
pub fn manifests(marker: &Json, registry: &Json) -> (r: Vec<String>)
    ensures
        text::views(r@) == manifests_in(marker@, registry@),
{
    let mut found: Vec<String> = Vec::new();
    assert(text::views(found@) =~= Seq::empty());
    if let Some(v) = registry.list() {
        let n: usize = v.len();
        let ghost entries = json::trees(v@);
        assert(entries.take(0) =~= Seq::empty());
        for i in 0..n
            invariant
                n == v@.len(),
                entries == json::trees(v@),
                text::views(found@) == manifests_of(marker@, entries.take(i as int)),
        {
            proof {
                assert(entries.take(i + 1).drop_last() =~= entries.take(i as int));
                assert(entries.take(i + 1).last() == v@[i as int]@);
            }
            let entry = &v[i];
            if is_this_plugin(entry) && same_members(entry, "plugin_root", marker, "root") {
                if let Some(path) = entry.text_of("manifest_path") {
                    let ghost before = found@;
                    found.push(path.clone());
                    assert(text::views(found@) =~= text::views(before).push(path@));
                }
            }
        }
        assert(entries.take(n as int) =~= entries);
    }
    found
}

// ---------------------------------------------------------------------------
// What holds of every path and of every list
// ---------------------------------------------------------------------------

/// What lies in a directory that is written with a slash, or a slash and a dot, at its end.
proof fn lemma_directory(dir: Seq<char>, end: Seq<char>, name: Seq<char>)
    requires
        dir.len() > 0,
        dir.last() != '/',
        dir.last() != '.',
        end == seq!['/'] || end == seq!['/', '.'],
        name.len() > 0,
        !name.contains('/'),
        name != seq!['.'],
    ensures
        parent_of(dir + end + seq!['/'] + name) == Some(dir),
{
    let long = dir + end;
    let whole = long + seq!['/'] + name;
    let n = long.len() as int;
    let start = path_start(whole);
    assert(whole[0] == dir[0] && long[0] == dir[0]);
    assert(whole[1] == long[1]);
    if dir.len() > 1 {
        assert(long[1] == dir[1]);
    }
    assert(path_start(dir) == start);
    let k = part_start(whole, start);
    lemma_part_start(whole, start);
    assert(whole[n] == '/');
    assert(k == n + 1) by {
        if k > n + 1 {
            assert(whole[k - 1] == name[k - n - 2]);
            assert(name.contains(name[k - n - 2]));
        }
    }
    assert(whole.skip(k) =~= name);
    assert(up_to_name(whole, start) == whole);
    assert(without_part(whole, start) =~= long);
    lemma_part_start(long, start);
    let m = dir.len() as int;
    assert(long[m] == '/');
    assert(part_start(long, start) == m + 1);
    assert(long.skip(m + 1).len() == 1 ==> long.skip(m + 1) =~= seq!['.']);
    assert(without_part(long, start) =~= dir);
    lemma_part_start(dir, start);
    let j = part_start(dir, start);
    assert(j < m) by {
        if j == m {
            assert(j > start);
        }
    }
    assert(dir.skip(j).last() == dir.last());
    assert(up_to_name(dir, start) == dir);
}

/// What is joined to a directory lies in it: the directory of the joined path is that directory, and a
/// path from the root stands for itself.
pub proof fn law_joined_path_lies_in_its_directory(dir: Seq<char>, name: Seq<char>)
    requires
        dir.len() > 0,
        dir.last() != '/',
        dir.last() != '.',
        name.len() > 0,
        !name.contains('/'),
        name != seq!['.'],
    ensures
        joined_path(dir, name) == dir + seq!['/'] + name,
        joined_path(dir + seq!['/'], name) == dir + seq!['/'] + name,
        joined_path(Seq::empty(), name) == name,
        joined_path(dir, seq!['/'] + name) == seq!['/'] + name,
        parent_of(joined_path(dir, name)) == Some(dir),
        parent_of(dir + seq!['/', '/'] + name) == Some(dir),
        parent_of(dir + seq!['/', '.', '/'] + name) == Some(dir),
{
    lemma_directory(dir, seq!['/'], name);
    lemma_directory(dir, seq!['/', '.'], name);
    assert(dir + seq!['/'] + seq!['/'] + name =~= dir + seq!['/', '/'] + name);
    assert(dir + seq!['/', '.'] + seq!['/'] + name =~= dir + seq!['/', '.', '/'] + name);
    let whole = dir + seq!['/'] + name;
    let n = dir.len() as int;
    assert forall|i: int| 0 <= i < name.len() implies #[trigger] name[i] != '/' by {
        if name[i] == '/' {
            assert(name.contains('/'));
        }
    }
    assert(name[0] != '/');
    assert(Seq::<char>::empty() + name =~= name);
    let start = path_start(whole);
    assert(whole[0] == dir[0]);
    if n > 1 {
        assert(whole[1] == dir[1]);
    }
    assert(path_start(dir) == start);
    let k = part_start(whole, start);
    lemma_part_start(whole, start);
    assert(whole[n] == '/');
    assert(k == n + 1) by {
        if k > n + 1 {
            assert(whole[k - 1] == name[k - n - 2]);
        }
    }
    assert(whole.skip(k) =~= name);
    assert(up_to_name(whole, start) == whole);
    assert(without_part(whole, start) =~= dir);
    lemma_part_start(dir, start);
    let j = part_start(dir, start);
    assert(j < n) by {
        if j == n {
            assert(j > start);
        }
    }
    assert(dir.skip(j).last() == dir.last());
    assert(up_to_name(dir, start) == dir);
}

/// The plugin that is found is the first entry that is this plugin, enabled; there is none only where no
/// entry is.
pub proof fn law_first_enabled_entry_is_found(entries: Seq<json::JsonTree>)
    ensures
        match first_plugin(entries) {
            Some(p) => exists|i: int|
                0 <= i < entries.len() && entries[i] == p && names_this_plugin(p) && forall|k: int|
                    0 <= k < i ==> !names_this_plugin(#[trigger] entries[k]),
            None => forall|k: int| 0 <= k < entries.len() ==> !names_this_plugin(
                #[trigger] entries[k],
            ),
        },
    decreases entries.len(),
{
    if entries.len() > 0 {
        let rest = entries.drop_first();
        law_first_enabled_entry_is_found(rest);
        if is_plugin(entries[0]) {
            assert(entries[0] == first_plugin(entries)->0 && names_this_plugin(entries[0]));
        } else {
            match first_plugin(rest) {
                Some(p) => {
                    let i = choose|i: int|
                        0 <= i < rest.len() && rest[i] == p && names_this_plugin(p) && forall|
                            k: int,
                        |
                            0 <= k < i ==> !names_this_plugin(#[trigger] rest[k]);
                    assert(entries[i + 1] == p);
                    assert forall|k: int| 0 <= k < i + 1 implies !names_this_plugin(
                        #[trigger] entries[k],
                    ) by {
                        if k > 0 {
                            assert(rest[k - 1] == entries[k]);
                        }
                    }
                },
                None => {
                    assert forall|k: int| 0 <= k < entries.len() implies !names_this_plugin(
                        #[trigger] entries[k],
                    ) by {
                        if k > 0 {
                            assert(rest[k - 1] == entries[k]);
                        }
                    }
                },
            }
        }
    }
}

/// Whether an entry is called as this plugin is, and its flag is set.
pub open spec fn names_this_plugin(entry: json::JsonTree) -> bool {
    &&& entry.member("plugin_id"@) == json::JsonTree::Text("agent-progress"@)
    &&& entry.member("enabled"@) == json::JsonTree::Bool(true)
}

/// A manifest is looked for exactly where an entry of the list names it, that entry is this plugin,
/// enabled, and the place where it is installed is the one that was noted when it was configured.
pub proof fn law_which_manifests_count(
    marker: json::JsonTree,
    entries: Seq<json::JsonTree>,
    path: Seq<char>,
)
    ensures
        manifests_of(marker, entries).contains(path) <==> exists|i: int|
            0 <= i < entries.len() && names_this_plugin(#[trigger] entries[i]) && json::same(
                entries[i].member("plugin_root"@),
                marker.member("root"@),
            ) && entries[i].member("manifest_path"@) == json::JsonTree::Text(path),
        manifests_in(marker, json::JsonTree::List(entries)) == manifests_of(marker, entries),
    decreases entries.len(),
{
    if entries.len() > 0 {
        let front = entries.drop_last();
        let before = manifests_of(marker, front);
        let found = manifests_of(marker, entries);
        let n = entries.len() - 1;
        law_which_manifests_count(marker, front, path);
        assert(entries[n] == entries.last());
        if before.contains(path) {
            let k = choose|k: int| 0 <= k < before.len() && before[k] == path;
            assert(found[k] == path);
            let i = choose|i: int|
                0 <= i < front.len() && names_this_plugin(#[trigger] front[i]) && json::same(
                    front[i].member("plugin_root"@),
                    marker.member("root"@),
                ) && front[i].member("manifest_path"@) == json::JsonTree::Text(path);
            assert(entries[i] == front[i]);
        }
        if manifest(marker, entries.last()) == Some(path) {
            assert(found.last() == path);
            assert(names_this_plugin(entries[n]));
        }
        if found.contains(path) && !before.contains(path) {
            let k = choose|k: int| 0 <= k < found.len() && found[k] == path;
            assert(k == before.len()) by {
                if k < before.len() {
                    assert(before[k] == path);
                }
            }
        }
        if exists|i: int|
            0 <= i < entries.len() && names_this_plugin(#[trigger] entries[i]) && json::same(
                entries[i].member("plugin_root"@),
                marker.member("root"@),
            ) && entries[i].member("manifest_path"@) == json::JsonTree::Text(path) {
            let i = choose|i: int|
                0 <= i < entries.len() && names_this_plugin(#[trigger] entries[i]) && json::same(
                    entries[i].member("plugin_root"@),
                    marker.member("root"@),
                ) && entries[i].member("manifest_path"@) == json::JsonTree::Text(path);
            if i < n {
                assert(front[i] == entries[i]);
            }
        }
    }
}

/// Where the plugin's directories are: where the environment says, first of the plugin itself, then of the
/// sidebar's configuration, then of all configurations and states, and else under the home directory.
pub proof fn law_where_the_directories_are(env: Environment)
    ensures
        env.plugin_config is Some ==> plugin_config(env) == env.plugin_config->0@,
        env.plugin_state is Some ==> plugin_state(env) == env.plugin_state->0@,
        env.plugin_config is None && env.config_path is Some && parent_of(
            env.config_path->0@,
        ) is Some ==> plugin_config(env) == joined_path(
            parent_of(env.config_path->0@)->0,
            "plugins/config/agent-progress"@,
        ),
        env.plugin_config is None && env.config_path is None && env.config_home is Some
            ==> plugin_config(env) == joined_path(
            joined_path(env.config_home->0@, "herdr"@),
            "plugins/config/agent-progress"@,
        ),
        env.plugin_config is None && env.config_path is None && env.config_home is None
            && env.home is Some ==> plugin_config(env) == joined_path(
            joined_path(joined_path(env.home->0@, ".config"@), "herdr"@),
            "plugins/config/agent-progress"@,
        ),
        env.plugin_state is None && env.state_home is Some ==> plugin_state(env) == joined_path(
            env.state_home->0@,
            "herdr/plugins/agent-progress"@,
        ),
        env.plugin_state is None && env.state_home is None && env.home is Some ==> plugin_state(env)
            == joined_path(
            joined_path(env.home->0@, ".local/state"@),
            "herdr/plugins/agent-progress"@,
        ),
{
}

/// The plugin is enabled exactly where its marker names a list, and one of the manifests that count is a
/// file; in particular not where no entry of the list is this plugin, enabled, and installed where the
/// marker says.
pub proof fn law_when_the_plugin_is_enabled(
    marker: json::JsonTree,
    entries: Seq<json::JsonTree>,
    files: Seq<bool>,
)
    ensures
        ({
            let registry = json::JsonTree::List(entries);
            let found = manifests_in(marker, registry);
            &&& is_enabled(marker, registry, files) <==> marker.member("registry"@) is Text
                && exists|i: int| 0 <= i < found.len() && i < files.len() && #[trigger] files[i]
            &&& (forall|i: int|
                0 <= i < entries.len() ==> !(names_this_plugin(#[trigger] entries[i])
                    && json::same(entries[i].member("plugin_root"@), marker.member("root"@))))
                ==> !is_enabled(marker, registry, files)
        }),
{
    let found = manifests_in(marker, json::JsonTree::List(entries));
    if found.len() > 0 {
        law_which_manifests_count(marker, entries, found[0]);
        assert(found.contains(found[0]));
    }
}

/// The directory of what lies in no other, and what does not matter at the end of a path.
pub proof fn law_directories_of_short_paths(name: Seq<char>, path: Seq<char>)
    requires
        name.len() > 0,
        !name.contains('/'),
        name != seq!['.'],
        path.len() > 0,
    ensures
        parent_of(name) == Some(Seq::<char>::empty()),
        parent_of(seq!['/'] + name) == Some(seq!['/']),
        parent_of(Seq::empty()) is None,
        parent_of(seq!['/']) is None,
        parent_of(path + seq!['/']) == parent_of(path),
        parent_of(path + seq!['/', '.']) == parent_of(path),
{
    assert forall|i: int| 0 <= i < name.len() implies #[trigger] name[i] != '/' by {
        if name[i] == '/' {
            assert(name.contains('/'));
        }
    }
    assert(path_start(name) == 0) by {
        if name.len() == 1 && name[0] == '.' {
            assert(name =~= seq!['.']);
        }
        if name.len() > 1 {
            assert(name[1] != '/');
        }
        assert(name[0] != '/');
    }
    lemma_part_start(name, 0);
    assert(part_start(name, 0) == 0);
    assert(name.skip(0) =~= name);
    assert(without_part(name, 0) =~= Seq::empty());
    let rooted = seq!['/'] + name;
    lemma_part_start(rooted, 1);
    assert(part_start(rooted, 1) == 1) by {
        let k = part_start(rooted, 1);
        if k > 1 {
            assert(rooted[k - 1] == name[k - 2]);
        }
    }
    assert(rooted.skip(1) =~= name);
    assert(without_part(rooted, 1) =~= seq!['/']);
    let start = path_start(path);
    let slash = path + seq!['/'];
    let dot = path + seq!['/', '.'];
    let n = path.len() as int;
    assert(slash[0] == path[0] && dot[0] == path[0]);
    if n > 1 {
        assert(slash[1] == path[1] && dot[1] == path[1]);
    }
    assert(path_start(slash) == start && path_start(dot) == start);
    lemma_part_start(slash, start);
    lemma_part_start(dot, start);
    assert(slash[n] == '/' && dot[n] == '/' && dot[n + 1] == '.');
    assert(part_start(slash, start) == n + 1);
    assert(part_start(dot, start) == n + 1);
    assert(slash.skip(n + 1).len() == 0);
    assert(dot.skip(n + 1) =~= seq!['.']);
    assert(without_part(slash, start) =~= path);
    assert(without_part(dot, start) =~= path);
}

} // verus!
