//! Setting the plugin up and taking it down: which files are edited, what is noted of that, and how
//! they are restored.
use vstd::prelude::*;

use crate::hook_config;
use crate::hook_config::{hooks, HooksError};
use crate::json;
use crate::json::{json_object, json_text, write_json, Json};
use crate::paths;
use crate::paths::{find_plugin, join_path, Environment, Paths};
use crate::shell;
use crate::shell::quote;
use crate::sidebar;
use crate::sidebar::{sidebar, try_sidebar, SidebarError};
use crate::state;
use crate::state::new_id;
use crate::text;
use crate::text::{contains, same_option, same_text};
use crate::toml;

verus! {

/// What the user asks for when setting the plugin up.
#[derive(Clone, Debug)]
pub struct Configure {
    /// The user configuration of the agent, where it is not the usual one.
    pub devin_config: Option<String>,
    /// The configuration of the sidebar, where it is not the usual one.
    pub herdr_config: Option<String>,
}

/// The configuration of the sidebar to be edited.
pub open spec fn sidebar_target(options: Configure, env: Environment) -> Seq<char> {
    paths::or_else(
        options.herdr_config,
        paths::or_else(
            env.config_path,
            paths::joined_path(env.configs(), "herdr/config.toml"@),
        ),
    )
}

/// The configuration of the agent to be edited.
pub open spec fn hooks_target(options: Configure, env: Environment) -> Seq<char> {
    paths::or_else(
        options.devin_config,
        paths::joined_path(env.configs(), "devin/config.json"@),
    )
}

impl Configure {
    /// The configuration of the sidebar to be edited.
    pub fn sidebar_file(&self, env: &Environment) -> (r: String)
        ensures
            r@ == sidebar_target(*self, *env),
    {
        match &self.herdr_config {
            Some(file) => file.clone(),
            None => env.config_path(),
        }
    }

    /// The configuration of the agent to be edited.
    pub fn hooks_file(&self, env: &Environment) -> (r: String)
        ensures
            r@ == hooks_target(*self, *env),
    {
        match &self.devin_config {
            Some(file) => file.clone(),
            None => env.devin_config_path(),
        }
    }
}

/// What is noted of an edited file: what it held before, if it was there, what it holds after, and
/// what kind of edit it was.
#[derive(Clone, Debug)]
pub struct Owned {
    pub before: Option<String>,
    pub after: String,
    pub kind: String,
    pub command: Option<String>,
}

/// An [`Owned`] as a value.
pub ghost struct OwnedView {
    pub before: Option<Seq<char>>,
    pub after: Seq<char>,
    pub kind: Seq<char>,
    pub command: Option<Seq<char>>,
}

impl View for Owned {
    type V = OwnedView;

    open spec fn view(&self) -> OwnedView {
        OwnedView {
            before: text::option_view(self.before),
            after: self.after@,
            kind: self.kind@,
            command: text::option_view(self.command),
        }
    }
}

/// Why the plugin is not set up or taken down.
#[derive(Debug)]
pub enum SetupError {
    /// The sidebar cannot be edited.
    Sidebar(SidebarError),
    /// The hooks cannot be edited.
    Hooks(HooksError),
    /// It is not noted which hook is whose.
    MissingHook,
    /// The plugin is not enabled.
    NoPlugin,
    /// Another edit was made of the file.
    OwnershipDiffers,
    /// The file holds edits of which nothing is noted.
    Unowned,
    /// The file was changed by someone else.
    Changed,
    /// The file, or a directory on the way to it, is a link.
    Link,
}

impl SetupError {
    /// What is wrong with the file `file`, in words.
    pub open spec fn message_text(self, file: Seq<char>) -> Seq<char> {
        match self {
            SetupError::Sidebar(e) => e.message_text(),
            SetupError::Hooks(e) => e.message_text(),
            SetupError::MissingHook => "Missing owned hook"@,
            SetupError::NoPlugin => "Enable the agent-progress Herdr plugin before Configure"@,
            SetupError::OwnershipDiffers => "Setup ownership differs at "@ + file,
            SetupError::Unowned => "Existing progress entries have no ownership record at "@ + file
                + "; inspect them before configuring"@,
            SetupError::Changed => "Configuration changed concurrently: "@ + file,
            SetupError::Link => "Refusing symlink configuration path "@ + file,
        }
    }

    /// What is wrong with the file `file`, in words.
    pub fn message(&self, file: &str) -> (r: String)
        ensures
            r@ == self.message_text(file@),
    {
        match self {
            SetupError::Sidebar(e) => e.message(),
            SetupError::Hooks(e) => e.message(),
            SetupError::MissingHook => "Missing owned hook".to_owned(),
            SetupError::NoPlugin => {
                "Enable the agent-progress Herdr plugin before Configure".to_owned()
            },
            SetupError::OwnershipDiffers => {
                let mut r = "Setup ownership differs at ".to_owned();
                r.append(file);
                r
            },
            SetupError::Unowned => {
                let mut r = "Existing progress entries have no ownership record at ".to_owned();
                r.append(file);
                r.append("; inspect them before configuring");
                r
            },
            SetupError::Changed => {
                let mut r = "Configuration changed concurrently: ".to_owned();
                r.append(file);
                r
            },
            SetupError::Link => {
                let mut r = "Refusing symlink configuration path ".to_owned();
                r.append(file);
                r
            },
        }
    }
}

// ---------------------------------------------------------------------------
// The edits
// ---------------------------------------------------------------------------

/// The command that the hooks run.
pub open spec fn hook_command(config: Seq<char>) -> Seq<char> {
    shell::quoted(paths::joined_path(config, "herdr-progress"@)) + " hook"@
}

/// The command that the hooks run.
pub fn command_of(paths: &Paths) -> (r: String)
    ensures
        r@ == hook_command(paths.config@),
{
    let mut r = quote(paths.launcher().as_str());
    r.append(" hook");
    r
}

/// What a file holds, or `empty` where it is not there.
fn held_or(before: &Option<String>, empty: &str) -> (r: String)
    ensures
        r@ == paths::or_else(*before, empty@),
{
    match before {
        Some(text) => text.clone(),
        None => empty.to_owned(),
    }
}

/// Whether `r` is the edit of a sidebar configuration that holds `before`.
pub open spec fn sidebar_edited(before: Option<String>, r: Result<Owned, SidebarError>) -> bool {
    match r {
        Ok(owned) => {
            &&& sidebar::sidebar_result(
                paths::or_else(before, ""@),
                false,
                Ok::<String, SidebarError>(owned.after),
            )
            &&& owned@ == (OwnedView {
                before: text::option_view(before),
                after: owned.after@,
                kind: "sidebar"@,
                command: None,
            })
        },
        Err(e) => sidebar::sidebar_result(
            paths::or_else(before, ""@),
            false,
            Err::<String, SidebarError>(e),
        ),
    }
}

/// The edit of a sidebar configuration that holds `before`, or nothing where rows cannot be put into
/// it.
pub fn sidebar_edit(before: Option<String>) -> (r: Option<Result<Owned, SidebarError>>)
    ensures
        match r {
            Some(r) => sidebar_edited(before, r),
            None => toml::toml_parsed(paths::or_else(before, ""@)) matches Ok(doc)
                && !sidebar::editable(doc.root),
        },
{
    match try_sidebar(held_or(&before, "").as_str(), false) {
        None => None,
        Some(Err(e)) => Some(Err(e)),
        Some(Ok(after)) => Some(
            Ok(Owned { before, after, kind: "sidebar".to_owned(), command: None }),
        ),
    }
}

/// Whether `r` is the edit of an agent's configuration that holds `before`, with hooks that run
/// `command`.
pub open spec fn hooks_edited(
    before: Option<String>,
    command: Seq<char>,
    r: Result<Owned, HooksError>,
) -> bool {
    match r {
        Ok(owned) => {
            &&& hook_config::hooks_result(
                paths::or_else(before, "{}"@),
                command,
                false,
                Ok::<String, HooksError>(owned.after),
            )
            &&& owned@ == (OwnedView {
                before: text::option_view(before),
                after: owned.after@,
                kind: "hooks"@,
                command: Some(command),
            })
        },
        Err(e) => hook_config::hooks_result(
            paths::or_else(before, "{}"@),
            command,
            false,
            Err::<String, HooksError>(e),
        ),
    }
}

/// The edit of an agent's configuration that holds `before`, with hooks that run `command`.
pub fn hooks_edit(before: Option<String>, command: String) -> (r: Result<Owned, HooksError>)
    ensures
        hooks_edited(before, command@, r),
{
    match hooks(held_or(&before, "{}").as_str(), command.as_str(), false) {
        Ok(after) => Ok(
            Owned { before, after, kind: "hooks".to_owned(), command: Some(command) },
        ),
        Err(e) => Err(e),
    }
}

// ---------------------------------------------------------------------------
// Ownership
// ---------------------------------------------------------------------------

/// Whether a file that is edited for the first time already holds such an edit.
pub open spec fn foreign(edit: OwnedView) -> bool {
    match edit.before {
        None => false,
        Some(held) => if edit.kind == "sidebar"@ {
            text::occurs(held, "$agent_progress_"@)
        } else {
            edit.command is Some && text::occurs(held, edit.command->0)
        },
    }
}

/// Why a file may not be edited, where `previous` is what was noted of it, if anything.
pub open spec fn owner_fault(previous: Option<OwnedView>, edit: OwnedView) -> Option<SetupError> {
    match previous {
        Some(old) => if old.kind == edit.kind && old.command == edit.command {
            None
        } else {
            Some(SetupError::OwnershipDiffers)
        },
        None => if foreign(edit) {
            Some(SetupError::Unowned)
        } else {
            None
        },
    }
}

/// Whether a file may be edited, where `previous` is what was noted of it, if anything.
pub fn check_owner(previous: &Option<Owned>, edit: &Owned) -> (r: Result<(), SetupError>)
    ensures
        match owner_fault(owned_view(*previous), edit@) {
            None => r is Ok,
            Some(e) => r == Err::<(), SetupError>(e),
        },
{
    match previous {
        Some(old) => if same_text(old.kind.as_str(), edit.kind.as_str()) && same_option(
            &old.command,
            &edit.command,
        ) {
            Ok(())
        } else {
            Err(SetupError::OwnershipDiffers)
        },
        None => {
            let held = match &edit.before {
                None => false,
                Some(held) => if same_text(edit.kind.as_str(), "sidebar") {
                    contains(held.as_str(), "$agent_progress_")
                } else {
                    match &edit.command {
                        Some(command) => contains(held.as_str(), command.as_str()),
                        None => false,
                    }
                },
            };
            if held {
                Err(SetupError::Unowned)
            } else {
                Ok(())
            }
        },
    }
}

/// Whether `r` is what taking an edit of the given kind out of the text `held` gives.
pub open spec fn taken_out(
    kind: Seq<char>,
    command: Option<Seq<char>>,
    held: Seq<char>,
    r: Result<String, SetupError>,
) -> bool {
    if kind == "sidebar"@ {
        match r {
            Ok(text) => sidebar::sidebar_result(held, true, Ok::<String, SidebarError>(text)),
            Err(SetupError::Sidebar(e)) => sidebar::sidebar_result(
                held,
                true,
                Err::<String, SidebarError>(e),
            ),
            _ => false,
        }
    } else if command is None {
        r == Err::<String, SetupError>(SetupError::MissingHook)
    } else {
        match r {
            Ok(text) => hook_config::hooks_result(
                held,
                command->0,
                true,
                Ok::<String, HooksError>(text),
            ),
            Err(SetupError::Hooks(e)) => hook_config::hooks_result(
                held,
                command->0,
                true,
                Err::<String, HooksError>(e),
            ),
            _ => false,
        }
    }
}

/// Takes an edit of the kind and command of `owned` out of the text `held`.
fn take_out(owned: &Owned, held: &str) -> (r: Result<String, SetupError>)
    ensures
        taken_out(owned@.kind, owned@.command, held@, r),
{
    if same_text(owned.kind.as_str(), "sidebar") {
        match sidebar(held, true) {
            Ok(text) => Ok(text),
            Err(e) => Err(SetupError::Sidebar(e)),
        }
    } else {
        match &owned.command {
            None => Err(SetupError::MissingHook),
            Some(command) => match hooks(held, command.as_str(), true) {
                Ok(text) => Ok(text),
                Err(e) => Err(SetupError::Hooks(e)),
            },
        }
    }
}

/// Whether `r` is what a file is to be restored to, where `previous` was noted of it and `current` is
/// the edit that is to be made of it.
pub open spec fn baseline(
    previous: OwnedView,
    current: OwnedView,
    r: Result<Option<String>, SetupError>,
) -> bool {
    if current.before == Some(previous.after) {
        r is Ok && text::option_view(r->Ok_0) == previous.before
    } else {
        match current.before {
            None => r is Ok && r->Ok_0 is None,
            Some(held) => match r {
                Ok(kept) => kept is Some && taken_out(
                    current.kind,
                    current.command,
                    held,
                    Ok::<String, SetupError>(kept->0),
                ),
                Err(e) => taken_out(
                    current.kind,
                    current.command,
                    held,
                    Err::<String, SetupError>(e),
                ),
            },
        }
    }
}

/// What a file is to be restored to after an edit of a file that was edited before.
///
/// Where nothing happened in between, that is what it held before the first edit. Otherwise what was
/// done since must be kept: it is what the file holds now, without the edit.
pub fn removal_baseline(previous: Owned, current: &Owned) -> (r: Result<
    Option<String>,
    SetupError,
>)
    ensures
        baseline(previous@, current@, r),
{
    match &current.before {
        None => Ok(None),
        Some(held) => {
            if same_text(held.as_str(), previous.after.as_str()) {
                return Ok(previous.before);
            }
            match take_out(current, held.as_str()) {
                Ok(text) => Ok(Some(text)),
                Err(e) => Err(e),
            }
        },
    }
}

/// Whether `r` is what is to be noted of an edit, where `previous` was noted of the file.
pub open spec fn journaled(
    previous: Option<OwnedView>,
    edit: OwnedView,
    r: Result<Owned, SetupError>,
) -> bool {
    match r {
        Ok(owned) => {
            &&& owned@ == (OwnedView { before: owned@.before, ..edit })
            &&& match previous {
                None => owned@.before == edit.before,
                Some(old) => baseline(
                    old,
                    edit,
                    Ok::<Option<String>, SetupError>(owned.before),
                ),
            }
        },
        Err(e) => previous is Some && baseline(
            previous->0,
            edit,
            Err::<Option<String>, SetupError>(e),
        ),
    }
}

/// The value of what is noted of a file, if anything.
pub open spec fn owned_view(owned: Option<Owned>) -> Option<OwnedView> {
    match owned {
        Some(o) => Some(o@),
        None => None,
    }
}

/// What is to be noted of an edit, where `previous` is what was noted of the file, if anything.
pub fn journal(previous: Option<Owned>, edit: &Owned) -> (r: Result<Owned, SetupError>)
    ensures
        journaled(owned_view(previous), edit@, r),
{
    let command: Option<String> = match &edit.command {
        Some(command) => Some(command.clone()),
        None => None,
    };
    let before: Option<String> = match previous {
        None => match &edit.before {
            Some(text) => Some(text.clone()),
            None => None,
        },
        Some(old) => match removal_baseline(old, edit) {
            Ok(before) => before,
            Err(e) => return Err(e),
        },
    };
    Ok(Owned { before, after: edit.after.clone(), kind: edit.kind.clone(), command })
}

// ---------------------------------------------------------------------------
// Restoring files
// ---------------------------------------------------------------------------

/// What to do with a file.
#[derive(Debug)]
pub enum Restore {
    /// Leave it as it is.
    Keep,
    /// Let it hold this.
    Write(String),
    /// Delete it.
    Delete,
}

/// Whether `r` gives back what a file held before.
pub open spec fn gives_back(r: Restore, before: Option<Seq<char>>) -> bool {
    match before {
        Some(text) => r matches Restore::Write(s) && s@ == text,
        None => r is Delete,
    }
}

/// Gives back what a file held before.
fn give_back(before: &Option<String>) -> (r: Restore)
    ensures
        gives_back(r, text::option_view(*before)),
{
    match before {
        Some(text) => Restore::Write(text.clone()),
        None => Restore::Delete,
    }
}

/// Whether `r` is what there is to do with a file that was edited and now holds `current`, where another
/// edit failed.
pub open spec fn rolled_back(edit: OwnedView, current: Option<Seq<char>>, r: Restore) -> bool {
    if current == Some(edit.after) {
        gives_back(r, edit.before)
    } else {
        r is Keep
    }
}

/// What to do with a file that was edited, where another edit failed: it is restored where it still
/// holds what it was edited to.
pub fn roll_back(edit: &Owned, current: &Option<String>) -> (r: Restore)
    ensures
        rolled_back(edit@, text::option_view(*current), r),
{
    let untouched = match current {
        Some(text) => same_text(text.as_str(), edit.after.as_str()),
        None => false,
    };
    if untouched {
        give_back(&edit.before)
    } else {
        Restore::Keep
    }
}

/// Whether `r` is what there is to do with a file of which `owned` is noted, and which now holds
/// `current`, when the plugin is taken down.
pub open spec fn taken_down(
    owned: OwnedView,
    current: Option<Seq<char>>,
    r: Result<Restore, SetupError>,
) -> bool {
    match current {
        None => r is Ok && r->Ok_0 is Keep,
        Some(held) => if held == owned.after {
            r is Ok && gives_back(r->Ok_0, owned.before)
        } else {
            match r {
                Ok(restore) => restore matches Restore::Write(text) && taken_out(
                    owned.kind,
                    owned.command,
                    held,
                    Ok::<String, SetupError>(text),
                ),
                Err(e) => taken_out(owned.kind, owned.command, held, Err::<String, SetupError>(e)),
            }
        },
    }
}

/// What to do with a file of which `owned` is noted, and which now holds `current`, when the plugin is
/// taken down: one that nobody touched is restored, and from any other only the edit is taken out.
pub fn unconfigure(owned: &Owned, current: &Option<String>) -> (r: Result<Restore, SetupError>)
    requires
        owned@.kind != "sidebar"@ && current is Some && current->0@ != owned@.after
            ==> owned@.command is Some,
    ensures
        taken_down(owned@, text::option_view(*current), r),
{
    match current {
        None => Ok(Restore::Keep),
        Some(held) => {
            if same_text(held.as_str(), owned.after.as_str()) {
                return Ok(give_back(&owned.before));
            }
            match take_out(owned, held.as_str()) {
                Ok(text) => Ok(Restore::Write(text)),
                Err(e) => Err(e),
            }
        },
    }
}

/// The first link on the way to a file, where `links` tells of the file, of its directory and so on
/// whether it is one. With a link another file would be edited than the one that was named.
pub fn first_link(links: &Vec<bool>) -> (r: Option<usize>)
    ensures
        match r {
            Some(i) => i < links@.len() && links@[i as int] && forall|k: int|
                0 <= k < i ==> !(#[trigger] links@[k]),
            None => forall|k: int| 0 <= k < links@.len() ==> !(#[trigger] links@[k]),
        },
{
    let n: usize = links.len();
    for i in 0..n
        invariant
            n == links@.len(),
            forall|k: int| 0 <= k < i ==> !(#[trigger] links@[k]),
    {
        if links[i] {
            return Some(i);
        }
    }
    None
}

/// Whether a file that held `before` and holds `now` may be replaced.
pub open spec fn may_replace(now: Option<Seq<char>>, before: Option<Seq<char>>) -> bool {
    now == before
}

/// Whether a file may be replaced: it must still hold what it held.
pub fn check_replace(now: &Option<String>, before: &Option<String>) -> (r: Result<
    (),
    SetupError,
>)
    ensures
        if may_replace(text::option_view(*now), text::option_view(*before)) {
            r is Ok
        } else {
            r == Err::<(), SetupError>(SetupError::Changed)
        },
{
    if same_option(now, before) {
        Ok(())
    } else {
        Err(SetupError::Changed)
    }
}

// ---------------------------------------------------------------------------
// Files that are there for a moment
// ---------------------------------------------------------------------------

/// The name of the file that holds what another is to hold, before it takes the other's place.
pub open spec fn temporary_text(id: Seq<char>) -> Seq<char> {
    ".agent-progress-"@ + id + ".tmp"@
}

/// The name of the file that holds what another is to hold, where it is called after `id`.
pub fn temporary_name_of(id: &str) -> (r: String)
    ensures
        r@ == temporary_text(id@),
{
    let mut r = ".agent-progress-".to_owned();
    r.append(id);
    r.append(".tmp");
    r
}

/// A name that is drawn for the file that holds what another is to hold.
pub fn temporary_name() -> (r: String)
    ensures
        exists|id: Seq<char>| state::is_id(id) && r@ == #[trigger] temporary_text(id),
{
    let id = new_id();
    temporary_name_of(id.as_str())
}

/// The file that holds a proposed sidebar while it is checked.
pub open spec fn candidate_text(config: Seq<char>, id: Seq<char>) -> Seq<char> {
    paths::joined_path(config, "check-"@ + id + ".toml"@)
}

/// The file that holds a proposed sidebar while it is checked, where it is called after `id`.
pub fn candidate_file_of(paths: &Paths, id: &str) -> (r: String)
    ensures
        r@ == candidate_text(paths.config@, id@),
{
    let mut name = "check-".to_owned();
    name.append(id);
    name.append(".toml");
    join_path(paths.config.as_str(), name.as_str())
}

/// A file that is drawn to hold a proposed sidebar while it is checked.
pub fn candidate_file(paths: &Paths) -> (r: String)
    ensures
        exists|id: Seq<char>|
            state::is_id(id) && r@ == #[trigger] candidate_text(paths.config@, id),
{
    let id = new_id();
    candidate_file_of(paths, id.as_str())
}

// ---------------------------------------------------------------------------
// The launcher and the marker
// ---------------------------------------------------------------------------

/// The program as it is installed.
pub fn binary_file(paths: &Paths) -> (r: String)
    ensures
        r@ == paths::joined_path(paths.config@, "herdr-progress-bin"@),
{
    join_path(paths.config.as_str(), "herdr-progress-bin")
}

/// The script that runs the installed program with the directories that it was set up with.
pub open spec fn launcher_text(config: Seq<char>, state: Seq<char>) -> Seq<char> {
    "#!/bin/sh\nexport HERDR_PLUGIN_CONFIG_DIR="@ + shell::quoted(config)
        + "\nexport HERDR_PLUGIN_STATE_DIR="@ + shell::quoted(state) + "\nexec "@ + shell::quoted(
        paths::joined_path(config, "herdr-progress-bin"@),
    ) + " \"$@\"\n"@
}

/// The script that runs the installed program with the directories that it was set up with.
pub fn launcher(paths: &Paths) -> (r: String)
    ensures
        r@ == launcher_text(paths.config@, paths.state@),
{
    let mut r = "#!/bin/sh\nexport HERDR_PLUGIN_CONFIG_DIR=".to_owned();
    r.append(quote(paths.config.as_str()).as_str());
    r.append("\nexport HERDR_PLUGIN_STATE_DIR=");
    r.append(quote(paths.state.as_str()).as_str());
    r.append("\nexec ");
    r.append(quote(binary_file(paths).as_str()).as_str());
    r.append(" \"$@\"\n");
    r
}

/// Where the plugin is installed, by the list of plugins.
pub fn plugin_root(registry: &Json) -> (r: Result<Json, SetupError>)
    ensures
        match registry@.list() {
            Some(entries) => match paths::first_plugin(entries) {
                Some(p) => r is Ok && r->Ok_0@ == p.member("plugin_root"@),
                None => r == Err::<Json, SetupError>(SetupError::NoPlugin),
            },
            None => r == Err::<Json, SetupError>(SetupError::NoPlugin),
        },
{
    match find_plugin(registry) {
        None => Err(SetupError::NoPlugin),
        Some(p) => match p.get("plugin_root") {
            Some(root) => Ok(root.copy()),
            None => Ok(Json::Null),
        },
    }
}

/// What marks the plugin as configured, as a value.
pub open spec fn marker_tree(registry: Seq<char>, root: json::JsonTree) -> json::JsonTree {
    json::JsonTree::Object(
        seq![("registry"@, json::JsonTree::Text(registry)), ("root"@, root)],
    )
}

/// What marks the plugin as configured, as JSON.
pub fn marker(registry: &str, root: Json) -> (r: String)
    ensures
        r@ == json::json_written(json::normal(marker_tree(registry@, root@))),
{
    let mut members: Vec<(String, Json)> = Vec::new();
    members.push(("registry".to_owned(), json_text(registry)));
    members.push(("root".to_owned(), root));
    assert(json::member_trees(members@) =~= marker_tree(registry@, root@)->Object_0);
    write_json(&json_object(members))
}

// ---------------------------------------------------------------------------
// What holds of every file
// ---------------------------------------------------------------------------

/// Whether `noted` is what was noted of the edits of a file, one after the other, each of which found the
/// file as the one before had left it.
pub open spec fn noted_in_turn(edits: Seq<OwnedView>, noted: Seq<Owned>) -> bool {
    &&& edits.len() == noted.len()
    &&& edits.len() > 0
    &&& journaled(None, edits[0], Ok::<Owned, SetupError>(noted[0]))
    &&& forall|i: int|
        #![trigger edits[i]]
        0 < i < edits.len() ==> {
            &&& edits[i].before == Some(edits[i - 1].after)
            &&& journaled(
                Some(noted[i - 1]@),
                edits[i],
                Ok::<Owned, SetupError>(noted[i]),
            )
        }
}

/// However often a file was edited, what is noted of it last is what it held before the first edit.
proof fn lemma_first_is_noted(edits: Seq<OwnedView>, noted: Seq<Owned>, i: int)
    requires
        noted_in_turn(edits, noted),
        0 <= i < edits.len(),
    ensures
        noted[i]@.before == edits[0].before,
        noted[i]@.after == edits[i].after,
    decreases i,
{
    if i > 0 {
        lemma_first_is_noted(edits, noted, i - 1);
        assert(edits[i].before == Some(edits[i - 1].after));
    }
}

/// A file that nobody else touched is given back as it was before it was first edited, however often it
/// was edited.
pub proof fn law_untouched_file_is_given_back(
    edits: Seq<OwnedView>,
    noted: Seq<Owned>,
    r: Result<Restore, SetupError>,
)
    requires
        noted_in_turn(edits, noted),
        taken_down(noted.last()@, Some(edits.last().after), r),
    ensures
        r is Ok,
        match edits[0].before {
            Some(text) => r->Ok_0 matches Restore::Write(s) && s@ == text,
            None => r->Ok_0 is Delete,
        },
{
    lemma_first_is_noted(edits, noted, edits.len() - 1);
}

/// A file that is not there is left alone when the plugin is taken down, and one that was deleted
/// before an edit is deleted again.
pub proof fn law_deleted_file_stays_deleted(
    previous: OwnedView,
    edit: OwnedView,
    noted: Result<Owned, SetupError>,
    r: Result<Restore, SetupError>,
)
    requires
        edit.before is None,
        journaled(Some(previous), edit, noted),
    ensures
        noted is Ok,
        taken_down(noted->Ok_0@, Some(edit.after), r) ==> r is Ok && r->Ok_0 is Delete,
        taken_down(noted->Ok_0@, None, r) ==> r is Ok && r->Ok_0 is Keep,
{
}

} // verus!
