//! What holds of every file that is set up, rolled back or taken down.
use jsonc_parser::cst::CstRootNode;
use vstd::prelude::*;

use crate::hook_config;
use crate::hook_config::HooksError;
use crate::hook_effects;
use crate::hooks_laws;
use crate::json;
use crate::jsonc;
use crate::paths;
use crate::paths::Environment;
use crate::setup;
use crate::setup::{Configure, Owned, Restore, SetupError};
use crate::shell;
use crate::sidebar;
use crate::sidebar::SidebarError;
use crate::sidebar_effects;
use crate::text;
use crate::toml;
use crate::tree;

verus! {

/// A file that holds exactly what it was edited to is given back: it is to hold what it held before, or to
/// be deleted where it was not there. A file that is gone is left alone.
pub proof fn law_edited_file_is_given_back(
    owned: setup::OwnedView,
    r: Result<Restore, SetupError>,
    gone: Result<Restore, SetupError>,
)
    requires
        setup::taken_down(owned, Some(owned.after), r),
        setup::taken_down(owned, None, gone),
    ensures
        r is Ok,
        owned.before is None ==> r->Ok_0 is Delete,
        owned.before is Some ==> r->Ok_0 is Write && r->Ok_0->Write_0@ == owned.before->0,
        gone is Ok && gone->Ok_0 is Keep,
{
}

/// A file that holds anything else than what it was edited to is never overwritten with what it held
/// before: whatever was noted of that, the same is done, the file is neither deleted nor kept with the
/// edit in it, and a failure says why the edit cannot be taken out of what it holds now.
pub proof fn law_changed_file_is_not_overwritten(
    owned: setup::OwnedView,
    held: Seq<char>,
    r: Result<Restore, SetupError>,
    before: Option<Seq<char>>,
)
    requires
        held != owned.after,
        setup::taken_down(owned, Some(held), r),
    ensures
        r is Ok ==> r->Ok_0 is Write,
        setup::taken_down(setup::OwnedView { before, ..owned }, Some(held), r),
{
}

/// A sidebar configuration that was changed since is to hold what it holds now with only the progress
/// rows taken out: every other row, agent and key is what it now is. That fails only where its rows
/// cannot be edited.
pub proof fn law_changed_sidebar_loses_only_rows(
    owned: setup::OwnedView,
    held: Seq<char>,
    r: Result<Restore, SetupError>,
) -> (after: toml::Toml)
    requires
        owned.kind == "sidebar"@,
        held != owned.after,
        setup::taken_down(owned, Some(held), r),
        toml::toml_parsed(held) matches Ok(doc) ==> doc.root.complete(),
    ensures
        r is Ok ==> r->Ok_0 is Write && sidebar_effects::only_rows_are_out(
            held,
            r->Ok_0->Write_0@,
            after,
        ),
        r is Ok <==> {
            &&& toml::toml_parsed(held) is Ok
            &&& ({
                let agents = toml::toml_parsed(held)->Ok_0.root.child("ui"@).child(
                    "sidebar"@,
                ).child("agents"@);
                let overrides = agents.child("rows_by_agent"@);
                &&& !sidebar_effects::no_array(agents.child("rows"@))
                &&& overrides is Missing || overrides is Table
                &&& !sidebar_effects::odd_agent(overrides)
            })
        },
{
    match r {
        Ok(restore) => {
            let done = Ok::<String, SidebarError>(restore->Write_0);
            sidebar_effects::law_sidebar_is_refused_only_for_cause(held, true, done);
            sidebar_effects::law_taking_row_out(held, done)
        },
        Err(SetupError::Sidebar(e)) => {
            let done = Err::<String, SidebarError>(e);
            sidebar_effects::law_sidebar_is_refused_only_for_cause(held, true, done);
            toml::Toml::Missing
        },
        Err(_) => toml::Toml::Missing,
    }
}

/// An agent's configuration that was changed since is to hold what it holds now with only the entries
/// that run the noted command taken out: every other entry, event and member is what it now is. That
/// fails only where its hooks cannot be edited.
pub proof fn law_changed_hooks_lose_only_entries(
    owned: setup::OwnedView,
    held: Seq<char>,
    r: Result<Restore, SetupError>,
) -> (after: Option<CstRootNode>)
    requires
        owned.kind != "sidebar"@,
        owned.command is Some,
        held != owned.after,
        setup::taken_down(owned, Some(held), r),
    ensures
        r is Ok ==> r->Ok_0 is Write && after is Some && hook_effects::only_entries_are_out(
            held,
            owned.command->0,
            r->Ok_0->Write_0@,
            after->0,
        ),
        r is Err ==> r->Err_0 is Hooks && hook_config::hooks_result(
            held,
            owned.command->0,
            true,
            Err::<String, HooksError>(r->Err_0->Hooks_0),
        ),
{
    match r {
        Ok(restore) => {
            let done = Ok::<String, HooksError>(restore->Write_0);
            Some(hook_effects::law_taking_hooks_out(held, owned.command->0, done))
        },
        Err(_) => None,
    }
}

/// What is noted of an edit: its kind, its command and what the file holds after it, as they are; and what
/// the file held before it, where nothing was noted of the file. Where the file still held what it had
/// been edited to, what was noted before stays noted; where it was gone, that is.
pub proof fn law_what_is_noted(
    previous: Option<setup::OwnedView>,
    edit: setup::OwnedView,
    r: Result<Owned, SetupError>,
)
    requires
        setup::journaled(previous, edit, r),
    ensures
        r is Ok ==> r->Ok_0@.after == edit.after && r->Ok_0@.kind == edit.kind && r->Ok_0@.command
            == edit.command,
        previous is None ==> r is Ok && r->Ok_0@.before == edit.before,
        previous is Some && edit.before is None ==> r is Ok && r->Ok_0@.before is None,
        previous is Some && edit.before == Some(previous->0.after) ==> r is Ok && r->Ok_0@.before
            == previous->0.before,
{
}

/// Where a sidebar configuration was changed between two edits, what it is to be restored to is what it
/// held at the second one with only the progress rows taken out.
pub proof fn law_changes_between_edits_of_the_sidebar_are_kept(
    previous: setup::OwnedView,
    edit: setup::OwnedView,
    r: Result<Owned, SetupError>,
) -> (after: toml::Toml)
    requires
        setup::journaled(Some(previous), edit, r),
        edit.kind == "sidebar"@,
        edit.before is Some,
        edit.before->0 != previous.after,
        r is Ok,
        toml::toml_parsed(edit.before->0) matches Ok(doc) ==> doc.root.complete(),
    ensures
        r->Ok_0@.before is Some,
        sidebar_effects::only_rows_are_out(edit.before->0, r->Ok_0@.before->0, after),
{
    let done = Ok::<String, SidebarError>(r->Ok_0.before->0);
    sidebar_effects::law_taking_row_out(edit.before->0, done)
}

/// Where an agent's configuration was changed between two edits, what it is to be restored to is what it
/// held at the second one with only the entries that run the command taken out.
pub proof fn law_changes_between_edits_of_the_hooks_are_kept(
    previous: setup::OwnedView,
    edit: setup::OwnedView,
    r: Result<Owned, SetupError>,
) -> (after: CstRootNode)
    requires
        setup::journaled(Some(previous), edit, r),
        edit.kind != "sidebar"@,
        edit.command is Some,
        edit.before is Some,
        edit.before->0 != previous.after,
        r is Ok,
    ensures
        r->Ok_0@.before is Some,
        hook_effects::only_entries_are_out(
            edit.before->0,
            edit.command->0,
            r->Ok_0@.before->0,
            after,
        ),
{
    let done = Ok::<String, HooksError>(r->Ok_0.before->0);
    hook_effects::law_taking_hooks_out(edit.before->0, edit.command->0, done)
}

/// After a failure a file that still holds what it was edited to is given back, and any other, also one
/// that is gone, is left as it is.
pub proof fn law_failed_setup_is_rolled_back(
    edit: setup::OwnedView,
    current: Option<Seq<char>>,
    r: Restore,
)
    requires
        setup::rolled_back(edit, current, r),
    ensures
        current is None || current->0 != edit.after ==> r is Keep,
        current == Some(edit.after) && edit.before is None ==> r is Delete,
        current == Some(edit.after) && edit.before is Some ==> r is Write && r->Write_0@
            == edit.before->0,
{
}

/// A file of which something is noted may be edited again in the same way and in no other; one of which
/// nothing is noted may be unless it is there and names progress, or runs the command, already.
pub proof fn law_who_may_edit(previous: Option<setup::OwnedView>, edit: setup::OwnedView)
    ensures
        previous is Some ==> (setup::owner_fault(previous, edit) is None <==> previous->0.kind
            == edit.kind && previous->0.command == edit.command),
        previous is Some && setup::owner_fault(previous, edit) is Some ==> setup::owner_fault(
            previous,
            edit,
        ) == Some(SetupError::OwnershipDiffers),
        previous is None && edit.before is None ==> setup::owner_fault(previous, edit) is None,
        previous is None && edit.before is Some && edit.kind == "sidebar"@ ==> setup::owner_fault(
            previous,
            edit,
        ) == (if text::occurs(edit.before->0, "$agent_progress_"@) {
            Some(SetupError::Unowned)
        } else {
            None
        }),
        previous is None && edit.before is Some && edit.kind == "hooks"@ && edit.command is Some
            ==> setup::owner_fault(previous, edit) == (if text::occurs(
            edit.before->0,
            edit.command->0,
        ) {
            Some(SetupError::Unowned)
        } else {
            None
        }),
{
    reveal_strlit("sidebar");
    reveal_strlit("hooks");
    assert("sidebar"@.len() == 7 && "hooks"@.len() == 5);
}

/// The marker names the list of plugins and the place where the plugin is installed.
pub proof fn law_marker_names_list_and_place(registry: Seq<char>, root: json::JsonTree)
    ensures
        setup::marker_tree(registry, root).member("registry"@) == json::JsonTree::Text(registry),
        setup::marker_tree(registry, root).member("root"@) == root,
{
    let s = setup::marker_tree(registry, root)->Object_0;
    reveal_strlit("registry");
    reveal_strlit("root");
    assert("registry"@.len() == 8 && "root"@.len() == 4);
    tree::lemma_position_is(s, "registry"@, 0);
    tree::lemma_position_is(s, "root"@, 1);
}

/// A file is replaced only where it still is what it was: there with the same text, or still not there.
pub proof fn law_only_unchanged_files_are_replaced(
    now: Option<Seq<char>>,
    before: Option<Seq<char>>,
)
    ensures
        setup::may_replace(now, before) <==> (now is None && before is None) || (now is Some
            && before is Some && now->0 == before->0),
{
}

/// The edit of a sidebar configuration notes what the file held, if it was there, and adds the progress row
/// to that, or to an empty configuration where it was not.
pub proof fn law_edit_of_the_sidebar(before: Option<String>, r: Result<Owned, SidebarError>)
    requires
        setup::sidebar_edited(before, r),
    ensures
        r is Ok ==> {
            let owned = r->Ok_0@;
            &&& owned.kind == "sidebar"@ && owned.command is None
            &&& before is None ==> owned.before is None
            &&& before is Some ==> owned.before == Some(before->0@)
            &&& before is None ==> sidebar::sidebar_result(
                ""@,
                false,
                Ok::<String, SidebarError>(r->Ok_0.after),
            )
            &&& before is Some ==> sidebar::sidebar_result(
                before->0@,
                false,
                Ok::<String, SidebarError>(r->Ok_0.after),
            )
        },
{
}

/// The edit of an agent's configuration notes what the file held, if it was there, and the command, and
/// gives each of the four events the entry that runs it, behind the elements that it had; a file that was
/// not there starts as an empty object.
pub proof fn law_edit_of_the_hooks(
    before: Option<String>,
    command: Seq<char>,
    r: Result<Owned, HooksError>,
) -> (after: Option<CstRootNode>)
    requires
        setup::hooks_edited(before, command, r),
    ensures
        r is Ok ==> {
            let owned = r->Ok_0@;
            let input = if before is Some {
                before->0@
            } else {
                "{}"@
            };
            &&& owned.kind == "hooks"@ && owned.command == Some(command)
            &&& before is None ==> owned.before is None
            &&& before is Some ==> owned.before == Some(before->0@)
            &&& after is Some
            &&& jsonc::jsonc_parsed(input) is Ok
            &&& owned.after == jsonc::jsonc_text(after->0)
            &&& forall|event: Seq<char>| #[trigger]
                hook_effects::names_event(event) ==> {
                    let list = jsonc::jsonc_tree(after->0).child("hooks"@).child(event);
                    list is List && list->List_0.contains(Some(hook_effects::entry(command)))
                }
        },
{
    match r {
        Ok(owned) => {
            let input = paths::or_else(before, "{}"@);
            let done = Ok::<String, HooksError>(owned.after);
            let after = hook_effects::law_adding_hooks(input, command, done);
            let hooks = jsonc::jsonc_tree(jsonc::jsonc_parsed(input)->Ok_0).child("hooks"@);
            let one = Some(hook_effects::entry(command));
            assert forall|event: Seq<char>| #[trigger] hook_effects::names_event(event) implies {
                let list = jsonc::jsonc_tree(after).child("hooks"@).child(event);
                list is List && list->List_0.contains(one)
            } by {
                let list = jsonc::jsonc_tree(after).child("hooks"@).child(event)->List_0;
                if !hooks.has(event) {
                    assert(list[0] == one);
                } else if !hooks.child(event)->List_0.contains(one) {
                    assert(list.last() == one);
                }
            }
            Some(after)
        },
        Err(_) => None,
    }
}

/// The hooks run the program that agents call, quoted for the shell, as a hook.
pub proof fn law_what_the_hooks_run(config: Seq<char>)
    ensures
        setup::hook_command(config) == shell::quoted(
            paths::joined_path(config, "herdr-progress"@),
        ) + " hook"@,
{
}

/// The script that agents call sets both directories, quoted for the shell, and runs the installed program
/// with all its arguments.
pub proof fn law_what_the_script_does(config: Seq<char>, state: Seq<char>)
    ensures
        ({
            let script = setup::launcher_text(config, state);
            let binary = paths::joined_path(config, "herdr-progress-bin"@);
            &&& text::occurs(
                script,
                "#!/bin/sh\nexport HERDR_PLUGIN_CONFIG_DIR="@ + shell::quoted(config),
            )
            &&& text::occurs(
                script,
                "\nexport HERDR_PLUGIN_STATE_DIR="@ + shell::quoted(state),
            )
            &&& text::occurs(script, "\nexec "@ + shell::quoted(binary) + " \"$@\"\n"@)
        }),
{
    let binary = paths::joined_path(config, "herdr-progress-bin"@);
    let a = "#!/bin/sh\nexport HERDR_PLUGIN_CONFIG_DIR="@ + shell::quoted(config);
    let b = "\nexport HERDR_PLUGIN_STATE_DIR="@ + shell::quoted(state);
    let c = "\nexec "@ + shell::quoted(binary) + " \"$@\"\n"@;
    let script = setup::launcher_text(config, state);
    assert(script =~= a + b + c);
    assert(Seq::<char>::empty() + a =~= a);
    hooks_laws::lemma_occurs(Seq::empty(), a, a);
    hooks_laws::lemma_occurs(a, b, a);
    hooks_laws::lemma_occurs(a + b, c, a);
    hooks_laws::lemma_occurs(a + b, c, b);
}

/// Which files are edited: those that the user names; else, for the sidebar, the one that the environment
/// names, and else the usual ones in the directory of configurations.
pub proof fn law_which_files_are_edited(options: Configure, env: Environment)
    ensures
        options.herdr_config is Some ==> setup::sidebar_target(options, env)
            == options.herdr_config->0@,
        options.herdr_config is None && env.config_path is Some ==> setup::sidebar_target(
            options,
            env,
        ) == env.config_path->0@,
        options.herdr_config is None && env.config_path is None && env.config_home is Some
            ==> setup::sidebar_target(options, env) == paths::joined_path(
            env.config_home->0@,
            "herdr/config.toml"@,
        ),
        options.devin_config is Some ==> setup::hooks_target(options, env)
            == options.devin_config->0@,
        options.devin_config is None && env.config_home is Some ==> setup::hooks_target(options, env)
            == paths::joined_path(env.config_home->0@, "devin/config.json"@),
        options.devin_config is None && env.config_home is None && env.home is Some
            ==> setup::hooks_target(options, env) == paths::joined_path(
            paths::joined_path(env.home->0@, ".config"@),
            "devin/config.json"@,
        ),
{
}

} // verus!
