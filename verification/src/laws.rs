//! Properties that hold across the operations on the store and the paths it
//! uses.

use vstd::prelude::*;
use vstd::utf8::{decode_utf8, encode_utf8, encode_utf8_decode_utf8, encode_utf8_valid_utf8, valid_utf8};
use crate::config::{ConfigView, EntryView};
use crate::paths::{
    default_alias_bytes, is_plain_component, joined, lemma_file_name_of_join,
    stored_path_spec,
};

verus! {

/// A profile that is created reads back as it was given: its files, and its
/// hook commands.
pub proof fn lemma_created_profile_reads_back(
    c: ConfigView,
    name: Seq<char>,
    entries: Seq<EntryView>,
    cmds: Seq<Seq<char>>,
)
    ensures
        c.created(name, entries, cmds).profiles[name] == entries,
        c.created(name, entries, cmds).profiles.contains_key(name),
        cmds.len() > 0 ==> c.created(name, entries, cmds).hook_commands(name) == cmds,
{
}

/// Deleting a profile that was just created gives back the store as it was
/// before, where the name was free (no profile, no hooks, not active).
pub proof fn lemma_delete_undoes_create(
    c: ConfigView,
    name: Seq<char>,
    entries: Seq<EntryView>,
    cmds: Seq<Seq<char>>,
)
    requires
        !c.profiles.contains_key(name),
        !c.hooks.contains_key(name),
        c.active != Some(name),
    ensures
        c.created(name, entries, cmds).deleted(name) == c,
{
    assert(c.created(name, entries, cmds).deleted(name).profiles =~= c.profiles);
    assert(c.created(name, entries, cmds).deleted(name).hooks =~= c.hooks);
}

/// Renaming a profile and then renaming it back gives back the store as it
/// was, where the new name was free (no profile, no hooks, not recorded as
/// active).
pub proof fn lemma_rename_round_trip(c: ConfigView, a: Seq<char>, b: Seq<char>)
    requires
        c.profiles.contains_key(a),
        !c.profiles.contains_key(b),
        !c.hooks.contains_key(b),
        c.active != Some(b),
        a != b,
    ensures
        c.renamed(a, b).renamed(b, a) == c,
{
    let d = c.renamed(a, b);
    assert(d.renamed(b, a).profiles =~= c.profiles);
    assert(d.renamed(b, a).hooks =~= c.hooks);
}

/// Deleting a copy that was just made gives back the store as it was, where
/// the copy's name was free (no profile, no hooks, not active).
pub proof fn lemma_delete_undoes_copy(c: ConfigView, from: Seq<char>, to: Seq<char>)
    requires
        c.profiles.contains_key(from),
        !c.profiles.contains_key(to),
        !c.hooks.contains_key(to),
        c.active != Some(to),
    ensures
        c.copied(from, to).deleted(to) == c,
{
    assert(c.copied(from, to).deleted(to).profiles =~= c.profiles);
    assert(c.copied(from, to).deleted(to).hooks =~= c.hooks);
}

/// A copy leaves the profile it was made from as it was, and has the same
/// files and hook commands.
pub proof fn lemma_copy_keeps_source(c: ConfigView, from: Seq<char>, to: Seq<char>)
    requires
        c.profiles.contains_key(from),
        from != to,
    ensures
        c.copied(from, to).profiles[from] == c.profiles[from],
        c.copied(from, to).profiles[to] == c.profiles[from],
        c.copied(from, to).hook_commands(from) == c.hook_commands(from),
        c.copied(from, to).hook_commands(to) == c.hook_commands(from),
{
}

/// Restoring after applying leaves no profile active and the profiles and
/// hooks as they were.
pub proof fn lemma_restore_after_apply(c: ConfigView, name: Seq<char>)
    ensures
        c.activated(name).deactivated() == c.deactivated(),
        c.activated(name).deactivated().active is None,
{
}

/// Every operation keeps the active profile, if any, among the profiles:
/// applying, creating, deleting, renaming, copying, restoring and editing a
/// profile's files or hooks.
pub proof fn lemma_active_stays_known(
    c: ConfigView,
    name: Seq<char>,
    other: Seq<char>,
    entries: Seq<EntryView>,
    cmds: Seq<Seq<char>>,
    hooks: Option<Seq<Seq<char>>>,
)
    requires
        c.active_is_known(),
    ensures
        c.profiles.contains_key(name) ==> c.activated(name).active_is_known(),
        c.created(name, entries, cmds).active_is_known(),
        c.deleted(name).active_is_known(),
        c.profiles.contains_key(name) ==> c.renamed(name, other).active_is_known(),
        c.profiles.contains_key(name) ==> c.copied(name, other).active_is_known(),
        c.deactivated().active_is_known(),
        c.profiles.contains_key(name) ==> c.with_entries(name, entries).active_is_known(),
        c.with_hooks(name, hooks).active_is_known(),
{
}

/// The stored copy of a file is named by its alias: the final component of
/// its path is the alias's bytes, where those form a plain name.
pub proof fn lemma_stored_copy_named_by_alias(
    profiles_dir: Seq<u8>,
    profile: Seq<u8>,
    alias: Seq<u8>,
)
    requires
        is_plain_component(alias),
    ensures
        default_alias_bytes(stored_path_spec(profiles_dir, profile, alias)) == alias,
{
    lemma_file_name_of_join(joined(profiles_dir, profile), alias);
}

/// The alias suggested for a stored copy is the alias it was stored under:
/// the final component of the stored path is the alias's UTF-8 bytes, which
/// are valid UTF-8 and read back as the alias (so `default_alias` gives the
/// alias back).
pub proof fn lemma_stored_copy_alias_text(profiles_dir: Seq<u8>, profile: Seq<char>, alias: Seq<char>)
    requires
        is_plain_component(encode_utf8(alias)),
    ensures
        default_alias_bytes(stored_path_spec(profiles_dir, encode_utf8(profile), encode_utf8(alias)))
            == encode_utf8(alias),
        valid_utf8(encode_utf8(alias)),
        decode_utf8(encode_utf8(alias)) == alias,
{
    lemma_stored_copy_named_by_alias(profiles_dir, encode_utf8(profile), encode_utf8(alias));
    encode_utf8_valid_utf8(alias);
    encode_utf8_decode_utf8(alias);
}

/// Applying a profile makes it the active profile, whatever was active
/// before (the same profile included), and leaves every profile's files and
/// hooks as they were; applying it again changes nothing more.
pub proof fn lemma_apply_makes_active(c: ConfigView, name: Seq<char>)
    ensures
        c.activated(name).active == Some(name),
        c.activated(name).profiles == c.profiles,
        c.activated(name).hooks == c.hooks,
        c.activated(name).activated(name) == c.activated(name),
{
}

/// The commands that applying a profile runs are the stored list itself:
/// the same commands in the order they were entered. Right after a profile
/// is created with commands, applying it runs exactly those commands.
pub proof fn lemma_apply_runs_stored_hooks(
    c: ConfigView,
    name: Seq<char>,
    entries: Seq<EntryView>,
    cmds: Seq<Seq<char>>,
)
    ensures
        c.hooks.contains_key(name) ==> c.post_apply(name) == c.hooks[name],
        !c.hooks.contains_key(name) ==> c.post_apply(name) is None,
        cmds.len() > 0 ==> c.created(name, entries, cmds).post_apply(name) == Some(cmds),
        cmds.len() > 0 ==> c.created(name, entries, cmds).hooks[name] == Some(cmds),
        c.created(name, entries, cmds).profiles[name] == entries,
{
}

/// The commands listed for a profile are its stored list, or none where it
/// has no list.
pub proof fn lemma_hook_commands_are_stored_list(c: ConfigView, name: Seq<char>)
    ensures
        c.hooks.contains_key(name) && c.hooks[name] is Some ==> c.hook_commands(name)
            == c.hooks[name]->Some_0,
        !(c.hooks.contains_key(name) && c.hooks[name] is Some) ==> c.hook_commands(name).len() == 0,
{
}

/// Adding files to a profile keeps its files and puts every added one after
/// them, in order, with none dropped; no other profile, no hooks and the
/// active profile change.
pub proof fn lemma_adding_files_appends(c: ConfigView, name: Seq<char>, added: Seq<EntryView>)
    requires
        c.profiles.contains_key(name),
    ensures
        ({
            let old_files = c.profiles[name];
            let d = c.with_entries(name, old_files + added);
            &&& d.profiles.contains_key(name)
            &&& d.profiles[name].len() == old_files.len() + added.len()
            &&& forall|i: int| 0 <= i < old_files.len() ==> #[trigger] d.profiles[name][i] == old_files[i]
            &&& forall|j: int| 0 <= j < added.len() ==> d.profiles[name][old_files.len() + j]
                == #[trigger] added[j]
            &&& forall|k: Seq<char>| k != name ==> (#[trigger] d.profiles.contains_key(k)
                == c.profiles.contains_key(k))
            &&& forall|k: Seq<char>| k != name && #[trigger] c.profiles.contains_key(k) ==> d.profiles[k]
                == c.profiles[k]
            &&& d.hooks == c.hooks
            &&& d.active == c.active
        }),
{
}

/// Removing the file at position `i` of a profile keeps all its other files
/// in order and changes nothing else.
pub proof fn lemma_removing_file_keeps_others(c: ConfigView, name: Seq<char>, i: int)
    requires
        c.profiles.contains_key(name),
        0 <= i < c.profiles[name].len(),
    ensures
        ({
            let old_files = c.profiles[name];
            let d = c.with_entries(name, old_files.remove(i));
            &&& d.profiles[name].len() + 1 == old_files.len()
            &&& forall|j: int| 0 <= j < i ==> #[trigger] d.profiles[name][j] == old_files[j]
            &&& forall|j: int| i <= j < old_files.len() - 1 ==> #[trigger] d.profiles[name][j]
                == old_files[j + 1]
            &&& forall|k: Seq<char>| k != name ==> (#[trigger] d.profiles.contains_key(k)
                == c.profiles.contains_key(k))
            &&& forall|k: Seq<char>| k != name && #[trigger] c.profiles.contains_key(k) ==> d.profiles[k]
                == c.profiles[k]
            &&& d.hooks == c.hooks
            &&& d.active == c.active
        }),
{
}

/// Adding a hook command keeps the profile's commands and puts the new one
/// last; no other profile's hooks, no files and the active profile change.
pub proof fn lemma_adding_hook_appends(c: ConfigView, name: Seq<char>, cmd: Seq<char>)
    ensures
        ({
            let before = c.hook_commands(name);
            let d = c.with_hooks(name, Some(before.push(cmd)));
            &&& d.hooks.contains_key(name)
            &&& d.hook_commands(name).len() == before.len() + 1
            &&& d.hook_commands(name)[before.len() as int] == cmd
            &&& forall|i: int| 0 <= i < before.len() ==> #[trigger] d.hook_commands(name)[i]
                == before[i]
            &&& forall|k: Seq<char>| k != name ==> (#[trigger] d.hooks.contains_key(k)
                == c.hooks.contains_key(k))
            &&& forall|k: Seq<char>| k != name && #[trigger] c.hooks.contains_key(k) ==> d.hooks[k]
                == c.hooks[k]
            &&& d.profiles == c.profiles
            &&& d.active == c.active
        }),
{
}

/// Removing the hook command at position `i` keeps the profile's other
/// commands in order and changes nothing else.
pub proof fn lemma_removing_hook_keeps_others(c: ConfigView, name: Seq<char>, i: int)
    requires
        0 <= i < c.hook_commands(name).len(),
    ensures
        ({
            let before = c.hook_commands(name);
            let d = c.with_hooks(name, Some(before.remove(i)));
            &&& d.hook_commands(name).len() + 1 == before.len()
            &&& forall|j: int| 0 <= j < i ==> #[trigger] d.hook_commands(name)[j] == before[j]
            &&& forall|j: int| i <= j < before.len() - 1 ==> #[trigger] d.hook_commands(name)[j]
                == before[j + 1]
            &&& forall|k: Seq<char>| k != name ==> (#[trigger] d.hooks.contains_key(k)
                == c.hooks.contains_key(k))
            &&& forall|k: Seq<char>| k != name && #[trigger] c.hooks.contains_key(k) ==> d.hooks[k]
                == c.hooks[k]
            &&& d.profiles == c.profiles
            &&& d.active == c.active
        }),
{
}

/// Deleting a profile removes it and its hooks and nothing else: every other
/// profile keeps its files and hooks, whether or not the deleted one was
/// active; the active profile is cleared only where it was the deleted one.
pub proof fn lemma_delete_keeps_others(c: ConfigView, name: Seq<char>)
    ensures
        !c.deleted(name).profiles.contains_key(name),
        !c.deleted(name).hooks.contains_key(name),
        forall|k: Seq<char>| k != name ==> (#[trigger] c.deleted(name).profiles.contains_key(k)
            == c.profiles.contains_key(k)),
        forall|k: Seq<char>| k != name && #[trigger] c.profiles.contains_key(k) ==> c.deleted(
            name,
        ).profiles[k] == c.profiles[k],
        forall|k: Seq<char>| k != name ==> (#[trigger] c.deleted(name).hooks.contains_key(k)
            == c.hooks.contains_key(k)),
        forall|k: Seq<char>| k != name && #[trigger] c.hooks.contains_key(k) ==> c.deleted(
            name,
        ).hooks[k] == c.hooks[k],
        c.active == Some(name) ==> c.deleted(name).active is None,
        c.active != Some(name) ==> c.deleted(name).active == c.active,
{
}

/// Creating a profile adds it with exactly the given files (and the given
/// commands, where there are any) and touches no other profile, no other
/// profile's hooks, and not the active profile.
pub proof fn lemma_create_adds_only_that_profile(
    c: ConfigView,
    name: Seq<char>,
    entries: Seq<EntryView>,
    cmds: Seq<Seq<char>>,
)
    ensures
        ({
            let d = c.created(name, entries, cmds);
            &&& d.profiles.contains_key(name) && d.profiles[name] == entries
            &&& cmds.len() > 0 ==> d.hook_commands(name) == cmds
            &&& forall|k: Seq<char>| k != name ==> (#[trigger] d.profiles.contains_key(k)
                == c.profiles.contains_key(k))
            &&& forall|k: Seq<char>| k != name && #[trigger] c.profiles.contains_key(k) ==> d.profiles[k]
                == c.profiles[k]
            &&& forall|k: Seq<char>| k != name ==> (#[trigger] d.hooks.contains_key(k)
                == c.hooks.contains_key(k))
            &&& forall|k: Seq<char>| k != name && #[trigger] c.hooks.contains_key(k) ==> d.hooks[k]
                == c.hooks[k]
            &&& d.active == c.active
        }),
{
}

/// Renaming moves a profile's files and hooks to the new name, leaves every
/// other profile as it was, and moves the active mark with it.
pub proof fn lemma_rename_moves_profile(c: ConfigView, from: Seq<char>, to: Seq<char>)
    requires
        c.profiles.contains_key(from),
        from != to,
    ensures
        ({
            let d = c.renamed(from, to);
            &&& !d.profiles.contains_key(from)
            &&& d.profiles.contains_key(to) && d.profiles[to] == c.profiles[from]
            &&& c.hooks.contains_key(from) ==> !d.hooks.contains_key(from) && d.hooks.contains_key(to)
                && d.hooks[to] == c.hooks[from]
            &&& d.hook_commands(to) == c.hook_commands(from) || !c.hooks.contains_key(from)
            &&& forall|k: Seq<char>| k != from && k != to ==> (#[trigger] d.profiles.contains_key(k)
                == c.profiles.contains_key(k))
            &&& forall|k: Seq<char>| k != from && k != to && #[trigger] c.profiles.contains_key(k)
                ==> d.profiles[k] == c.profiles[k]
            &&& c.active == Some(from) ==> d.active == Some(to)
            &&& c.active != Some(from) ==> d.active == c.active
        }),
{
}

/// Copying adds the new profile with the source's files and hooks and leaves
/// the source and every other profile as they were.
pub proof fn lemma_copy_adds_only_the_copy(c: ConfigView, from: Seq<char>, to: Seq<char>)
    requires
        c.profiles.contains_key(from),
        from != to,
    ensures
        ({
            let d = c.copied(from, to);
            &&& d.profiles.contains_key(to) && d.profiles[to] == c.profiles[from]
            &&& d.post_apply(to) == c.post_apply(from)
            &&& forall|k: Seq<char>| k != to ==> (#[trigger] d.profiles.contains_key(k)
                == c.profiles.contains_key(k))
            &&& forall|k: Seq<char>| k != to && #[trigger] c.profiles.contains_key(k) ==> d.profiles[k]
                == c.profiles[k]
            &&& forall|k: Seq<char>| k != to && #[trigger] c.hooks.contains_key(k) ==> d.hooks[k]
                == c.hooks[k]
            &&& d.active == c.active
        }),
{
}

/// Restoring leaves no profile active and every profile's files and hooks as
/// they were.
pub proof fn lemma_restore_clears_only_active(c: ConfigView)
    ensures
        c.deactivated().active is None,
        c.deactivated().profiles == c.profiles,
        c.deactivated().hooks == c.hooks,
{
}

} // verus!
