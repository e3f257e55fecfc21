//! The commands on profiles: what each one decides and how it changes the
//! store. Reading and writing files, prompting and printing are left to the
//! caller, which hands in what the user typed and performs the steps that
//! come back.

use vstd::prelude::*;
use vstd::string::*;
use crate::config::{Config, EntryView, ProfileEntry, ProfileHooks, copy_entries, copy_hooks};
use crate::error::ProfileError;
use crate::paths::{lossy_text, path_text};
use crate::text::{trim, parse_usize, trimmed, denotes_usize, decimal_value, unsigned_digits};

verus! {

/// `Ok` where the store has a profile `name`; `NoSuchProfile` otherwise.
pub fn require_profile(cfg: &Config, name: &str) -> (r: Result<(), ProfileError>)
    ensures
        match r {
            Ok(_) => cfg@.profiles.contains_key(name@),
            Err(e) => !cfg@.profiles.contains_key(name@) && (e matches ProfileError::NoSuchProfile(n)
                && n@ == name@),
        },
{
    if cfg.profiles.contains_key(name) {
        Ok(())
    } else {
        Err(ProfileError::NoSuchProfile(name.to_owned()))
    }
}

/// `Ok` where the store has no profile `name`; `AlreadyExists` otherwise.
pub fn require_no_profile(cfg: &Config, name: &str) -> (r: Result<(), ProfileError>)
    ensures
        match r {
            Ok(_) => !cfg@.profiles.contains_key(name@),
            Err(e) => cfg@.profiles.contains_key(name@) && (e matches ProfileError::AlreadyExists(n)
                && n@ == name@),
        },
{
    if cfg.profiles.contains_key(name) {
        Err(ProfileError::AlreadyExists(name.to_owned()))
    } else {
        Ok(())
    }
}

// ---------------------------------------------------------------------------
// new

/// The alias a file is stored under: what the user typed, or the suggested
/// one where the user typed nothing.
pub fn resolve_alias(typed: &str, suggested: String) -> (r: String)
    ensures
        r@ == if typed@.len() == 0 {
            suggested@
        } else {
            typed@
        },
{
    if typed.unicode_len() == 0 {
        suggested
    } else {
        typed.to_owned()
    }
}

/// The entry for a file added to a profile: the file's path as text (bytes
/// that are not valid UTF-8 replaced), stored under the alias the user typed,
/// or under the suggested one where the user typed nothing.
pub fn new_entry(path: &[u8], typed_alias: &str, suggested: String) -> (r: ProfileEntry)
    ensures
        r.original@ == lossy_text(path@),
        r.alias@ == if typed_alias@.len() == 0 {
            suggested@
        } else {
            typed_alias@
        },
{
    ProfileEntry { original: path_text(path), alias: resolve_alias(typed_alias, suggested) }
}

/// Saves the profile `name` with the files `entries` and the hook commands
/// `hooks`. A name that is taken is refused and the store is left as it was;
/// a profile without files is not saved (`Ok(false)`). Hooks are recorded only
/// where there is at least one command.
pub fn create(cfg: &mut Config, name: &str, entries: Vec<ProfileEntry>, hooks: Vec<String>) -> (r:
    Result<bool, ProfileError>)
    ensures
        old(cfg)@.profiles.contains_key(name@) ==> {
            &&& final(cfg)@ == old(cfg)@
            &&& r matches Err(e) && (e matches ProfileError::AlreadyExists(n) && n@ == name@)
        },
        !old(cfg)@.profiles.contains_key(name@) && entries.len() == 0 ==> {
            &&& final(cfg)@ == old(cfg)@
            &&& r matches Ok(saved) && !saved
        },
        !old(cfg)@.profiles.contains_key(name@) && entries.len() > 0 ==> {
            &&& final(cfg)@ == old(cfg)@.created(name@, entries.deep_view(), hooks.deep_view())
            &&& final(cfg)@.profiles == old(cfg)@.profiles.insert(name@, entries.deep_view())
            &&& hooks.len() > 0 ==> final(cfg)@.hooks == old(cfg)@.hooks.insert(
                name@,
                Some(hooks.deep_view()),
            )
            &&& hooks.len() == 0 ==> final(cfg)@.hooks == old(cfg)@.hooks
            &&& final(cfg)@.active == old(cfg)@.active
            &&& r matches Ok(saved) && saved
        },
{
    if cfg.profiles.contains_key(name) {
        return Err(ProfileError::AlreadyExists(name.to_owned()));
    }
    if entries.len() == 0 {
        return Ok(false);
    }
    let has_hooks = hooks.len() > 0;
    cfg.profiles.insert(name.to_owned(), entries);
    if has_hooks {
        cfg.hooks.insert(name.to_owned(), ProfileHooks { post_apply: Some(hooks) });
    } else {
        assert(hooks.deep_view().len() == 0);
    }
    Ok(true)
}

// ---------------------------------------------------------------------------
// apply

/// What applying a profile links into place and runs afterwards.
pub struct ApplyPlan {
    /// The files to link, in the profile's order.
    pub entries: Vec<ProfileEntry>,
    /// The profile's list of commands to run once the files are linked, if
    /// it has one.
    pub hooks: Option<Vec<String>>,
}

/// Makes `name` the active profile and returns its files and hook commands.
/// An unknown name is refused and the store is left as it was.
pub fn apply(cfg: &mut Config, name: &str) -> (r: Result<ApplyPlan, ProfileError>)
    ensures
        match r {
            Ok(plan) => {
                &&& old(cfg)@.profiles.contains_key(name@)
                &&& final(cfg)@ == old(cfg)@.activated(name@)
                &&& final(cfg)@.active == Some(name@)
                &&& final(cfg)@.profiles == old(cfg)@.profiles
                &&& final(cfg)@.hooks == old(cfg)@.hooks
                &&& plan.entries.deep_view() == old(cfg)@.profiles[name@]
                &&& plan.hooks.deep_view() == old(cfg)@.post_apply(name@)
                &&& old(cfg)@.hooks.contains_key(name@) ==> plan.hooks.deep_view()
                    == old(cfg)@.hooks[name@]
                &&& !old(cfg)@.hooks.contains_key(name@) ==> plan.hooks is None
            },
            Err(e) => {
                &&& !old(cfg)@.profiles.contains_key(name@)
                &&& final(cfg)@ == old(cfg)@
                &&& e matches ProfileError::NoSuchProfile(n) && n@ == name@
            },
        },
{
    let entries = match cfg.profiles.get(name) {
        Some(v) => copy_entries(v),
        None => {
            return Err(ProfileError::NoSuchProfile(name.to_owned()));
        },
    };
    let hooks = cfg.post_apply(name);
    cfg.active = Some(name.to_owned());
    Ok(ApplyPlan { entries, hooks })
}

/// What to do for one file of a profile that is being applied (its stored
/// copy is linked into place) or restored (its stored copy is copied back).
#[derive(Debug, PartialEq, Eq, Structural)]
pub enum LinkStep {
    /// The stored copy is missing: the file is passed over.
    SkipMissingCopy,
    /// Put the stored copy in place, first removing what is there where
    /// `replace_existing` holds.
    Link { replace_existing: bool },
}

/// The step for one file, given whether its stored copy exists and whether
/// something (a file or a link) is at its original place.
pub fn link_step(stored_exists: bool, original_present: bool) -> (r: LinkStep)
    ensures
        !stored_exists ==> r == LinkStep::SkipMissingCopy,
        stored_exists ==> r == (LinkStep::Link { replace_existing: original_present }),
{
    if !stored_exists {
        LinkStep::SkipMissingCopy
    } else {
        LinkStep::Link { replace_existing: original_present }
    }
}

// ---------------------------------------------------------------------------
// restore

/// What restoring puts back.
pub struct RestorePlan {
    /// The profile that was active.
    pub name: String,
    /// Its files, whose stored copies go back to their original places.
    pub entries: Vec<ProfileEntry>,
}

/// Leaves no profile active and returns the files of the one that was, if
/// any; where the active name has no profile, there are no files.
pub fn restore(cfg: &mut Config) -> (r: Option<RestorePlan>)
    ensures
        match r {
            Some(plan) => {
                &&& old(cfg)@.active == Some(plan.name@)
                &&& final(cfg)@ == old(cfg)@.deactivated()
                &&& final(cfg)@.active is None
                &&& final(cfg)@.profiles == old(cfg)@.profiles
                &&& final(cfg)@.hooks == old(cfg)@.hooks
                &&& plan.entries.deep_view() == if old(cfg)@.profiles.contains_key(plan.name@) {
                    old(cfg)@.profiles[plan.name@]
                } else {
                    Seq::empty()
                }
            },
            None => old(cfg)@.active is None && final(cfg)@ == old(cfg)@,
        },
{
    let name = match &cfg.active {
        Some(a) => a.clone(),
        None => {
            return None;
        },
    };
    let entries = match cfg.profiles.get(name.as_str()) {
        Some(v) => copy_entries(v),
        None => {
            let v: Vec<ProfileEntry> = Vec::new();
            assert(v.deep_view() =~= Seq::<EntryView>::empty());
            v
        },
    };
    cfg.active = None;
    Some(RestorePlan { name, entries })
}

// ---------------------------------------------------------------------------
// copy

/// Adds the profile `to` with the files and hooks of `from`. An unknown
/// `from` or a taken `to` is refused and the store is left as it was.
pub fn copy(cfg: &mut Config, from: &str, to: &str) -> (r: Result<(), ProfileError>)
    ensures
        !old(cfg)@.profiles.contains_key(from@) ==> {
            &&& final(cfg)@ == old(cfg)@
            &&& r matches Err(e) && (e matches ProfileError::NoSuchProfile(n) && n@ == from@)
        },
        old(cfg)@.profiles.contains_key(from@) && old(cfg)@.profiles.contains_key(to@) ==> {
            &&& final(cfg)@ == old(cfg)@
            &&& r matches Err(e) && (e matches ProfileError::AlreadyExists(n) && n@ == to@)
        },
        old(cfg)@.profiles.contains_key(from@) && !old(cfg)@.profiles.contains_key(to@) ==> {
            &&& final(cfg)@ == old(cfg)@.copied(from@, to@)
            &&& final(cfg)@.profiles == old(cfg)@.profiles.insert(to@, old(cfg)@.profiles[from@])
            &&& old(cfg)@.hooks.contains_key(from@) ==> final(cfg)@.hooks == old(cfg)@.hooks.insert(
                to@,
                old(cfg)@.hooks[from@],
            )
            &&& !old(cfg)@.hooks.contains_key(from@) ==> final(cfg)@.hooks == old(cfg)@.hooks.remove(
                to@,
            )
            &&& final(cfg)@.active == old(cfg)@.active
            &&& r is Ok
        },
{
    let entries = match cfg.profiles.get(from) {
        Some(v) => copy_entries(v),
        None => {
            return Err(ProfileError::NoSuchProfile(from.to_owned()));
        },
    };
    if cfg.profiles.contains_key(to) {
        return Err(ProfileError::AlreadyExists(to.to_owned()));
    }
    let hooks = match cfg.hooks.get(from) {
        Some(h) => Some(copy_hooks(h)),
        None => None,
    };
    cfg.profiles.insert(to.to_owned(), entries);
    match hooks {
        Some(h) => {
            cfg.hooks.insert(to.to_owned(), h);
        },
        None => {
            let _ = cfg.hooks.remove(to);
        },
    }
    Ok(())
}

// ---------------------------------------------------------------------------
// delete

/// Whether the answer to "delete?" says yes: `y` in either case.
pub fn confirms_deletion(answer: &str) -> (r: bool)
    ensures
        r == (answer@ == seq!['y'] || answer@ == seq!['Y']),
{
    if answer.unicode_len() == 1 {
        let c = answer.get_char(0);
        assert(answer@ =~= seq![c]);
        c == 'y' || c == 'Y'
    } else {
        false
    }
}

/// Removes the profile `name` and its hooks; where it was active, no profile
/// is active afterwards. An unknown name is refused and the store is left as
/// it was.
pub fn delete(cfg: &mut Config, name: &str) -> (r: Result<(), ProfileError>)
    ensures
        match r {
            Ok(_) => {
                &&& old(cfg)@.profiles.contains_key(name@)
                &&& final(cfg)@ == old(cfg)@.deleted(name@)
                &&& final(cfg)@.profiles == old(cfg)@.profiles.remove(name@)
                &&& final(cfg)@.hooks == old(cfg)@.hooks.remove(name@)
                &&& final(cfg)@.active == if old(cfg)@.active == Some(name@) {
                    None
                } else {
                    old(cfg)@.active
                }
            },
            Err(e) => {
                &&& !old(cfg)@.profiles.contains_key(name@)
                &&& final(cfg)@ == old(cfg)@
                &&& e matches ProfileError::NoSuchProfile(n) && n@ == name@
            },
        },
{
    if !cfg.profiles.contains_key(name) {
        return Err(ProfileError::NoSuchProfile(name.to_owned()));
    }
    let _ = cfg.profiles.remove(name);
    let _ = cfg.hooks.remove(name);
    let key = name.to_owned();
    let was_active = match &cfg.active {
        Some(a) => *a == key,
        None => false,
    };
    if was_active {
        cfg.active = None;
    }
    Ok(())
}

// ---------------------------------------------------------------------------
// edit

/// An entry of the edit menu.
#[derive(Debug, PartialEq, Eq, Structural)]
pub enum EditChoice {
    /// `1`: add files.
    AddFile,
    /// `2`: remove a file.
    RemoveFile,
    /// `3`: rename the profile.
    Rename,
    /// `4`: manage the hooks.
    Hooks,
    /// `q`, or nothing: leave the menu.
    Quit,
    /// Anything else.
    Unknown,
}

/// The menu entry that the input `s` picks.
pub open spec fn edit_choice_spec(s: Seq<char>) -> EditChoice {
    if s == seq!['1'] {
        EditChoice::AddFile
    } else if s == seq!['2'] {
        EditChoice::RemoveFile
    } else if s == seq!['3'] {
        EditChoice::Rename
    } else if s == seq!['4'] {
        EditChoice::Hooks
    } else if s == seq!['q'] || s.len() == 0 {
        EditChoice::Quit
    } else {
        EditChoice::Unknown
    }
}

/// The menu entry that the input `input` picks.
pub fn edit_choice(input: &str) -> (r: EditChoice)
    ensures
        r == edit_choice_spec(input@),
{
    let n = input.unicode_len();
    if n == 0 {
        return EditChoice::Quit;
    }
    if n > 1 {
        assert(input@ != seq!['1'] && input@ != seq!['2'] && input@ != seq!['3']);
        assert(input@ != seq!['4'] && input@ != seq!['q']);
        return EditChoice::Unknown;
    }
    let c = input.get_char(0);
    assert(input@ =~= seq![c]);
    if c == '1' {
        EditChoice::AddFile
    } else if c == '2' {
        EditChoice::RemoveFile
    } else if c == '3' {
        EditChoice::Rename
    } else if c == '4' {
        EditChoice::Hooks
    } else if c == 'q' {
        EditChoice::Quit
    } else {
        EditChoice::Unknown
    }
}

/// Whether a line typed while entering a list (of files, or of hook
/// commands) ends the list: an empty line does.
pub fn ends_list(input: &str) -> (r: bool)
    ensures
        r == (input@.len() == 0),
{
    input.unicode_len() == 0
}

/// Whether the edit menu is left after the entry `choice`: after quitting,
/// and after a rename that went through (`renamed`); otherwise the menu is
/// shown again.
pub fn leaves_edit_menu(choice: &EditChoice, renamed: bool) -> (r: bool)
    ensures
        r == (*choice == EditChoice::Quit || (*choice == EditChoice::Rename && renamed)),
{
    match choice {
        EditChoice::Quit => true,
        EditChoice::Rename => renamed,
        _ => false,
    }
}

/// Appends `added` to the files of the profile `name`. An unknown name is
/// refused and the store is left as it was.
pub fn add_entries(cfg: &mut Config, name: &str, added: Vec<ProfileEntry>) -> (r: Result<(), ProfileError>)
    ensures
        match r {
            Ok(_) => {
                &&& old(cfg)@.profiles.contains_key(name@)
                &&& final(cfg)@ == old(cfg)@.with_entries(
                    name@,
                    old(cfg)@.profiles[name@] + added.deep_view(),
                )
                &&& final(cfg)@.profiles == old(cfg)@.profiles.insert(
                    name@,
                    old(cfg)@.profiles[name@] + added.deep_view(),
                )
                &&& final(cfg)@.profiles[name@].len() == old(cfg)@.profiles[name@].len()
                    + added.len()
                &&& final(cfg)@.hooks == old(cfg)@.hooks
                &&& final(cfg)@.active == old(cfg)@.active
            },
            Err(e) => {
                &&& !old(cfg)@.profiles.contains_key(name@)
                &&& final(cfg)@ == old(cfg)@
                &&& e matches ProfileError::NoSuchProfile(n) && n@ == name@
            },
        },
{
    let mut added = added;
    match cfg.profiles.remove(name) {
        None => Err(ProfileError::NoSuchProfile(name.to_owned())),
        Some(v) => {
            let mut v = v;
            let ghost before = v.deep_view();
            let ghost more = added.deep_view();
            v.append(&mut added);
            assert(v.deep_view() =~= before + more);
            cfg.profiles.insert(name.to_owned(), v);
            assert(old(cfg)@.profiles.remove(name@).insert(name@, before + more) =~= old(
                cfg,
            )@.profiles.insert(name@, before + more));
            Ok(())
        },
    }
}

/// Takes the `n`-th file (counting from 1) out of the profile `name`, where
/// there is one; another number leaves the store as it was. An unknown name
/// is refused and the store is left as it was.
pub fn remove_entry(cfg: &mut Config, name: &str, n: usize) -> (r: Result<Option<ProfileEntry>, ProfileError>)
    ensures
        match r {
            Ok(Some(e)) => {
                &&& old(cfg)@.profiles.contains_key(name@)
                &&& 1 <= n <= old(cfg)@.profiles[name@].len()
                &&& e.deep_view() == old(cfg)@.profiles[name@][n - 1]
                &&& final(cfg)@ == old(cfg)@.with_entries(
                    name@,
                    old(cfg)@.profiles[name@].remove(n - 1),
                )
                &&& final(cfg)@.profiles == old(cfg)@.profiles.insert(
                    name@,
                    old(cfg)@.profiles[name@].remove(n - 1),
                )
                &&& final(cfg)@.profiles[name@].len() + 1 == old(cfg)@.profiles[name@].len()
                &&& final(cfg)@.hooks == old(cfg)@.hooks
                &&& final(cfg)@.active == old(cfg)@.active
            },
            Ok(None) => {
                &&& old(cfg)@.profiles.contains_key(name@)
                &&& !(1 <= n <= old(cfg)@.profiles[name@].len())
                &&& final(cfg)@ == old(cfg)@
            },
            Err(e) => {
                &&& !old(cfg)@.profiles.contains_key(name@)
                &&& final(cfg)@ == old(cfg)@
                &&& e matches ProfileError::NoSuchProfile(k) && k@ == name@
            },
        },
{
    match cfg.profiles.remove(name) {
        None => Err(ProfileError::NoSuchProfile(name.to_owned())),
        Some(v) => {
            let mut v = v;
            let ghost before = v.deep_view();
            assert(old(cfg)@.profiles.remove(name@).insert(name@, before) =~= old(cfg)@.profiles);
            if 1 <= n && n <= v.len() {
                let e = v.remove(n - 1);
                assert(v.deep_view() =~= before.remove(n - 1));
                cfg.profiles.insert(name.to_owned(), v);
                assert(old(cfg)@.profiles.remove(name@).insert(name@, before.remove(n - 1))
                    =~= old(cfg)@.profiles.insert(name@, before.remove(n - 1)));
                Ok(Some(e))
            } else {
                cfg.profiles.insert(name.to_owned(), v);
                Ok(None)
            }
        },
    }
}

/// How a rename ended.
#[derive(Debug, PartialEq, Eq, Structural)]
pub enum RenameOutcome {
    /// The new name was empty or the same: nothing changed.
    Unchanged,
    /// Another profile has the new name: nothing changed.
    NameTaken,
    /// The profile now goes by the new name.
    Renamed,
}

/// Renames the profile `name` to `new_name`, with its files, its hooks and
/// its being active. An unknown name is refused and the store is left as it
/// was.
pub fn rename(cfg: &mut Config, name: &str, new_name: &str) -> (r: Result<RenameOutcome, ProfileError>)
    ensures
        match r {
            Ok(RenameOutcome::Unchanged) => {
                &&& old(cfg)@.profiles.contains_key(name@)
                &&& (new_name@.len() == 0 || new_name@ == name@)
                &&& final(cfg)@ == old(cfg)@
            },
            Ok(RenameOutcome::NameTaken) => {
                &&& old(cfg)@.profiles.contains_key(name@)
                &&& new_name@.len() > 0 && new_name@ != name@
                &&& old(cfg)@.profiles.contains_key(new_name@)
                &&& final(cfg)@ == old(cfg)@
            },
            Ok(RenameOutcome::Renamed) => {
                &&& old(cfg)@.profiles.contains_key(name@)
                &&& new_name@.len() > 0 && new_name@ != name@
                &&& !old(cfg)@.profiles.contains_key(new_name@)
                &&& final(cfg)@ == old(cfg)@.renamed(name@, new_name@)
                &&& final(cfg)@.profiles == old(cfg)@.profiles.remove(name@).insert(
                    new_name@,
                    old(cfg)@.profiles[name@],
                )
                &&& old(cfg)@.hooks.contains_key(name@) ==> final(cfg)@.hooks == old(
                    cfg,
                )@.hooks.remove(name@).insert(new_name@, old(cfg)@.hooks[name@])
                &&& !old(cfg)@.hooks.contains_key(name@) ==> final(cfg)@.hooks == old(cfg)@.hooks
                &&& final(cfg)@.active == if old(cfg)@.active == Some(name@) {
                    Some(new_name@)
                } else {
                    old(cfg)@.active
                }
            },
            Err(e) => {
                &&& !old(cfg)@.profiles.contains_key(name@)
                &&& final(cfg)@ == old(cfg)@
                &&& e matches ProfileError::NoSuchProfile(k) && k@ == name@
            },
        },
{
    if !cfg.profiles.contains_key(name) {
        return Err(ProfileError::NoSuchProfile(name.to_owned()));
    }
    let old_key = name.to_owned();
    let new_key = new_name.to_owned();
    if new_name.unicode_len() == 0 || new_key == old_key {
        return Ok(RenameOutcome::Unchanged);
    }
    if cfg.profiles.contains_key(new_name) {
        return Ok(RenameOutcome::NameTaken);
    }
    let entries = match cfg.profiles.remove(name) {
        Some(v) => v,
        None => {
            return Err(ProfileError::NoSuchProfile(old_key));
        },
    };
    let hooks = cfg.hooks.remove(name);
    cfg.profiles.insert(new_key.clone(), entries);
    match hooks {
        Some(h) => {
            cfg.hooks.insert(new_key.clone(), h);
        },
        None => {
            assert(old(cfg)@.hooks.remove(name@) =~= old(cfg)@.hooks);
        },
    }
    let was_active = match &cfg.active {
        Some(a) => *a == old_key,
        None => false,
    };
    if was_active {
        cfg.active = Some(new_key);
    }
    Ok(RenameOutcome::Renamed)
}

/// An action of the hooks menu.
#[derive(Debug, PartialEq, Eq, Structural)]
pub enum HookAction {
    /// `a`: add a command.
    Add,
    /// `c`: clear the commands.
    Clear,
    /// `r` and a number: remove the command with that number (from 1); a
    /// number that cannot be read counts as 0.
    Remove(usize),
    /// Anything else: nothing happens.
    Other,
}

/// The number after `r` in a remove action: the rest of the input, trimmed,
/// read as an unsigned number, or 0 where it is not one.
pub open spec fn removal_number(s: Seq<char>) -> int {
    let t = trimmed(s.drop_first());
    if denotes_usize(t) {
        decimal_value(unsigned_digits(t))
    } else {
        0
    }
}

/// The hooks-menu action that the input `s` picks.
pub open spec fn hook_action_spec(s: Seq<char>) -> HookAction {
    if s == seq!['a'] {
        HookAction::Add
    } else if s == seq!['c'] {
        HookAction::Clear
    } else if s.len() > 0 && s[0] == 'r' {
        HookAction::Remove(removal_number(s) as usize)
    } else {
        HookAction::Other
    }
}

/// The hooks-menu action that the input `input` picks.
pub fn hook_action(input: &str) -> (r: HookAction)
    ensures
        r == hook_action_spec(input@),
{
    let n = input.unicode_len();
    if n == 0 {
        return HookAction::Other;
    }
    let c = input.get_char(0);
    if n == 1 {
        assert(input@ =~= seq![c]);
    } else {
        assert(input@ != seq!['a'] && input@ != seq!['c']);
    }
    if n == 1 && c == 'a' {
        HookAction::Add
    } else if n == 1 && c == 'c' {
        HookAction::Clear
    } else if c == 'r' {
        let rest = input.substring_char(1, n);
        assert(rest@ =~= input@.drop_first());
        let t = trim(rest);
        match parse_usize(t.as_str()) {
            Some(k) => HookAction::Remove(k),
            None => HookAction::Remove(0),
        }
    } else {
        HookAction::Other
    }
}

/// Opens the hooks of the profile `name` for editing: an empty hooks record
/// is made where there is none. Returns the current commands.
pub fn open_hooks(cfg: &mut Config, name: &str) -> (r: Vec<String>)
    ensures
        r.deep_view() == old(cfg)@.hook_commands(name@),
        final(cfg)@ == if old(cfg)@.hooks.contains_key(name@) {
            old(cfg)@
        } else {
            old(cfg)@.with_hooks(name@, None)
        },
        old(cfg)@.hooks.contains_key(name@) ==> final(cfg)@.hooks == old(cfg)@.hooks,
        !old(cfg)@.hooks.contains_key(name@) ==> final(cfg)@.hooks == old(cfg)@.hooks.insert(
            name@,
            None,
        ),
        final(cfg)@.profiles == old(cfg)@.profiles,
        final(cfg)@.active == old(cfg)@.active,
{
    let r = cfg.hook_commands(name);
    if !cfg.hooks.contains_key(name) {
        cfg.hooks.insert(name.to_owned(), ProfileHooks { post_apply: None });
    }
    r
}

/// Adds `cmd` to the hook commands of `name`, unless it is empty. Returns
/// whether it was added.
pub fn add_hook(cfg: &mut Config, name: &str, cmd: String) -> (r: bool)
    ensures
        r == (cmd@.len() > 0),
        r ==> final(cfg)@ == old(cfg)@.with_hooks(
            name@,
            Some(old(cfg)@.hook_commands(name@).push(cmd@)),
        ),
        r ==> final(cfg)@.hooks == old(cfg)@.hooks.insert(
            name@,
            Some(old(cfg)@.hook_commands(name@).push(cmd@)),
        ),
        r ==> final(cfg)@.hook_commands(name@).len() == old(cfg)@.hook_commands(name@).len() + 1,
        r ==> final(cfg)@.hook_commands(name@).last() == cmd@,
        final(cfg)@.profiles == old(cfg)@.profiles,
        final(cfg)@.active == old(cfg)@.active,
        !r ==> final(cfg)@ == old(cfg)@,
{
    if cmd.as_str().unicode_len() == 0 {
        return false;
    }
    let mut cmds = cfg.hook_commands(name);
    let ghost before = cmds.deep_view();
    cmds.push(cmd);
    assert(cmds.deep_view() =~= before.push(cmd@));
    cfg.hooks.insert(name.to_owned(), ProfileHooks { post_apply: Some(cmds) });
    true
}

/// Clears the hook commands of `name`.
pub fn clear_hooks(cfg: &mut Config, name: &str)
    ensures
        final(cfg)@ == old(cfg)@.with_hooks(name@, None),
        final(cfg)@.hooks == old(cfg)@.hooks.insert(name@, None),
        final(cfg)@.profiles == old(cfg)@.profiles,
        final(cfg)@.active == old(cfg)@.active,
{
    cfg.hooks.insert(name.to_owned(), ProfileHooks { post_apply: None });
}

/// Removes the `n`-th hook command (counting from 1) of `name`, where there
/// is one, and returns it. Either way the profile is left with a list of
/// commands, empty where it had none.
pub fn remove_hook(cfg: &mut Config, name: &str, n: usize) -> (r: Option<String>)
    ensures
        ({
            let cmds = old(cfg)@.hook_commands(name@);
            match r {
                Some(c) => {
                    &&& 1 <= n <= cmds.len()
                    &&& c@ == cmds[n - 1]
                    &&& final(cfg)@ == old(cfg)@.with_hooks(name@, Some(cmds.remove(n - 1)))
                    &&& final(cfg)@.hooks == old(cfg)@.hooks.insert(name@, Some(cmds.remove(n - 1)))
                },
                None => {
                    &&& !(1 <= n <= cmds.len())
                    &&& final(cfg)@ == old(cfg)@.with_hooks(name@, Some(cmds))
                    &&& final(cfg)@.hooks == old(cfg)@.hooks.insert(name@, Some(cmds))
                },
            }
        }),
        final(cfg)@.profiles == old(cfg)@.profiles,
        final(cfg)@.active == old(cfg)@.active,
{
    let mut cmds = cfg.hook_commands(name);
    let ghost before = cmds.deep_view();
    if 1 <= n && n <= cmds.len() {
        let c = cmds.remove(n - 1);
        assert(cmds.deep_view() =~= before.remove(n - 1));
        cfg.hooks.insert(name.to_owned(), ProfileHooks { post_apply: Some(cmds) });
        Some(c)
    } else {
        cfg.hooks.insert(name.to_owned(), ProfileHooks { post_apply: Some(cmds) });
        None
    }
}

// ---------------------------------------------------------------------------
// list and status

/// One profile as the listing shows it.
pub struct ProfileSummary {
    pub name: String,
    /// Whether it is the active profile.
    pub active: bool,
    pub entries: Vec<ProfileEntry>,
    /// Its hook commands.
    pub hooks: Vec<String>,
}

/// Every profile, once each, with its files, its hook commands and whether
/// it is active; empty where the store has no profiles.
pub fn list(cfg: &Config) -> (r: Vec<ProfileSummary>)
    ensures
        forall|i: int| 0 <= i < r.len() ==> {
            let s = #[trigger] r@[i];
            &&& cfg@.profiles.contains_key(s.name@)
            &&& s.active == (cfg@.active == Some(s.name@))
            &&& s.entries.deep_view() == cfg@.profiles[s.name@]
            &&& s.hooks.deep_view() == cfg@.hook_commands(s.name@)
        },
        forall|i: int, j: int| 0 <= i < j < r.len() ==> #[trigger] r@[i].name@ != #[trigger] r@[j].name@,
        forall|k: Seq<char>| #[trigger] cfg@.profiles.contains_key(k) ==> exists|i: int|
            0 <= i < r.len() && #[trigger] r@[i].name@ == k,
{
    let names = cfg.profiles.keys();
    let n = names.len();
    let mut r: Vec<ProfileSummary> = Vec::new();
    let mut i: usize = 0;
    while i < n
        invariant
            i <= n,
            n == names.len(),
            r.len() == i,
            forall|j: int| 0 <= j < n ==> cfg@.profiles.contains_key(#[trigger] names@[j]@),
            forall|j: int| 0 <= j < i ==> #[trigger] r@[j].name@ == names@[j]@,
            forall|j: int| 0 <= j < i ==> {
                let s = #[trigger] r@[j];
                &&& cfg@.profiles.contains_key(s.name@)
                &&& s.active == (cfg@.active == Some(s.name@))
                &&& s.entries.deep_view() == cfg@.profiles[s.name@]
                &&& s.hooks.deep_view() == cfg@.hook_commands(s.name@)
            },
        decreases n - i,
    {
        let name = names[i].clone();
        let entries = match cfg.profiles.get(name.as_str()) {
            Some(v) => copy_entries(v),
            None => Vec::new(),
        };
        let active = match &cfg.active {
            Some(a) => *a == name,
            None => false,
        };
        let hooks = cfg.hook_commands(name.as_str());
        r.push(ProfileSummary { name, active, entries, hooks });
        i = i + 1;
    }
    assert forall|a: int, b: int| 0 <= a < b < r.len() implies #[trigger] r@[a].name@
        != #[trigger] r@[b].name@ by {
        assert(names@[a]@ != names@[b]@);
    }
    assert forall|k: Seq<char>| #[trigger] cfg@.profiles.contains_key(k) implies exists|a: int|
        0 <= a < r.len() && #[trigger] r@[a].name@ == k by {
        let a = choose|a: int| 0 <= a < names.len() && #[trigger] names@[a]@ == k;
        assert(r@[a].name@ == k);
    }
    r
}

/// The active profile as the status shows it.
pub struct ActiveStatus {
    pub name: String,
    /// Its files, where the store has a profile of that name.
    pub entries: Option<Vec<ProfileEntry>>,
}

/// The active profile, with its files where it has a profile.
pub fn status(cfg: &Config) -> (r: Option<ActiveStatus>)
    ensures
        match r {
            Some(s) => {
                &&& cfg@.active == Some(s.name@)
                &&& s.entries.deep_view() == if cfg@.profiles.contains_key(s.name@) {
                    Some(cfg@.profiles[s.name@])
                } else {
                    None
                }
            },
            None => cfg@.active is None,
        },
{
    match &cfg.active {
        None => None,
        Some(a) => {
            let entries = match cfg.profiles.get(a.as_str()) {
                Some(v) => Some(copy_entries(v)),
                None => None,
            };
            Some(ActiveStatus { name: a.clone(), entries })
        },
    }
}

} // verus!
