//! The state of the profile store: every profile's files, the commands to
//! run after a profile is applied, and which profile is active.

use vstd::prelude::*;
use crate::names::NameMap;

verus! {

/// One file of a profile: where the real file lives and the alias under
/// which its copy is stored.
#[derive(Clone, Debug)]
pub struct ProfileEntry {
    pub original: String,
    pub alias: String,
}

/// A profile's entry as text: `(original, alias)`.
pub type EntryView = (Seq<char>, Seq<char>);

impl DeepView for ProfileEntry {
    type V = EntryView;

    open spec fn deep_view(&self) -> EntryView {
        (self.original@, self.alias@)
    }
}

/// The commands that run after a profile is applied.
#[derive(Clone, Debug)]
pub struct ProfileHooks {
    pub post_apply: Option<Vec<String>>,
}

impl DeepView for ProfileHooks {
    type V = Option<Seq<Seq<char>>>;

    open spec fn deep_view(&self) -> Option<Seq<Seq<char>>> {
        self.post_apply.deep_view()
    }
}

/// The whole store.
pub struct Config {
    /// The profile whose files are linked into place, if any.
    pub active: Option<String>,
    /// Each profile's files, by profile name.
    pub profiles: NameMap<Vec<ProfileEntry>>,
    /// Each profile's hooks, by profile name.
    pub hooks: NameMap<ProfileHooks>,
}

/// The store as mathematics.
#[verifier::ext_equal]
pub struct ConfigView {
    pub active: Option<Seq<char>>,
    pub profiles: Map<Seq<char>, Seq<EntryView>>,
    pub hooks: Map<Seq<char>, Option<Seq<Seq<char>>>>,
}

impl View for Config {
    type V = ConfigView;

    open spec fn view(&self) -> ConfigView {
        ConfigView { active: self.active.deep_view(), profiles: self.profiles@, hooks: self.hooks@ }
    }
}

impl ConfigView {
    /// The store with nothing in it.
    pub open spec fn empty() -> ConfigView {
        ConfigView { active: None, profiles: Map::empty(), hooks: Map::empty() }
    }

    /// The active profile, if any, is one of the profiles.
    pub open spec fn active_is_known(self) -> bool {
        match self.active {
            Some(a) => self.profiles.contains_key(a),
            None => true,
        }
    }

    /// The commands to run after `name` is applied: none where it has no
    /// hooks or they hold no list.
    pub open spec fn hook_commands(self, name: Seq<char>) -> Seq<Seq<char>> {
        if self.hooks.contains_key(name) {
            match self.hooks[name] {
                Some(cmds) => cmds,
                None => Seq::empty(),
            }
        } else {
            Seq::empty()
        }
    }

    /// The hooks record of `name`: its list of commands, if it has one.
    pub open spec fn post_apply(self, name: Seq<char>) -> Option<Seq<Seq<char>>> {
        if self.hooks.contains_key(name) {
            self.hooks[name]
        } else {
            None
        }
    }

    /// A new profile `name` with `entries` and, where there are any, the
    /// hook commands `cmds`.
    pub open spec fn created(self, name: Seq<char>, entries: Seq<EntryView>, cmds: Seq<Seq<char>>) -> ConfigView {
        ConfigView {
            active: self.active,
            profiles: self.profiles.insert(name, entries),
            hooks: if cmds.len() == 0 {
                self.hooks
            } else {
                self.hooks.insert(name, Some(cmds))
            },
        }
    }

    /// `name` becomes the active profile.
    pub open spec fn activated(self, name: Seq<char>) -> ConfigView {
        ConfigView { active: Some(name), ..self }
    }

    /// No profile is active.
    pub open spec fn deactivated(self) -> ConfigView {
        ConfigView { active: None, ..self }
    }

    /// `name` is gone with its hooks, and is no longer active.
    pub open spec fn deleted(self, name: Seq<char>) -> ConfigView {
        ConfigView {
            active: if self.active == Some(name) {
                None
            } else {
                self.active
            },
            profiles: self.profiles.remove(name),
            hooks: self.hooks.remove(name),
        }
    }

    /// Profile `from` now goes by `to`, with its files, its hooks and its
    /// being active.
    pub open spec fn renamed(self, from: Seq<char>, to: Seq<char>) -> ConfigView {
        ConfigView {
            active: if self.active == Some(from) {
                Some(to)
            } else {
                self.active
            },
            profiles: self.profiles.remove(from).insert(to, self.profiles[from]),
            hooks: if self.hooks.contains_key(from) {
                self.hooks.remove(from).insert(to, self.hooks[from])
            } else {
                self.hooks
            },
        }
    }

    /// A new profile `to` with the files and hooks of `from`.
    pub open spec fn copied(self, from: Seq<char>, to: Seq<char>) -> ConfigView {
        ConfigView {
            active: self.active,
            profiles: self.profiles.insert(to, self.profiles[from]),
            hooks: if self.hooks.contains_key(from) {
                self.hooks.insert(to, self.hooks[from])
            } else {
                self.hooks.remove(to)
            },
        }
    }

    /// Profile `name` now has the files `entries`.
    pub open spec fn with_entries(self, name: Seq<char>, entries: Seq<EntryView>) -> ConfigView {
        ConfigView { profiles: self.profiles.insert(name, entries), ..self }
    }

    /// Profile `name` now has the hooks `hooks`.
    pub open spec fn with_hooks(self, name: Seq<char>, hooks: Option<Seq<Seq<char>>>) -> ConfigView {
        ConfigView { hooks: self.hooks.insert(name, hooks), ..self }
    }
}

/// A copy of `e`.
pub fn copy_entry(e: &ProfileEntry) -> (r: ProfileEntry)
    ensures
        r.deep_view() == e.deep_view(),
{
    ProfileEntry { original: e.original.clone(), alias: e.alias.clone() }
}

/// A copy of `v`.
pub fn copy_entries(v: &Vec<ProfileEntry>) -> (r: Vec<ProfileEntry>)
    ensures
        r.deep_view() == v.deep_view(),
{
    let n = v.len();
    let mut r: Vec<ProfileEntry> = Vec::new();
    let mut i: usize = 0;
    while i < n
        invariant
            i <= n,
            n == v.len(),
            r.len() == i,
            forall|j: int| 0 <= j < i ==> #[trigger] r@[j].deep_view() == v@[j].deep_view(),
        decreases n - i,
    {
        r.push(copy_entry(&v[i]));
        i = i + 1;
    }
    assert(r.deep_view() =~= v.deep_view());
    r
}

/// A copy of `v`.
pub fn copy_strings(v: &Vec<String>) -> (r: Vec<String>)
    ensures
        r.deep_view() == v.deep_view(),
{
    let n = v.len();
    let mut r: Vec<String> = Vec::new();
    let mut i: usize = 0;
    while i < n
        invariant
            i <= n,
            n == v.len(),
            r.len() == i,
            forall|j: int| 0 <= j < i ==> #[trigger] r@[j]@ == v@[j]@,
        decreases n - i,
    {
        r.push(v[i].clone());
        i = i + 1;
    }
    assert(r.deep_view() =~= v.deep_view());
    r
}

/// A copy of `h`.
pub fn copy_hooks(h: &ProfileHooks) -> (r: ProfileHooks)
    ensures
        r.deep_view() == h.deep_view(),
{
    match &h.post_apply {
        Some(cmds) => ProfileHooks { post_apply: Some(copy_strings(cmds)) },
        None => ProfileHooks { post_apply: None },
    }
}

impl Config {
    /// A store with no profiles, no hooks and nothing active.
    pub fn new() -> (r: Config)
        ensures
            r@ == ConfigView::empty(),
    {
        Config { active: None, profiles: NameMap::new(), hooks: NameMap::new() }
    }

    /// Puts `entries` under the profile `name`, in place of any it had.
    pub fn set_profile(&mut self, name: String, entries: Vec<ProfileEntry>)
        ensures
            final(self)@ == old(self)@.with_entries(name@, entries.deep_view()),
            final(self)@.profiles == old(self)@.profiles.insert(name@, entries.deep_view()),
            final(self)@.hooks == old(self)@.hooks,
            final(self)@.active == old(self)@.active,
    {
        self.profiles.insert(name, entries);
    }

    /// Puts `hooks` under the profile `name`, in place of any it had.
    pub fn set_hooks(&mut self, name: String, hooks: ProfileHooks)
        ensures
            final(self)@ == old(self)@.with_hooks(name@, hooks.deep_view()),
            final(self)@.hooks == old(self)@.hooks.insert(name@, hooks.deep_view()),
            final(self)@.profiles == old(self)@.profiles,
            final(self)@.active == old(self)@.active,
    {
        self.hooks.insert(name, hooks);
    }

    /// The list of commands that the hooks of `name` hold, if they hold one.
    pub fn post_apply(&self, name: &str) -> (r: Option<Vec<String>>)
        ensures
            r.deep_view() == self@.post_apply(name@),
            self@.hooks.contains_key(name@) ==> r.deep_view() == self@.hooks[name@],
            !self@.hooks.contains_key(name@) ==> r is None,
    {
        match self.hooks.get(name) {
            Some(h) => match &h.post_apply {
                Some(cmds) => Some(copy_strings(cmds)),
                None => None,
            },
            None => None,
        }
    }

    /// The commands to run after the profile `name` is applied.
    pub fn hook_commands(&self, name: &str) -> (r: Vec<String>)
        ensures
            r.deep_view() == self@.hook_commands(name@),
            self@.hooks.contains_key(name@) ==> match self@.hooks[name@] {
                Some(cmds) => r.deep_view() == cmds,
                None => r.len() == 0,
            },
            !self@.hooks.contains_key(name@) ==> r.len() == 0,
    {
        match self.hooks.get(name) {
            Some(h) => match &h.post_apply {
                Some(cmds) => copy_strings(cmds),
                None => Vec::new(),
            },
            None => {
                let r: Vec<String> = Vec::new();
                assert(r.deep_view() =~= Seq::<Seq<char>>::empty());
                r
            },
        }
    }
}

impl Default for Config {
    fn default() -> (r: Config)
        ensures
            r@ == ConfigView::empty(),
    {
        Config::new()
    }
}

} // verus!
