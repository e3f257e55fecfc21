use onf::config::{Config, ProfileEntry, ProfileHooks};
use onf::error::ProfileError;
use onf::profile::{
    add_entries, add_hook, apply, clear_hooks, confirms_deletion, copy, create, delete,
    edit_choice, ends_list, hook_action, leaves_edit_menu, link_step, list, new_entry, open_hooks, remove_entry, remove_hook, rename,
    require_no_profile, require_profile, resolve_alias, restore, status, EditChoice, HookAction,
    LinkStep, RenameOutcome,
};

fn entry(original: &str, alias: &str) -> ProfileEntry {
    ProfileEntry { original: original.to_string(), alias: alias.to_string() }
}

fn strings(v: &[&str]) -> Vec<String> {
    v.iter().map(|s| s.to_string()).collect()
}

fn aliases(cfg: &Config, name: &str) -> Vec<String> {
    cfg.profiles.get(name).unwrap().iter().map(|e| e.alias.clone()).collect()
}

fn hooks_of(cfg: &Config, name: &str) -> Option<Option<Vec<String>>> {
    cfg.hooks.get(name).map(|h| h.post_apply.clone())
}

fn sample() -> Config {
    let mut cfg = Config::new();
    assert_eq!(
        create(
            &mut cfg,
            "work",
            vec![entry("/home/u/.bashrc", "bashrc"), entry("/home/u/.vimrc", "vimrc")],
            strings(&["echo hi"]),
        )
        .unwrap(),
        true
    );
    assert_eq!(create(&mut cfg, "home", vec![entry("/home/u/.zshrc", "zshrc")], vec![]).unwrap(), true);
    cfg
}

#[test]
fn create_saves_files_and_hooks() {
    let cfg = sample();
    assert_eq!(aliases(&cfg, "work"), strings(&["bashrc", "vimrc"]));
    assert_eq!(hooks_of(&cfg, "work"), Some(Some(strings(&["echo hi"]))));
    assert_eq!(hooks_of(&cfg, "home"), None);
    assert_eq!(cfg.active, None);
}

#[test]
fn create_refuses_taken_name() {
    let mut cfg = sample();
    let r = create(&mut cfg, "work", vec![entry("/x", "x")], vec![]);
    assert!(matches!(r, Err(ProfileError::AlreadyExists(ref n)) if n == "work"));
    assert_eq!(aliases(&cfg, "work"), strings(&["bashrc", "vimrc"]));
    assert!(matches!(require_no_profile(&cfg, "work"), Err(ProfileError::AlreadyExists(_))));
    assert!(require_no_profile(&cfg, "new").is_ok());
}

#[test]
fn create_without_files_saves_nothing() {
    let mut cfg = Config::new();
    assert_eq!(create(&mut cfg, "empty", vec![], strings(&["x"])).unwrap(), false);
    assert!(!cfg.profiles.contains_key("empty"));
    assert!(!cfg.hooks.contains_key("empty"));
}

#[test]
fn resolve_alias_prefers_typed_text() {
    assert_eq!(resolve_alias("", "kitty.conf".to_string()), "kitty.conf");
    assert_eq!(resolve_alias("term", "kitty.conf".to_string()), "term");
}

#[test]
fn apply_activates_and_returns_plan() {
    let mut cfg = sample();
    let plan = apply(&mut cfg, "work").unwrap();
    assert_eq!(cfg.active.as_deref(), Some("work"));
    let a: Vec<String> = plan.entries.iter().map(|e| e.alias.clone()).collect();
    assert_eq!(a, strings(&["bashrc", "vimrc"]));
    assert_eq!(plan.entries[0].original, "/home/u/.bashrc");
    assert_eq!(plan.hooks, Some(strings(&["echo hi"])));
    let plan = apply(&mut cfg, "home").unwrap();
    assert_eq!(plan.hooks, None);
    assert_eq!(cfg.active.as_deref(), Some("home"));
}

#[test]
fn apply_unknown_profile() {
    let mut cfg = sample();
    let r = apply(&mut cfg, "nope");
    assert!(matches!(r, Err(ProfileError::NoSuchProfile(ref n)) if n == "nope"));
    assert_eq!(cfg.active, None);
    assert!(matches!(require_profile(&cfg, "nope"), Err(ProfileError::NoSuchProfile(_))));
}

#[test]
fn link_steps() {
    assert_eq!(link_step(false, true), LinkStep::SkipMissingCopy);
    assert_eq!(link_step(false, false), LinkStep::SkipMissingCopy);
    assert_eq!(link_step(true, true), LinkStep::Link { replace_existing: true });
    assert_eq!(link_step(true, false), LinkStep::Link { replace_existing: false });
}

#[test]
fn restore_deactivates() {
    let mut cfg = sample();
    assert!(restore(&mut cfg).is_none());
    apply(&mut cfg, "work").unwrap();
    let plan = restore(&mut cfg).unwrap();
    assert_eq!(plan.name, "work");
    assert_eq!(plan.entries.len(), 2);
    assert_eq!(cfg.active, None);
    assert_eq!(aliases(&cfg, "work"), strings(&["bashrc", "vimrc"]));
}

#[test]
fn restore_of_unknown_active_name_has_no_files() {
    let mut cfg = sample();
    cfg.active = Some("ghost".to_string());
    let plan = restore(&mut cfg).unwrap();
    assert_eq!(plan.name, "ghost");
    assert!(plan.entries.is_empty());
    assert_eq!(cfg.active, None);
}

#[test]
fn copy_duplicates_files_and_hooks() {
    let mut cfg = sample();
    copy(&mut cfg, "work", "work2").unwrap();
    assert_eq!(aliases(&cfg, "work2"), strings(&["bashrc", "vimrc"]));
    assert_eq!(hooks_of(&cfg, "work2"), Some(Some(strings(&["echo hi"]))));
    assert_eq!(aliases(&cfg, "work"), strings(&["bashrc", "vimrc"]));
    assert!(matches!(copy(&mut cfg, "nope", "x"), Err(ProfileError::NoSuchProfile(ref n)) if n == "nope"));
    assert!(matches!(copy(&mut cfg, "work", "home"), Err(ProfileError::AlreadyExists(ref n)) if n == "home"));
    assert!(matches!(copy(&mut cfg, "work", "work"), Err(ProfileError::AlreadyExists(_))));
}

#[test]
fn copy_without_hooks_drops_stale_hooks() {
    let mut cfg = sample();
    cfg.set_hooks("fresh".to_string(), ProfileHooks { post_apply: Some(strings(&["old"])) });
    copy(&mut cfg, "home", "fresh").unwrap();
    assert_eq!(hooks_of(&cfg, "fresh"), None);
}

#[test]
fn delete_removes_profile_hooks_and_active() {
    let mut cfg = sample();
    apply(&mut cfg, "work").unwrap();
    delete(&mut cfg, "work").unwrap();
    assert!(!cfg.profiles.contains_key("work"));
    assert!(!cfg.hooks.contains_key("work"));
    assert_eq!(cfg.active, None);
    assert!(matches!(delete(&mut cfg, "work"), Err(ProfileError::NoSuchProfile(_))));
}

#[test]
fn delete_keeps_other_active() {
    let mut cfg = sample();
    apply(&mut cfg, "home").unwrap();
    delete(&mut cfg, "work").unwrap();
    assert_eq!(cfg.active.as_deref(), Some("home"));
}

#[test]
fn confirmation_answers() {
    assert!(confirms_deletion("y"));
    assert!(confirms_deletion("Y"));
    assert!(!confirms_deletion("yes"));
    assert!(!confirms_deletion(""));
    assert!(!confirms_deletion("n"));
}

#[test]
fn edit_menu_choices() {
    assert_eq!(edit_choice("1"), EditChoice::AddFile);
    assert_eq!(edit_choice("2"), EditChoice::RemoveFile);
    assert_eq!(edit_choice("3"), EditChoice::Rename);
    assert_eq!(edit_choice("4"), EditChoice::Hooks);
    assert_eq!(edit_choice("q"), EditChoice::Quit);
    assert_eq!(edit_choice(""), EditChoice::Quit);
    assert_eq!(edit_choice("5"), EditChoice::Unknown);
    assert_eq!(edit_choice("11"), EditChoice::Unknown);
    assert_eq!(edit_choice("quit"), EditChoice::Unknown);
}

#[test]
fn add_and_remove_entries() {
    let mut cfg = sample();
    add_entries(&mut cfg, "home", vec![entry("/a", "a"), entry("/b", "b")]).unwrap();
    assert_eq!(aliases(&cfg, "home"), strings(&["zshrc", "a", "b"]));
    let removed = remove_entry(&mut cfg, "home", 2).unwrap().unwrap();
    assert_eq!(removed.alias, "a");
    assert_eq!(aliases(&cfg, "home"), strings(&["zshrc", "b"]));
    assert!(remove_entry(&mut cfg, "home", 0).unwrap().is_none());
    assert!(remove_entry(&mut cfg, "home", 3).unwrap().is_none());
    assert_eq!(aliases(&cfg, "home"), strings(&["zshrc", "b"]));
    assert!(matches!(remove_entry(&mut cfg, "nope", 1), Err(ProfileError::NoSuchProfile(_))));
    assert!(matches!(add_entries(&mut cfg, "nope", vec![]), Err(ProfileError::NoSuchProfile(_))));
}

#[test]
fn rename_moves_files_hooks_and_active() {
    let mut cfg = sample();
    apply(&mut cfg, "work").unwrap();
    assert_eq!(rename(&mut cfg, "work", "job").unwrap(), RenameOutcome::Renamed);
    assert!(!cfg.profiles.contains_key("work"));
    assert_eq!(aliases(&cfg, "job"), strings(&["bashrc", "vimrc"]));
    assert_eq!(hooks_of(&cfg, "job"), Some(Some(strings(&["echo hi"]))));
    assert_eq!(hooks_of(&cfg, "work"), None);
    assert_eq!(cfg.active.as_deref(), Some("job"));
}

#[test]
fn rename_refusals() {
    let mut cfg = sample();
    assert_eq!(rename(&mut cfg, "work", "").unwrap(), RenameOutcome::Unchanged);
    assert_eq!(rename(&mut cfg, "work", "work").unwrap(), RenameOutcome::Unchanged);
    assert_eq!(rename(&mut cfg, "work", "home").unwrap(), RenameOutcome::NameTaken);
    assert_eq!(aliases(&cfg, "work"), strings(&["bashrc", "vimrc"]));
    assert!(matches!(rename(&mut cfg, "nope", "x"), Err(ProfileError::NoSuchProfile(_))));
}

#[test]
fn rename_round_trip_restores_store() {
    let mut cfg = sample();
    apply(&mut cfg, "work").unwrap();
    rename(&mut cfg, "work", "tmp").unwrap();
    rename(&mut cfg, "tmp", "work").unwrap();
    assert_eq!(aliases(&cfg, "work"), strings(&["bashrc", "vimrc"]));
    assert_eq!(hooks_of(&cfg, "work"), Some(Some(strings(&["echo hi"]))));
    assert!(!cfg.profiles.contains_key("tmp"));
    assert!(!cfg.hooks.contains_key("tmp"));
    assert_eq!(cfg.active.as_deref(), Some("work"));
}

#[test]
fn delete_after_create_restores_store() {
    let mut cfg = sample();
    create(&mut cfg, "extra", vec![entry("/e", "e")], strings(&["h"])).unwrap();
    delete(&mut cfg, "extra").unwrap();
    let mut names: Vec<String> = cfg.profiles.keys();
    names.sort();
    assert_eq!(names, strings(&["home", "work"]));
    let hook_names: Vec<String> = cfg.hooks.keys();
    assert_eq!(hook_names, strings(&["work"]));
}

#[test]
fn hook_menu_actions() {
    assert_eq!(hook_action("a"), HookAction::Add);
    assert_eq!(hook_action("c"), HookAction::Clear);
    assert_eq!(hook_action("r2"), HookAction::Remove(2));
    assert_eq!(hook_action("r 3 "), HookAction::Remove(3));
    assert_eq!(hook_action("r"), HookAction::Remove(0));
    assert_eq!(hook_action("rx"), HookAction::Remove(0));
    assert_eq!(hook_action("remove"), HookAction::Remove(0));
    assert_eq!(hook_action("x"), HookAction::Other);
    assert_eq!(hook_action(""), HookAction::Other);
    assert_eq!(hook_action("aa"), HookAction::Other);
}

#[test]
fn hook_editing() {
    let mut cfg = sample();
    assert_eq!(open_hooks(&mut cfg, "home"), Vec::<String>::new());
    assert_eq!(hooks_of(&cfg, "home"), Some(None));
    assert!(!add_hook(&mut cfg, "home", String::new()));
    assert_eq!(hooks_of(&cfg, "home"), Some(None));
    assert!(add_hook(&mut cfg, "home", "one".to_string()));
    assert!(add_hook(&mut cfg, "home", "two".to_string()));
    assert_eq!(open_hooks(&mut cfg, "home"), strings(&["one", "two"]));
    assert_eq!(remove_hook(&mut cfg, "home", 1), Some("one".to_string()));
    assert_eq!(hooks_of(&cfg, "home"), Some(Some(strings(&["two"]))));
    assert_eq!(remove_hook(&mut cfg, "home", 5), None);
    clear_hooks(&mut cfg, "home");
    assert_eq!(hooks_of(&cfg, "home"), Some(None));
    assert_eq!(remove_hook(&mut cfg, "home", 1), None);
    assert_eq!(hooks_of(&cfg, "home"), Some(Some(vec![])));
}

#[test]
fn list_and_status() {
    let mut cfg = Config::new();
    assert!(list(&cfg).is_empty());
    assert!(status(&cfg).is_none());
    cfg = sample();
    apply(&mut cfg, "work").unwrap();
    let mut l = list(&cfg);
    l.sort_by(|a, b| a.name.cmp(&b.name));
    assert_eq!(l.len(), 2);
    assert_eq!(l[0].name, "home");
    assert!(!l[0].active);
    assert!(l[0].hooks.is_empty());
    assert_eq!(l[1].name, "work");
    assert!(l[1].active);
    assert_eq!(l[1].entries.len(), 2);
    assert_eq!(l[1].hooks, strings(&["echo hi"]));
    let s = status(&cfg).unwrap();
    assert_eq!(s.name, "work");
    assert_eq!(s.entries.unwrap().len(), 2);
    cfg.active = Some("ghost".to_string());
    let s = status(&cfg).unwrap();
    assert!(s.entries.is_none());
}

#[test]
fn set_profile_and_hooks_replace() {
    let mut cfg = Config::new();
    cfg.set_profile("p".to_string(), vec![entry("/1", "1")]);
    cfg.set_profile("p".to_string(), vec![entry("/2", "2")]);
    assert_eq!(aliases(&cfg, "p"), strings(&["2"]));
    assert_eq!(cfg.profiles.keys(), strings(&["p"]));
    cfg.set_hooks("p".to_string(), ProfileHooks { post_apply: None });
    assert_eq!(cfg.hook_commands("p"), Vec::<String>::new());
    assert_eq!(cfg.post_apply("p"), None);
    assert!(!cfg.profiles.is_empty());
    assert!(Config::default().profiles.is_empty());
}

#[test]
fn delete_after_copy_restores_store() {
    let mut cfg = sample();
    copy(&mut cfg, "work", "spare").unwrap();
    delete(&mut cfg, "spare").unwrap();
    let mut names: Vec<String> = cfg.profiles.keys();
    names.sort();
    assert_eq!(names, strings(&["home", "work"]));
    assert_eq!(cfg.hooks.keys(), strings(&["work"]));
    assert_eq!(aliases(&cfg, "work"), strings(&["bashrc", "vimrc"]));
}

#[test]
fn active_profile_stays_a_known_profile() {
    let mut cfg = sample();
    apply(&mut cfg, "work").unwrap();
    rename(&mut cfg, "work", "job").unwrap();
    let a = cfg.active.clone().unwrap();
    assert!(cfg.profiles.contains_key(&a));
    copy(&mut cfg, "job", "job2").unwrap();
    remove_entry(&mut cfg, "job", 1).unwrap();
    assert!(cfg.profiles.contains_key(cfg.active.as_deref().unwrap()));
    delete(&mut cfg, "job").unwrap();
    assert_eq!(cfg.active, None);
}

#[test]
fn list_entry_and_menu_leaving() {
    assert!(ends_list(""));
    assert!(!ends_list("x"));
    assert!(leaves_edit_menu(&EditChoice::Quit, false));
    assert!(leaves_edit_menu(&EditChoice::Rename, true));
    assert!(!leaves_edit_menu(&EditChoice::Rename, false));
    assert!(!leaves_edit_menu(&EditChoice::Hooks, true));
    assert!(!leaves_edit_menu(&EditChoice::Unknown, false));
}

#[test]
fn new_entry_records_path_text_and_alias() {
    let e = new_entry(b"/home/u/.vimrc", "", "vimrc".to_string());
    assert_eq!(e.original, "/home/u/.vimrc");
    assert_eq!(e.alias, "vimrc");
    let e = new_entry(&[b'/', 0xff], "mine", "x".to_string());
    assert_eq!(e.original, "/\u{fffd}");
    assert_eq!(e.alias, "mine");
}
