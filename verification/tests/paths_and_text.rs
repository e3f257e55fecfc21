use onf::error::ProfileError;
use onf::paths::{
    config_dir, config_dir_in, config_path, config_path_in, default_alias, expand_tilde,
    expand_tilde_in, file_name, path_join, path_text, profiles_dir, profiles_dir_in, stored_path,
    stored_path_in,
};
use onf::text::{parse_usize, trim};

fn b(s: &str) -> Vec<u8> {
    s.as_bytes().to_vec()
}

fn join(base: &str, part: &str) -> Vec<u8> {
    path_join(base.as_bytes(), part.as_bytes())
}

fn name_of(p: &str) -> Option<Vec<u8>> {
    file_name(p.as_bytes())
}

#[test]
fn join_adds_one_separator() {
    assert_eq!(join("/home/u", "x"), b("/home/u/x"));
    assert_eq!(join("/home/u/", "x"), b("/home/u/x"));
    assert_eq!(join("", "x"), b("x"));
    assert_eq!(join("a", ""), b("a/"));
}

#[test]
fn join_with_absolute_part_replaces_base() {
    assert_eq!(join("/home/u", "/etc/hosts"), b("/etc/hosts"));
}

#[test]
fn join_keeps_bytes_that_are_not_utf8() {
    let base: Vec<u8> = vec![b'/', b'h', 0xff, 0xfe];
    let mut expected = base.clone();
    expected.extend_from_slice(b"/onf");
    assert_eq!(path_join(&base, b"onf"), expected);
    assert_eq!(config_dir_in(&base), expected);
}

#[test]
fn file_name_of_ordinary_paths() {
    assert_eq!(name_of("/home/u/.bashrc"), Some(b(".bashrc")));
    assert_eq!(name_of("kitty.conf"), Some(b("kitty.conf")));
    assert_eq!(name_of("/etc/nginx/"), Some(b("nginx")));
    assert_eq!(name_of("a/./"), Some(b("a")));
    assert_eq!(name_of("a//b"), Some(b("b")));
    assert_eq!(name_of("a/../b"), Some(b("b")));
    assert_eq!(name_of(".hidden"), Some(b(".hidden")));
    assert_eq!(name_of("..."), Some(b("...")));
}

#[test]
fn file_name_absent() {
    assert_eq!(name_of(""), None);
    assert_eq!(name_of("/"), None);
    assert_eq!(name_of("."), None);
    assert_eq!(name_of("./."), None);
    assert_eq!(name_of(".."), None);
    assert_eq!(name_of("a/.."), None);
    assert_eq!(name_of("//"), None);
}

#[test]
fn file_name_agrees_with_std() {
    let cases = [
        "/home/u/.config/kitty/kitty.conf", "foo", "foo/", "foo/.", "foo/..", "/", "", ".", "..",
        "./foo", "foo//bar//", "/a/b/./c/.", "~", "~/x",
    ];
    for c in cases {
        let expected = std::path::Path::new(c)
            .file_name()
            .map(|s| s.to_os_string().into_encoded_bytes());
        assert_eq!(name_of(c), expected, "path {:?}", c);
    }
}

#[test]
fn default_alias_is_final_component_or_empty() {
    assert_eq!(default_alias(b"/home/u/.config/kitty/kitty.conf"), "kitty.conf");
    assert_eq!(default_alias(b"/"), "");
    assert_eq!(default_alias(b"x/.."), "");
    assert_eq!(default_alias(&[b'/', b'd', b'/', b'a', 0xff]), "a\u{fffd}");
}

#[test]
fn path_text_cases() {
    assert_eq!(path_text(b"/home/u/.vimrc"), "/home/u/.vimrc");
    assert_eq!(path_text(&[b'/', 0xff]), "/\u{fffd}");
}

#[test]
fn expand_tilde_in_cases() {
    let home = b"/home/u";
    assert_eq!(expand_tilde_in("~/.vimrc", home), b("/home/u/.vimrc"));
    assert_eq!(expand_tilde_in("~", home), b("/home/u"));
    assert_eq!(expand_tilde_in("~//etc/x", home), b("/etc/x"));
    assert_eq!(expand_tilde_in("~user/x", home), b("~user/x"));
    assert_eq!(expand_tilde_in("/etc/hosts", home), b("/etc/hosts"));
    assert_eq!(expand_tilde_in("rel/path", home), b("rel/path"));
    assert_eq!(expand_tilde_in("~/x", &[b'/', 0xff]), vec![b'/', 0xff, b'/', b'x']);
}

#[test]
fn expand_tilde_leaves_other_paths() {
    assert_eq!(expand_tilde("/etc/hosts").unwrap(), b("/etc/hosts"));
    assert_eq!(expand_tilde("").unwrap(), b(""));
}

#[test]
fn expand_tilde_uses_the_home_directory() {
    if let Some(home) = dirs::home_dir() {
        let home = home.into_os_string().into_encoded_bytes();
        let r = expand_tilde("~/notes.txt").unwrap();
        assert_eq!(r, path_join(&home, b"notes.txt"));
        assert_ne!(r, b("~/notes.txt"));
        assert_eq!(expand_tilde("~").unwrap(), home);
    } else {
        assert!(matches!(expand_tilde("~"), Err(ProfileError::NoHomeDir)));
    }
}

#[test]
fn layout_under_a_given_directory() {
    let c = config_dir_in(b"/home/u/.config");
    assert_eq!(c, b("/home/u/.config/onf"));
    assert_eq!(config_path_in(&c), b("/home/u/.config/onf/config.toml"));
    let p = profiles_dir_in(&c);
    assert_eq!(p, b("/home/u/.config/onf/profiles"));
    assert_eq!(stored_path_in(&p, "work", "kitty.conf"), b("/home/u/.config/onf/profiles/work/kitty.conf"));
}

#[test]
fn layout_for_the_current_user() {
    match dirs::config_dir() {
        Some(base) => {
            let base = base.into_os_string().into_encoded_bytes();
            let c = config_dir().unwrap();
            assert_eq!(c, path_join(&base, b"onf"));
            assert_ne!(c, b("onf"));
            assert_eq!(config_path().unwrap(), path_join(&c, b"config.toml"));
            assert_eq!(profiles_dir().unwrap(), path_join(&c, b"profiles"));
            assert_eq!(
                stored_path("p", "a").unwrap(),
                path_join(&path_join(&path_join(&c, b"profiles"), b"p"), b"a")
            );
        }
        None => {
            assert!(matches!(config_dir(), Err(ProfileError::NoConfigDir)));
            assert!(matches!(stored_path("p", "a"), Err(ProfileError::NoConfigDir)));
        }
    }
}

#[test]
fn stored_copy_is_named_by_alias() {
    let p = stored_path_in(b"/x/profiles", "work", "bashrc");
    assert_eq!(default_alias(&p), "bashrc");
    let p = stored_path_in(&[b'/', 0xff], "work", "straße.conf");
    assert_eq!(default_alias(&p), "straße.conf");
}

#[test]
fn trim_removes_surrounding_white_space() {
    assert_eq!(trim("  hello \n"), "hello");
    assert_eq!(trim("\t\r\n"), "");
    assert_eq!(trim(""), "");
    assert_eq!(trim("a b"), "a b");
    assert_eq!(trim("\u{3000}x\u{a0}"), "x");
}

#[test]
fn trim_agrees_with_std() {
    for s in ["  x  ", "\u{2028}y\u{85}", "z", " \u{200b} ", "\u{1680}\u{2000}w\u{205f}"] {
        assert_eq!(trim(s), s.trim(), "input {:?}", s);
    }
}

#[test]
fn parse_usize_cases() {
    assert_eq!(parse_usize("0"), Some(0));
    assert_eq!(parse_usize("42"), Some(42));
    assert_eq!(parse_usize("+7"), Some(7));
    assert_eq!(parse_usize("007"), Some(7));
    assert_eq!(parse_usize(""), None);
    assert_eq!(parse_usize("+"), None);
    assert_eq!(parse_usize("-1"), None);
    assert_eq!(parse_usize(" 1"), None);
    assert_eq!(parse_usize("1a"), None);
    assert_eq!(parse_usize("++1"), None);
}

#[test]
fn parse_usize_limits() {
    let max = usize::MAX.to_string();
    assert_eq!(parse_usize(&max), Some(usize::MAX));
    let over = format!("{}0", max);
    assert_eq!(parse_usize(&over), None);
    assert_eq!(parse_usize("99999999999999999999999999x"), None);
}

#[test]
fn parse_usize_agrees_with_std() {
    for s in ["12", "+3", "-", "", "18446744073709551616", "4294967296", "5 ", "٣"] {
        assert_eq!(parse_usize(s), s.parse::<usize>().ok(), "input {:?}", s);
    }
}

#[test]
fn error_messages() {
    assert_eq!(
        ProfileError::NoSuchProfile("work".to_string()).message(),
        "no profile named \"work\""
    );
    assert_eq!(
        ProfileError::AlreadyExists("work".to_string()).message(),
        "profile \"work\" already exists"
    );
    assert_eq!(ProfileError::NoConfigDir.message(), "could not find config directory");
    assert_eq!(ProfileError::NoHomeDir.message(), "could not find home directory");
}

#[test]
fn join_agrees_with_std() {
    let cases = [
        ("/home/u", "x"), ("/home/u/", "x"), ("", "x"), ("a", ""), ("a", "/b"), ("a/b", "c/d"),
        ("/", "etc"), ("a//", "b"),
    ];
    for (base, part) in cases {
        let expected = std::path::Path::new(base).join(part).into_os_string().into_encoded_bytes();
        assert_eq!(join(base, part), expected, "join {:?} {:?}", base, part);
    }
}

#[test]
fn default_alias_is_never_a_separator_or_dot_name() {
    for p in [
        &b"/a/."[..], &b"/a/.."[..], &b"."[..], &b".."[..], &b"/"[..], &[b'/', 0xff, b'.'][..],
        &[0xc0, 0xaf][..], &[b'x', b'/', 0xe2, 0x88][..],
    ] {
        let a = default_alias(p);
        assert!(!a.contains('/'), "{:?}", p);
        assert_ne!(a, ".");
        assert_ne!(a, "..");
    }
}
