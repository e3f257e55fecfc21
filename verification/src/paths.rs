//! Where things live on disk. Paths are the platform's path bytes (on Unix,
//! exactly the bytes the system uses), so that directories whose names are not
//! valid UTF-8 are kept as they are. This module joins paths the way
//! `PathBuf::join` does on Unix-like systems, finds the final component of a
//! path as `Path::file_name` does, expands `~`, and lays out the store
//! (`<config dir>/onf/config.toml`, `<config dir>/onf/profiles/<profile>/<alias>`).

use vstd::prelude::*;
use vstd::string::*;
use vstd::utf8::{
    decode_utf8, decode_utf8_encode_utf8, encode_utf8, is_ascii_chars, is_ascii_chars_encode_utf8,
    valid_utf8,
};
use crate::error::ProfileError;

verus! {

/// The byte `/`.
pub open spec fn slash() -> u8 {
    47
}

/// The byte `.`.
pub open spec fn dot() -> u8 {
    46
}

/// The byte `~`.
pub open spec fn tilde() -> u8 {
    126
}

// ---------------------------------------------------------------------------
// Bytes and text

/// The bytes `s[from..to]`.
fn copy_range(s: &[u8], from: usize, to: usize) -> (r: Vec<u8>)
    requires
        from <= to <= s@.len(),
    ensures
        r@ == s@.subrange(from as int, to as int),
{
    let mut r: Vec<u8> = Vec::new();
    let mut i: usize = from;
    while i < to
        invariant
            from <= i <= to,
            to <= s@.len(),
            r@ == s@.subrange(from as int, i as int),
        decreases to - i,
    {
        r.push(s[i]);
        i = i + 1;
        assert(r@ =~= s@.subrange(from as int, i as int));
    }
    r
}

/// Appends the bytes `s` to `v`.
fn append_bytes(v: &mut Vec<u8>, s: &[u8])
    ensures
        final(v)@ == old(v)@ + s@,
{
    let ghost start = v@;
    let mut i: usize = 0;
    while i < s.len()
        invariant
            i <= s@.len(),
            v@ == start + s@.subrange(0, i as int),
        decreases s@.len() - i,
    {
        v.push(s[i]);
        i = i + 1;
        assert(v@ =~= start + s@.subrange(0, i as int));
    }
    assert(s@.subrange(0, s@.len() as int) =~= s@);
}

/// The text of the path bytes `b` as `String::from_utf8_lossy` gives it.
pub uninterp spec fn lossy_text(b: Seq<u8>) -> Seq<char>;

/// Calls `String::from_utf8_lossy`. Its result is named `lossy_text`. As
/// std's documentation says, valid UTF-8 is decoded and each invalid sequence
/// becomes U+FFFD (which is not ASCII), so: bytes that are valid UTF-8 come
/// back as the text they encode; a result made only of ASCII characters comes
/// from valid UTF-8; and each ASCII character of the result stands for that
/// same byte of the input. How invalid sequences are delimited is not stated.
#[verifier::external_body]
fn utf8_lossy(b: &[u8]) -> (r: String)
    ensures
        r@ == lossy_text(b@),
        valid_utf8(b@) ==> r@ == decode_utf8(b@),
        is_ascii_chars(r@) ==> valid_utf8(b@),
        forall|i: int|
            0 <= i < r@.len() && #[trigger] r@[i] <= '\u{7f}' ==> exists|j: int|
                0 <= j < b@.len() && b@[j] == r@[i] as u8,
{
    String::from_utf8_lossy(b).into_owned()
}

/// The path `path` as text, as a profile records it: bytes that are not
/// valid UTF-8 are replaced.
pub fn path_text(path: &[u8]) -> (r: String)
    ensures
        r@ == lossy_text(path@),
        valid_utf8(path@) ==> r@ == decode_utf8(path@),
{
    utf8_lossy(path)
}

// ---------------------------------------------------------------------------
// Joining

/// `base` joined with `part`: an absolute `part` replaces `base`; otherwise
/// `part` follows `base`, with a `/` between them unless `base` is empty or
/// already ends with one.
pub open spec fn joined(base: Seq<u8>, part: Seq<u8>) -> Seq<u8> {
    if part.len() > 0 && part[0] == slash() {
        part
    } else if base.len() == 0 || base.last() == slash() {
        base + part
    } else {
        base + seq![slash()] + part
    }
}

/// `base` joined with `part` (see [`joined`]).
pub fn path_join(base: &[u8], part: &[u8]) -> (r: Vec<u8>)
    ensures
        r@ == joined(base@, part@),
{
    let pn = part.len();
    if pn > 0 && part[0] == 47 {
        return copy_range(part, 0, pn);
    }
    let bn = base.len();
    let mut r = copy_range(base, 0, bn);
    assert(base@.subrange(0, bn as int) =~= base@);
    if bn > 0 && base[bn - 1] != 47 {
        r.push(47);
    }
    append_bytes(&mut r, part);
    r
}

// ---------------------------------------------------------------------------
// Final component

/// The bytes after the last `/` of `s`.
pub open spec fn last_segment(s: Seq<u8>) -> Seq<u8>
    decreases s.len(),
{
    if s.len() == 0 || s.last() == slash() {
        Seq::empty()
    } else {
        last_segment(s.drop_last()).push(s.last())
    }
}

/// The last segment of a path is no longer than the path, holds no `/`, and
/// is not empty where the path ends in something other than `/`.
pub proof fn lemma_last_segment_len(s: Seq<u8>)
    ensures
        last_segment(s).len() <= s.len(),
        s.len() > 0 && s.last() != slash() ==> last_segment(s).len() >= 1,
        forall|i: int| 0 <= i < last_segment(s).len() ==> #[trigger] last_segment(s)[i] != slash(),
    decreases s.len(),
{
    if s.len() > 0 && s.last() != slash() {
        lemma_last_segment_len(s.drop_last());
    }
}

/// The last normal component of the path `s`, as `Path::file_name` finds it:
/// trailing `/` and `.` components are passed over, and there is none where
/// the path is empty, is only a root or `.`, or ends in `..`.
pub open spec fn file_name_spec(s: Seq<u8>) -> Option<Seq<u8>>
    decreases s.len(),
{
    if s.len() == 0 {
        None
    } else if s.last() == slash() {
        file_name_spec(s.drop_last())
    } else {
        let seg = last_segment(s);
        let rest = s.subrange(0, s.len() - seg.len());
        proof {
            lemma_last_segment_len(s);
        }
        if seg == seq![dot()] {
            file_name_spec(rest)
        } else if seg == seq![dot(), dot()] {
            None
        } else {
            Some(seg)
        }
    }
}

/// The last normal component of `path`, if it has one (see [`file_name_spec`]).
pub fn file_name(path: &[u8]) -> (r: Option<Vec<u8>>)
    ensures
        match r {
            Some(n) => file_name_spec(path@) == Some(n@),
            None => file_name_spec(path@) is None,
        },
{
    let n = path.len();
    let mut end: usize = n;
    assert(path@.subrange(0, n as int) =~= path@);
    loop
        invariant
            end <= n,
            n == path@.len(),
            file_name_spec(path@) == file_name_spec(path@.subrange(0, end as int)),
        decreases end,
    {
        let ghost pre = path@.subrange(0, end as int);
        if end == 0 {
            return None;
        }
        if path[end - 1] == 47 {
            assert(pre.drop_last() =~= path@.subrange(0, end - 1));
            end = end - 1;
            continue;
        }
        let mut k: usize = end;
        while k > 0 && path[k - 1] != 47
            invariant
                k <= end <= n,
                n == path@.len(),
                pre == path@.subrange(0, end as int),
                last_segment(pre) == last_segment(path@.subrange(0, k as int)) + path@.subrange(
                    k as int,
                    end as int,
                ),
            decreases k,
        {
            let ghost p = path@.subrange(0, k as int);
            assert(p.drop_last() =~= path@.subrange(0, k - 1));
            assert(last_segment(path@.subrange(0, k - 1)) + path@.subrange(k - 1, end as int)
                =~= last_segment(p) + path@.subrange(k as int, end as int));
            k = k - 1;
        }
        assert(last_segment(path@.subrange(0, k as int)) =~= Seq::<u8>::empty());
        let ghost seg = path@.subrange(k as int, end as int);
        assert(last_segment(pre) =~= seg);
        assert(pre.subrange(0, pre.len() - seg.len()) =~= path@.subrange(0, k as int));
        if end - k == 1 && path[k] == 46 {
            assert(seg =~= seq![dot()]);
            end = k;
            continue;
        }
        if end - k == 2 && path[k] == 46 && path[k + 1] == 46 {
            assert(seg =~= seq![dot(), dot()]);
            return None;
        }
        assert(seg.len() == 1 ==> seg[0] != dot());
        assert(seg.len() == 2 ==> (seg[0] != dot() || seg[1] != dot()));
        return Some(copy_range(path, k, end));
    }
}

/// The bytes of the alias suggested for a stored file: the final component
/// of its path, or nothing where the path has none.
pub open spec fn default_alias_bytes(path: Seq<u8>) -> Seq<u8> {
    match file_name_spec(path) {
        Some(n) => n,
        None => Seq::empty(),
    }
}

/// The alias suggested for the file at `path`: the text of its final
/// component, or nothing where it has none (see [`default_alias_bytes`]).
/// Either way it holds no `/` and is not `.` or `..`, so a copy stored under
/// it lies directly in its profile's directory.
pub fn default_alias(path: &[u8]) -> (r: String)
    ensures
        r@ == lossy_text(default_alias_bytes(path@)),
        valid_utf8(default_alias_bytes(path@)) ==> r@ == decode_utf8(default_alias_bytes(path@)),
        forall|i: int| 0 <= i < r@.len() ==> #[trigger] r@[i] != '/',
        r@ != seq!['.'],
        r@ != seq!['.', '.'],
{
    let r = match file_name(path) {
        Some(n) => utf8_lossy(n.as_slice()),
        None => {
            let e: Vec<u8> = Vec::new();
            assert(e@ =~= default_alias_bytes(path@));
            utf8_lossy(e.as_slice())
        },
    };
    proof {
        let n = default_alias_bytes(path@);
        lemma_file_name_is_plain(path@);
        assert(n.len() == 0 || is_plain_component(n));
        assert forall|i: int| 0 <= i < r@.len() implies #[trigger] r@[i] != '/' by {
            if r@[i] == '/' {
                assert(r@[i] <= '\u{7f}');
                let j = choose|j: int| 0 <= j < n.len() && n[j] == r@[i] as u8;
                assert(n[j] == slash());
            }
        }
        let one = seq!['.'];
        let two = seq!['.', '.'];
        if r@ == one || r@ == two {
            assert(is_ascii_chars(r@));
            decode_utf8_encode_utf8(n);
            is_ascii_chars_encode_utf8(r@);
            assert(encode_utf8(r@) == n);
            if r@ == one {
                assert(n =~= seq![dot()]);
            } else {
                assert(n =~= seq![dot(), dot()]);
            }
        }
    }
    r
}

/// A single normal path component: not empty, no `/`, and not `.` or `..`.
pub open spec fn is_plain_component(name: Seq<u8>) -> bool {
    &&& name.len() > 0
    &&& forall|i: int| 0 <= i < name.len() ==> #[trigger] name[i] != slash()
    &&& name != seq![dot()]
    &&& name != seq![dot(), dot()]
}

/// What `Path::file_name` finds is always a single normal component.
pub proof fn lemma_file_name_is_plain(s: Seq<u8>)
    ensures
        file_name_spec(s) matches Some(n) ==> is_plain_component(n),
    decreases s.len(),
{
    if s.len() == 0 {
    } else if s.last() == slash() {
        lemma_file_name_is_plain(s.drop_last());
    } else {
        let seg = last_segment(s);
        lemma_last_segment_len(s);
        if seg == seq![dot()] {
            lemma_file_name_is_plain(s.subrange(0, s.len() - seg.len()));
        }
    }
}

proof fn lemma_last_segment_after_separator(prefix: Seq<u8>, name: Seq<u8>)
    requires
        prefix.len() == 0 || prefix.last() == slash(),
        forall|i: int| 0 <= i < name.len() ==> #[trigger] name[i] != slash(),
    ensures
        last_segment(prefix + name) == name,
    decreases name.len(),
{
    if name.len() == 0 {
        assert(prefix + name =~= prefix);
    } else {
        assert((prefix + name).drop_last() =~= prefix + name.drop_last());
        lemma_last_segment_after_separator(prefix, name.drop_last());
        assert(name.drop_last().push(name.last()) =~= name);
    }
}

/// Joining a plain component onto any directory gives a path whose final
/// component is that component.
pub proof fn lemma_file_name_of_join(base: Seq<u8>, name: Seq<u8>)
    requires
        is_plain_component(name),
    ensures
        file_name_spec(joined(base, name)) == Some(name),
{
    let j = joined(base, name);
    let prefix = if base.len() == 0 || base.last() == slash() {
        base
    } else {
        base + seq![slash()]
    };
    assert(name[0] != slash());
    assert(j =~= prefix + name);
    lemma_last_segment_after_separator(prefix, name);
    assert(j.last() == name.last());
    assert(name[name.len() - 1] != slash());
}

// ---------------------------------------------------------------------------
// Home directory

/// Whether the path bytes `path` begin with the home directory shorthand:
/// they are `~` or start with `~/`.
pub open spec fn names_home(path: Seq<u8>) -> bool {
    ||| path.len() >= 2 && path[0] == tilde() && path[1] == slash()
    ||| path == seq![tilde()]
}

/// `path` with a leading `~` replaced by the home directory `home`.
pub open spec fn expanded(path: Seq<u8>, home: Seq<u8>) -> Seq<u8> {
    if path.len() >= 2 && path[0] == tilde() && path[1] == slash() {
        joined(home, path.subrange(2, path.len() as int))
    } else if path == seq![tilde()] {
        home
    } else {
        path
    }
}

/// The typed path `path` with a leading `~` replaced by `home` (see
/// [`expanded`]).
pub fn expand_tilde_in(path: &str, home: &[u8]) -> (r: Vec<u8>)
    ensures
        r@ == expanded(path.spec_bytes(), home@),
{
    let p = path.as_bytes();
    let n = p.len();
    if n >= 2 && p[0] == 126 && p[1] == 47 {
        let rest = copy_range(p, 2, n);
        path_join(home, rest.as_slice())
    } else if n == 1 && p[0] == 126 {
        assert(p@ =~= seq![tilde()]);
        copy_range(home, 0, home.len())
    } else {
        assert(p@ != seq![tilde()]);
        copy_range(p, 0, n)
    }
}

/// The home directory of the current user, as the platform's path bytes.
///
/// Calls `dirs::home_dir` and takes the path's bytes with
/// `into_encoded_bytes`. What it returns depends on the environment (`$HOME`,
/// the password database) and is not stated, not even that it is non-empty:
/// dirs' Unix and Windows code never returns an empty path, but its Redox code
/// passes an empty home field through.
#[verifier::external_body]
fn platform_home_dir() -> (r: Option<Vec<u8>>)
{
    match dirs::home_dir() {
        Some(p) => Some(p.into_os_string().into_encoded_bytes()),
        None => None,
    }
}

/// The typed path `path` with a leading `~` replaced by the current user's
/// home directory. Paths that do not start with `~` come back unchanged;
/// where one does and the platform names no home directory, the answer is
/// `NoHomeDir`.
pub fn expand_tilde(path: &str) -> (r: Result<Vec<u8>, ProfileError>)
    ensures
        !names_home(path.spec_bytes()) ==> (r matches Ok(p) && p@ == path.spec_bytes()),
        names_home(path.spec_bytes()) ==> match r {
            Ok(p) => exists|home: Seq<u8>| p@ == #[trigger] expanded(path.spec_bytes(), home),
            Err(e) => e is NoHomeDir,
        },
{
    let p = path.as_bytes();
    let n = p.len();
    let needs = (n >= 2 && p[0] == 126 && p[1] == 47) || (n == 1 && p[0] == 126);
    if n == 1 && p[0] == 126 {
        assert(p@ =~= seq![tilde()]);
    }
    if !needs {
        assert(p@ != seq![tilde()]);
        let r = copy_range(p, 0, n);
        assert(p@.subrange(0, n as int) =~= p@);
        return Ok(r);
    }
    match platform_home_dir() {
        None => Err(ProfileError::NoHomeDir),
        Some(h) => {
            let e = expand_tilde_in(path, h.as_slice());
            assert(e@ == expanded(path.spec_bytes(), h@));
            Ok(e)
        },
    }
}

// ---------------------------------------------------------------------------
// The store's layout

/// The directory of this program's files inside the platform's configuration
/// directory `base`.
pub open spec fn config_dir_spec(base: Seq<u8>) -> Seq<u8> {
    joined(base, encode_utf8("onf"@))
}

/// Where the profiles' stored copies live, given the program's directory.
pub open spec fn profiles_dir_spec(config_dir: Seq<u8>) -> Seq<u8> {
    joined(config_dir, encode_utf8("profiles"@))
}

/// Where the store's state file lives, given the program's directory.
pub open spec fn config_path_spec(config_dir: Seq<u8>) -> Seq<u8> {
    joined(config_dir, encode_utf8("config.toml"@))
}

/// Where the copy stored under `alias` in `profile` lives, given the
/// profiles directory; `profile` and `alias` are the names' UTF-8 bytes.
pub open spec fn stored_path_spec(profiles_dir: Seq<u8>, profile: Seq<u8>, alias: Seq<u8>) -> Seq<u8> {
    joined(joined(profiles_dir, profile), alias)
}

/// The platform's configuration directory for the current user, as the
/// platform's path bytes.
///
/// Calls `dirs::config_dir` and takes the path's bytes with
/// `into_encoded_bytes`. What it returns depends on the environment and is
/// not stated; where it is some path, that path is not empty, as dirs' source
/// shows.
#[verifier::external_body]
fn platform_config_dir() -> (r: Option<Vec<u8>>)
    ensures
        r matches Some(d) ==> d@.len() > 0,
{
    match dirs::config_dir() {
        Some(p) => Some(p.into_os_string().into_encoded_bytes()),
        None => None,
    }
}

/// The program's directory inside the configuration directory `base`.
pub fn config_dir_in(base: &[u8]) -> (r: Vec<u8>)
    ensures
        r@ == config_dir_spec(base@),
{
    path_join(base, "onf".as_bytes())
}

/// The profiles directory inside the program's directory `config_dir`.
pub fn profiles_dir_in(config_dir: &[u8]) -> (r: Vec<u8>)
    ensures
        r@ == profiles_dir_spec(config_dir@),
{
    path_join(config_dir, "profiles".as_bytes())
}

/// The state file inside the program's directory `config_dir`.
pub fn config_path_in(config_dir: &[u8]) -> (r: Vec<u8>)
    ensures
        r@ == config_path_spec(config_dir@),
{
    path_join(config_dir, "config.toml".as_bytes())
}

/// The stored copy `alias` of `profile` inside `profiles_dir`.
pub fn stored_path_in(profiles_dir: &[u8], profile: &str, alias: &str) -> (r: Vec<u8>)
    ensures
        r@ == stored_path_spec(profiles_dir@, profile.spec_bytes(), alias.spec_bytes()),
{
    let d = path_join(profiles_dir, profile.as_bytes());
    path_join(d.as_slice(), alias.as_bytes())
}

/// The program's directory for the current user: `onf` inside the platform's
/// configuration directory, or `NoConfigDir` where the platform names none.
pub fn config_dir() -> (r: Result<Vec<u8>, ProfileError>)
    ensures
        match r {
            Ok(d) => exists|base: Seq<u8>| base.len() > 0 && d@ == #[trigger] config_dir_spec(base),
            Err(e) => e is NoConfigDir,
        },
{
    match platform_config_dir() {
        None => Err(ProfileError::NoConfigDir),
        Some(base) => {
            let d = config_dir_in(base.as_slice());
            assert(base@.len() > 0 && d@ == config_dir_spec(base@));
            Ok(d)
        },
    }
}

/// The profiles directory for the current user.
pub fn profiles_dir() -> (r: Result<Vec<u8>, ProfileError>)
    ensures
        match r {
            Ok(d) => exists|base: Seq<u8>|
                base.len() > 0 && d@ == profiles_dir_spec(#[trigger] config_dir_spec(base)),
            Err(e) => e is NoConfigDir,
        },
{
    let c = config_dir()?;
    let ghost base = choose|base: Seq<u8>| base.len() > 0 && c@ == #[trigger] config_dir_spec(base);
    let d = profiles_dir_in(c.as_slice());
    assert(base.len() > 0 && d@ == profiles_dir_spec(config_dir_spec(base)));
    Ok(d)
}

/// The state file for the current user.
pub fn config_path() -> (r: Result<Vec<u8>, ProfileError>)
    ensures
        match r {
            Ok(p) => exists|base: Seq<u8>|
                base.len() > 0 && p@ == config_path_spec(#[trigger] config_dir_spec(base)),
            Err(e) => e is NoConfigDir,
        },
{
    let c = config_dir()?;
    let ghost base = choose|base: Seq<u8>| base.len() > 0 && c@ == #[trigger] config_dir_spec(base);
    let p = config_path_in(c.as_slice());
    assert(base.len() > 0 && p@ == config_path_spec(config_dir_spec(base)));
    Ok(p)
}

/// Where the copy stored under `alias` in `profile` lives for the current
/// user.
pub fn stored_path(profile: &str, alias: &str) -> (r: Result<Vec<u8>, ProfileError>)
    ensures
        match r {
            Ok(p) => exists|base: Seq<u8>|
                base.len() > 0 && p@ == stored_path_spec(
                    profiles_dir_spec(#[trigger] config_dir_spec(base)),
                    profile.spec_bytes(),
                    alias.spec_bytes(),
                ),
            Err(e) => e is NoConfigDir,
        },
{
    let d = profiles_dir()?;
    let ghost base = choose|base: Seq<u8>|
        base.len() > 0 && d@ == profiles_dir_spec(#[trigger] config_dir_spec(base));
    let p = stored_path_in(d.as_slice(), profile, alias);
    assert(base.len() > 0 && p@ == stored_path_spec(
        profiles_dir_spec(config_dir_spec(base)),
        profile.spec_bytes(),
        alias.spec_bytes(),
    ));
    Ok(p)
}

} // verus!
