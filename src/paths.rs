//! The rules that decide whether a configuration file path may be loaded.
//!
//! Reading the file system and the environment is left to the caller; the functions here take
//! what was read as plain values and decide.

use vstd::prelude::*;

use crate::errors::DeserializeError;

verus! {

/// The index of the last `ch` in `s`, or -1 when `s` holds none.
pub open spec fn last_index_of(s: Seq<char>, ch: char) -> int
    decreases s.len(),
{
    if s.len() == 0 {
        -1
    } else if s.last() == ch {
        s.len() - 1
    } else {
        last_index_of(s.drop_last(), ch)
    }
}

proof fn lemma_last_index_bounds(s: Seq<char>, ch: char)
    ensures
        -1 <= last_index_of(s, ch) < s.len(),
        last_index_of(s, ch) >= 0 ==> s[last_index_of(s, ch)] == ch,
        forall|j: int| last_index_of(s, ch) < j < s.len() ==> s[j] != ch,
    decreases s.len(),
{
    if s.len() > 0 {
        lemma_last_index_bounds(s.drop_last(), ch);
        assert forall|j: int| 0 <= j < s.len() - 1 implies s.drop_last()[j] == s[j] by {}
    }
}

/// The last component of a path: what follows its last `/`.
pub open spec fn file_name_of(p: Seq<char>) -> Seq<char> {
    p.subrange(last_index_of(p, '/') + 1, p.len() as int)
}

/// The extension of a path that names a file: what follows the last `.` of its last
/// component, provided that this `.` is not the component's first character. The component
/// `..` has no extension.
pub open spec fn extension_of(p: Seq<char>) -> Option<Seq<char>> {
    let name = file_name_of(p);
    let dot = last_index_of(name, '.');
    if name == seq!['.', '.'] || dot <= 0 {
        None
    } else {
        Some(name.subrange(dot + 1, name.len() as int))
    }
}

/// A path is absolute when it starts at the root.
pub open spec fn is_absolute(p: Seq<char>) -> bool {
    p.len() > 0 && p[0] == '/'
}

/// `tail` appended to `dir`, with one separator between them unless `dir` is empty or
/// already ends with one.
pub open spec fn join(dir: Seq<char>, tail: Seq<char>) -> Seq<char> {
    if dir.len() == 0 || dir.last() == '/' {
        dir + tail
    } else {
        dir + seq!['/'] + tail
    }
}

/// `p` lies at or under the directory `base`, comparing whole components. Both are meant to be
/// canonical paths: absolute, without `.` or `..` components, repeated separators, or a trailing
/// separator other than the root's.
pub open spec fn under_base(p: Seq<char>, base: Seq<char>) -> bool {
    &&& base.len() > 0
    &&& base.is_prefix_of(p)
    &&& (p.len() == base.len() || base.last() == '/' || p[base.len() as int] == '/')
}

/// The position of the last `ch` in `s`.
fn last_position(s: &str, ch: char) -> (r: Option<usize>)
    ensures
        match r {
            Some(i) => i as int == last_index_of(s@, ch) && i >= 0,
            None => last_index_of(s@, ch) == -1,
        },
{
    let n = s.unicode_len();
    let mut last: Option<usize> = None;
    let mut i: usize = 0;
    proof {
        assert(s@.take(0) =~= Seq::<char>::empty());
    }
    while i < n
        invariant
            n == s@.len(),
            i <= n,
            match last {
                Some(p) => p as int == last_index_of(s@.take(i as int), ch),
                None => last_index_of(s@.take(i as int), ch) == -1,
            },
        decreases n - i,
    {
        proof {
            assert(s@.take(i + 1).drop_last() =~= s@.take(i as int));
        }
        if s.get_char(i) == ch {
            last = Some(i);
        }
        i = i + 1;
    }
    proof {
        assert(s@.take(n as int) =~= s@);
        lemma_last_index_bounds(s@, ch);
    }
    last
}

/// The extension of `path`, as `extension_of` defines it.
pub fn file_extension(path: &str) -> (r: Option<String>)
    ensures
        match r {
            Some(e) => extension_of(path@) == Some(e@),
            None => extension_of(path@) is None,
        },
{
    proof {
        lemma_last_index_bounds(path@, '/');
    }
    let n = path.unicode_len();
    let start: usize = match last_position(path, '/') {
        Some(i) => i + 1,
        None => 0,
    };
    let name = path.substring_char(start, n);
    assert(name@ == file_name_of(path@));
    proof {
        lemma_last_index_bounds(name@, '.');
    }
    let len = name.unicode_len();
    if len == 2 && name.get_char(0) == '.' && name.get_char(1) == '.' {
        assert(name@ =~= seq!['.', '.']);
        return None;
    }
    assert(name@ != seq!['.', '.']) by {
        if name@ == seq!['.', '.'] {
            assert(name@[0] == '.' && name@[1] == '.');
        }
    }
    match last_position(name, '.') {
        Some(d) => {
            if d == 0 {
                None
            } else {
                Some(String::from_str(name.substring_char(d + 1, len)))
            }
        },
        None => None,
    }
}

/// Whether `path` lies at or under `base`, as `under_base` defines it.
pub fn is_under(path: &str, base: &str) -> (r: bool)
    ensures
        r == under_base(path@, base@),
{
    let pl = path.unicode_len();
    let bl = base.unicode_len();
    if bl == 0 || bl > pl {
        return false;
    }
    let mut i: usize = 0;
    while i < bl
        invariant
            bl == base@.len(),
            pl == path@.len(),
            0 < bl <= pl,
            i <= bl,
            forall|j: int| 0 <= j < i ==> base@[j] == path@[j],
        decreases bl - i,
    {
        if base.get_char(i) != path.get_char(i) {
            assert(!base@.is_prefix_of(path@)) by {
                assert(path@.subrange(0, bl as int)[i as int] == path@[i as int]);
            }
            return false;
        }
        i = i + 1;
    }
    assert(base@ =~= path@.subrange(0, bl as int));
    pl == bl || base.get_char(bl - 1) == '/' || path.get_char(bl) == '/'
}

/// The view of an optional string.
pub open spec fn opt_view(o: Option<String>) -> Option<Seq<char>> {
    match o {
        Some(s) => Some(s@),
        None => None,
    }
}

/// The allowed base directories, in order: the configuration home (`config_home` when set,
/// else `home` joined with `.config`, else none), then the working directory, then
/// `extra_base`, each when known.
pub open spec fn allowed_bases(
    config_home: Option<Seq<char>>,
    home: Option<Seq<char>>,
    cwd: Option<Seq<char>>,
    extra_base: Option<Seq<char>>,
) -> Seq<Seq<char>> {
    let from_home = match config_home {
        Some(dir) => seq![dir],
        None => match home {
            Some(h) => seq![join(h, seq!['.', 'c', 'o', 'n', 'f', 'i', 'g'])],
            None => seq![],
        },
    };
    let from_cwd = match cwd {
        Some(dir) => seq![dir],
        None => seq![],
    };
    let from_extra = match extra_base {
        Some(dir) => seq![dir],
        None => seq![],
    };
    from_home + from_cwd + from_extra
}

/// `dir` and `tail` joined as `join` defines it.
fn joined(dir: &str, tail: &str) -> (r: String)
    ensures
        r@ == join(dir@, tail@),
{
    let mut s = String::from_str(dir);
    let n = dir.unicode_len();
    if n > 0 && dir.get_char(n - 1) != '/' {
        s.append("/");
        proof {
            reveal_strlit("/");
        }
    }
    s.append(tail);
    s
}

/// The absolute form of `path`: `path` itself when it is absolute, else `path` joined to the
/// working directory. An unreadable working directory matters only for a relative path.
pub fn resolve_absolute(path: &str, cwd: Result<String, std::io::Error>) -> (r: Result<
    String,
    DeserializeError,
>)
    ensures
        is_absolute(path@) ==> r is Ok && r->Ok_0@ == path@,
        !is_absolute(path@) ==> match cwd {
            Ok(dir) => r is Ok && r->Ok_0@ == join(dir@, path@),
            Err(e) => r == Err::<String, DeserializeError>(DeserializeError::Io(e)),
        },
{
    if path.unicode_len() > 0 && path.get_char(0) == '/' {
        return Ok(String::from_str(path));
    }
    match cwd {
        Ok(dir) => Ok(joined(dir.as_str(), path)),
        Err(e) => Err(DeserializeError::Io(e)),
    }
}

/// Pushes `dir` when it is known.
fn push_known(bases: &mut Vec<String>, dir: Option<String>)
    ensures
        final(bases)@.map_values(|s: String| s@) == old(bases)@.map_values(|s: String| s@) + match opt_view(dir) {
            Some(d) => seq![d],
            None => Seq::<Seq<char>>::empty(),
        },
{
    match dir {
        Some(d) => {
            bases.push(d);
        },
        None => {},
    }
    assert(final(bases)@.map_values(|s: String| s@) =~= old(bases)@.map_values(|s: String| s@) + match opt_view(dir) {
        Some(d) => seq![d],
        None => Seq::<Seq<char>>::empty(),
    });
}

/// The directories under which a configuration file may lie, given the configuration home
/// variable, the home directory variable, the working directory and a caller's extra base,
/// each as far as it is known. Fails when not one is known.
pub fn allowed_base_directories(
    config_home: Option<String>,
    home: Option<String>,
    cwd: Option<String>,
    extra_base: Option<String>,
) -> (r: Result<Vec<String>, DeserializeError>)
    ensures
        ({
            let expected = allowed_bases(opt_view(config_home), opt_view(home), opt_view(cwd), opt_view(extra_base));
            match r {
                Ok(bases) => expected.len() > 0 && bases@.map_values(|s: String| s@) == expected,
                Err(e) => expected.len() == 0 && e is InvalidFilePath,
            }
        }),
{
    let mut bases: Vec<String> = Vec::new();
    let from_home: Option<String> = match config_home {
        Some(dir) => Some(dir),
        None => match home {
            Some(h) => {
                proof {
                    reveal_strlit(".config");
                }
                let r = joined(h.as_str(), ".config");
                assert(".config"@ =~= seq!['.', 'c', 'o', 'n', 'f', 'i', 'g']);
                Some(r)
            },
            None => None,
        },
    };
    proof {
        assert(bases@.map_values(|s: String| s@) =~= Seq::<Seq<char>>::empty());
    }
    push_known(&mut bases, from_home);
    push_known(&mut bases, cwd);
    push_known(&mut bases, extra_base);
    if bases.len() == 0 {
        return Err(
            DeserializeError::InvalidFilePath(
                String::from_str("No allowed base directory (set XDG_CONFIG_HOME or run from a valid CWD)"),
            ),
        );
    }
    Ok(bases)
}

/// A configuration file that passed validation: its canonical path, tagged with its format.
#[derive(Debug)]
pub enum SupportedFileTypes {
    Json(String),
    Yaml(String),
}

/// One ancestor of a candidate path (the path itself first, the root last), and whether its
/// own metadata, read without following links, reports a symbolic link.
#[derive(Debug)]
pub struct AncestorLink {
    pub path: String,
    pub is_symlink: bool,
}

/// What the file system reported about a candidate path.
#[derive(Debug)]
pub struct PathProbe {
    /// The absolute path names an existing regular file.
    pub is_file: bool,
    /// Every ancestor of the absolute path, the path itself first.
    pub ancestors: Vec<AncestorLink>,
    /// The canonical form of the absolute path.
    pub canonical: Result<String, std::io::Error>,
    /// The canonical form of each allowed base directory, `None` where that failed; or the
    /// error of `allowed_base_directories` when no base is known.
    pub canonical_bases: Result<Vec<Option<String>>, DeserializeError>,
}

/// `i` is the first ancestor in `a` that is a symbolic link.
pub open spec fn first_symlink(a: Seq<AncestorLink>, i: int) -> bool {
    &&& 0 <= i < a.len()
    &&& a[i].is_symlink
    &&& forall|j: int| 0 <= j < i ==> !(#[trigger] a[j]).is_symlink
}

/// Some known base contains `p`.
pub open spec fn under_some_base(p: Seq<char>, bases: Seq<Option<String>>) -> bool {
    exists|j: int|
        0 <= j < bases.len() && #[trigger] bases[j] is Some && under_base(p, bases[j]->Some_0@)
}

pub open spec fn json_ext() -> Seq<char> {
    seq!['j', 's', 'o', 'n']
}

pub open spec fn yaml_ext() -> Seq<char> {
    seq!['y', 'a', 'm', 'l']
}

pub open spec fn yml_ext() -> Seq<char> {
    seq!['y', 'm', 'l']
}

pub open spec fn missing_extension_text() -> Seq<char> {
    seq!['m', 'i', 's', 's', 'i', 'n', 'g', ' ', 'f', 'i', 'l', 'e', ' ', 'e', 'x', 't', 'e', 'n', 's', 'i', 'o', 'n']
}

/// The decision on a candidate path `given`, resolved to `absolute`, about which the file
/// system reported `probe`. The checks run in order and the first that fails decides:
/// a regular file; no symbolic link among the ancestors; some base known; a canonical path;
/// that path under a canonical base; and an extension of `given` that names a format.
pub open spec fn file_check_outcome(
    given: Seq<char>,
    absolute: Seq<char>,
    probe: PathProbe,
    r: Result<SupportedFileTypes, DeserializeError>,
) -> bool {
    if !probe.is_file {
        r is Err && r->Err_0 is InvalidFilePath && r->Err_0->InvalidFilePath_0@ == absolute
    } else if exists|i: int| first_symlink(probe.ancestors@, i) {
        exists|i: int|
            first_symlink(probe.ancestors@, i) && r is Err && r->Err_0 is SymlinkNotAllowed
                && r->Err_0->SymlinkNotAllowed_0@ == (#[trigger] probe.ancestors@[i]).path@
    } else if probe.canonical_bases is Err {
        r == Err::<SupportedFileTypes, DeserializeError>(probe.canonical_bases->Err_0)
    } else if probe.canonical is Err {
        r == Err::<SupportedFileTypes, DeserializeError>(DeserializeError::Io(probe.canonical->Err_0))
    } else if !under_some_base(probe.canonical->Ok_0@, probe.canonical_bases->Ok_0@) {
        r is Err && r->Err_0 is PathOutsideAllowedDirectory
            && r->Err_0->PathOutsideAllowedDirectory_0@ == probe.canonical->Ok_0@
    } else {
        match extension_of(given) {
            Some(e) => if e == json_ext() {
                r is Ok && r->Ok_0 is Json && r->Ok_0->Json_0@ == probe.canonical->Ok_0@
            } else if e == yaml_ext() || e == yml_ext() {
                r is Ok && r->Ok_0 is Yaml && r->Ok_0->Yaml_0@ == probe.canonical->Ok_0@
            } else {
                r is Err && r->Err_0 is UnsupportedFileType && r->Err_0->UnsupportedFileType_0@ == e
            },
            None => r is Err && r->Err_0 is UnsupportedFileType
                && r->Err_0->UnsupportedFileType_0@ == missing_extension_text(),
        }
    }
}

/// Fails with the first ancestor that is a symbolic link.
pub fn path_contains_no_symlink(ancestors: &Vec<AncestorLink>) -> (r: Result<(), DeserializeError>)
    ensures
        r is Ok <==> !exists|i: int| first_symlink(ancestors@, i),
        r is Err ==> exists|i: int|
            first_symlink(ancestors@, i) && r->Err_0 is SymlinkNotAllowed
                && r->Err_0->SymlinkNotAllowed_0@ == (#[trigger] ancestors@[i]).path@,
{
    let mut i: usize = 0;
    while i < ancestors.len()
        invariant
            i <= ancestors@.len(),
            forall|j: int| 0 <= j < i ==> !(#[trigger] ancestors@[j]).is_symlink,
        decreases ancestors@.len() - i,
    {
        if ancestors[i].is_symlink {
            assert(first_symlink(ancestors@, i as int));
            return Err(DeserializeError::SymlinkNotAllowed(ancestors[i].path.clone()));
        }
        i = i + 1;
    }
    Ok(())
}

/// Decides on a candidate path from what the file system reported: see `file_check_outcome`.
pub fn check_file_path(given: &str, absolute: &str, probe: PathProbe) -> (r: Result<
    SupportedFileTypes,
    DeserializeError,
>)
    ensures
        file_check_outcome(given@, absolute@, probe, r),
{
    if !probe.is_file {
        return Err(DeserializeError::InvalidFilePath(String::from_str(absolute)));
    }
    path_contains_no_symlink(&probe.ancestors)?;
    let bases = match probe.canonical_bases {
        Ok(b) => b,
        Err(e) => return Err(e),
    };
    let canonical = match probe.canonical {
        Ok(c) => c,
        Err(e) => return Err(DeserializeError::Io(e)),
    };
    let mut found = false;
    let mut j: usize = 0;
    while j < bases.len() && !found
        invariant
            j <= bases@.len(),
            found ==> under_some_base(canonical@, bases@),
            !found ==> forall|k: int|
                0 <= k < j ==> !(#[trigger] bases@[k] is Some && under_base(canonical@, bases@[k]->Some_0@)),
        decreases bases@.len() - j,
    {
        match &bases[j] {
            Some(b) => {
                if is_under(canonical.as_str(), b.as_str()) {
                    found = true;
                    assert(bases@[j as int] is Some);
                }
            },
            None => {},
        }
        j = j + 1;
    }
    if !found {
        return Err(DeserializeError::PathOutsideAllowedDirectory(canonical));
    }
    proof {
        reveal_strlit("json");
        reveal_strlit("yaml");
        reveal_strlit("yml");
        reveal_strlit("missing file extension");
        assert("json"@ =~= json_ext());
        assert("yaml"@ =~= yaml_ext());
        assert("yml"@ =~= yml_ext());
        assert("missing file extension"@ =~= missing_extension_text());
    }
    match file_extension(given) {
        Some(e) => {
            if e == String::from_str("json") {
                Ok(SupportedFileTypes::Json(canonical))
            } else if e == String::from_str("yaml") || e == String::from_str("yml") {
                Ok(SupportedFileTypes::Yaml(canonical))
            } else {
                Err(DeserializeError::UnsupportedFileType(e))
            }
        },
        None => Err(DeserializeError::UnsupportedFileType(String::from_str("missing file extension"))),
    }
}

} // verus!
