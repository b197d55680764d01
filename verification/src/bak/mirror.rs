//! The mirror of a file's directory below the directory of application
//! data: where the backups of a file are kept when they cannot stand
//! beside it.

use crate::bak::{Error, ErrorView};
use crate::paths::{join, parent, spec_join, spec_parent};
use crate::text::{chars_eq, from_chars, push_chars, push_str, to_chars};
use vstd::prelude::*;
use vstd::string::*;

verus! {

/// What Windows puts in front of a path that is longer than it likes.
pub open spec fn windows_prefix() -> Seq<char> {
    seq!['\\', '\\', '?', '\\']
}

/// `path` without the Windows prefixes in front of it.
pub open spec fn spec_sanitize(path: Seq<char>) -> Seq<char>
    decreases path.len(),
{
    if windows_prefix().is_prefix_of(path) {
        spec_sanitize(path.skip(4))
    } else {
        path
    }
}

/// The number of characters that the Windows prefixes in front of `path`
/// take.
fn prefix_len(path: &Vec<char>) -> (n: usize)
    ensures
        n <= path.len(),
        spec_sanitize(path@) == path@.skip(n as int),
{
    let mut n: usize = 0;
    assert(path@.skip(0) =~= path@);
    while path.len() - n >= 4 && path[n] == '\\' && path[n + 1] == '\\' && path[n + 2] == '?'
        && path[n + 3] == '\\'
        invariant
            n <= path.len(),
            spec_sanitize(path@) == spec_sanitize(path@.skip(n as int)),
        decreases path.len() - n,
    {
        proof {
            let rest = path@.skip(n as int);
            assert(rest.subrange(0, 4) =~= windows_prefix());
            assert(rest.skip(4) =~= path@.skip(n + 4));
        }
        n += 4;
    }
    proof {
        let rest = path@.skip(n as int);
        if windows_prefix().is_prefix_of(rest) {
            assert(rest.subrange(0, 4) == windows_prefix());
            assert(rest.subrange(0, 4)[0] == rest[0]);
            assert(rest.subrange(0, 4)[1] == rest[1]);
            assert(rest.subrange(0, 4)[2] == rest[2]);
            assert(rest.subrange(0, 4)[3] == rest[3]);
            assert(windows_prefix()[0] == '\\' && windows_prefix()[1] == '\\' && windows_prefix()[2]
                == '?' && windows_prefix()[3] == '\\');
        }
    }
    n
}

/// `path` without the Windows prefixes in front of it.
pub fn sanitize_windows_path_str(path: &str) -> (r: String)
    ensures
        r@ == spec_sanitize(path@),
{
    let chars = to_chars(path);
    let n = prefix_len(&chars);
    let mut out: Vec<char> = Vec::new();
    push_chars(&mut out, &chars, n, chars.len());
    assert(out@ =~= chars@.skip(n as int));
    from_chars(&out)
}

/// `path` as it is shown to the user.
pub fn sanitize_path_str(path: &str) -> (r: String)
    ensures
        r@ == spec_sanitize(path@),
{
    sanitize_windows_path_str(path)
}

/// The names between the slashes of `path` from place `i` on, `current`
/// being the name that has been read up to there.
pub open spec fn names_from(path: Seq<char>, i: int, current: Seq<char>) -> Seq<Seq<char>>
    decreases path.len() - i,
{
    if i < 0 || i >= path.len() {
        if current.len() > 0 {
            seq![current]
        } else {
            Seq::empty()
        }
    } else if path[i] == '/' {
        (if current.len() > 0 {
            seq![current]
        } else {
            Seq::empty()
        }) + names_from(path, i + 1, Seq::empty())
    } else {
        names_from(path, i + 1, current.push(path[i]))
    }
}

/// The names between the slashes of `path`, empty names left out.
pub open spec fn spec_components(path: Seq<char>) -> Seq<Seq<char>> {
    names_from(path, 0, Seq::empty())
}

/// What a name of the directory of a file adds to the mirror: nothing for
/// the names of the directory itself and of the root, the letter for a
/// Windows drive, else the name without Windows prefixes. `None` for the
/// name of the directory above, which an absolute path does not hold.
pub open spec fn spec_mirror_name(name: Seq<char>) -> Option<Seq<char>> {
    let clean = spec_sanitize(name);
    if clean == seq!['.', '.'] {
        None
    } else if clean.len() == 0 || clean == seq!['.'] || clean == seq!['\\'] {
        Some(Seq::empty())
    } else if clean.len() == 2 && clean[1] == ':' {
        Some(seq![clean[0]])
    } else {
        Some(clean)
    }
}

/// How the paths of a system are written: with slashes between the names,
/// or as Windows writes them, with backslashes or slashes between the names
/// and a drive in front.
#[derive(Clone, Copy, Debug, PartialEq, Eq)]
pub enum PathStyle {
    Posix,
    Windows,
}

/// A backslash as a slash, any other character as it is.
pub open spec fn slash_of(c: char) -> char {
    if c == '\\' {
        '/'
    } else {
        c
    }
}

/// A path of Windows without the prefixes in front of it and with a slash
/// for each backslash.
pub open spec fn spec_slashed(path: Seq<char>) -> Seq<char> {
    spec_sanitize(path).map_values(|c: char| slash_of(c))
}

/// `name` below `base` as Windows writes it: the two with one backslash
/// between them, and none where `base` is empty or ends with a separator.
pub open spec fn spec_join_windows(base: Seq<char>, name: Seq<char>) -> Seq<char> {
    if base.len() == 0 || base.last() == '\\' || base.last() == '/' {
        base + name
    } else {
        base + seq!['\\'] + name
    }
}

/// `name` below `base` in a style.
pub open spec fn spec_join_in(style: PathStyle, base: Seq<char>, name: Seq<char>) -> Seq<char> {
    match style {
        PathStyle::Posix => spec_join(base, name),
        PathStyle::Windows => spec_join_windows(base, name),
    }
}

/// The directory that holds the file `src_file`, written with slashes.
pub open spec fn spec_source_dir(style: PathStyle, src_file: Seq<char>) -> Option<Seq<char>> {
    match style {
        PathStyle::Posix => spec_parent(src_file),
        PathStyle::Windows => spec_parent(spec_slashed(src_file)),
    }
}

/// The mirror of the directory with the names `names` below `base`;
/// `None` where one of the names is the name of the directory above.
pub open spec fn spec_mirror(style: PathStyle, base: Seq<char>, names: Seq<Seq<char>>) -> Option<
    Seq<char>,
>
    decreases names.len(),
{
    if names.len() == 0 {
        Some(base)
    } else {
        match spec_mirror(style, base, names.drop_last()) {
            None => None,
            Some(front) => match spec_mirror_name(names.last()) {
                None => None,
                Some(name) => if name.len() == 0 {
                    Some(front)
                } else {
                    Some(spec_join_in(style, front, name))
                },
            },
        }
    }
}

/// The mirror of the directory of `src_file` below `base_dir` in a style:
/// `base_dir` followed by the names of the directory that holds `src_file`.
pub open spec fn spec_mirror_dir_in(style: PathStyle, base_dir: Seq<char>, src_file: Seq<char>) -> Option<
    Seq<char>,
> {
    match spec_source_dir(style, src_file) {
        None => None,
        Some(dir) => spec_mirror(style, base_dir, spec_components(dir)),
    }
}

/// The mirror of the directory of `src_file` below `base_dir`, both written
/// with slashes.
pub open spec fn spec_mirror_dir(base_dir: Seq<char>, src_file: Seq<char>) -> Option<Seq<char>> {
    spec_mirror_dir_in(PathStyle::Posix, base_dir, src_file)
}

/// What is told where the path of a file has no directory or leaves it.
pub open spec fn not_absolute() -> Seq<char> {
    "Expected absolute path"@
}

/// The texts of a list of names.
pub open spec fn name_texts(names: Seq<Vec<char>>) -> Seq<Seq<char>> {
    names.map_values(|n: Vec<char>| n@)
}

/// The names between the slashes of `path`, empty names left out.
pub fn components(path: &Vec<char>) -> (r: Vec<Vec<char>>)
    ensures
        name_texts(r@) == spec_components(path@),
{
    let mut names: Vec<Vec<char>> = Vec::new();
    let mut current: Vec<char> = Vec::new();
    let mut i: usize = 0;
    assert(name_texts(names@) + names_from(path@, 0, current@) =~= spec_components(path@));
    while i < path.len()
        invariant
            i <= path.len(),
            name_texts(names@) + names_from(path@, i as int, current@) == spec_components(path@),
        decreases path.len() - i,
    {
        let ghost before = name_texts(names@);
        let ghost read = current@;
        if path[i] == '/' {
            if current.len() > 0 {
                names.push(current);
                current = Vec::new();
                assert(name_texts(names@) =~= before.push(read));
                assert(before.push(read) =~= before + seq![read]);
            } else {
                assert(before =~= before + Seq::<Seq<char>>::empty());
            }
            assert(current@ =~= Seq::<char>::empty());
            assert(names_from(path@, i as int, read) == (if read.len() > 0 {
                seq![read]
            } else {
                Seq::<Seq<char>>::empty()
            }) + names_from(path@, i + 1, Seq::<char>::empty()));
            assert(name_texts(names@) + names_from(path@, i + 1, current@) =~= before
                + names_from(path@, i as int, read));
        } else {
            current.push(path[i]);
        }
        i += 1;
    }
    let ghost before = name_texts(names@);
    if current.len() > 0 {
        names.push(current);
        assert(name_texts(names@) =~= before.push(names@.last()@));
    }
    assert(name_texts(names@) =~= spec_components(path@));
    names
}

/// What a name of the directory of a file adds to the mirror.
fn mirror_name(name: &Vec<char>) -> (r: Option<Vec<char>>)
    ensures
        match r {
            Some(found) => spec_mirror_name(name@) == Some(found@),
            None => spec_mirror_name(name@) is None,
        },
{
    let n = prefix_len(name);
    let mut clean: Vec<char> = Vec::new();
    push_chars(&mut clean, name, n, name.len());
    assert(clean@ =~= spec_sanitize(name@));
    if clean.len() == 2 && clean[0] == '.' && clean[1] == '.' {
        assert(clean@ =~= seq!['.', '.']);
        return None;
    }
    assert(clean@ != seq!['.', '.']) by {
        if clean@ == seq!['.', '.'] {
            assert(clean@.len() == 2 && clean@[0] == seq!['.', '.'][0] && clean@[1] == seq![
                '.',
                '.',
            ][1]);
        }
    }
    if clean.len() == 0 {
        return Some(Vec::new());
    }
    if clean.len() == 1 && (clean[0] == '.' || clean[0] == '\\') {
        assert(clean@ =~= seq![clean@[0]]);
        return Some(Vec::new());
    }
    assert(clean@ != seq!['.'] && clean@ != seq!['\\']) by {
        if clean@ == seq!['.'] {
            assert(clean@.len() == 1 && clean@[0] == seq!['.'][0]);
        }
        if clean@ == seq!['\\'] {
            assert(clean@.len() == 1 && clean@[0] == seq!['\\'][0]);
        }
    }
    if clean.len() == 2 && clean[1] == ':' {
        let mut letter: Vec<char> = Vec::new();
        letter.push(clean[0]);
        assert(letter@ =~= seq![clean@[0]]);
        return Some(letter);
    }
    Some(clean)
}

/// A path of Windows without the prefixes in front of it and with a slash
/// for each backslash.
fn slashed(path: &str) -> (r: String)
    ensures
        r@ == spec_slashed(path@),
{
    let chars = to_chars(path);
    let n = prefix_len(&chars);
    let mut out: Vec<char> = Vec::new();
    let mut i: usize = n;
    let ghost clean = spec_sanitize(chars@);
    while i < chars.len()
        invariant
            n <= i <= chars.len(),
            clean == chars@.skip(n as int),
            out@ == clean.take(i - n).map_values(|c: char| slash_of(c)),
        decreases chars.len() - i,
    {
        let c = chars[i];
        out.push(if c == '\\' {
            '/'
        } else {
            c
        });
        assert(out@ =~= clean.take(i + 1 - n).map_values(|c: char| slash_of(c)));
        i += 1;
    }
    assert(clean.take(chars.len() - n) =~= clean);
    from_chars(&out)
}

/// `name` below `base` as Windows writes it.
fn join_windows(base: &str, name: &str) -> (r: String)
    ensures
        r@ == spec_join_windows(base@, name@),
{
    let mut out = to_chars(base);
    let len = out.len();
    if len > 0 && out[len - 1] != '\\' && out[len - 1] != '/' {
        out.push('\\');
    }
    push_str(&mut out, name);
    from_chars(&out)
}

/// `name` below `base` in a style.
fn join_in(style: PathStyle, base: &str, name: &str) -> (r: String)
    ensures
        r@ == spec_join_in(style, base@, name@),
{
    match style {
        PathStyle::Posix => join(base, name),
        PathStyle::Windows => join_windows(base, name),
    }
}

/// The directory that holds the file `src_file`, written with slashes.
fn source_dir(style: PathStyle, src_file: &str) -> (r: Option<String>)
    ensures
        match r {
            Some(dir) => spec_source_dir(style, src_file@) == Some(dir@),
            None => spec_source_dir(style, src_file@) is None,
        },
{
    match style {
        PathStyle::Posix => parent(src_file),
        PathStyle::Windows => {
            let path = slashed(src_file);
            parent(path.as_str())
        },
    }
}

/// The mirror of the directory of `src_file` below `base_dir` in a style.
/// Fails where `src_file` stands in no directory or its path leaves a
/// directory by `..`.
pub fn determine_mirror_dir_in(style: PathStyle, base_dir: &str, src_file: &str) -> (r: Result<
    String,
    Error,
>)
    ensures
        match r {
            Ok(dir) => spec_mirror_dir_in(style, base_dir@, src_file@) == Some(dir@),
            Err(e) => spec_mirror_dir_in(style, base_dir@, src_file@) is None && e@
                == ErrorView::Generic(not_absolute()),
        },
{
    let dir = match source_dir(style, src_file) {
        Some(dir) => dir,
        None => {
            return Err(Error::Generic(String::from_str("Expected absolute path")));
        },
    };
    let chars = to_chars(dir.as_str());
    let names = components(&chars);
    let ghost texts = name_texts(names@);
    let mut mirror = String::from_str(base_dir);
    let mut i: usize = 0;
    while i < names.len()
        invariant
            i <= names.len(),
            texts == name_texts(names@),
            spec_source_dir(style, src_file@) == Some(dir@),
            texts == spec_components(dir@),
            spec_mirror(style, base_dir@, texts.take(i as int)) == Some(mirror@),
        decreases names.len() - i,
    {
        proof {
            assert(texts.take(i + 1).drop_last() == texts.take(i as int));
            assert(texts.take(i + 1).last() == names@[i as int]@);
        }
        match mirror_name(&names[i]) {
            None => {
                proof {
                    lemma_mirror_none(style, base_dir@, texts, i + 1);
                }
                return Err(Error::Generic(String::from_str("Expected absolute path")));
            },
            Some(name) => {
                if name.len() > 0 {
                    let text = from_chars(&name);
                    mirror = join_in(style, mirror.as_str(), text.as_str());
                }
            },
        }
        i += 1;
    }
    assert(texts.take(names.len() as int) == texts);
    Ok(mirror)
}

/// The mirror of the directory of `src_file` below `base_dir`, both written
/// with slashes. Fails where `src_file` stands in no directory or its path
/// leaves a directory by `..`.
pub fn determine_mirror_dir(base_dir: &str, src_file: &str) -> (r: Result<String, Error>)
    ensures
        match r {
            Ok(dir) => spec_mirror_dir(base_dir@, src_file@) == Some(dir@),
            Err(e) => spec_mirror_dir(base_dir@, src_file@) is None && e@ == ErrorView::Generic(
                not_absolute(),
            ),
        },
{
    determine_mirror_dir_in(PathStyle::Posix, base_dir, src_file)
}

/// Where the first `k` names have no mirror, neither have all names.
proof fn lemma_mirror_none(style: PathStyle, base: Seq<char>, names: Seq<Seq<char>>, k: int)
    requires
        0 <= k <= names.len(),
        spec_mirror(style, base, names.take(k)) is None,
    ensures
        spec_mirror(style, base, names) is None,
    decreases names.len() - k,
{
    if k == names.len() {
        assert(names.take(k) == names);
    } else {
        assert(names.take(k + 1).drop_last() == names.take(k));
        lemma_mirror_none(style, base, names, k + 1);
    }
}

} // verus!
