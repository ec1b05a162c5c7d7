//! Textual path handling.
//!
//! The library reads a path only as text: its parent directory (everything
//! before the last separator), its file name (everything after), and the file
//! name's extension (everything after the last dot). Paths are produced by a
//! directory walk, so they use single `/` separators and do not end in one.

use vstd::prelude::*;

verus! {

/// The parent directory of a path: the text before the last `/`, the lone
/// root `/` when the separator is first, and the empty string for a bare
/// file name.
pub open spec fn spec_parent_dir(p: Seq<char>) -> Seq<char> {
    match p.index_of_last('/') {
        Some(j) => if j == 0 {
            p.subrange(0, 1)
        } else {
            p.subrange(0, j)
        },
        None => Seq::empty(),
    }
}

/// The file name of a path: the text after the last `/`, or the whole path
/// when it has no separator.
pub open spec fn spec_file_name(p: Seq<char>) -> Seq<char> {
    match p.index_of_last('/') {
        Some(j) => p.subrange(j + 1, p.len() as int),
        None => p,
    }
}

/// The extension of a path: the text after the last `.` of its file name.
/// A file name without a dot has none, and a leading dot (a hidden file)
/// does not begin an extension.
pub open spec fn spec_extension(p: Seq<char>) -> Option<Seq<char>> {
    let name = spec_file_name(p);
    match name.index_of_last('.') {
        Some(k) => if k == 0 {
            None
        } else {
            Some(name.subrange(k + 1, name.len() as int))
        },
        None => None,
    }
}

/// Whether the last path component starts with the hidden-file marker.
pub open spec fn spec_is_hidden(p: Seq<char>) -> bool {
    spec_file_name(p).len() > 0 && spec_file_name(p)[0] == '.'
}

/// The extension `mp3`, compared without regard to letter case.
pub open spec fn spec_ext_is_mp3(e: Seq<char>) -> bool {
    e.len() == 3 && (e[0] == 'm' || e[0] == 'M') && (e[1] == 'p' || e[1] == 'P') && e[2] == '3'
}

/// The extension `m4a`, compared without regard to letter case.
pub open spec fn spec_ext_is_m4a(e: Seq<char>) -> bool {
    e.len() == 3 && (e[0] == 'm' || e[0] == 'M') && e[1] == '4' && (e[2] == 'a' || e[2] == 'A')
}

/// The extension `flac`, compared without regard to letter case.
pub open spec fn spec_ext_is_flac(e: Seq<char>) -> bool {
    e.len() == 4 && (e[0] == 'f' || e[0] == 'F') && (e[1] == 'l' || e[1] == 'L') && (e[2] == 'a'
        || e[2] == 'A') && (e[3] == 'c' || e[3] == 'C')
}

/// The fixed set of supported audio container extensions.
pub open spec fn spec_is_supported_ext(e: Seq<char>) -> bool {
    spec_ext_is_mp3(e) || spec_ext_is_m4a(e) || spec_ext_is_flac(e)
}

/// Whether a path names a file the walker should extract metadata from.
pub open spec fn spec_is_supported_audio_file(p: Seq<char>) -> bool {
    match spec_extension(p) {
        Some(e) => spec_is_supported_ext(e),
        None => false,
    }
}

/// Finds the index of the last occurrence of `needle` in `s`.
fn find_last(s: &str, needle: char) -> (r: Option<usize>)
    ensures
        match r {
            Some(j) => s@.index_of_last(needle) == Some(j as int),
            None => s@.index_of_last(needle) is None,
        },
{
    let n = s.unicode_len();
    let mut i: usize = 0;
    let mut found: Option<usize> = None;
    while i < n
        invariant
            i <= n,
            n == s@.len(),
            match found {
                Some(j) => j < i && s@[j as int] == needle && (forall|x: int|
                    j < x < i ==> s@[x] != needle),
                None => forall|x: int| 0 <= x < i ==> s@[x] != needle,
            },
        decreases n - i,
    {
        if s.get_char(i) == needle {
            found = Some(i);
        }
        i = i + 1;
    }
    proof {
        s@.index_of_last_ensures(needle);
        match found {
            Some(j) => {
                assert(s@.contains(s@[j as int]));
            },
            None => {
                if s@.contains(needle) {
                    let w = choose|w: int| 0 <= w < s@.len() && s@[w] == needle;
                    assert(false);
                }
            },
        }
    }
    found
}

/// The parent directory of a file path, as text before the last separator.
pub fn parent_dir(path: &str) -> (r: String)
    ensures
        r@ == spec_parent_dir(path@),
{
    match find_last(path, '/') {
        Some(j) => {
            proof {
                path@.index_of_last_ensures('/');
            }
            if j == 0 {
                path.substring_char(0, 1).to_owned()
            } else {
                path.substring_char(0, j).to_owned()
            }
        },
        None => String::new(),
    }
}

/// The file name of a path: the text after the last separator.
pub fn file_name(path: &str) -> (r: String)
    ensures
        r@ == spec_file_name(path@),
{
    let n = path.unicode_len();
    match find_last(path, '/') {
        Some(j) => {
            proof {
                path@.index_of_last_ensures('/');
            }
            path.substring_char(j + 1, n).to_owned()
        },
        None => path.to_owned(),
    }
}

/// The extension of a path, if its file name has one.
pub fn extension_of(path: &str) -> (r: Option<String>)
    ensures
        match r {
            Some(e) => spec_extension(path@) == Some(e@),
            None => spec_extension(path@) is None,
        },
{
    let name = file_name(path);
    let n = name.as_str().unicode_len();
    match find_last(name.as_str(), '.') {
        Some(k) => {
            if k == 0 {
                None
            } else {
                proof {
                    name@.index_of_last_ensures('.');
                }
                Some(name.as_str().substring_char(k + 1, n).to_owned())
            }
        },
        None => None,
    }
}

/// Whether the last path component starts with the hidden-file marker `.`.
pub fn is_hidden(path: &str) -> (r: bool)
    ensures
        r == spec_is_hidden(path@),
{
    let name = file_name(path);
    if name.as_str().unicode_len() == 0 {
        false
    } else {
        name.as_str().get_char(0) == '.'
    }
}

/// Whether an extension is one of the supported audio container types,
/// compared without regard to letter case.
fn is_supported_ext(e: &str) -> (r: bool)
    ensures
        r == spec_is_supported_ext(e@),
{
    let n = e.unicode_len();
    if n == 3 {
        let c0 = e.get_char(0);
        let c1 = e.get_char(1);
        let c2 = e.get_char(2);
        ((c0 == 'm' || c0 == 'M') && (c1 == 'p' || c1 == 'P') && c2 == '3') || ((c0 == 'm' || c0
            == 'M') && c1 == '4' && (c2 == 'a' || c2 == 'A'))
    } else if n == 4 {
        let c0 = e.get_char(0);
        let c1 = e.get_char(1);
        let c2 = e.get_char(2);
        let c3 = e.get_char(3);
        (c0 == 'f' || c0 == 'F') && (c1 == 'l' || c1 == 'L') && (c2 == 'a' || c2 == 'A') && (c3
            == 'c' || c3 == 'C')
    } else {
        false
    }
}

/// Whether a path names a file of a supported audio container type.
pub fn is_supported_audio_file(path: &str) -> (r: bool)
    ensures
        r == spec_is_supported_audio_file(path@),
{
    match extension_of(path) {
        Some(e) => is_supported_ext(e.as_str()),
        None => false,
    }
}

} // verus!
