//! File names: the label that names the listing's sections, and the test
//! for the extension of the input file. A path is read with `/` between its
//! parts.

use vstd::prelude::*;
use vstd::string::*;

verus! {

/// The index of the last `c` in `s`, or -1 where `s` holds none.
pub open spec fn last_index_of(s: Seq<char>, c: char) -> int
    decreases s.len(),
{
    if s.len() == 0 {
        -1
    } else if s.last() == c {
        s.len() - 1
    } else {
        last_index_of(s.drop_last(), c)
    }
}

/// The file name of a path: what follows its last `/`.
pub open spec fn file_name(path: Seq<char>) -> Seq<char> {
    path.skip(last_index_of(path, '/') + 1)
}

/// Where the extension of a file name starts: at its last `.`, unless the
/// name has none or only begins with one.
pub open spec fn extension_dot(name: Seq<char>) -> Option<int> {
    let dot = last_index_of(name, '.');
    if dot <= 0 {
        None
    } else {
        Some(dot)
    }
}

/// A file name without its final extension.
pub open spec fn stem(name: Seq<char>) -> Seq<char> {
    match extension_dot(name) {
        Some(dot) => name.take(dot),
        None => name,
    }
}

/// The final extension of a file name, without its `.`.
pub open spec fn extension(name: Seq<char>) -> Option<Seq<char>> {
    match extension_dot(name) {
        Some(dot) => Some(name.skip(dot + 1)),
        None => None,
    }
}

/// The label for a path: its file name without directory and extension.
pub open spec fn label(path: Seq<char>) -> Seq<char> {
    stem(file_name(path))
}

/// Whether `ext` is `gif` in any mix of upper and lower case.
pub open spec fn is_gif(ext: Seq<char>) -> bool {
    &&& ext.len() == 3
    &&& (ext[0] == 'g' || ext[0] == 'G')
    &&& (ext[1] == 'i' || ext[1] == 'I')
    &&& (ext[2] == 'f' || ext[2] == 'F')
}

/// Why a file name is refused as input.
#[derive(Clone, Copy, Debug, PartialEq, Eq, Structural)]
pub enum NameError {
    /// The name has no extension.
    NoExtension,
    /// The extension is not `gif`.
    NotGif,
}

/// What the test of an input name returns.
pub open spec fn name_check(path: Seq<char>) -> Result<(), NameError> {
    match extension(file_name(path)) {
        None => Err(NameError::NoExtension),
        Some(ext) => if is_gif(ext) {
            Ok(())
        } else {
            Err(NameError::NotGif)
        },
    }
}

/// The index of the last `c` in `s`, counted in characters.
pub fn find_last(s: &str, c: char) -> (r: Option<usize>)
    ensures
        match r {
            Some(i) => i == last_index_of(s@, c),
            None => last_index_of(s@, c) == -1,
        },
        -1 <= last_index_of(s@, c) < s@.len(),
        last_index_of(s@, c) >= 0 ==> s@[last_index_of(s@, c)] == c,
{
    let n: usize = s.unicode_len();
    let mut i: usize = 0;
    let mut found: Option<usize> = None;
    while i < n
        invariant
            n == s@.len(),
            i <= n,
            match found {
                Some(j) => j == last_index_of(s@.take(i as int), c),
                None => last_index_of(s@.take(i as int), c) == -1,
            },
            -1 <= last_index_of(s@.take(i as int), c) < i,
            last_index_of(s@.take(i as int), c) >= 0 ==> s@[last_index_of(s@.take(i as int), c)]
                == c,
        decreases n - i,
    {
        proof {
            assert(s@.take(i + 1).drop_last() =~= s@.take(i as int));
        }
        if s.get_char(i) == c {
            found = Some(i);
        }
        i += 1;
    }
    assert(s@.take(n as int) =~= s@);
    found
}

/// The file name of a path: what follows its last `/`.
pub fn name_of(path: &str) -> (r: &str)
    ensures
        r@ == file_name(path@),
{
    let n: usize = path.unicode_len();
    let from: usize = match find_last(path, '/') {
        Some(i) => i + 1,
        None => 0,
    };
    let r = path.substring_char(from, n);
    assert(r@ =~= file_name(path@));
    r
}

/// The label for a path: its file name without directory and extension.
pub fn label_of(path: &str) -> (r: String)
    ensures
        r@ == label(path@),
{
    let name: &str = name_of(path);
    let text: &str = match find_last(name, '.') {
        Some(dot) => if dot > 0 {
            name.substring_char(0, dot)
        } else {
            name
        },
        None => name,
    };
    assert(text@ =~= stem(name@));
    String::from_str(text)
}

/// Tests the name of an input file: it must end in the extension `gif`,
/// in upper or lower case.
pub fn check_filename(filename: &str) -> (r: Result<(), NameError>)
    ensures
        r == name_check(filename@),
{
    let name: &str = name_of(filename);
    let n: usize = name.unicode_len();
    match find_last(name, '.') {
        Some(dot) => {
            if dot == 0 {
                return Err(NameError::NoExtension);
            }
            let ext: &str = name.substring_char(dot + 1, n);
            assert(ext@ =~= name@.skip(dot + 1));
            if ext.unicode_len() != 3 {
                return Err(NameError::NotGif);
            }
            let g: char = ext.get_char(0);
            let i: char = ext.get_char(1);
            let f: char = ext.get_char(2);
            if (g == 'g' || g == 'G') && (i == 'i' || i == 'I') && (f == 'f' || f == 'F') {
                Ok(())
            } else {
                Err(NameError::NotGif)
            }
        },
        None => Err(NameError::NoExtension),
    }
}

} // verus!
