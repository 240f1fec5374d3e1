//! Paths as text: components separated by `/`, the last one the file name.

use crate::text::{chars_of, find_last, last_index_of, lemma_last_index_of};
use vstd::prelude::*;

verus! {

/// Where the file name of `path` begins: behind its last `/`.
pub open spec fn file_name_start(path: Seq<char>) -> int {
    last_index_of(path, '/') + 1
}

/// The last component of `path`.
pub open spec fn file_name(path: Seq<char>) -> Seq<char> {
    path.skip(file_name_start(path))
}

/// The position in `path` of the dot that begins the extension of its file
/// name: the last dot of the file name, unless that is its first character.
pub open spec fn extension_dot(path: Seq<char>) -> Option<int> {
    let dot = last_index_of(file_name(path), '.');
    if dot > 0 {
        Some(file_name_start(path) + dot)
    } else {
        None
    }
}

/// The outermost extension of the file name of `path`, without its dot.
pub open spec fn extension_of(path: Seq<char>) -> Option<Seq<char>> {
    match extension_dot(path) {
        Some(dot) => Some(path.skip(dot + 1)),
        None => None,
    }
}

/// `path` without the outermost extension of its file name and without the
/// dot before it; `path` itself where the file name has no extension.
pub open spec fn without_extension(path: Seq<char>) -> Seq<char> {
    match extension_dot(path) {
        Some(dot) => path.take(dot),
        None => path,
    }
}

/// The path of the entry `name` of the directory `dir`.
pub open spec fn joined(dir: Seq<char>, name: Seq<char>) -> Seq<char> {
    if dir.len() == 0 {
        name
    } else if dir.last() == '/' {
        dir + name
    } else {
        dir + seq!['/'] + name
    }
}

/// The dot of the extension lies inside the file name and behind its first
/// character, and the extension holds neither a dot nor a separator.
pub proof fn lemma_extension_dot(path: Seq<char>)
    ensures
        0 <= file_name_start(path) <= path.len(),
        match extension_dot(path) {
            Some(dot) => {
                &&& file_name_start(path) < dot < path.len()
                &&& path[dot] == '.'
                &&& forall|j: int| dot < j < path.len() ==> path[j] != '.' && path[j] != '/'
            },
            None => forall|j: int| file_name_start(path) < j < path.len() ==> path[j] != '.',
        },
{
    lemma_last_index_of(path, '/');
    let start = file_name_start(path);
    let name = file_name(path);
    lemma_last_index_of(name, '.');
    let dot = last_index_of(name, '.');
    assert forall|j: int| start <= j < path.len() implies path[j] == name[j - start] by {}
}

/// Two entries of one directory have the same path only where they have the
/// same name.
pub proof fn lemma_joined_injective(dir: Seq<char>, first: Seq<char>, second: Seq<char>)
    requires
        joined(dir, first) == joined(dir, second),
    ensures
        first == second,
{
    let head = if dir.len() == 0 || dir.last() == '/' {
        dir
    } else {
        dir + seq!['/']
    };
    assert(joined(dir, first) =~= head + first);
    assert(joined(dir, second) =~= head + second);
    assert(first =~= (head + first).skip(head.len() as int));
    assert(second =~= (head + second).skip(head.len() as int));
}

/// Finds the dot that begins the extension of the file name among `chars`.
fn find_extension_dot(chars: &Vec<char>) -> (found: Option<usize>)
    ensures
        match found {
            Some(dot) => extension_dot(chars@) == Some(dot as int),
            None => extension_dot(chars@) is None,
        },
{
    let n = chars.len();
    let slash = find_last(chars, '/');
    proof {
        lemma_last_index_of(chars@, '/');
    }
    let start: usize = match slash {
        Some(at) => at + 1,
        None => 0,
    };
    let ghost name = file_name(chars@);
    let mut i: usize = n;
    while i > start
        invariant
            start == file_name_start(chars@),
            start <= i <= chars.len(),
            name == chars@.skip(start as int),
            forall|j: int| i - start <= j < name.len() ==> name[j] != '.',
        decreases i,
    {
        i -= 1;
        if chars[i] == '.' {
            proof {
                crate::text::lemma_last_index_of_unique(name, '.', i - start);
            }
            if i > start {
                return Some(i);
            } else {
                return None;
            }
        }
    }
    proof {
        crate::text::lemma_last_index_of_unique(name, '.', -1);
    }
    None
}

/// The outermost extension of the file name of `path`, without its dot:
/// `gz` for `tool.tar.gz`, nothing for `README` and for `.profile`.
pub fn extension(path: &str) -> (found: Option<String>)
    ensures
        match found {
            Some(text) => extension_of(path@) == Some(text@),
            None => extension_of(path@) is None,
        },
{
    let chars = chars_of(path);
    match find_extension_dot(&chars) {
        Some(dot) => {
            proof {
                lemma_extension_dot(path@);
            }
            Some(path.substring_char(dot + 1, chars.len()).to_string())
        },
        None => None,
    }
}

/// `path` without the outermost extension of its file name: `dir/tool.tar`
/// for `dir/tool.tar.gz`.
pub fn strip_extension(path: &str) -> (stripped: String)
    ensures
        stripped@ == without_extension(path@),
{
    let chars = chars_of(path);
    match find_extension_dot(&chars) {
        Some(dot) => {
            proof {
                lemma_extension_dot(path@);
            }
            path.substring_char(0, dot).to_string()
        },
        None => path.to_string(),
    }
}

/// The path of the entry `name` of the directory `dir`: the two with one
/// separator between them, or `name` alone where `dir` is empty.
pub fn join(dir: &str, name: &str) -> (path: String)
    ensures
        path@ == joined(dir@, name@),
{
    let chars = chars_of(dir);
    let mut path = dir.to_string();
    if chars.len() > 0 && chars[chars.len() - 1] != '/' {
        proof {
            reveal_strlit("/");
        }
        path.append("/");
    }
    path.append(name);
    path
}

} // verus!
