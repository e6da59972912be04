//! Reading the parts of a path. Paths are texts whose components are
//! separated by `/`.

use vstd::prelude::*;

use crate::text::{find_last, from_chars, last_index_of, to_chars};

verus! {

/// The lower-case form of `text` as `str::to_lowercase` gives it.
pub uninterp spec fn lowercase(text: Seq<char>) -> Seq<char>;

/// `str::to_lowercase`: the lower-case form of `text` by the Unicode rules.
/// The result depends on the text alone.
#[verifier::external_body]
pub(crate) fn to_lowercase(text: &str) -> (lower: String)
    ensures
        lower@ == lowercase(text@),
{
    text.to_lowercase()
}

/// The length of `path` without what does not count at its end: separators,
/// and components that are a single dot.
pub open spec fn significant_len(path: Seq<char>) -> int
    decreases path.len(),
{
    if path.len() == 0 {
        0
    } else if path.last() == '/' {
        significant_len(path.drop_last())
    } else if path.last() == '.' && (path.len() == 1 || path[path.len() - 2] == '/') {
        significant_len(path.drop_last())
    } else {
        path.len() as int
    }
}

/// The last component of `path`, unless the path has none or ends in `..`.
pub open spec fn file_name_of(path: Seq<char>) -> Option<Seq<char>> {
    let head = path.take(significant_len(path));
    let name = head.skip(last_index_of(head, '/') + 1);
    if head.len() == 0 || name == ".."@ {
        None
    } else {
        Some(name)
    }
}

/// The extension of `path`: what follows the last dot of its file name,
/// unless the file name has no dot or its only dot is its first character.
pub open spec fn extension_of(path: Seq<char>) -> Option<Seq<char>> {
    match file_name_of(path) {
        Some(name) => if last_index_of(name, '.') <= 0 {
            None
        } else {
            Some(name.skip(last_index_of(name, '.') + 1))
        },
        None => None,
    }
}

/// The characters of the last component of `path`, if it has one.
fn file_name_chars(path: &str) -> (name: Option<Vec<char>>)
    ensures
        match name {
            Some(n) => file_name_of(path@) == Some(n@),
            None => file_name_of(path@) is None,
        },
{
    let mut v = to_chars(path);
    let ghost whole = v@;
    let mut end: usize = v.len();
    assert(v@.take(end as int) == v@);
    while end > 0 && (v[end - 1] == '/' || (v[end - 1] == '.' && (end == 1 || v[end - 2] == '/')))
        invariant
            end <= v.len(),
            significant_len(v@) == significant_len(v@.take(end as int)),
        decreases end,
    {
        assert(v@.take(end as int).drop_last() == v@.take(end - 1));
        end -= 1;
    }
    assert(significant_len(v@) == end);
    if end == 0 {
        return None;
    }
    v.truncate(end);
    let head_chars = v;
    assert(head_chars@ == whole.take(end as int));
    let start: usize = match find_last(&head_chars, '/') {
        Some(at) => at + 1,
        None => 0,
    };
    let mut name: Vec<char> = Vec::new();
    let mut i: usize = start;
    while i < end
        invariant
            start <= i <= end,
            end == head_chars.len(),
            name@ == head_chars@.subrange(start as int, i as int),
        decreases end - i,
    {
        name.push(head_chars[i]);
        i += 1;
    }
    assert(name@ == head_chars@.skip(start as int));
    proof {
        reveal_strlit("..");
    }
    if name.len() == 2 && name[0] == '.' && name[1] == '.' {
        assert(name@ == ".."@);
        None
    } else {
        Some(name)
    }
}

/// The last component of `path`, unless the path has none or ends in `..`.
pub fn file_name(path: &str) -> (name: Option<String>)
    ensures
        match name {
            Some(n) => file_name_of(path@) == Some(n@),
            None => file_name_of(path@) is None,
        },
{
    match file_name_chars(path) {
        Some(chars) => {
            assert(chars@.subrange(0, chars.len() as int) == chars@);
            Some(from_chars(&chars, 0, chars.len()))
        },
        None => None,
    }
}

/// The extension of `path`, unless its file name has none.
pub fn extension(path: &str) -> (ext: Option<String>)
    ensures
        match ext {
            Some(e) => extension_of(path@) == Some(e@),
            None => extension_of(path@) is None,
        },
{
    match file_name_chars(path) {
        Some(chars) => match find_last(&chars, '.') {
            Some(dot) => {
                if dot == 0 {
                    None
                } else {
                    assert(chars@.subrange(dot + 1, chars.len() as int) == chars@.skip(dot + 1));
                    Some(from_chars(&chars, dot + 1, chars.len()))
                }
            },
            None => None,
        },
        None => None,
    }
}

} // verus!
