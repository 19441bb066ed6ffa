//! Paths as text: their components are separated by `/`. Repeated
//! separators, separators at the end and components that are a single `.`
//! count for nothing, except a `.` at the very beginning.

use vstd::prelude::*;

verus! {

/// The length of the first `len` characters of `text` without what counts
/// for nothing at their end: separators and `.` components.
pub open spec fn spec_trimmed_len(text: Seq<char>, len: nat) -> nat
    decreases len,
{
    if len == 0 {
        0
    } else if text[len - 1] == '/' {
        spec_trimmed_len(text, (len - 1) as nat)
    } else if text[len - 1] == '.' && len >= 2 && text[len - 2] == '/' {
        spec_trimmed_len(text, (len - 2) as nat)
    } else {
        len
    }
}

/// Where the component starts that ends at `end`: after the last separator
/// before `end`, or at the beginning.
pub open spec fn spec_component_start(text: Seq<char>, end: nat) -> nat
    decreases end,
{
    if end == 0 {
        0
    } else if text[end - 1] == '/' {
        end
    } else {
        spec_component_start(text, (end - 1) as nat)
    }
}

/// The last component of a path, taken as it stands: `None` where the path
/// has no component.
pub open spec fn spec_last_component(text: Seq<char>) -> Option<Seq<char>> {
    let end = spec_trimmed_len(text, text.len());
    if end == 0 {
        None
    } else {
        Some(text.subrange(spec_component_start(text, end) as int, end as int))
    }
}

/// The name of the file or directory that a path ends in: its last
/// component, unless that is `.` or `..` or the path has none.
pub open spec fn spec_file_name(text: Seq<char>) -> Option<Seq<char>> {
    match spec_last_component(text) {
        None => None,
        Some(name) => if name == seq!['.'] || name == seq!['.', '.'] {
            None
        } else {
            Some(name)
        },
    }
}

/// The position of the last `.` among the first `len` characters of
/// `name`.
pub open spec fn spec_last_dot(name: Seq<char>, len: nat) -> Option<int>
    decreases len,
{
    if len == 0 {
        None
    } else if name[len - 1] == '.' {
        Some(len - 1)
    } else {
        spec_last_dot(name, (len - 1) as nat)
    }
}

/// The stem of a file name: what stands before its last `.`, or the whole
/// name where it has no `.` or only the one that it begins with.
pub open spec fn spec_stem_of(name: Seq<char>) -> Seq<char> {
    match spec_last_dot(name, name.len()) {
        None => name,
        Some(at) => if at == 0 {
            name
        } else {
            name.subrange(0, at)
        },
    }
}

/// The stem of the file name of a path.
pub open spec fn spec_file_stem(text: Seq<char>) -> Option<Seq<char>> {
    match spec_file_name(text) {
        None => None,
        Some(name) => Some(spec_stem_of(name)),
    }
}

/// The path without its last component: `None` where the path has no
/// component. What is left of a path that starts at the root is at least
/// the root.
pub open spec fn spec_parent(text: Seq<char>) -> Option<Seq<char>> {
    let end = spec_trimmed_len(text, text.len());
    if end == 0 {
        None
    } else {
        let start = spec_component_start(text, end);
        let left = spec_trimmed_len(text, start);
        if start > 0 && left == 0 {
            Some(text.subrange(0, 1))
        } else {
            Some(text.subrange(0, left as int))
        }
    }
}

/// What trimming leaves is no longer than what it was given.
pub proof fn lemma_trimmed_len_is_within(text: Seq<char>, len: nat)
    ensures
        spec_trimmed_len(text, len) <= len,
    decreases len,
{
    if len > 0 {
        if text[len - 1] == '/' {
            lemma_trimmed_len_is_within(text, (len - 1) as nat);
        } else if text[len - 1] == '.' && len >= 2 && text[len - 2] == '/' {
            lemma_trimmed_len_is_within(text, (len - 2) as nat);
        }
    }
}

/// A component starts no later than it ends.
pub proof fn lemma_component_start_is_within(text: Seq<char>, end: nat)
    ensures
        spec_component_start(text, end) <= end,
    decreases end,
{
    if end > 0 && text[end - 1] != '/' {
        lemma_component_start_is_within(text, (end - 1) as nat);
    }
}

fn trimmed_len(text: &str, len: usize) -> (end: usize)
    requires
        len <= text@.len(),
    ensures
        end == spec_trimmed_len(text@, len as nat),
        end <= len,
{
    let mut end: usize = len;
    loop
        invariant
            end <= len <= text@.len(),
            spec_trimmed_len(text@, len as nat) == spec_trimmed_len(text@, end as nat),
        ensures
            spec_trimmed_len(text@, end as nat) == end,
        decreases end,
    {
        if end == 0 {
            break ;
        }
        let last = text.get_char(end - 1);
        if last == '/' {
            end -= 1;
        } else if last == '.' && end >= 2 && text.get_char(end - 2) == '/' {
            end -= 2;
        } else {
            break ;
        }
    }
    end
}

fn component_start(text: &str, end: usize) -> (start: usize)
    requires
        end <= text@.len(),
    ensures
        start == spec_component_start(text@, end as nat),
        start <= end,
{
    let mut start: usize = end;
    while start > 0 && text.get_char(start - 1) != '/'
        invariant
            start <= end <= text@.len(),
            spec_component_start(text@, end as nat) == spec_component_start(text@, start as nat),
        decreases start,
    {
        start -= 1;
    }
    start
}

fn last_dot(name: &str) -> (position: Option<usize>)
    ensures
        match position {
            Some(at) => spec_last_dot(name@, name@.len()) == Some(at as int) && at < name@.len(),
            None => spec_last_dot(name@, name@.len()) is None,
        },
{
    let len = name.unicode_len();
    let mut end: usize = len;
    while end > 0
        invariant
            end <= len,
            len == name@.len(),
            spec_last_dot(name@, len as nat) == spec_last_dot(name@, end as nat),
        decreases end,
    {
        if name.get_char(end - 1) == '.' {
            return Some(end - 1);
        }
        end -= 1;
    }
    None
}

/// The name of the file or directory that a path ends in.
pub fn file_name(path: &str) -> (name: Option<String>)
    ensures
        match name {
            Some(found) => spec_file_name(path@) == Some(found@),
            None => spec_file_name(path@) is None,
        },
{
    let len = path.unicode_len();
    let end = trimmed_len(path, len);
    if end == 0 {
        return None;
    }
    let start = component_start(path, end);
    let name = path.substring_char(start, end);
    let size = end - start;
    if size == 1 && path.get_char(start) == '.' {
        assert(name@ =~= seq!['.']);
        return None;
    }
    if size == 2 && path.get_char(start) == '.' && path.get_char(start + 1) == '.' {
        assert(name@ =~= seq!['.', '.']);
        return None;
    }
    proof {
        if name@ == seq!['.'] {
            assert(name@[0] == '.');
        }
        if name@ == seq!['.', '.'] {
            assert(name@[0] == '.' && name@[1] == '.');
        }
    }
    Some(String::from_str(name))
}

/// The stem of a file name.
pub fn stem_of(name: &str) -> (stem: String)
    ensures
        stem@ == spec_stem_of(name@),
{
    match last_dot(name) {
        None => String::from_str(name),
        Some(at) => if at == 0 {
            String::from_str(name)
        } else {
            String::from_str(name.substring_char(0, at))
        },
    }
}

/// The stem of the file name of a path.
pub fn file_stem(path: &str) -> (stem: Option<String>)
    ensures
        match stem {
            Some(found) => spec_file_stem(path@) == Some(found@),
            None => spec_file_stem(path@) is None,
        },
{
    match file_name(path) {
        None => None,
        Some(name) => Some(stem_of(name.as_str())),
    }
}

/// The path without its last component.
pub fn parent(path: &str) -> (above: Option<String>)
    ensures
        match above {
            Some(found) => spec_parent(path@) == Some(found@),
            None => spec_parent(path@) is None,
        },
{
    let len = path.unicode_len();
    let end = trimmed_len(path, len);
    if end == 0 {
        return None;
    }
    let start = component_start(path, end);
    let left = trimmed_len(path, start);
    if start > 0 && left == 0 {
        Some(String::from_str(path.substring_char(0, 1)))
    } else {
        Some(String::from_str(path.substring_char(0, left)))
    }
}

} // verus!
