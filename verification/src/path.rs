//! Unix path text: joining a directory with a component, and the extension of
//! a file name, as `std::path` defines them on Unix.

use vstd::prelude::*;
use vstd::string::{StrSliceExecFns, StringExecFns};

verus! {

/// `base` joined with `part` (as `Path::join` on Unix): an absolute `part`
/// replaces `base`; otherwise a `/` separates the two unless `base` is empty
/// or already ends with one.
pub open spec fn join_path_spec(base: Seq<char>, part: Seq<char>) -> Seq<char> {
    if part.len() > 0 && part[0] == '/' {
        part
    } else if base.len() == 0 {
        part
    } else if base.last() == '/' {
        base + part
    } else {
        base.push('/') + part
    }
}

/// Index of the last `.` in `name` before index `end`, or -1.
pub open spec fn last_dot_before(name: Seq<char>, end: int) -> int
    decreases end,
{
    if end <= 0 {
        -1
    } else if name[end - 1] == '.' {
        end - 1
    } else {
        last_dot_before(name, end - 1)
    }
}

/// Extension of a file name (as `Path::extension`): the text after the last
/// `.`, provided that something precedes that dot; `..` has none.
pub open spec fn extension_spec(name: Seq<char>) -> Option<Seq<char>> {
    let k = last_dot_before(name, name.len() as int);
    if name == seq!['.', '.'] || k <= 0 {
        None
    } else {
        Some(name.subrange(k + 1, name.len() as int))
    }
}

/// Joins a directory and a path component (as `Path::join` on Unix).
pub fn join_path(base: &str, part: &str) -> (r: String)
    ensures
        r@ == join_path_spec(base@, part@),
{
    let m = part.unicode_len();
    let n = base.unicode_len();
    if m > 0 && part.get_char(0) == '/' {
        String::from_str(part)
    } else if n == 0 {
        String::from_str(part)
    } else if base.get_char(n - 1) == '/' {
        let mut r = String::from_str(base);
        r.append(part);
        r
    } else {
        let mut r = String::from_str(base);
        r.append("/");
        proof {
            reveal_strlit("/");
        }
        assert(r@ =~= base@.push('/'));
        r.append(part);
        r
    }
}

/// Extension of a file name (see `extension_spec`).
pub fn extension<'a>(name: &'a str) -> (r: Option<&'a str>)
    ensures
        r is None ==> extension_spec(name@) is None,
        r matches Some(e) ==> extension_spec(name@) == Some(e@),
{
    let n = name.unicode_len();
    if n == 2 && name.get_char(0) == '.' && name.get_char(1) == '.' {
        assert(name@ =~= seq!['.', '.']);
        return None;
    }
    let mut end: usize = n;
    while end > 0 && name.get_char(end - 1) != '.'
        invariant
            n == name@.len(),
            end <= n,
            last_dot_before(name@, end as int) == last_dot_before(name@, n as int),
        decreases end,
    {
        end = end - 1;
    }
    if end <= 1 {
        return None;
    }
    Some(name.substring_char(end, n))
}

} // verus!
