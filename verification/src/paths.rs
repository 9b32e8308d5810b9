//! Verified helpers over path strings: telling an explicit local path from
//! an ambiguous bare name, and extracting the last path segment that names
//! a new extension.

use vstd::prelude::*;
use vstd::string::*;

use crate::errors::ExtensionError;

verus! {

/// Path separators recognised in arguments.
pub open spec fn is_separator(c: char) -> bool {
    c == '/' || c == '\\'
}

/// Whether the string holds a path separator anywhere.
pub open spec fn has_separator(s: Seq<char>) -> bool {
    exists|i: int| 0 <= i < s.len() && is_separator(s[i])
}

/// Whether `path` is an explicit local path. A bare name without any
/// separator is reserved for other resolution schemes and is refused by
/// the install operation.
pub fn is_explicit_path(path: &str) -> (r: bool)
    ensures
        r == has_separator(path@),
{
    let len = path.unicode_len();
    let mut i: usize = 0;
    while i < len
        invariant
            i <= len,
            len == path@.len(),
            forall|j: int| 0 <= j < i ==> !is_separator(#[trigger] path@[j]),
        decreases len - i,
    {
        let c = path.get_char(i);
        if c == '/' || c == '\\' {
            return true;
        }
        i = i + 1;
    }
    false
}

/// Refuses an ambiguous install argument: a bare name without any
/// separator is reserved for other resolution schemes, so an extension may
/// only be installed from an explicit local path.
pub fn check_install_path(path: &str) -> (r: Result<(), ExtensionError>)
    ensures
        r is Ok <==> has_separator(path@),
        r is Err ==> r->Err_0 == ExtensionError::InvalidPath,
{
    if is_explicit_path(path) {
        Ok(())
    } else {
        Err(ExtensionError::InvalidPath)
    }
}

/// The string with its trailing separators removed.
pub open spec fn trim_trailing_separators(s: Seq<char>) -> Seq<char>
    decreases s.len(),
{
    if s.len() > 0 && is_separator(s.last()) {
        trim_trailing_separators(s.drop_last())
    } else {
        s
    }
}

/// What follows the last separator; the whole string when it has none.
pub open spec fn after_last_separator(s: Seq<char>) -> Seq<char>
    decreases s.len(),
{
    if s.len() == 0 {
        Seq::empty()
    } else if is_separator(s.last()) {
        Seq::empty()
    } else {
        after_last_separator(s.drop_last()).push(s.last())
    }
}

/// The last path segment: what follows the last separator once trailing
/// separators are dropped; `None` when nothing is left.
pub open spec fn spec_file_name(s: Seq<char>) -> Option<Seq<char>> {
    let t = after_last_separator(trim_trailing_separators(s));
    if t.len() == 0 {
        None
    } else {
        Some(t)
    }
}

/// In a string whose suffix from `start` on holds no separator, and where
/// `start` is either the beginning or preceded by a separator, what follows
/// the last separator is exactly that suffix.
proof fn lemma_after_last(s: Seq<char>, start: int)
    requires
        0 <= start <= s.len(),
        forall|j: int| start <= j < s.len() ==> !is_separator(#[trigger] s[j]),
        start == 0 || is_separator(s[start - 1]),
    ensures
        after_last_separator(s) =~= s.subrange(start, s.len() as int),
    decreases s.len(),
{
    if s.len() == 0 {
    } else if is_separator(s.last()) {
        assert(start == s.len());
    } else {
        assert(start < s.len());
        assert forall|j: int| start <= j < s.len() - 1 implies !is_separator(
            #[trigger] s.drop_last()[j],
        ) by {
            assert(s.drop_last()[j] == s[j]);
        }
        lemma_after_last(s.drop_last(), start);
        assert(s.drop_last().subrange(start, s.len() - 1).push(s.last()) =~= s.subrange(
            start,
            s.len() as int,
        ));
    }
}

/// The last path segment of `path`: what a scaffolding operation takes as
/// the new extension's name. `None` when the path consists of separators
/// alone or is empty.
pub fn file_name(path: &str) -> (r: Option<String>)
    ensures
        r is Some <==> spec_file_name(path@) is Some,
        r matches Some(x) ==> spec_file_name(path@) == Some(x@),
{
    let len = path.unicode_len();
    let mut end = len;
    let mut found_stem = false;
    proof {
        assert(path@.take(len as int) =~= path@);
    }
    while !found_stem && end > 0
        invariant
            end <= len,
            len == path@.len(),
            trim_trailing_separators(path@) == trim_trailing_separators(
                path@.take(end as int),
            ),
            found_stem ==> end > 0 && !is_separator(path@[end - 1]),
        decreases end + if found_stem {
            0int
        } else {
            1int
        },
    {
        let c = path.get_char(end - 1);
        if c == '/' || c == '\\' {
            proof {
                assert(path@.take(end as int).last() == path@[end - 1]);
                assert(path@.take(end as int).drop_last() =~= path@.take(end - 1));
            }
            end = end - 1;
        } else {
            found_stem = true;
        }
    }
    if !found_stem {
        proof {
            assert(path@.take(0) =~= Seq::<char>::empty());
        }
        return None;
    }
    proof {
        assert(!is_separator(path@.take(end as int).last()));
        assert(trim_trailing_separators(path@) == path@.take(end as int));
    }
    let mut start = end;
    let mut found_sep = false;
    while !found_sep && start > 0
        invariant
            start <= end <= len,
            0 < end,
            len == path@.len(),
            !is_separator(path@[end - 1]),
            forall|j: int| start <= j < end ==> !is_separator(#[trigger] path@[j]),
            found_sep ==> start > 0 && is_separator(path@[start - 1]),
            found_sep ==> start < end,
        decreases start + if found_sep {
            0int
        } else {
            1int
        },
    {
        let c = path.get_char(start - 1);
        if c == '/' || c == '\\' {
            found_sep = true;
        } else {
            start = start - 1;
        }
    }
    proof {
        let t = path@.take(end as int);
        assert forall|j: int| start <= j < t.len() implies !is_separator(#[trigger] t[j]) by {
            assert(t[j] == path@[j]);
        }
        if start > 0 {
            assert(is_separator(t[start - 1]));
        }
        lemma_after_last(t, start as int);
        assert(t.subrange(start as int, t.len() as int) =~= path@.subrange(
            start as int,
            end as int,
        ));
        assert(start < end);
        assert(after_last_separator(trim_trailing_separators(path@)).len() > 0);
    }
    let seg = path.substring_char(start, end);
    Some(seg.to_owned())
}

} // verus!
