//! The extension of a path.
//!
//! The components of a path are what stands between its separators. Empty
//! components and components that are a single dot do not count. The file
//! name of a path is its last component, unless that is `..`; a path without
//! a component has none. The extension is what follows the last dot of the
//! file name. A file name without a dot has no extension, and neither has
//! one whose only dot is its first character.

use vstd::prelude::*;
use vstd::slice::slice_subrange;
use vstd::string::StringSliceAdditionalSpecFns;

verus! {

/// The byte that separates the components of a path.
pub const SEPARATOR: u8 = 0x2f;

/// The byte in front of an extension.
pub const DOT: u8 = 0x2e;

/// End of the component in front of `upto`: `upto` without the separators
/// right in front of it.
pub open spec fn component_end(path: Seq<u8>, upto: int) -> int
    decreases upto,
{
    if upto <= 0 {
        0
    } else if path[upto - 1] == SEPARATOR {
        component_end(path, upto - 1)
    } else {
        upto
    }
}

/// Start of the component that ends at `end`.
pub open spec fn component_start(path: Seq<u8>, end: int) -> int
    decreases end,
{
    if end <= 0 {
        0
    } else if path[end - 1] == SEPARATOR {
        end
    } else {
        component_start(path, end - 1)
    }
}

/// Where the last component in front of `upto` starts and ends, not counting
/// components that are a single dot.
pub open spec fn last_component(path: Seq<u8>, upto: int) -> Option<(int, int)>
    decreases upto,
{
    let end = component_end(path, upto);
    let start = component_start(path, end);
    if end <= 0 {
        None
    } else if start + 1 == end && path[start] == DOT && 0 <= start < upto {
        last_component(path, start)
    } else {
        Some((start, end))
    }
}

/// Where the file name of a path starts and ends.
pub open spec fn file_name(path: Seq<u8>) -> Option<(int, int)> {
    match last_component(path, path.len() as int) {
        Some((start, end)) => if start + 2 == end && path[start] == DOT && path[start + 1]
            == DOT {
            None
        } else {
            Some((start, end))
        },
        None => None,
    }
}

/// Position of the last dot between `start` and `end`; the position in
/// front of `start` if there is none.
pub open spec fn last_dot(path: Seq<u8>, start: int, end: int) -> int
    decreases end - start,
{
    if end <= start {
        start - 1
    } else if path[end - 1] == DOT {
        end - 1
    } else {
        last_dot(path, start, end - 1)
    }
}

/// The extension of a path, if it has one.
pub open spec fn extension_of(path: Seq<u8>) -> Option<Seq<u8>> {
    match file_name(path) {
        Some((start, end)) => {
            let dot = last_dot(path, start, end);
            if dot <= start {
                None
            } else {
                Some(path.subrange(dot + 1, end))
            }
        },
        None => None,
    }
}

fn component_end_at(path: &[u8], upto: usize) -> (end: usize)
    requires
        upto <= path@.len(),
    ensures
        end == component_end(path@, upto as int),
        end <= upto,
        end > 0 ==> path@[end - 1] != SEPARATOR,
{
    let mut end = upto;
    while end > 0 && path[end - 1] == SEPARATOR
        invariant
            end <= upto <= path@.len(),
            component_end(path@, upto as int) == component_end(path@, end as int),
        decreases end,
    {
        end -= 1;
    }
    end
}

fn component_start_at(path: &[u8], end: usize) -> (start: usize)
    requires
        end <= path@.len(),
    ensures
        start == component_start(path@, end as int),
        start <= end,
        end > 0 && path@[end - 1] != SEPARATOR ==> start < end,
{
    let mut start = end;
    while start > 0 && path[start - 1] != SEPARATOR
        invariant
            start <= end <= path@.len(),
            component_start(path@, end as int) == component_start(path@, start as int),
        decreases start,
    {
        start -= 1;
    }
    start
}

fn last_component_of(path: &[u8]) -> (found: Option<(usize, usize)>)
    ensures
        match found {
            Some((start, end)) => last_component(path@, path@.len() as int) == Some(
                (start as int, end as int),
            ) && start < end <= path@.len(),
            None => last_component(path@, path@.len() as int) is None,
        },
{
    let mut upto = path.len();
    loop
        invariant
            upto <= path@.len(),
            last_component(path@, path@.len() as int) == last_component(path@, upto as int),
        decreases upto,
    {
        let end = component_end_at(path, upto);
        if end == 0 {
            return None;
        }
        let start = component_start_at(path, end);
        if end - start == 1 && path[start] == DOT {
            upto = start;
        } else {
            return Some((start, end));
        }
    }
}

fn last_dot_at(path: &[u8], start: usize, end: usize) -> (dot: Option<usize>)
    requires
        start <= end <= path@.len(),
    ensures
        match dot {
            Some(position) => last_dot(path@, start as int, end as int) == position && start
                <= position < end,
            None => last_dot(path@, start as int, end as int) == start - 1,
        },
{
    let mut position = end;
    while position > start
        invariant
            start <= position <= end <= path@.len(),
            last_dot(path@, start as int, end as int) == last_dot(
                path@,
                start as int,
                position as int,
            ),
        decreases position,
    {
        if path[position - 1] == DOT {
            return Some(position - 1);
        }
        position -= 1;
    }
    None
}

/// The extension of a path, if it has one.
pub fn extension(path: &str) -> (found: Option<&[u8]>)
    ensures
        match found {
            Some(bytes) => extension_of(path.spec_bytes()) == Some(bytes@),
            None => extension_of(path.spec_bytes()) is None,
        },
{
    let bytes = path.as_bytes();
    match last_component_of(bytes) {
        Some((start, end)) => {
            if end - start == 2 && bytes[start] == DOT && bytes[start + 1] == DOT {
                return None;
            }
            match last_dot_at(bytes, start, end) {
                Some(dot) => if dot > start {
                    Some(slice_subrange(bytes, dot + 1, end))
                } else {
                    None
                },
                None => None,
            }
        },
        None => None,
    }
}

} // verus!
