//! Paths as text and as sequences of components.
//!
//! A path is a text whose components are separated by [`SEPARATOR`]. It is
//! absolute when it begins with the separator. Empty components (a doubled
//! or trailing separator) carry no meaning and are dropped when a path is
//! split.

use crate::text::{
    find_char, from_chars, joined, lemma_joined_first, lemma_position_of, lemma_position_of_bounds,
    position_of, push_char, same_text, to_chars,
};
use vstd::prelude::*;

verus! {

/// The character between the components of a path.
pub const SEPARATOR: char = '/';

/// Whether the path starts at the root.
pub open spec fn is_absolute(path: Seq<char>) -> bool {
    path.len() > 0 && path[0] == SEPARATOR
}

/// The non-empty components of a path, in order.
pub open spec fn components_of(path: Seq<char>) -> Seq<Seq<char>>
    decreases path.len(),
{
    if path.len() == 0 {
        Seq::empty()
    } else {
        let n = position_of(path, SEPARATOR);
        let rest = if n < path.len() {
            components_of(path.skip((n + 1) as int))
        } else {
            Seq::empty()
        };
        if n == 0 {
            rest
        } else {
            seq![path.take(n as int)] + rest
        }
    }
}

/// `part` adjoined to `base`: an absolute `part` replaces `base`; otherwise
/// it follows `base`, after a separator unless `base` is empty or already
/// ends with one.
pub open spec fn joined_path(base: Seq<char>, part: Seq<char>) -> Seq<char> {
    if is_absolute(part) {
        part
    } else if base.len() == 0 || base.last() == SEPARATOR {
        base + part
    } else {
        base + seq![SEPARATOR] + part
    }
}

/// The text of the path with the given components, from the root if
/// `absolute`.
pub open spec fn path_text(absolute: bool, components: Seq<Seq<char>>) -> Seq<char> {
    if absolute {
        seq![SEPARATOR] + joined(components, SEPARATOR)
    } else {
        joined(components, SEPARATOR)
    }
}

/// The components of a path without its detours: a component `.` is
/// dropped, and a component `..` takes away the component before it.
/// Where nothing stands before it, or only other `..`, it is dropped in a
/// path from the root, which has no parent, and kept in any other path.
pub open spec fn normalized_components(absolute: bool, parts: Seq<Seq<char>>) -> Seq<Seq<char>>
    decreases parts.len(),
{
    if parts.len() == 0 {
        Seq::empty()
    } else {
        let before = normalized_components(absolute, parts.drop_last());
        let last = parts.last();
        if last == "."@ {
            before
        } else if last != ".."@ {
            before.push(last)
        } else if before.len() > 0 && before.last() != ".."@ {
            before.drop_last()
        } else if absolute {
            before
        } else {
            before.push(last)
        }
    }
}

/// The path without its detours, written anew from its normalized
/// components.
pub open spec fn normalized(path: Seq<char>) -> Seq<char> {
    path_text(is_absolute(path), normalized_components(is_absolute(path), components_of(path)))
}

/// A name that can stand as one component of a path: not empty, and
/// without a separator.
pub open spec fn is_component(name: Seq<char>) -> bool {
    name.len() > 0 && !name.contains(SEPARATOR)
}

/// Every component that splitting gives is a name: not empty, and without
/// a separator.
pub proof fn lemma_components_are_names(path: Seq<char>)
    ensures
        forall|i: int|
            0 <= i < components_of(path).len() ==> is_component(#[trigger] components_of(path)[i]),
    decreases path.len(),
{
    if path.len() > 0 {
        let n = position_of(path, SEPARATOR);
        lemma_position_of_bounds(path, SEPARATOR);
        let rest = if n < path.len() {
            components_of(path.skip((n + 1) as int))
        } else {
            Seq::empty()
        };
        if n < path.len() {
            lemma_components_are_names(path.skip((n + 1) as int));
        }
        if n > 0 {
            let name = path.take(n as int);
            assert(!name.contains(SEPARATOR)) by {
                if name.contains(SEPARATOR) {
                    let j = choose|j: int| 0 <= j < name.len() && name[j] == SEPARATOR;
                    assert(path[j] == SEPARATOR);
                }
            }
            assert(components_of(path) == seq![name] + rest);
        } else {
            assert(components_of(path) == rest);
        }
    }
}

/// A name alone is a path of one component.
pub proof fn lemma_components_of_name(name: Seq<char>)
    requires
        is_component(name),
    ensures
        components_of(name) == seq![name],
{
    lemma_position_of(name, SEPARATOR, name.len() as int);
    assert(name.take(name.len() as int) =~= name);
}

/// A name, a separator and the rest of a path: the name is the first
/// component, and the others are those of the rest.
pub proof fn lemma_components_after_name(name: Seq<char>, rest: Seq<char>)
    requires
        is_component(name),
    ensures
        components_of(name + seq![SEPARATOR] + rest) == seq![name] + components_of(rest),
{
    let path = name + seq![SEPARATOR] + rest;
    lemma_position_of(path, SEPARATOR, name.len() as int);
    assert(path.take(name.len() as int) =~= name);
    assert(path.skip((name.len() + 1) as int) =~= rest);
}

/// Splitting undoes joining: the path that is written from a sequence of
/// names has exactly those names as its components, and starts at the root
/// exactly where it was written so.
pub proof fn lemma_split_of_path_text(absolute: bool, components: Seq<Seq<char>>)
    requires
        forall|i: int| 0 <= i < components.len() ==> is_component(#[trigger] components[i]),
    ensures
        components_of(path_text(absolute, components)) == components,
        is_absolute(path_text(absolute, components)) == absolute,
    decreases components.len(), (if absolute { 1nat } else { 0nat }),
{
    if absolute {
        let relative = path_text(false, components);
        let path = path_text(true, components);
        lemma_split_of_path_text(false, components);
        assert(path.skip(1) =~= relative);
    } else if components.len() == 1 {
        lemma_components_of_name(components[0]);
    } else if components.len() >= 2 {
        let tail = components.skip(1);
        lemma_joined_first(components, SEPARATOR);
        lemma_split_of_path_text(false, tail);
        lemma_components_after_name(components[0], joined(tail, SEPARATOR));
    }
}

/// A path without `.` and `..` has no detours: normalizing leaves its
/// components as they are.
pub proof fn lemma_normalized_without_dots(absolute: bool, parts: Seq<Seq<char>>)
    requires
        forall|i: int| 0 <= i < parts.len() ==> (#[trigger] parts[i]) != "."@ && parts[i] != ".."@,
    ensures
        normalized_components(absolute, parts) == parts,
    decreases parts.len(),
{
    if parts.len() > 0 {
        lemma_normalized_without_dots(absolute, parts.drop_last());
        assert(parts.drop_last().push(parts.last()) =~= parts);
    }
}

/// A normalized path from the root holds neither `.` nor `..`, and has no
/// more components than the path had.
pub proof fn lemma_normalized_from_root(parts: Seq<Seq<char>>)
    ensures
        normalized_components(true, parts).len() <= parts.len(),
        forall|i: int|
            0 <= i < normalized_components(true, parts).len() ==> (#[trigger] normalized_components(
                true,
                parts,
            )[i]) != "."@ && normalized_components(true, parts)[i] != ".."@,
    decreases parts.len(),
{
    if parts.len() > 0 {
        lemma_normalized_from_root(parts.drop_last());
    }
}

/// Normalizing a path from the root twice gives what normalizing it once
/// gives.
pub proof fn lemma_normalized_twice_from_root(parts: Seq<Seq<char>>)
    ensures
        normalized_components(true, normalized_components(true, parts)) == normalized_components(
            true,
            parts,
        ),
{
    lemma_normalized_from_root(parts);
    lemma_normalized_without_dots(true, normalized_components(true, parts));
}

/// Normalizing makes no component: what it leaves of names are names.
pub proof fn lemma_normalized_are_names(absolute: bool, parts: Seq<Seq<char>>)
    requires
        forall|i: int| 0 <= i < parts.len() ==> is_component(#[trigger] parts[i]),
    ensures
        forall|i: int|
            0 <= i < normalized_components(absolute, parts).len() ==> is_component(
                #[trigger] normalized_components(absolute, parts)[i],
            ),
    decreases parts.len(),
{
    if parts.len() > 0 {
        let before = normalized_components(absolute, parts.drop_last());
        let now = normalized_components(absolute, parts);
        lemma_normalized_are_names(absolute, parts.drop_last());
        assert(is_component(parts.last()));
        assert forall|i: int| 0 <= i < now.len() implies is_component(#[trigger] now[i]) by {
            if i < before.len() {
                assert(now[i] == before[i]);
            }
        }
    }
}

/// Adjoining a name to a path written from names adds one component at
/// its end.
pub proof fn lemma_join_adds_component(absolute: bool, components: Seq<Seq<char>>, name: Seq<char>)
    requires
        forall|i: int| 0 <= i < components.len() ==> is_component(#[trigger] components[i]),
        is_component(name),
    ensures
        joined_path(path_text(absolute, components), name) == path_text(
            absolute,
            components.push(name),
        ),
{
    let base = path_text(absolute, components);
    let all = components.push(name);
    assert(name[0] != SEPARATOR) by {
        if name[0] == SEPARATOR {
            assert(name.contains(SEPARATOR));
        }
    }
    assert(all.drop_last() =~= components);
    if components.len() > 0 {
        let last = components.last();
        assert(last.last() != SEPARATOR) by {
            if last.last() == SEPARATOR {
                assert(last.contains(SEPARATOR));
            }
        }
        assert(joined(components, SEPARATOR).last() == last.last());
        assert(base.last() == last.last());
        assert(base + seq![SEPARATOR] + name =~= path_text(absolute, all));
    } else {
        assert(base + name =~= path_text(absolute, all));
    }
}

/// Whether the path starts at the root.
pub fn path_is_absolute(path: &str) -> (b: bool)
    ensures
        b == is_absolute(path@),
{
    let chars = to_chars(path);
    chars.len() > 0 && chars[0] == SEPARATOR
}

/// Splits a path into its non-empty components.
pub fn split_components(path: &str) -> (parts: Vec<String>)
    ensures
        parts.deep_view() == components_of(path@),
{
    let chars = to_chars(path);
    let len = chars.len();
    let mut parts: Vec<String> = Vec::new();
    let mut start: usize = 0;
    assert(chars@.skip(0) =~= path@);
    while start < len
        invariant
            start <= len == chars.len(),
            components_of(path@) == parts.deep_view() + components_of(chars@.skip(start as int)),
        decreases len - start,
    {
        let end = find_char(&chars, start, len, SEPARATOR);
        let ghost rest = chars@.skip(start as int);
        proof {
            assert(rest.take(end - start) =~= chars@.subrange(start as int, end as int));
            if end < len {
                assert(rest.skip(end - start + 1) =~= chars@.skip(end + 1));
            }
        }
        if end > start {
            let name = from_chars(&chars, start, end);
            parts.push(name);
        }
        if end < len {
            start = end + 1;
        } else {
            start = len;
        }
    }
    parts
}

/// Adjoins `part` to `base`.
pub fn join_path(base: &str, part: &str) -> (r: String)
    ensures
        r@ == joined_path(base@, part@),
{
    if path_is_absolute(part) {
        return part.to_owned();
    }
    let chars = to_chars(base);
    let mut r = base.to_owned();
    if chars.len() > 0 && chars[chars.len() - 1] != SEPARATOR {
        push_char(&mut r, SEPARATOR);
    }
    r.append(part);
    r
}

/// The path without its detours.
pub fn normalize(path: &str) -> (plain: String)
    ensures
        plain@ == normalized(path@),
{
    let absolute = path_is_absolute(path);
    let parts = split_components(path);
    let mut kept: Vec<String> = Vec::new();
    let mut i: usize = 0;
    while i < parts.len()
        invariant
            i <= parts.len(),
            kept.deep_view() == normalized_components(absolute, parts.deep_view().take(i as int)),
        decreases parts.len() - i,
    {
        let ghost before = kept.deep_view();
        proof {
            let now = parts.deep_view().take(i as int + 1);
            assert(now.drop_last() =~= parts.deep_view().take(i as int));
            assert(now.last() == parts[i as int]@);
        }
        let name = parts[i].as_str();
        if same_text(name, ".") {
        } else if !same_text(name, "..") {
            kept.push(parts[i].clone());
            assert(kept.deep_view() =~= before.push(parts[i as int]@));
        } else if kept.len() > 0 && !same_text(kept[kept.len() - 1].as_str(), "..") {
            kept.pop();
            assert(kept.deep_view() =~= before.drop_last());
        } else if !absolute {
            kept.push(parts[i].clone());
            assert(kept.deep_view() =~= before.push(parts[i as int]@));
        }
        i += 1;
    }
    assert(parts.deep_view().take(parts.len() as int) =~= parts.deep_view());
    assert(kept.deep_view().take(kept.len() as int) =~= kept.deep_view());
    path_to(absolute, &kept, kept.len())
}

/// The text of the path made of the first `depth` components.
pub(crate) fn path_to(absolute: bool, components: &Vec<String>, depth: usize) -> (r: String)
    requires
        depth <= components.len(),
    ensures
        r@ == path_text(absolute, components.deep_view().take(depth as int)),
{
    let mut r = String::new();
    if absolute {
        push_char(&mut r, SEPARATOR);
    }
    let ghost head = r@;
    let ghost all = components.deep_view();
    let mut i: usize = 0;
    while i < depth
        invariant
            i <= depth <= components.len(),
            all == components.deep_view(),
            r@ == head + joined(all.take(i as int), SEPARATOR),
        decreases depth - i,
    {
        proof {
            let now = all.take(i as int + 1);
            assert(now.drop_last() =~= all.take(i as int));
        }
        if i > 0 {
            push_char(&mut r, SEPARATOR);
        }
        r.append(components[i].as_str());
        i += 1;
    }
    r
}

} // verus!
