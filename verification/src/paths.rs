//! File system paths, as text with `/` between their components.
//!
//! These are the paths of a Unix host, the machine that the program itself runs on: `/`
//! is the only separator and the only root, a backslash is an ordinary character, and
//! there are no drive prefixes. On such a host joining, parents and comparison agree
//! with `std::path`. The host is not the target platform: that decides the classpath
//! separator, never the form of a path.

use vstd::prelude::*;
use vstd::string::*;

use crate::text::{
    chars_of, concat3, find_char, find_char_bounds, same_text, split, split_around, split_at_each,
    split_has_a_piece, split_without_separator, string_of_range, Separator,
};

verus! {

/// Whether a path starts at the root.
pub open spec fn is_absolute_path(path: Seq<char>) -> bool {
    path.len() > 0 && path[0] == '/'
}

/// `base` extended by `relative`. An absolute `relative` replaces `base`;
/// otherwise a separator stands between the two, unless `base` is empty or ends
/// in one.
pub open spec fn path_join(base: Seq<char>, relative: Seq<char>) -> Seq<char> {
    if is_absolute_path(relative) || base.len() == 0 {
        relative
    } else if base.last() == '/' {
        base + relative
    } else {
        base.push('/') + relative
    }
}

/// Whether a path starts at the root.
pub fn is_absolute(path: &str) -> (yes: bool)
    ensures
        yes == is_absolute_path(path@),
{
    !path.is_empty() && path.get_char(0) == '/'
}

/// Extend `base` by `relative`.
pub fn join_path(base: &str, relative: &str) -> (path: String)
    ensures
        path@ == path_join(base@, relative@),
{
    if is_absolute(relative) || base.is_empty() {
        return relative.to_owned();
    }
    let chars = chars_of(base);
    if chars[chars.len() - 1] == '/' {
        let out = base.to_owned().concat(relative);
        return out;
    }
    let out = concat3(base, "/", relative);
    proof {
        reveal_strlit("/");
        assert(base@ + "/"@ =~= base@.push('/'));
    }
    out
}

/// The pieces of a path that say something: no empty ones, and `.` only where the path
/// begins with it.
pub open spec fn significant(parts: Seq<Seq<char>>) -> Seq<Seq<char>>
    decreases parts.len(),
{
    if parts.len() == 0 {
        Seq::empty()
    } else {
        let before = significant(parts.drop_last());
        if parts.last().len() == 0 || (parts.last() == "."@ && parts.len() > 1) {
            before
        } else {
            before.push(parts.last())
        }
    }
}

/// The names that a path leads through.
pub open spec fn components_of(path: Seq<char>) -> Seq<Seq<char>> {
    significant(split_at_each(path, Separator::Is('/')))
}

/// Whether two paths are the same up to repeated or trailing separators and `.` inside.
pub open spec fn same_place(a: Seq<char>, b: Seq<char>) -> bool {
    is_absolute_path(a) == is_absolute_path(b) && components_of(a) == components_of(b)
}

/// The names that a path leads through.
fn components(path: &str) -> (names: Vec<String>)
    ensures
        names.deep_view() == components_of(path@),
{
    let parts = split(path, Separator::Is('/'));
    let ghost all = parts.deep_view();
    let mut names: Vec<String> = Vec::new();
    proof {
        assert(names.deep_view() =~= significant(all.take(0)));
    }
    for i in 0..parts.len()
        invariant
            all == parts.deep_view(),
            names.deep_view() == significant(all.take(i as int)),
    {
        let ghost before = names.deep_view();
        proof {
            assert(all.take(i + 1).drop_last() =~= all.take(i as int));
            assert(all.take(i + 1).last() == parts@[i as int]@);
        }
        let part = parts[i].as_str();
        if !(part.is_empty() || (same_text(part, ".") && i > 0)) {
            names.push(parts[i].clone());
            proof {
                assert(names.deep_view() =~= before.push(parts@[i as int]@));
            }
        }
    }
    proof {
        assert(all.take(parts.len() as int) =~= all);
    }
    names
}

/// Whether two paths are the same up to repeated or trailing separators and `.` inside.
pub fn same_path(a: &str, b: &str) -> (same: bool)
    ensures
        same == same_place(a@, b@),
{
    if is_absolute(a) != is_absolute(b) {
        return false;
    }
    let left = components(a);
    let right = components(b);
    if left.len() != right.len() {
        proof {
            assert(left.deep_view().len() != right.deep_view().len());
        }
        return false;
    }
    for i in 0..left.len()
        invariant
            left.deep_view() == components_of(a@),
            right.deep_view() == components_of(b@),
            left.len() == right.len(),
            forall|j: int| 0 <= j < i ==> left.deep_view()[j] == right.deep_view()[j],
    {
        proof {
            assert(left.deep_view()[i as int] == left@[i as int]@);
            assert(right.deep_view()[i as int] == right@[i as int]@);
        }
        if !same_text(left[i].as_str(), right[i].as_str()) {
            return false;
        }
    }
    proof {
        assert(left.deep_view() =~= right.deep_view());
    }
    true
}

/// How much of a path is its root, or the `.` that it begins with.
pub open spec fn head_length(path: Seq<char>) -> nat {
    if is_absolute_path(path) || path == "."@ || (path.len() >= 2 && path[0] == '.' && path[1]
        == '/') {
        1
    } else {
        0
    }
}

/// Where the last piece of a path begins: behind its last separator.
pub open spec fn piece_start(path: Seq<char>) -> nat
    decreases path.len(),
{
    if path.len() == 0 {
        0
    } else if path.last() == '/' {
        path.len()
    } else {
        piece_start(path.drop_last())
    }
}

/// The last piece of a path.
pub open spec fn last_piece(path: Seq<char>) -> Seq<char> {
    path.skip(piece_start(path) as int)
}

/// A path without its last piece and the separator before it. The head stays.
pub open spec fn without_piece(path: Seq<char>) -> Seq<char> {
    if piece_start(path) > head_length(path) {
        path.take(piece_start(path) - 1)
    } else {
        path.take(head_length(path) as int)
    }
}

/// A path without the separators and `.` pieces at its end.
pub open spec fn trimmed_path(path: Seq<char>) -> Seq<char>
    decreases path.len(),
{
    if path.len() <= head_length(path) {
        path
    } else if last_piece(path).len() == 0 || last_piece(path) == "."@ {
        proof {
            piece_start_bounds(path);
        }
        trimmed_path(without_piece(path))
    } else {
        path
    }
}

/// The directory that a path stands in; the root and the empty path stand in none.
pub open spec fn parent_of(path: Seq<char>) -> Option<Seq<char>> {
    let trimmed = trimmed_path(path);
    if trimmed.len() == 0 || trimmed == "/"@ {
        None
    } else if trimmed == "."@ {
        Some(Seq::empty())
    } else {
        Some(trimmed_path(without_piece(trimmed)))
    }
}

/// The last piece begins behind a separator or at the start, and holds none.
pub proof fn piece_start_bounds(path: Seq<char>)
    ensures
        piece_start(path) <= path.len(),
        piece_start(path) > 0 ==> path[piece_start(path) - 1] == '/',
        forall|i: int| piece_start(path) <= i < path.len() ==> path[i] != '/',
    decreases path.len(),
{
    if path.len() > 0 && path.last() != '/' {
        let before = path.drop_last();
        piece_start_bounds(before);
        assert forall|i: int| piece_start(path) <= i < path.len() implies path[i] != '/' by {
            if i < before.len() {
                assert(before[i] == path[i]);
            }
        }
    }
}

/// The last piece begins where a separator stands before it and none follows.
proof fn piece_start_is(path: Seq<char>, start: int)
    requires
        0 <= start <= path.len(),
        start > 0 ==> path[start - 1] == '/',
        forall|i: int| start <= i < path.len() ==> path[i] != '/',
    ensures
        piece_start(path) == start,
{
    piece_start_bounds(path);
}

/// How much of the first `n` characters of a path is its head.
fn head_of(chars: &Vec<char>, n: usize) -> (length: usize)
    requires
        n <= chars.len(),
    ensures
        length == head_length(chars@.take(n as int)),
        length <= n,
{
    proof {
        reveal_strlit(".");
        let path = chars@.take(n as int);
        if n == 1 && chars@[0] == '.' {
            assert(path =~= "."@);
        }
    }
    if n > 0 && (chars[0] == '/' || (chars[0] == '.' && (n == 1 || chars[1] == '/'))) {
        1
    } else {
        0
    }
}

/// Where the last piece of the first `n` characters of a path begins.
fn piece_of(chars: &Vec<char>, n: usize) -> (start: usize)
    requires
        n <= chars.len(),
    ensures
        start == piece_start(chars@.take(n as int)),
        start <= n,
{
    let mut start: usize = n;
    while start > 0 && chars[start - 1] != '/'
        invariant
            start <= n <= chars.len(),
            forall|i: int| start <= i < n ==> chars@[i] != '/',
        decreases start,
    {
        start = start - 1;
    }
    proof {
        piece_start_is(chars@.take(n as int), start as int);
    }
    start
}

/// How much of the first `n` characters of a path is left without their last piece.
fn length_without_piece(chars: &Vec<char>, n: usize) -> (length: usize)
    requires
        n <= chars.len(),
    ensures
        length <= n,
        without_piece(chars@.take(n as int)) == chars@.take(length as int),
{
    let head = head_of(chars, n);
    let start = piece_of(chars, n);
    let length: usize = if start > head {
        start - 1
    } else {
        head
    };
    proof {
        assert(chars@.take(n as int).take(length as int) =~= chars@.take(length as int));
    }
    length
}

/// How much of the first `n` characters of a path is left without the separators and
/// `.` pieces at their end.
fn trimmed_length(chars: &Vec<char>, n: usize) -> (length: usize)
    requires
        n <= chars.len(),
    ensures
        length <= n,
        trimmed_path(chars@.take(n as int)) == chars@.take(length as int),
{
    let mut left: usize = n;
    loop
        invariant
            left <= n <= chars.len(),
            trimmed_path(chars@.take(n as int)) == trimmed_path(chars@.take(left as int)),
        decreases left,
    {
        if left <= head_of(chars, left) {
            return left;
        }
        let start = piece_of(chars, left);
        let says_nothing = start == left || (start + 1 == left && chars[start] == '.');
        proof {
            reveal_strlit(".");
            let path = chars@.take(left as int);
            assert(last_piece(path) =~= chars@.subrange(start as int, left as int));
            if start + 1 == left && chars@[start as int] == '.' {
                assert(last_piece(path) =~= "."@);
            }
            if last_piece(path) == "."@ {
                assert(last_piece(path)[0] == chars@[start as int]);
            }
        }
        if !says_nothing {
            return left;
        }
        left = length_without_piece(chars, left);
    }
}

/// The directory that a path stands in; the root and the empty path stand in none.
pub fn parent(path: &str) -> (directory: Option<String>)
    ensures
        directory.deep_view() == parent_of(path@),
{
    let chars = chars_of(path);
    let n: usize = trimmed_length(&chars, chars.len());
    let ghost trimmed = chars@.take(n as int);
    proof {
        reveal_strlit("/");
        reveal_strlit(".");
        assert(chars@.take(chars@.len() as int) =~= path@);
        if n == 1 && chars@[0] == '/' {
            assert(trimmed =~= "/"@);
        }
        if n == 1 && chars@[0] == '.' {
            assert(trimmed =~= "."@);
        }
    }
    if n == 0 || (n == 1 && chars[0] == '/') {
        return None;
    }
    if n == 1 && chars[0] == '.' {
        let nothing = String::new();
        proof {
            assert(nothing@ =~= Seq::<char>::empty());
        }
        return Some(nothing);
    }
    let rest: usize = length_without_piece(&chars, n);
    let length: usize = trimmed_length(&chars, rest);
    let directory = string_of_range(&chars, 0, length);
    proof {
        assert(directory@ =~= chars@.take(length as int));
    }
    Some(directory)
}

/// Trimming a path leads to the same place.
pub proof fn trimming_keeps_the_place(path: Seq<char>)
    ensures
        same_place(trimmed_path(path), path),
    decreases path.len(),
{
    if path.len() > head_length(path) && (last_piece(path).len() == 0 || last_piece(path)
        == "."@) {
        reveal_strlit(".");
        piece_start_bounds(path);
        let sep = Separator::Is('/');
        let start = piece_start(path) as int;
        let shorter = without_piece(path);
        let piece = last_piece(path);
        trimming_keeps_the_place(shorter);
        assert forall|i: int| 0 <= i < piece.len() implies !sep.has(#[trigger] piece[i]) by {
            assert(piece[i] == path[start + i]);
        }
        split_without_separator(piece, sep);
        if start == 0 {
            // A path of one piece that says nothing is all head.
            assert(path =~= piece);
        } else {
            let before = path.take(start - 1);
            assert(path =~= before.push('/') + piece);
            split_around(before, '/', piece, sep);
            split_has_a_piece(before, sep);
            let parts = split_at_each(before, sep);
            assert((parts + seq![piece]).drop_last() =~= parts);
            assert(components_of(path) == components_of(before));
            if start == 1 && is_absolute_path(path) {
                let nothing = Seq::<char>::empty();
                assert(before =~= nothing);
                assert(shorter =~= nothing.push('/') + nothing);
                split_around(nothing, '/', nothing, sep);
                split_without_separator(nothing, sep);
                assert((seq![nothing] + seq![nothing]).drop_last() =~= seq![nothing]);
            } else {
                assert(shorter == before);
            }
        }
    }
}

/// What is joined to a directory under one name stands in that directory.
pub proof fn joined_name_stands_inside(directory: Seq<char>, name: Seq<char>)
    requires
        directory.len() > 0,
        name.len() > 0,
        name != "."@,
        !name.contains('/'),
    ensures
        parent_of(path_join(directory, name)) == Some(trimmed_path(directory)),
{
    reveal_strlit(".");
    reveal_strlit("/");
    let path = path_join(directory, name);
    let start = path.len() - name.len();
    assert forall|i: int| start <= i < path.len() implies path[i] != '/' by {
        assert(path[i] == name[i - start]);
    }
    assert(name[0] != '/');
    piece_start_is(path, start);
    assert(last_piece(path) =~= name);
    if directory == "."@ {
        assert(path[0] == directory[0] && path[1] == '/');
    } else if directory.len() == 1 && directory[0] == '.' {
        assert(directory =~= "."@);
    }
    assert(path[0] == directory[0]);
    if directory.len() >= 2 {
        assert(path[1] == directory[1]);
    }
    assert(head_length(path) == head_length(directory));
    assert(trimmed_path(path) == path);
    if directory.last() == '/' {
        piece_start_is(directory, directory.len() as int);
        assert(without_piece(path) =~= without_piece(directory));
    } else {
        assert(without_piece(path) =~= directory);
    }
}

/// An absolute path stays the same whatever it is joined to.
pub proof fn absolute_path_replaces(base: Seq<char>, path: Seq<char>)
    requires
        is_absolute_path(path),
    ensures
        path_join(base, path) == path,
{
}

/// What is joined to an absolute path is absolute.
pub proof fn join_keeps_absolute(base: Seq<char>, relative: Seq<char>)
    requires
        is_absolute_path(base),
    ensures
        is_absolute_path(path_join(base, relative)),
{
}

/// A relative path is appended to a directory with exactly one separator between them.
pub proof fn relative_path_is_appended(base: Seq<char>, relative: Seq<char>)
    requires
        base.len() > 0,
        relative.len() == 0 || relative[0] != '/',
    ensures
        base.last() != '/' ==> path_join(base, relative) == base + "/"@ + relative,
        base.last() == '/' ==> path_join(base, relative) == base + relative,
        path_join(Seq::empty(), relative) == relative,
{
    reveal_strlit("/");
    assert(base + "/"@ =~= base.push('/'));
}

/// A path is absolute exactly if its first character is the root.
pub proof fn absolute_paths_start_at_the_root(path: Seq<char>)
    ensures
        is_absolute_path("/"@ + path),
        is_absolute_path(path) ==> exists|rest: Seq<char>| path == #[trigger] ("/"@ + rest),
        !is_absolute_path(Seq::empty()),
{
    reveal_strlit("/");
    if is_absolute_path(path) {
        assert(path =~= "/"@ + path.skip(1));
    }
}

/// A joined path leads through the names of the directory, then through those of what
/// was joined.
pub proof fn joined_path_leads_through_both(base: Seq<char>, relative: Seq<char>)
    requires
        base.len() > 0,
        head_length(relative) == 0,
    ensures
        components_of(path_join(base, relative)) == components_of(base) + components_of(relative),
{
    let sep = Separator::Is('/');
    reveal_strlit(".");
    first_piece_is_no_dot(relative);
    if base.last() == '/' {
        let stem = base.drop_last();
        assert(base =~= stem.push('/') + Seq::<char>::empty());
        assert(base + relative =~= stem.push('/') + relative);
        split_around(stem, '/', Seq::empty(), sep);
        split_around(stem, '/', relative, sep);
        split_without_separator(Seq::empty(), sep);
        split_has_a_piece(stem, sep);
        let parts = split_at_each(stem, sep);
        assert((parts + seq![Seq::<char>::empty()]).drop_last() =~= parts);
        significant_of_both(parts, split_at_each(relative, sep));
    } else {
        split_around(base, '/', relative, sep);
        split_has_a_piece(base, sep);
        significant_of_both(split_at_each(base, sep), split_at_each(relative, sep));
    }
}

/// The first piece of a path without a head is not `.`.
proof fn first_piece_is_no_dot(path: Seq<char>)
    requires
        head_length(path) == 0,
    ensures
        split_at_each(path, Separator::Is('/')).len() > 0,
        split_at_each(path, Separator::Is('/'))[0] != "."@,
{
    let sep = Separator::Is('/');
    reveal_strlit(".");
    find_char_bounds(path, '/');
    match find_char(path, '/') {
        None => {
            assert forall|i: int| 0 <= i < path.len() implies !sep.has(#[trigger] path[i]) by {
                assert(path.contains(path[i]));
            }
            split_without_separator(path, sep);
        },
        Some(at) => {
            let first = path.take(at);
            assert forall|i: int| 0 <= i < first.len() implies !sep.has(#[trigger] first[i]) by {
                assert(first[i] == path[i]);
            }
            split_without_separator(first, sep);
            assert(path =~= first.push('/') + path.skip(at + 1));
            split_around(first, '/', path.skip(at + 1), sep);
            if first == "."@ {
                assert(path[0] == first[0]);
            }
        },
    }
}

/// What says something in two lists of pieces says something in both together, as long
/// as the second does not begin with `.`.
proof fn significant_of_both(a: Seq<Seq<char>>, b: Seq<Seq<char>>)
    requires
        a.len() > 0,
        b.len() > 0 ==> b[0] != "."@,
    ensures
        significant(a + b) == significant(a) + significant(b),
    decreases b.len(),
{
    if b.len() == 0 {
        assert(a + b =~= a);
        assert(significant(a) + significant(b) =~= significant(a));
    } else {
        significant_of_both(a, b.drop_last());
        assert((a + b).drop_last() =~= a + b.drop_last());
        assert((a + b).last() == b.last());
        assert(significant(a + b) =~= significant(a) + significant(b));
    }
}

/// Two paths lead to the same place exactly if both or neither start at the root and their
/// parts are the same.
pub proof fn absolute_and_relative_paths_are_apart(a: Seq<char>, b: Seq<char>, c: Seq<char>)
    ensures
        is_absolute_path(a) != is_absolute_path(b) ==> !same_place(a, b),
        components_of(a) != components_of(b) ==> !same_place(a, b),
        same_place(a, a),
        same_place(a, b) ==> same_place(b, a),
        same_place(a, b) && same_place(b, c) ==> same_place(a, c),
{
}

} // verus!
