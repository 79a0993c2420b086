//! Text as sequences of characters.
//!
//! Everything the library reads or writes as a string is reasoned about through
//! its characters. The functions here are the few string operations the other
//! modules share: searching, splitting, joining, replacing and number text.

use vstd::prelude::*;
use vstd::string::*;

verus! {

/// `String::push` appends one character to the end of the string.
pub assume_specification[ String::push ](s: &mut String, ch: char)
    ensures
        final(s)@ == old(s)@.push(ch),
;

// ---------------------------------------------------------------------------
// Conversions
// ---------------------------------------------------------------------------

/// The characters of `s`, in order.
pub fn chars_of(s: &str) -> (out: Vec<char>)
    ensures
        out@ == s@,
{
    let mut out: Vec<char> = Vec::new();
    for c in it: s.chars()
        invariant
            out@ == s@.take(it.index()),
            it.seq() == s@,
    {
        out.push(c);
    }
    out
}

/// The string made of `chars`.
pub fn string_of(chars: &[char]) -> (out: String)
    ensures
        out@ == chars@,
{
    let mut out = String::new();
    for i in 0..chars.len()
        invariant
            out@ == chars@.take(i as int),
    {
        out.push(chars[i]);
    }
    out
}

/// The string made of `chars[from..to]`.
pub fn string_of_range(chars: &Vec<char>, from: usize, to: usize) -> (out: String)
    requires
        from <= to <= chars.len(),
    ensures
        out@ == chars@.subrange(from as int, to as int),
{
    let mut out = String::new();
    for i in from..to
        invariant
            to <= chars.len(),
            from <= i <= to,
            out@ == chars@.subrange(from as int, i as int),
    {
        out.push(chars[i]);
    }
    out
}

/// Whether two strings hold the same characters.
pub fn same_text(a: &str, b: &str) -> (same: bool)
    ensures
        same == (a@ == b@),
{
    a.to_owned() == b.to_owned()
}

/// Three pieces of text, one after the other.
pub fn concat3(a: &str, b: &str, c: &str) -> (out: String)
    ensures
        out@ == a@ + b@ + c@,
{
    let mut out = a.to_owned();
    out.append(b);
    out.append(c);
    out
}

// ---------------------------------------------------------------------------
// Searching
// ---------------------------------------------------------------------------

/// Whether `pat` stands in `s` at position `at`.
pub open spec fn occurs_at(s: Seq<char>, pat: Seq<char>, at: int) -> bool {
    &&& 0 <= at
    &&& at + pat.len() <= s.len()
    &&& s.subrange(at, at + pat.len()) == pat
}

/// Whether `pat` stands somewhere in `s`.
pub open spec fn contains_text(s: Seq<char>, pat: Seq<char>) -> bool {
    exists|at: int| occurs_at(s, pat, at)
}

/// Whether `at` is the first position at which `pat` stands in `s`.
pub open spec fn first_at(s: Seq<char>, pat: Seq<char>, at: int) -> bool {
    &&& occurs_at(s, pat, at)
    &&& forall|j: int| 0 <= j < at ==> !occurs_at(s, pat, j)
}

/// The first position at which `pat` stands in `s`.
pub open spec fn find_text(s: Seq<char>, pat: Seq<char>) -> Option<int> {
    if exists|at: int| first_at(s, pat, at) {
        Some(choose|at: int| first_at(s, pat, at))
    } else {
        None
    }
}

/// The first position of the character `c` in `s`.
pub open spec fn find_char(s: Seq<char>, c: char) -> Option<int> {
    find_text(s, seq![c])
}

/// What `find_text` returns is the position that `first_at` describes.
pub proof fn find_text_is(s: Seq<char>, pat: Seq<char>, at: int)
    requires
        first_at(s, pat, at),
    ensures
        find_text(s, pat) == Some(at),
{
    let found = choose|i: int| first_at(s, pat, i);
    assert(first_at(s, pat, found));
    assert(found == at) by {
        if found < at {
            assert(!occurs_at(s, pat, found));
        } else if at < found {
            assert(!occurs_at(s, pat, at));
        }
    }
}

/// A text is found exactly where it is contained, and then inside the bounds.
pub proof fn find_text_bounds(s: Seq<char>, pat: Seq<char>)
    ensures
        find_text(s, pat) is Some <==> contains_text(s, pat),
        find_text(s, pat) matches Some(at) ==> first_at(s, pat, at) && 0 <= at && at + pat.len()
            <= s.len(),
{
    if contains_text(s, pat) {
        let at = choose|at: int| occurs_at(s, pat, at);
        first_exists(s, pat, at);
    }
}

proof fn first_exists(s: Seq<char>, pat: Seq<char>, at: int)
    requires
        occurs_at(s, pat, at),
    ensures
        exists|i: int| first_at(s, pat, i),
    decreases at,
{
    if exists|j: int| 0 <= j < at && occurs_at(s, pat, j) {
        let j = choose|j: int| 0 <= j < at && occurs_at(s, pat, j);
        first_exists(s, pat, j);
    } else {
        assert(first_at(s, pat, at));
    }
}

/// Whether `pat` stands in `s` at position `at`.
fn stands_at(s: &Vec<char>, pat: &Vec<char>, at: usize) -> (yes: bool)
    requires
        at + pat.len() <= s.len(),
    ensures
        yes == occurs_at(s@, pat@, at as int),
{
    for k in 0..pat.len()
        invariant
            at + pat.len() <= s.len(),
            forall|j: int| 0 <= j < k ==> s@[at + j] == pat@[j],
    {
        if s[at + k] != pat[k] {
            assert(s@.subrange(at as int, at + pat@.len())[k as int] != pat@[k as int]);
            return false;
        }
    }
    assert(s@.subrange(at as int, at + pat@.len()) =~= pat@);
    true
}

/// The first position at which `pat` stands in `s`.
pub fn find_in(s: &Vec<char>, pat: &Vec<char>) -> (found: Option<usize>)
    ensures
        match found {
            Some(at) => find_text(s@, pat@) == Some(at as int) && at + pat.len() <= s.len(),
            None => find_text(s@, pat@) is None,
        },
{
    if pat.len() == 0 {
        proof {
            assert(s@.subrange(0, 0) =~= pat@);
            find_text_is(s@, pat@, 0);
        }
        return Some(0);
    }
    for at in 0..s.len()
        invariant
            pat.len() > 0,
            forall|j: int| 0 <= j < at ==> !occurs_at(s@, pat@, j),
    {
        if pat.len() <= s.len() - at && stands_at(s, pat, at) {
            proof {
                find_text_is(s@, pat@, at as int);
            }
            return Some(at);
        }
    }
    proof {
        find_text_bounds(s@, pat@);
    }
    None
}

/// Whether `pat` stands somewhere in `s`.
pub fn contains(s: &str, pat: &str) -> (yes: bool)
    ensures
        yes == contains_text(s@, pat@),
{
    let chars = chars_of(s);
    let wanted = chars_of(pat);
    proof {
        find_text_bounds(s@, pat@);
    }
    find_in(&chars, &wanted).is_some()
}

/// Whether `s` begins with `prefix`.
pub fn starts_with(s: &str, prefix: &str) -> (yes: bool)
    ensures
        yes == prefix@.is_prefix_of(s@),
{
    let chars = chars_of(s);
    let wanted = chars_of(prefix);
    if wanted.len() > chars.len() {
        return false;
    }
    proof {
        assert(occurs_at(s@, prefix@, 0) <==> prefix@.is_prefix_of(s@));
    }
    stands_at(&chars, &wanted, 0)
}

/// The position of `c` is the position of the one-character text `c`.
pub proof fn find_char_is(s: Seq<char>, c: char, at: int)
    requires
        0 <= at < s.len(),
        s[at] == c,
        forall|j: int| 0 <= j < at ==> s[j] != c,
    ensures
        find_char(s, c) == Some(at),
{
    assert(s.subrange(at, at + 1) =~= seq![c]);
    assert forall|j: int| 0 <= j < at implies !occurs_at(s, seq![c], j) by {
        assert(s.subrange(j, j + 1)[0] == s[j]);
    }
    find_text_is(s, seq![c], at);
}

/// A character is found exactly where it is contained.
pub proof fn find_char_bounds(s: Seq<char>, c: char)
    ensures
        find_char(s, c) is Some <==> s.contains(c),
        find_char(s, c) matches Some(at) ==> 0 <= at < s.len() && s[at] == c && (forall|j: int|
            0 <= j < at ==> s[j] != c),
{
    find_text_bounds(s, seq![c]);
    if let Some(at) = find_char(s, c) {
        assert(s.subrange(at, at + 1)[0] == s[at]);
        assert forall|j: int| 0 <= j < at implies s[j] != c by {
            assert(!occurs_at(s, seq![c], j));
            if s[j] == c {
                assert(s.subrange(j, j + 1) =~= seq![c]);
            }
        }
    }
    if s.contains(c) {
        let at = choose|at: int| 0 <= at < s.len() && s[at] == c;
        assert(s.subrange(at, at + 1) =~= seq![c]);
        assert(occurs_at(s, seq![c], at));
    }
}

/// The first position of `c` in `s`, from position `from` on, counted from
/// `from`.
pub fn find_char_from(s: &Vec<char>, c: char, from: usize) -> (found: Option<usize>)
    requires
        from <= s.len(),
    ensures
        match found {
            Some(at) => find_char(s@.skip(from as int), c) == Some(at as int) && from + at
                < s.len(),
            None => find_char(s@.skip(from as int), c) is None,
        },
{
    let ghost rest = s@.skip(from as int);
    for i in from..s.len()
        invariant
            from <= i <= s.len(),
            rest == s@.skip(from as int),
            forall|j: int| 0 <= j < i - from ==> rest[j] != c,
    {
        if s[i] == c {
            proof {
                assert(rest[i - from] == c);
                find_char_is(rest, c, i - from);
            }
            return Some(i - from);
        }
    }
    proof {
        find_char_bounds(rest, c);
    }
    None
}

/// The text before and after the first `c`, if there is one.
pub open spec fn split_once_at(s: Seq<char>, c: char) -> Option<(Seq<char>, Seq<char>)> {
    match find_char(s, c) {
        Some(at) => Some((s.take(at), s.skip(at + 1))),
        None => None,
    }
}

/// Split `s` at its first `c`.
pub fn split_once(s: &str, c: char) -> (parts: Option<(String, String)>)
    ensures
        parts.deep_view() == split_once_at(s@, c),
{
    let chars = chars_of(s);
    proof {
        assert(s@.skip(0) =~= s@);
    }
    match find_char_from(&chars, c, 0) {
        Some(at) => {
            let head = string_of_range(&chars, 0, at);
            let tail = string_of_range(&chars, at + 1, chars.len());
            proof {
                assert(head@ =~= s@.take(at as int));
                assert(tail@ =~= s@.skip(at + 1));
            }
            Some((head, tail))
        },
        None => None,
    }
}

// ---------------------------------------------------------------------------
// Classes of separators, splitting and joining
// ---------------------------------------------------------------------------

/// The characters a text is split at.
#[derive(Debug, Clone, Copy, PartialEq, Eq, Structural)]
pub enum Separator {
    /// One character.
    Is(char),
    /// Any white space.
    Whitespace,
    /// The separators inside a Java version: `.`, `_` and `-`.
    VersionPart,
}

/// The characters with the Unicode `White_Space` property.
pub open spec fn white_space(c: char) -> bool {
    let code = c as u32;
    ||| 0x9 <= code <= 0xd
    ||| code == 0x20
    ||| code == 0x85
    ||| code == 0xa0
    ||| code == 0x1680
    ||| 0x2000 <= code <= 0x200a
    ||| code == 0x2028
    ||| code == 0x2029
    ||| code == 0x202f
    ||| code == 0x205f
    ||| code == 0x3000
}

impl Separator {
    /// Whether `c` separates.
    pub open spec fn has(self, c: char) -> bool {
        match self {
            Separator::Is(sep) => c == sep,
            Separator::Whitespace => white_space(c),
            Separator::VersionPart => c == '.' || c == '_' || c == '-',
        }
    }

    /// Whether `c` separates.
    pub fn separates(&self, c: char) -> (yes: bool)
        ensures
            yes == self.has(c),
    {
        match *self {
            Separator::Is(sep) => c == sep,
            Separator::Whitespace => {
                let code: u32 = c as u32;
                (0x9 <= code && code <= 0xd) || code == 0x20 || code == 0x85 || code == 0xa0
                    || code == 0x1680 || (0x2000 <= code && code <= 0x200a) || code == 0x2028
                    || code == 0x2029 || code == 0x202f || code == 0x205f || code == 0x3000
            },
            Separator::VersionPart => c == '.' || c == '_' || c == '-',
        }
    }
}

/// The pieces of `s` between the separators: one more than there are separators.
pub open spec fn split_at_each(s: Seq<char>, sep: Separator) -> Seq<Seq<char>>
    decreases s.len(),
{
    if s.len() == 0 {
        seq![Seq::<char>::empty()]
    } else {
        let before = split_at_each(s.drop_last(), sep);
        if sep.has(s.last()) {
            before.push(Seq::<char>::empty())
        } else {
            before.drop_last().push(before.last().push(s.last()))
        }
    }
}

/// The pieces that hold at least one character.
pub open spec fn non_empty(pieces: Seq<Seq<char>>) -> Seq<Seq<char>> {
    pieces.filter(|piece: Seq<char>| piece.len() > 0)
}

/// There is always at least one piece.
pub proof fn split_has_a_piece(s: Seq<char>, sep: Separator)
    ensures
        split_at_each(s, sep).len() > 0,
    decreases s.len(),
{
    if s.len() > 0 {
        split_has_a_piece(s.drop_last(), sep);
    }
}

/// A text without separators is one piece.
pub proof fn split_without_separator(s: Seq<char>, sep: Separator)
    requires
        forall|i: int| 0 <= i < s.len() ==> !sep.has(#[trigger] s[i]),
    ensures
        split_at_each(s, sep) == seq![s],
    decreases s.len(),
{
    if s.len() > 0 {
        assert forall|i: int| 0 <= i < s.drop_last().len() implies !sep.has(
            #[trigger] s.drop_last()[i],
        ) by {
            assert(s.drop_last()[i] == s[i]);
        }
        split_without_separator(s.drop_last(), sep);
        assert(s.drop_last().push(s.last()) =~= s);
        assert(split_at_each(s, sep) =~= seq![s]);
    } else {
        assert(s =~= Seq::empty());
    }
}

/// What stands before and after a separator is split on its own.
pub proof fn split_around(a: Seq<char>, c: char, b: Seq<char>, sep: Separator)
    requires
        sep.has(c),
    ensures
        split_at_each(a.push(c) + b, sep) == split_at_each(a, sep) + split_at_each(b, sep),
    decreases b.len(),
{
    let whole = a.push(c) + b;
    if b.len() == 0 {
        assert(whole =~= a.push(c));
        assert(whole.drop_last() =~= a);
        assert(split_at_each(whole, sep) =~= split_at_each(a, sep) + split_at_each(b, sep));
    } else {
        split_around(a, c, b.drop_last(), sep);
        split_has_a_piece(b.drop_last(), sep);
        assert(whole.drop_last() =~= a.push(c) + b.drop_last());
        assert(whole.last() == b.last());
        assert(split_at_each(whole, sep) =~= split_at_each(a, sep) + split_at_each(b, sep));
    }
}

/// Split `s` at every separator.
pub fn split(s: &str, sep: Separator) -> (pieces: Vec<String>)
    ensures
        pieces.deep_view() == split_at_each(s@, sep),
        pieces.len() > 0,
{
    let chars = chars_of(s);
    let mut pieces: Vec<String> = Vec::new();
    let mut piece = String::new();
    proof {
        assert(pieces.deep_view().push(piece@) =~= split_at_each(s@.take(0), sep));
    }
    for i in 0..chars.len()
        invariant
            chars@ == s@,
            pieces.deep_view().push(piece@) == split_at_each(s@.take(i as int), sep),
    {
        let ghost done = s@.take(i as int);
        let ghost more = s@.take(i + 1);
        let ghost before = split_at_each(done, sep);
        let ghost old_pieces = pieces.deep_view();
        proof {
            assert(more.drop_last() =~= done);
            assert(more.last() == chars@[i as int]);
            assert(before.drop_last() =~= old_pieces);
            assert(before.last() == piece@);
        }
        if sep.separates(chars[i]) {
            pieces.push(piece);
            piece = String::new();
            proof {
                assert(pieces.deep_view() =~= before);
                assert(pieces.deep_view().push(piece@) =~= split_at_each(more, sep));
            }
        } else {
            piece.push(chars[i]);
            proof {
                assert(pieces.deep_view().push(piece@) =~= split_at_each(more, sep));
            }
        }
    }
    proof {
        assert(s@.take(s@.len() as int) =~= s@);
    }
    let ghost old_pieces = pieces.deep_view();
    let ghost last = piece@;
    pieces.push(piece);
    proof {
        assert(pieces.deep_view() =~= old_pieces.push(last));
    }
    pieces
}

/// The words of `s`: its pieces between white space that are not empty.
pub fn split_whitespace(s: &str) -> (words: Vec<String>)
    ensures
        words.deep_view() == non_empty(split_at_each(s@, Separator::Whitespace)),
{
    let pieces = split(s, Separator::Whitespace);
    let mut words: Vec<String> = Vec::new();
    proof {
        reveal(Seq::filter);
        assert(words.deep_view() =~= non_empty(pieces.deep_view().take(0)));
    }
    for i in 0..pieces.len()
        invariant
            words.deep_view() == non_empty(pieces.deep_view().take(i as int)),
    {
        let ghost all = pieces.deep_view();
        let ghost old_words = words.deep_view();
        proof {
            reveal(Seq::filter);
            assert(all.take(i + 1).drop_last() =~= all.take(i as int));
            assert(all.take(i + 1).last() == pieces@[i as int]@);
        }
        if !pieces[i].as_str().is_empty() {
            words.push(pieces[i].clone());
            proof {
                assert(words.deep_view() =~= old_words.push(pieces@[i as int]@));
            }
        }
    }
    proof {
        assert(pieces.deep_view().take(pieces.len() as int) =~= pieces.deep_view());
    }
    words
}

/// `parts`, one after the other, with `sep` between each two.
pub open spec fn joined(parts: Seq<Seq<char>>, sep: Seq<char>) -> Seq<char>
    decreases parts.len(),
{
    if parts.len() == 0 {
        Seq::empty()
    } else if parts.len() == 1 {
        parts[0]
    } else {
        joined(parts.drop_last(), sep) + sep + parts.last()
    }
}

/// Join `parts` with `sep`.
pub fn join(parts: &Vec<String>, sep: &str) -> (out: String)
    ensures
        out@ == joined(parts.deep_view(), sep@),
{
    let mut out = String::new();
    let ghost all = parts.deep_view();
    for i in 0..parts.len()
        invariant
            all == parts.deep_view(),
            out@ == joined(all.take(i as int), sep@),
    {
        proof {
            assert(all.take(i + 1).drop_last() =~= all.take(i as int));
            assert(all.take(i + 1).last() == parts@[i as int]@);
        }
        if i > 0 {
            out.append(sep);
        }
        out.append(parts[i].as_str());
        proof {
            assert(out@ =~= joined(all.take(i + 1), sep@));
        }
    }
    proof {
        assert(all.take(parts.len() as int) =~= all);
    }
    out
}

// ---------------------------------------------------------------------------
// Replacing and trimming
// ---------------------------------------------------------------------------

/// `s` with every `pat`, taken from the left without overlaps, replaced by
/// `with`. An empty `pat` replaces nothing.
pub open spec fn replace_each(s: Seq<char>, pat: Seq<char>, with: Seq<char>) -> Seq<char>
    decreases s.len(),
{
    if pat.len() == 0 {
        s
    } else {
        match find_text(s, pat) {
            Some(at) => {
                proof {
                    find_text_bounds(s, pat);
                }
                if 0 <= at && at + pat.len() <= s.len() {
                    s.take(at) + with + replace_each(s.skip(at + pat.len()), pat, with)
                } else {
                    s
                }
            },
            None => s,
        }
    }
}

/// Replace every `pat` in `s` by `with`.
pub fn replace(s: &str, pat: &str, with: &str) -> (out: String)
    requires
        pat@.len() > 0,
    ensures
        out@ == replace_each(s@, pat@, with@),
{
    let mut rest = chars_of(s);
    let wanted = chars_of(pat);
    let mut out = String::new();
    loop
        invariant
            wanted@ == pat@,
            pat@.len() > 0,
            out@ + replace_each(rest@, pat@, with@) == replace_each(s@, pat@, with@),
        ensures
            out@ + rest@ == replace_each(s@, pat@, with@),
        decreases rest.len(),
    {
        match find_in(&rest, &wanted) {
            None => {
                break;
            },
            Some(at) => {
                let ghost before = out@;
                let ghost text = rest@;
                let head = string_of_range(&rest, 0, at);
                out.append(head.as_str());
                out.append(with);
                let tail = string_of_range(&rest, at + wanted.len(), rest.len());
                rest = chars_of(tail.as_str());
                proof {
                    assert(head@ =~= text.take(at as int));
                    assert(rest@ =~= text.skip(at + pat@.len()));
                    assert(out@ + replace_each(rest@, pat@, with@) =~= before + replace_each(
                        text,
                        pat@,
                        with@,
                    ));
                }
            },
        }
    }
    let tail = string_of(rest.as_slice());
    out.append(tail.as_str());
    out
}

/// `s` without the characters `c` at its end.
pub open spec fn trimmed_end(s: Seq<char>, c: char) -> Seq<char>
    decreases s.len(),
{
    if s.len() > 0 && s.last() == c {
        trimmed_end(s.drop_last(), c)
    } else {
        s
    }
}

/// Drop the characters `c` at the end of `s`.
pub fn trim_end(s: &str, c: char) -> (out: String)
    ensures
        out@ == trimmed_end(s@, c),
{
    let mut chars = chars_of(s);
    while chars.len() > 0 && chars[chars.len() - 1] == c
        invariant
            trimmed_end(chars@, c) == trimmed_end(s@, c),
        decreases chars.len(),
    {
        let ghost before = chars@;
        chars.pop();
        proof {
            assert(chars@ =~= before.drop_last());
        }
    }
    string_of(chars.as_slice())
}

/// `s` without the white space at its end.
pub open spec fn trimmed_right(s: Seq<char>) -> Seq<char>
    decreases s.len(),
{
    if s.len() > 0 && white_space(s.last()) {
        trimmed_right(s.drop_last())
    } else {
        s
    }
}

/// `s` without the white space at its start.
pub open spec fn trimmed_left(s: Seq<char>) -> Seq<char>
    decreases s.len(),
{
    if s.len() > 0 && white_space(s[0]) {
        trimmed_left(s.skip(1))
    } else {
        s
    }
}

/// Drop the white space at both ends of `s`.
pub fn trim(s: &str) -> (out: String)
    ensures
        out@ == trimmed_right(trimmed_left(s@)),
{
    let chars = chars_of(s);
    let space = Separator::Whitespace;
    let mut from: usize = 0;
    proof {
        assert(s@.skip(0) =~= s@);
    }
    while from < chars.len() && space.separates(chars[from])
        invariant
            chars@ == s@,
            space == Separator::Whitespace,
            from <= chars.len(),
            trimmed_left(s@.skip(from as int)) == trimmed_left(s@),
        decreases chars.len() - from,
    {
        proof {
            assert(s@.skip(from as int).skip(1) =~= s@.skip(from + 1));
        }
        from = from + 1;
    }
    let ghost rest = s@.skip(from as int);
    let mut to: usize = chars.len();
    proof {
        assert(rest == trimmed_left(s@));
        assert(s@.subrange(from as int, to as int) =~= rest);
    }
    while from < to && space.separates(chars[to - 1])
        invariant
            chars@ == s@,
            space == Separator::Whitespace,
            from <= to <= chars.len(),
            trimmed_right(s@.subrange(from as int, to as int)) == trimmed_right(rest),
        decreases to,
    {
        proof {
            let now = s@.subrange(from as int, to as int);
            assert(now.drop_last() =~= s@.subrange(from as int, to - 1));
            assert(now.last() == chars@[to - 1]);
        }
        to = to - 1;
    }
    string_of_range(&chars, from, to)
}

/// `line` without a carriage return at its end.
pub open spec fn without_return(line: Seq<char>) -> Seq<char> {
    if line.len() > 0 && line.last() == '\r' {
        line.drop_last()
    } else {
        line
    }
}

/// The lines of `s`. A line ends with a line feed, or a carriage return and a line
/// feed; what follows the last line feed is a line if it holds anything.
pub open spec fn lines_of(s: Seq<char>) -> Seq<Seq<char>> {
    let pieces = split_at_each(s, Separator::Is('\n'));
    let ended = pieces.drop_last().map_values(|line: Seq<char>| without_return(line));
    if pieces.last().len() == 0 {
        ended
    } else {
        ended.push(pieces.last())
    }
}

/// The lines of `s`.
pub fn lines(s: &str) -> (out: Vec<String>)
    ensures
        out.deep_view() == lines_of(s@),
{
    let pieces = split(s, Separator::Is('\n'));
    let ghost all = pieces.deep_view();
    let ghost ended = all.drop_last().map_values(|line: Seq<char>| without_return(line));
    let mut out: Vec<String> = Vec::new();
    proof {
        assert(out.deep_view() =~= ended.take(0));
    }
    let count: usize = pieces.len() - 1;
    for i in 0..count
        invariant
            count == pieces.len() - 1,
            all == pieces.deep_view(),
            ended == all.drop_last().map_values(|line: Seq<char>| without_return(line)),
            out.deep_view() == ended.take(i as int),
    {
        let ghost before = out.deep_view();
        let line = drop_return(pieces[i].as_str());
        proof {
            assert(ended[i as int] == without_return(pieces@[i as int]@));
        }
        out.push(line);
        proof {
            assert(out.deep_view() =~= before.push(ended[i as int]));
            assert(out.deep_view() =~= ended.take(i + 1));
        }
    }
    proof {
        assert(ended.take(count as int) =~= ended);
        assert(all.last() == pieces@[count as int]@);
    }
    if !pieces[count].as_str().is_empty() {
        out.push(pieces[count].clone());
        proof {
            assert(out.deep_view() =~= ended.push(all.last()));
        }
    }
    out
}

/// Drop a carriage return at the end of `line`.
fn drop_return(line: &str) -> (out: String)
    ensures
        out@ == without_return(line@),
{
    let chars = chars_of(line);
    if chars.len() > 0 && chars[chars.len() - 1] == '\r' {
        let out = string_of_range(&chars, 0, chars.len() - 1);
        proof {
            assert(out@ =~= line@.drop_last());
        }
        return out;
    }
    line.to_owned()
}

// ---------------------------------------------------------------------------
// Laws
// ---------------------------------------------------------------------------

/// What is found is the pattern, and it stands nowhere before that; what is not found
/// stands nowhere.
pub proof fn found_text_is_the_first(s: Seq<char>, pat: Seq<char>)
    ensures
        find_text(s, pat) matches Some(at) ==> 0 <= at && at + pat.len() <= s.len() && s.subrange(
            at,
            at + pat.len(),
        ) == pat && forall|j: int|
            0 <= j < at ==> #[trigger] s.subrange(j, j + pat.len()) != pat,
        find_text(s, pat) is None ==> forall|j: int|
            0 <= j && j + pat.len() <= s.len() ==> #[trigger] s.subrange(j, j + pat.len()) != pat,
{
    find_text_bounds(s, pat);
    if let Some(at) = find_text(s, pat) {
        assert forall|j: int| 0 <= j < at implies #[trigger] s.subrange(j, j + pat.len()) != pat by {
            assert(!occurs_at(s, pat, j));
        }
    } else {
        assert forall|j: int| 0 <= j && j + pat.len() <= s.len() implies #[trigger] s.subrange(
            j,
            j + pat.len(),
        ) != pat by {
            assert(!occurs_at(s, pat, j));
        }
    }
}

/// A text splits at its first separator: what stands before it holds none, and the two
/// parts with the separator between them are the text.
pub proof fn split_once_parts(s: Seq<char>, c: char)
    ensures
        split_once_at(s, c) matches Some(parts) ==> !parts.0.contains(c) && parts.0.push(c) + parts.1
            == s,
        split_once_at(s, c) is None <==> !s.contains(c),
{
    find_char_bounds(s, c);
    if let Some(parts) = split_once_at(s, c) {
        let at = find_char(s, c)->0;
        assert(!parts.0.contains(c)) by {
            if parts.0.contains(c) {
                let i = choose|i: int| 0 <= i < parts.0.len() && parts.0[i] == c;
                assert(s[i] == c);
            }
        }
        assert(parts.0.push(c) + parts.1 =~= s);
    }
}

/// One more part is joined behind a separator, and the first one without.
pub proof fn joined_grows(parts: Seq<Seq<char>>, part: Seq<char>, sep: Seq<char>)
    ensures
        joined(Seq::empty(), sep) == Seq::<char>::empty(),
        joined(seq![part], sep) == part,
        parts.len() > 0 ==> joined(parts.push(part), sep) == joined(parts, sep) + sep + part,
{
    assert(parts.push(part).drop_last() =~= parts);
}

/// Replacing happens where the pattern first stands, and goes on behind it.
pub proof fn replaced_in_place(
    head: Seq<char>,
    pat: Seq<char>,
    rest: Seq<char>,
    with: Seq<char>,
)
    requires
        pat.len() > 0,
        forall|j: int|
            0 <= j < head.len() ==> #[trigger] (head + pat + rest).subrange(j, j + pat.len())
                != pat,
    ensures
        replace_each(head + pat + rest, pat, with) == head + with + replace_each(rest, pat, with),
{
    let s = head + pat + rest;
    let at = head.len() as int;
    assert(s.subrange(at, at + pat.len()) =~= pat);
    assert forall|j: int| 0 <= j < at implies !occurs_at(s, pat, j) by {
        assert(s.subrange(j, j + pat.len()) != pat);
    }
    find_text_is(s, pat, at);
    assert(s.take(at) =~= head);
    assert(s.skip(at + pat.len()) =~= rest);
}

/// Where the pattern does not stand, nothing is replaced; and replacing it by itself
/// changes nothing.
pub proof fn nothing_else_is_replaced(s: Seq<char>, pat: Seq<char>, with: Seq<char>)
    ensures
        !contains_text(s, pat) ==> replace_each(s, pat, with) == s,
        replace_each(s, pat, pat) == s,
    decreases s.len(),
{
    find_text_bounds(s, pat);
    if pat.len() > 0 {
        if let Some(at) = find_text(s, pat) {
            let rest = s.skip(at + pat.len());
            nothing_else_is_replaced(rest, pat, with);
            assert(s.subrange(at, at + pat.len()) == pat);
            assert(s =~= s.take(at) + s.subrange(at, at + pat.len()) + rest);
        }
    }
}

/// Only the characters at the end are dropped, and all of them.
pub proof fn trimming_drops_only_the_end(s: Seq<char>, c: char)
    ensures
        trimmed_end(s, c).is_prefix_of(s),
        forall|i: int| trimmed_end(s, c).len() <= i < s.len() ==> s[i] == c,
        trimmed_end(s, c).len() > 0 ==> trimmed_end(s, c).last() != c,
    decreases s.len(),
{
    if s.len() > 0 && s.last() == c {
        let shorter = s.drop_last();
        trimming_drops_only_the_end(shorter, c);
        let kept = trimmed_end(s, c);
        assert(kept == shorter.take(kept.len() as int));
        assert(shorter.take(kept.len() as int) =~= s.take(kept.len() as int));
        assert forall|i: int| kept.len() <= i < s.len() implies s[i] == c by {
            if i < shorter.len() {
                assert(shorter[i] == s[i]);
            }
        }
    } else {
        assert(s.take(s.len() as int) =~= s);
    }
}

/// White space is dropped at both ends: nothing but white space goes, and none is left
/// there.
pub proof fn trimming_drops_only_white_space(s: Seq<char>)
    ensures
        ({
            let left = trimmed_left(s);
            let right = trimmed_right(s);
            &&& left.is_suffix_of(s)
            &&& right.is_prefix_of(s)
            &&& left.len() > 0 ==> !white_space(left[0])
            &&& right.len() > 0 ==> !white_space(right.last())
            &&& forall|i: int| 0 <= i < s.len() - left.len() ==> white_space(#[trigger] s[i])
            &&& forall|i: int| right.len() <= i < s.len() ==> white_space(#[trigger] s[i])
        }),
    decreases s.len(),
{
    if s.len() > 0 {
        if white_space(s[0]) {
            let shorter = s.skip(1);
            trimming_drops_only_white_space(shorter);
            let left = trimmed_left(s);
            assert(left == shorter.skip(shorter.len() - left.len()));
            assert(shorter.skip(shorter.len() - left.len()) =~= s.skip(s.len() - left.len()));
            assert forall|i: int| 0 <= i < s.len() - left.len() implies white_space(
                #[trigger] s[i],
            ) by {
                if i > 0 {
                    assert(shorter[i - 1] == s[i]);
                }
            }
        } else {
            assert(s.skip(0) =~= s);
        }
        if white_space(s.last()) {
            let shorter = s.drop_last();
            trimming_drops_only_white_space(shorter);
            let right = trimmed_right(s);
            assert(right == shorter.take(right.len() as int));
            assert(shorter.take(right.len() as int) =~= s.take(right.len() as int));
            assert forall|i: int| right.len() <= i < s.len() implies white_space(
                #[trigger] s[i],
            ) by {
                if i < shorter.len() {
                    assert(shorter[i] == s[i]);
                }
            }
        } else {
            assert(s.take(s.len() as int) =~= s);
        }
    } else {
        assert(s.skip(0) =~= s);
        assert(s.take(0) =~= s);
    }
}

/// A line that is ended stands before the lines of what follows, without the carriage
/// return that may belong to its end.
pub proof fn lines_are_ended_by_feeds(line: Seq<char>, rest: Seq<char>)
    requires
        !line.contains('\n'),
    ensures
        line.len() > 0 && line.last() == '\r' ==> lines_of(line.push('\n') + rest) == seq![
            line.drop_last(),
        ] + lines_of(rest),
        line.len() == 0 || line.last() != '\r' ==> lines_of(line.push('\n') + rest) == seq![line]
            + lines_of(rest),
        line.len() > 0 ==> lines_of(line) == seq![line],
        lines_of(Seq::empty()) == Seq::<Seq<char>>::empty(),
{
    let feed = Separator::Is('\n');
    assert forall|i: int| 0 <= i < line.len() implies !feed.has(#[trigger] line[i]) by {
        assert(line.contains(line[i]));
    }
    split_without_separator(line, feed);
    split_around(line, '\n', rest, feed);
    split_has_a_piece(rest, feed);
    let pieces = split_at_each(rest, feed);
    let all = seq![line] + pieces;
    assert(all.drop_last() =~= seq![line] + pieces.drop_last());
    assert(all.last() == pieces.last());
    let ended = pieces.drop_last().map_values(|line: Seq<char>| without_return(line));
    assert(all.drop_last().map_values(|line: Seq<char>| without_return(line)) =~= seq![
        without_return(line),
    ] + ended);
    assert(lines_of(line.push('\n') + rest) =~= seq![without_return(line)] + lines_of(rest));
    assert(seq![line].drop_last() =~= Seq::<Seq<char>>::empty());
    if line.len() > 0 {
        assert(lines_of(line) =~= seq![line]);
    }
    let nothing = Seq::<char>::empty();
    split_without_separator(nothing, feed);
    assert(seq![nothing].drop_last() =~= Seq::<Seq<char>>::empty());
    assert(lines_of(nothing) =~= Seq::<Seq<char>>::empty());
}

/// White space is the space, the tab, the line breaks, and the other spaces of Unicode; no
/// letter, digit or punctuation is.
pub proof fn white_space_is_what_unicode_says(c: char)
    ensures
        white_space(c) <==> {
            ||| c == ' ' || c == '\t' || c == '\n' || c == '\u{b}' || c == '\u{c}' || c == '\r'
            ||| c == '\u{85}' || c == '\u{a0}' || c == '\u{1680}'
            ||| '\u{2000}' <= c <= '\u{200a}'
            ||| c == '\u{2028}' || c == '\u{2029}' || c == '\u{202f}'
            ||| c == '\u{205f}' || c == '\u{3000}'
        },
        '!' <= c <= '~' ==> !white_space(c),
        Separator::Whitespace.has(c) == white_space(c),
        forall|sep: char| Separator::Is(sep).has(c) == (#[trigger] seq![sep] == seq![c]),
{
    assert forall|sep: char| Separator::Is(sep).has(c) == (#[trigger] seq![sep] == seq![c]) by {
        assert(seq![sep][0] == sep && seq![c][0] == c);
    }
}

} // verus!
