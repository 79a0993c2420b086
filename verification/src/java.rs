//! JDK selection.
//!
//! Either honor an explicit `--java <path>` or pick a JDK from `PATH` whose major
//! version satisfies the profile's `compatibleJavaMajors`. Provisioning JDKs is out
//! of scope - one is only selected and pointed at, failing clearly if nothing on
//! `PATH` matches.

use vstd::prelude::*;
use vstd::string::*;

use crate::exit::{outcome, plain_error, Cause, CauseView, Error, ErrorView};
use crate::number::{
    decimal, decimal_reads_back, decimal_text, digits_value, is_digit, parse_u32, parsed_u32,
};
use crate::paths::{join_path, path_join, same_path, same_place};
use crate::text::{
    chars_of, concat3, contains_text, find_char, find_char_bounds, find_char_from, find_char_is,
    find_in, find_text, find_text_bounds, find_text_is, first_at, join, joined, joined_grows, lines,
    lines_of, same_text, split, split_around, split_at_each, split_without_separator,
    string_of_range, trim, trimmed_left, trimmed_right, Separator,
};

verus! {

// ---------------------------------------------------------------------------
// The version of a JDK
// ---------------------------------------------------------------------------

/// What follows the first `version "` of a line, if it has one.
pub open spec fn after_version_quote(line: Seq<char>) -> Option<Seq<char>> {
    match find_text(line, "version \""@) {
        Some(at) => Some(line.skip(at + "version \""@.len())),
        None => None,
    }
}

/// What follows the first `version "` of the first line that has one.
pub open spec fn quoted_text(lines: Seq<Seq<char>>) -> Option<Seq<char>>
    decreases lines.len(),
{
    if lines.len() == 0 {
        None
    } else {
        match quoted_text(lines.drop_last()) {
            Some(text) => Some(text),
            None => after_version_quote(lines.last()),
        }
    }
}

/// `text` up to its first quote.
pub open spec fn up_to_quote(text: Seq<char>) -> Seq<char> {
    match find_char(text, '"') {
        Some(at) => text.take(at),
        None => text,
    }
}

/// The major that a version names: its first part, or the second one in the legacy
/// `1.x` scheme.
pub open spec fn major_of(version: Seq<char>) -> Option<u32> {
    let parts = split_at_each(version, Separator::VersionPart);
    if parts[0] == "1"@ {
        if parts.len() > 1 {
            parsed_u32(parts[1])
        } else {
            None
        }
    } else {
        parsed_u32(parts[0])
    }
}

/// The major version in the output of `java -version`.
pub open spec fn java_major(version_output: Seq<char>) -> Option<u32> {
    match quoted_text(lines_of(version_output)) {
        Some(text) => major_of(up_to_quote(text)),
        None => None,
    }
}

/// What follows the first `version "` of a line, if it has one.
fn version_in_line(line: &str) -> (rest: Option<String>)
    ensures
        rest.deep_view() == after_version_quote(line@),
{
    let chars = chars_of(line);
    let wanted = chars_of("version \"");
    match find_in(&chars, &wanted) {
        Some(at) => {
            let rest = string_of_range(&chars, at + wanted.len(), chars.len());
            proof {
                assert(rest@ =~= line@.skip(at + wanted@.len()));
            }
            Some(rest)
        },
        None => None,
    }
}

/// Extract the major version from `java -version` output.
///
/// Handles both the modern scheme (`"21.0.1"` -> 21, `"25"` -> 25) and the legacy
/// `1.x` scheme (`"1.8.0_392"` -> 8), reading the quoted version token from the
/// `... version "..."` line.
#[must_use]
pub fn parse_java_major(version_output: &str) -> (major: Option<u32>)
    ensures
        major == java_major(version_output@),
{
    let all_lines = lines(version_output);
    let ghost all = all_lines.deep_view();
    for i in 0..all_lines.len()
        invariant
            all == all_lines.deep_view(),
            all == lines_of(version_output@),
            quoted_text(all.take(i as int)) is None,
    {
        proof {
            assert(all.take(i + 1).drop_last() =~= all.take(i as int));
            assert(all.take(i + 1).last() == all_lines@[i as int]@);
        }
        if let Some(quoted) = version_in_line(all_lines[i].as_str()) {
            proof {
                first_quoted_stays(all, i + 1);
            }
            return major_in(quoted.as_str());
        }
    }
    proof {
        assert(all.take(all_lines.len() as int) =~= all);
    }
    None
}

/// The first line that names a version decides.
proof fn first_quoted_stays(lines: Seq<Seq<char>>, n: int)
    requires
        0 <= n <= lines.len(),
        quoted_text(lines.take(n)) is Some,
    ensures
        quoted_text(lines) == quoted_text(lines.take(n)),
    decreases lines.len() - n,
{
    if n == lines.len() {
        assert(lines.take(n) =~= lines);
    } else {
        assert(lines.take(n + 1).drop_last() =~= lines.take(n));
        first_quoted_stays(lines, n + 1);
    }
}

/// The major that a quoted version names.
fn major_in(quoted: &str) -> (major: Option<u32>)
    ensures
        major == major_of(up_to_quote(quoted@)),
{
    let chars = chars_of(quoted);
    proof {
        assert(quoted@.skip(0) =~= quoted@);
    }
    let version = match find_char_from(&chars, '"', 0) {
        Some(at) => {
            let version = string_of_range(&chars, 0, at);
            proof {
                assert(version@ =~= quoted@.take(at as int));
            }
            version
        },
        None => quoted.to_owned(),
    };
    let parts = split(version.as_str(), Separator::VersionPart);
    proof {
        assert(forall|i: int|
            0 <= i < parts@.len() ==> parts.deep_view()[i] == (#[trigger] parts@[i])@);
    }
    if same_text(parts[0].as_str(), "1") {
        // Legacy `1.8.0_392` -> the major is the second component.
        if parts.len() > 1 {
            parse_u32(parts[1].as_str())
        } else {
            None
        }
    } else {
        parse_u32(parts[0].as_str())
    }
}

/// What the output of `java -version` says, or that it says nothing.
pub open spec fn probe_outcome(version_output: Seq<char>) -> Result<u32, ErrorView> {
    match java_major(version_output) {
        Some(major) => Ok(major),
        None => Err(
            plain_error(
                CauseView::Other {
                    message: "could not parse a java major version from: "@ + trimmed_right(
                        trimmed_left(version_output),
                    ),
                },
            ),
        ),
    }
}

/// Read the major version from the output of `java -version`.
///
/// # Errors
/// Returns an error if there is no version in it.
pub fn probed_major(version_output: &str) -> (result: Result<u32, Error>)
    ensures
        outcome(result) == probe_outcome(version_output@),
{
    match parse_java_major(version_output) {
        Some(major) => Ok(major),
        None => {
            let text = trim(version_output);
            let message = "could not parse a java major version from: ".to_owned().concat(
                text.as_str(),
            );
            Err(Error::new(Cause::Other { message }))
        },
    }
}

// ---------------------------------------------------------------------------
// Candidates
// ---------------------------------------------------------------------------

/// Where a `java` may be: first in `JAVA_HOME`, then in the directories of `PATH`.
pub open spec fn candidate_places(java_home: Option<Seq<char>>, dirs: Seq<Seq<char>>) -> Seq<
    Seq<char>,
> {
    let on_path = dirs.map_values(|dir: Seq<char>| path_join(dir, "java"@));
    match java_home {
        Some(home) => seq![path_join(path_join(home, "bin"@), "java"@)] + on_path,
        None => on_path,
    }
}

/// Whether one of `paths` is the same path as `path`.
pub open spec fn leads_to(paths: Seq<Seq<char>>, path: Seq<char>) -> bool {
    exists|i: int| 0 <= i < paths.len() && same_place(#[trigger] paths[i], path)
}

/// The candidates that exist, each once, in order.
pub open spec fn existing_once(candidates: Seq<Seq<char>>, exists_at: Seq<bool>) -> Seq<Seq<char>>
    decreases candidates.len(),
{
    if candidates.len() == 0 {
        Seq::empty()
    } else {
        let before = existing_once(candidates.drop_last(), exists_at);
        if exists_at[candidates.len() - 1] && !leads_to(before, candidates.last()) {
            before.push(candidates.last())
        } else {
            before
        }
    }
}

/// Candidate `java` executables, in `PATH` order. `JAVA_HOME/bin/java` is tried first
/// when set, since it is the user's chosen default.
pub fn java_candidates(java_home: Option<&str>, dirs: &Vec<String>) -> (candidates: Vec<String>)
    ensures
        candidates.deep_view() == candidate_places(java_home.deep_view(), dirs.deep_view()),
{
    let mut candidates: Vec<String> = Vec::new();
    if let Some(home) = java_home {
        let bin = join_path(home, "bin");
        candidates.push(join_path(bin.as_str(), "java"));
    }
    let ghost head = candidates.deep_view();
    let ghost on_path = dirs.deep_view().map_values(|dir: Seq<char>| path_join(dir, "java"@));
    proof {
        assert(head + on_path =~= candidate_places(java_home.deep_view(), dirs.deep_view()));
        assert(head + on_path.take(0) =~= head);
    }
    for i in 0..dirs.len()
        invariant
            on_path == dirs.deep_view().map_values(|dir: Seq<char>| path_join(dir, "java"@)),
            candidates.deep_view() == head + on_path.take(i as int),
    {
        let ghost before = candidates.deep_view();
        candidates.push(join_path(dirs[i].as_str(), "java"));
        proof {
            assert(candidates.deep_view() =~= before.push(on_path[i as int]));
            assert(candidates.deep_view() =~= head + on_path.take(i + 1));
        }
    }
    proof {
        assert(on_path.take(dirs.len() as int) =~= on_path);
    }
    candidates
}

/// Keep only the candidates that exist, deduping repeated ones.
pub fn keep_existing(candidates: &Vec<String>, exists_at: &Vec<bool>) -> (kept: Vec<String>)
    requires
        exists_at.len() == candidates.len(),
    ensures
        kept.deep_view() == existing_once(candidates.deep_view(), exists_at@),
{
    let mut kept: Vec<String> = Vec::new();
    let ghost all = candidates.deep_view();
    proof {
        assert(kept.deep_view() =~= Seq::<Seq<char>>::empty());
    }
    for i in 0..candidates.len()
        invariant
            exists_at.len() == candidates.len(),
            all == candidates.deep_view(),
            kept.deep_view() == existing_once(all.take(i as int), exists_at@),
    {
        let ghost before = kept.deep_view();
        proof {
            assert(all.take(i + 1).drop_last() =~= all.take(i as int));
            assert(all.take(i + 1).last() == candidates@[i as int]@);
        }
        if exists_at[i] && !has_path(&kept, candidates[i].as_str()) {
            kept.push(candidates[i].clone());
            proof {
                assert(kept.deep_view() =~= before.push(candidates@[i as int]@));
            }
        }
    }
    proof {
        assert(all.take(candidates.len() as int) =~= all);
    }
    kept
}

/// Whether one of `paths` is the same path as `path`.
fn has_path(paths: &Vec<String>, path: &str) -> (yes: bool)
    ensures
        yes == leads_to(paths.deep_view(), path@),
{
    for i in 0..paths.len()
        invariant
            forall|j: int| 0 <= j < i ==> !same_place(#[trigger] paths.deep_view()[j], path@),
    {
        proof {
            assert(paths.deep_view()[i as int] == paths@[i as int]@);
        }
        if same_path(paths[i].as_str(), path) {
            return true;
        }
    }
    false
}

// ---------------------------------------------------------------------------
// Selection
// ---------------------------------------------------------------------------

/// The JDKs that could be probed, with their majors, in order.
pub open spec fn working(probed: Seq<(String, Result<u32, Error>)>) -> Seq<(Seq<char>, u32)> {
    probed.filter(|candidate: (String, Result<u32, Error>)| candidate.1 is Ok).map_values(
        |candidate: (String, Result<u32, Error>)| (candidate.0@, candidate.1->Ok_0),
    )
}

/// Drop the candidates whose probe failed, keeping the order of the rest: a broken entry
/// on `PATH` does not abort the search.
pub fn working_javas(probed: Vec<(String, Result<u32, Error>)>) -> (found: Vec<(String, u32)>)
    ensures
        found.deep_view() == working(probed@),
{
    let mut found: Vec<(String, u32)> = Vec::new();
    let ghost all = probed@;
    proof {
        reveal(Seq::filter);
        assert(found.deep_view() =~= working(all.take(0)));
    }
    for i in 0..probed.len()
        invariant
            all == probed@,
            found.deep_view() == working(all.take(i as int)),
    {
        let ghost before = found.deep_view();
        proof {
            working_grows(all, i as int);
        }
        if let Ok(major) = &probed[i].1 {
            found.push((probed[i].0.clone(), *major));
            proof {
                assert(found.deep_view() =~= before.push((all[i as int].0@, *major)));
            }
        }
    }
    proof {
        assert(all.take(probed.len() as int) =~= all);
    }
    found
}

/// One more candidate is one more working JDK, or changes nothing.
proof fn working_grows(probed: Seq<(String, Result<u32, Error>)>, i: int)
    requires
        0 <= i < probed.len(),
    ensures
        working(probed.take(i + 1)) == match probed[i].1 {
            Ok(major) => working(probed.take(i)).push((probed[i].0@, major)),
            Err(_) => working(probed.take(i)),
        },
{
    reveal(Seq::filter);
    let more = probed.take(i + 1);
    assert(more.drop_last() =~= probed.take(i));
    assert(more.last() == probed[i]);
    if let Ok(major) = probed[i].1 {
        assert(working(more) =~= working(probed.take(i)).push((probed[i].0@, major)));
    }
}

/// Whether a major is among the compatible ones. An empty list accepts any.
pub open spec fn compatible(major: u32, majors: Seq<u32>) -> bool {
    majors.len() == 0 || majors.contains(major)
}

/// The first JDK whose major is compatible.
pub open spec fn first_compatible(probed: Seq<(Seq<char>, u32)>, majors: Seq<u32>) -> Option<
    Seq<char>,
>
    decreases probed.len(),
{
    if probed.len() == 0 {
        None
    } else {
        match first_compatible(probed.drop_last(), majors) {
            Some(path) => Some(path),
            None => if compatible(probed.last().1, majors) {
                Some(probed.last().0)
            } else {
                None
            },
        }
    }
}

/// A list of numbers, as it is shown.
pub open spec fn shown(numbers: Seq<u32>) -> Seq<char> {
    "["@ + joined(numbers.map_values(|n: u32| decimal(n as nat)), ", "@) + "]"@
}

/// The failure to find a compatible JDK.
pub open spec fn no_compatible_java(probed: Seq<(Seq<char>, u32)>, majors: Seq<u32>) -> ErrorView {
    plain_error(
        CauseView::Other {
            message: "no JDK on PATH satisfies compatibleJavaMajors "@ + shown(majors)
                + " (found majors: "@ + shown(
                probed.map_values(|candidate: (Seq<char>, u32)| candidate.1),
            ) + ") - pass --java <path> to a matching JDK"@,
        },
    )
}

/// The JDK to launch with, from those that could be probed. `candidates` is how many
/// there were.
pub open spec fn selection(
    candidates: nat,
    probed: Seq<(Seq<char>, u32)>,
    majors: Seq<u32>,
) -> Result<Seq<char>, ErrorView> {
    if candidates == 0 {
        Err(
            plain_error(
                CauseView::Other {
                    message: "no `java` found on PATH - install a JDK or pass --java <path>"@,
                },
            ),
        )
    } else {
        match first_compatible(probed, majors) {
            Some(path) => Ok(path),
            None => Err(no_compatible_java(probed, majors)),
        }
    }
}

/// Whether a major is among the compatible ones.
pub fn is_compatible(major: u32, majors: &Vec<u32>) -> (yes: bool)
    ensures
        yes == compatible(major, majors@),
{
    if majors.len() == 0 {
        return true;
    }
    for i in 0..majors.len()
        invariant
            majors.len() > 0,
            forall|j: int| 0 <= j < i ==> majors@[j] != major,
    {
        if majors[i] == major {
            return true;
        }
    }
    false
}

/// A list of numbers, as it is shown.
fn show(numbers: &Vec<u32>) -> (text: String)
    ensures
        text@ == shown(numbers@),
{
    let ghost all = numbers@.map_values(|n: u32| decimal(n as nat));
    let mut texts: Vec<String> = Vec::new();
    proof {
        assert(texts.deep_view() =~= all.take(0));
    }
    for i in 0..numbers.len()
        invariant
            all == numbers@.map_values(|n: u32| decimal(n as nat)),
            texts.deep_view() == all.take(i as int),
    {
        let ghost before = texts.deep_view();
        texts.push(decimal_text(numbers[i] as u64));
        proof {
            assert(texts.deep_view() =~= before.push(all[i as int]));
            assert(texts.deep_view() =~= all.take(i + 1));
        }
    }
    proof {
        assert(all.take(numbers.len() as int) =~= all);
    }
    let list = join(&texts, ", ");
    concat3("[", list.as_str(), "]")
}

/// Choose the JDK to launch with among those that could be probed, in order: the
/// first whose major satisfies `majors`; empty `majors` accept any working `java`.
/// `candidates` is how many there were, probed or not.
///
/// # Errors
/// Returns an error if there was no candidate, or if none matches.
fn select_probed(candidates: usize, probed: &Vec<(String, u32)>, majors: &Vec<u32>) -> (result:
    Result<String, Error>)
    ensures
        outcome(result) == selection(candidates as nat, probed.deep_view(), majors@),
{
    if candidates == 0 {
        return Err(
            Error::new(
                Cause::Other {
                    message: "no `java` found on PATH - install a JDK or pass --java <path>".to_owned(),
                },
            ),
        );
    }
    let ghost all = probed.deep_view();
    let mut found: Vec<u32> = Vec::new();
    for i in 0..probed.len()
        invariant
            candidates > 0,
            all == probed.deep_view(),
            found@ == all.map_values(|candidate: (Seq<char>, u32)| candidate.1).take(i as int),
            first_compatible(all.take(i as int), majors@) is None,
    {
        proof {
            assert(all.take(i + 1).drop_last() =~= all.take(i as int));
            assert(all.take(i + 1).last() == probed@[i as int].deep_view());
        }
        let major: u32 = probed[i].1;
        if is_compatible(major, majors) {
            proof {
                first_match_stays(all, i + 1, majors@);
            }
            return Ok(probed[i].0.clone());
        }
        found.push(major);
        proof {
            assert(found@ =~= all.map_values(
                |candidate: (Seq<char>, u32)| candidate.1,
            ).take(i + 1));
        }
    }
    proof {
        assert(all.take(probed.len() as int) =~= all);
        assert(found@ =~= all.map_values(|candidate: (Seq<char>, u32)| candidate.1));
    }
    let wanted = show(majors);
    let there = show(&found);
    let mut message = concat3(
        "no JDK on PATH satisfies compatibleJavaMajors ",
        wanted.as_str(),
        " (found majors: ",
    );
    message.append(there.as_str());
    message.append(") - pass --java <path> to a matching JDK");
    Err(Error::new(Cause::Other { message }))
}

/// The first match stays the first one whatever follows.
proof fn first_match_stays(probed: Seq<(Seq<char>, u32)>, n: int, majors: Seq<u32>)
    requires
        0 <= n <= probed.len(),
        first_compatible(probed.take(n), majors) is Some,
    ensures
        first_compatible(probed, majors) == first_compatible(probed.take(n), majors),
    decreases probed.len() - n,
{
    if n == probed.len() {
        assert(probed.take(n) =~= probed);
    } else {
        assert(probed.take(n + 1).drop_last() =~= probed.take(n));
        first_match_stays(probed, n + 1, majors);
    }
}

/// Take an explicit `--java`, given what probing it led to: it is used verbatim,
/// whatever its major.
///
/// # Errors
/// Returns an error if it cannot be probed.
fn select_explicit(path: &str, probed: Result<u32, Error>) -> (result: Result<String, Error>)
    ensures
        outcome(result) == match probed {
            Ok(_) => Ok::<Seq<char>, ErrorView>(path@),
            Err(error) => Err(error.deep_view().within("probing the --java binary at "@ + path@)),
        },
{
    match probed {
        Ok(_) => Ok(path.to_owned()),
        Err(error) => Err(error.within("probing the --java binary at ".to_owned().concat(path))),
    }
}

/// An explicit `--java`, and what probing it led to.
#[derive(Debug)]
pub struct ExplicitJava {
    pub path: String,
    pub probed: Result<u32, Error>,
}

/// The JDK to launch with: an explicit one, or one that was found.
pub open spec fn java_choice(
    explicit: Option<ExplicitJava>,
    candidates: nat,
    probed: Seq<(Seq<char>, u32)>,
    majors: Seq<u32>,
) -> Result<Seq<char>, ErrorView> {
    match explicit {
        Some(java) => match java.probed {
            Ok(_) => Ok(java.path@),
            Err(error) => Err(
                error.deep_view().within("probing the --java binary at "@ + java.path@),
            ),
        },
        None => selection(candidates, probed, majors),
    }
}

/// Choose the JDK to launch with.
///
/// With `--java` set, that path is used verbatim. Otherwise every `java` discoverable
/// on `PATH` is probed and the first whose major satisfies `compatible_majors` is
/// chosen; empty `compatible_majors` accept any working `java`. `candidates` is how
/// many there were, probed or not.
///
/// # Errors
/// Returns an error if the explicit path cannot be probed, or if no `PATH` `java`
/// matches the required majors.
pub fn select_java(
    explicit: Option<ExplicitJava>,
    candidates: usize,
    probed: &Vec<(String, u32)>,
    compatible_majors: &Vec<u32>,
) -> (result: Result<String, Error>)
    ensures
        outcome(result) == java_choice(
            explicit,
            candidates as nat,
            probed.deep_view(),
            compatible_majors@,
        ),
{
    match explicit {
        Some(java) => select_explicit(java.path.as_str(), java.probed),
        None => select_probed(candidates, probed, compatible_majors),
    }
}

// ---------------------------------------------------------------------------
// Laws
// ---------------------------------------------------------------------------

/// A JDK is selected exactly if a compatible one was probed.
pub proof fn selected_exactly_if_compatible(probed: Seq<(Seq<char>, u32)>, majors: Seq<u32>)
    ensures
        first_compatible(probed, majors) is Some <==> exists|i: int|
            0 <= i < probed.len() && compatible((#[trigger] probed[i]).1, majors),
        first_compatible(probed, majors) matches Some(path) ==> exists|i: int|
            0 <= i < probed.len() && compatible((#[trigger] probed[i]).1, majors) && probed[i].0
                == path,
    decreases probed.len(),
{
    if probed.len() > 0 {
        let before = probed.drop_last();
        selected_exactly_if_compatible(before, majors);
        assert(forall|i: int| 0 <= i < before.len() ==> before[i] == #[trigger] probed[i]);
        if let Some(path) = first_compatible(before, majors) {
            let i = choose|i: int|
                0 <= i < before.len() && compatible((#[trigger] before[i]).1, majors) && before[i].0
                    == path;
            assert(compatible(probed[i].1, majors) && probed[i].0 == path);
        } else {
            assert(forall|i: int|
                0 <= i < before.len() ==> !compatible((#[trigger] before[i]).1, majors));
            if compatible(probed.last().1, majors) {
                assert(compatible(probed[probed.len() - 1].1, majors));
            } else {
                assert forall|i: int| 0 <= i < probed.len() implies !compatible(
                    (#[trigger] probed[i]).1,
                    majors,
                ) by {
                    if i < before.len() {
                        assert(!compatible(before[i].1, majors));
                    }
                }
            }
        }
    }
}

/// The first JDK that is compatible is selected.
pub proof fn path_order_decides(probed: Seq<(Seq<char>, u32)>, majors: Seq<u32>, i: int)
    requires
        0 <= i < probed.len(),
        compatible(probed[i].1, majors),
        forall|j: int| 0 <= j < i ==> !compatible((#[trigger] probed[j]).1, majors),
    ensures
        first_compatible(probed, majors) == Some(probed[i].0),
{
    let head = probed.take(i);
    selected_exactly_if_compatible(head, majors);
    assert(forall|j: int| 0 <= j < head.len() ==> head[j] == #[trigger] probed[j]);
    assert(first_compatible(head, majors) is None) by {
        if first_compatible(head, majors) is Some {
            let j = choose|j: int|
                0 <= j < head.len() && compatible((#[trigger] head[j]).1, majors);
            assert(compatible(probed[j].1, majors));
        }
    }
    assert(probed.take(i + 1).drop_last() =~= head);
    assert(probed.take(i + 1).last() == probed[i]);
    first_match_stays(probed, i + 1, majors);
}

/// Broken candidates are passed over: the first one that works and is compatible is
/// selected.
pub proof fn broken_candidates_are_passed_over(
    probed: Seq<(String, Result<u32, Error>)>,
    majors: Seq<u32>,
    i: int,
)
    requires
        0 <= i < probed.len(),
        probed[i].1 matches Ok(major) && compatible(major, majors),
        forall|j: int|
            0 <= j < i ==> ((#[trigger] probed[j]).1 matches Ok(major) ==> !compatible(
                major,
                majors,
            )),
    ensures
        selection(probed.len(), working(probed), majors) == Ok::<Seq<char>, ErrorView>(
            probed[i].0@,
        ),
{
    nothing_compatible_before(probed, majors, i);
    working_grows(probed, i);
    let head = working(probed.take(i));
    let major = probed[i].1->Ok_0;
    assert(head.push((probed[i].0@, major)).drop_last() =~= head);
    first_match_remains(probed, majors, i + 1);
}

/// Candidates that are broken or incompatible lead to no JDK.
proof fn nothing_compatible_before(
    probed: Seq<(String, Result<u32, Error>)>,
    majors: Seq<u32>,
    n: int,
)
    requires
        0 <= n <= probed.len(),
        forall|j: int|
            0 <= j < n ==> ((#[trigger] probed[j]).1 matches Ok(major) ==> !compatible(
                major,
                majors,
            )),
    ensures
        first_compatible(working(probed.take(n)), majors) is None,
    decreases n,
{
    if n == 0 {
        reveal(Seq::filter);
        assert(working(probed.take(0)) =~= Seq::empty());
    } else {
        nothing_compatible_before(probed, majors, n - 1);
        working_grows(probed, n - 1);
        if let Ok(major) = probed[n - 1].1 {
            let head = working(probed.take(n - 1));
            assert(head.push((probed[n - 1].0@, major)).drop_last() =~= head);
        }
    }
}

/// The JDK that the first candidates lead to stays the one whatever follows.
proof fn first_match_remains(
    probed: Seq<(String, Result<u32, Error>)>,
    majors: Seq<u32>,
    n: int,
)
    requires
        0 <= n <= probed.len(),
        first_compatible(working(probed.take(n)), majors) is Some,
    ensures
        first_compatible(working(probed), majors) == first_compatible(
            working(probed.take(n)),
            majors,
        ),
    decreases probed.len() - n,
{
    if n == probed.len() {
        assert(probed.take(n) =~= probed);
    } else {
        working_grows(probed, n);
        if let Ok(major) = probed[n].1 {
            let head = working(probed.take(n));
            assert(head.push((probed[n].0@, major)).drop_last() =~= head);
        }
        first_match_remains(probed, majors, n + 1);
    }
}

/// No candidate is probed twice.
pub proof fn candidates_are_distinct(candidates: Seq<Seq<char>>, exists_at: Seq<bool>)
    ensures
        forall|i: int, j: int|
            0 <= i < j < existing_once(candidates, exists_at).len() ==> !same_place(
                #[trigger] existing_once(candidates, exists_at)[i],
                #[trigger] existing_once(candidates, exists_at)[j],
            ),
    decreases candidates.len(),
{
    if candidates.len() > 0 {
        let before = existing_once(candidates.drop_last(), exists_at);
        let all = existing_once(candidates, exists_at);
        candidates_are_distinct(candidates.drop_last(), exists_at);
        assert forall|i: int, j: int| 0 <= i < j < all.len() implies !same_place(
            #[trigger] all[i],
            #[trigger] all[j],
        ) by {
            assert(all[i] == before[i]);
            if j < before.len() {
                assert(all[j] == before[j]);
            }
        }
    }
}

/// No candidate that exists is lost: the one that is kept for it is the same path.
pub proof fn existing_candidates_are_kept(
    candidates: Seq<Seq<char>>,
    exists_at: Seq<bool>,
    i: int,
)
    requires
        0 <= i < candidates.len(),
        exists_at[i],
    ensures
        leads_to(existing_once(candidates, exists_at), candidates[i]),
    decreases candidates.len(),
{
    let before = existing_once(candidates.drop_last(), exists_at);
    let all = existing_once(candidates, exists_at);
    if i < candidates.len() - 1 {
        existing_candidates_are_kept(candidates.drop_last(), exists_at, i);
        let k = choose|k: int|
            0 <= k < before.len() && same_place(#[trigger] before[k], candidates[i]);
        assert(all[k] == before[k]);
    } else if !leads_to(before, candidates.last()) {
        assert(same_place(all[before.len() as int], candidates[i]));
    }
}

/// Without an explicit java and with a list of majors, the JDK that is selected was
/// probed with a major on that list; and if any was, one is selected.
pub proof fn selected_major_is_listed(
    candidates: nat,
    probed: Seq<(Seq<char>, u32)>,
    majors: Seq<u32>,
)
    requires
        majors.len() > 0,
    ensures
        java_choice(None, candidates, probed, majors) matches Ok(path) ==> exists|i: int, k: int|
            0 <= i < probed.len() && 0 <= k < majors.len() && (#[trigger] probed[i]).0 == path
                && probed[i].1 == #[trigger] majors[k],
        candidates > 0 && (exists|i: int, k: int|
            0 <= i < probed.len() && 0 <= k < majors.len() && (#[trigger] probed[i]).1
                == #[trigger] majors[k]) ==> java_choice(None, candidates, probed, majors) is Ok,
{
    selected_exactly_if_compatible(probed, majors);
    if let Ok(path) = java_choice(None, candidates, probed, majors) {
        let i = choose|i: int|
            0 <= i < probed.len() && compatible((#[trigger] probed[i]).1, majors) && probed[i].0
                == path;
        let k = choose|k: int| 0 <= k < majors.len() && majors[k] == probed[i].1;
        assert(probed[i].1 == majors[k]);
    }
    if exists|i: int, k: int|
        0 <= i < probed.len() && 0 <= k < majors.len() && (#[trigger] probed[i]).1
            == #[trigger] majors[k] {
        let (i, k) = choose|i: int, k: int|
            0 <= i < probed.len() && 0 <= k < majors.len() && (#[trigger] probed[i]).1
                == #[trigger] majors[k];
        assert(majors.contains(probed[i].1));
        assert(compatible(probed[i].1, majors));
    }
}

/// No JDK before the selected one has a major on the list.
pub proof fn earlier_javas_are_not_listed(
    candidates: nat,
    probed: Seq<(Seq<char>, u32)>,
    majors: Seq<u32>,
    i: int,
    k: int,
)
    requires
        candidates > 0,
        0 <= i < probed.len(),
        0 <= k < majors.len(),
        probed[i].1 == majors[k],
        forall|j: int, l: int|
            0 <= j < i && 0 <= l < majors.len() ==> (#[trigger] probed[j]).1
                != #[trigger] majors[l],
    ensures
        java_choice(None, candidates, probed, majors) == Ok::<Seq<char>, ErrorView>(probed[i].0),
{
    assert(majors.contains(probed[i].1));
    assert forall|j: int| 0 <= j < i implies !compatible((#[trigger] probed[j]).1, majors) by {
        if majors.contains(probed[j].1) {
            let l = choose|l: int| 0 <= l < majors.len() && majors[l] == probed[j].1;
            assert(probed[j].1 != majors[l]);
        }
    }
    path_order_decides(probed, majors, i);
}

/// Without a list of majors the first JDK that works is selected.
pub proof fn any_java_will_do_without_majors(candidates: nat, probed: Seq<(Seq<char>, u32)>)
    requires
        candidates > 0,
        probed.len() > 0,
    ensures
        java_choice(None, candidates, probed, Seq::empty()) == Ok::<Seq<char>, ErrorView>(
            probed[0].0,
        ),
{
    path_order_decides(probed, Seq::empty(), 0);
}

/// Where no JDK works, or none was found, none is selected.
pub proof fn nothing_is_selected_from_nothing(
    candidates: nat,
    probed: Seq<(Seq<char>, u32)>,
    majors: Seq<u32>,
)
    requires
        candidates == 0 || probed.len() == 0,
    ensures
        java_choice(None, candidates, probed, majors) is Err,
{
}

/// An explicit java is used as it is, whatever its major and whatever else was found,
/// as long as it can be probed.
pub proof fn explicit_java_is_used_verbatim(
    java: ExplicitJava,
    candidates: nat,
    probed: Seq<(Seq<char>, u32)>,
    majors: Seq<u32>,
)
    ensures
        java.probed is Ok ==> java_choice(Some(java), candidates, probed, majors) == Ok::<
            Seq<char>,
            ErrorView,
        >(java.path@),
        java.probed matches Err(error) ==> (java_choice(Some(java), candidates, probed, majors)
            matches Err(told) && told.cause == error.deep_view().cause),
{
}

/// The candidates are the java of `JAVA_HOME`, if it is set, and one per directory of
/// `PATH`, in order.
pub proof fn candidates_follow_path_order(
    java_home: Option<Seq<char>>,
    dirs: Seq<Seq<char>>,
    i: int,
)
    requires
        0 <= i < dirs.len(),
    ensures
        java_home is None ==> candidate_places(java_home, dirs).len() == dirs.len()
            && candidate_places(java_home, dirs)[i] == path_join(dirs[i], "java"@),
        java_home matches Some(home) ==> candidate_places(java_home, dirs).len() == dirs.len() + 1
            && candidate_places(java_home, dirs)[0] == path_join(
            path_join(home, "bin"@),
            "java"@,
        ) && candidate_places(java_home, dirs)[i + 1] == path_join(dirs[i], "java"@),
{
}

/// Every candidate that is kept exists, and those that are kept stand in their order:
/// one more candidate never changes what was kept before it.
pub proof fn kept_candidates_exist(candidates: Seq<Seq<char>>, exists_at: Seq<bool>)
    requires
        exists_at.len() == candidates.len(),
    ensures
        forall|k: int|
            0 <= k < existing_once(candidates, exists_at).len() ==> exists|i: int|
                0 <= i < candidates.len() && exists_at[i] && #[trigger] candidates[i] == (
                #[trigger] existing_once(candidates, exists_at)[k]),
        candidates.len() > 0 ==> existing_once(
            candidates.drop_last(),
            exists_at.drop_last(),
        ).is_prefix_of(existing_once(candidates, exists_at)),
    decreases candidates.len(),
{
    if candidates.len() > 0 {
        let shorter = candidates.drop_last();
        let flags = exists_at.drop_last();
        kept_candidates_exist(shorter, flags);
        flags_beyond_do_not_matter(shorter, exists_at, flags);
        let before = existing_once(shorter, flags);
        let all = existing_once(candidates, exists_at);
        assert(all.take(before.len() as int) =~= before);
        assert forall|k: int| 0 <= k < all.len() implies exists|i: int|
            0 <= i < candidates.len() && exists_at[i] && #[trigger] candidates[i] == (
            #[trigger] all[k]) by {
            if k < before.len() {
                assert(all[k] == before[k]);
                let i = choose|i: int|
                    0 <= i < shorter.len() && flags[i] && #[trigger] shorter[i] == before[k];
                assert(candidates[i] == all[k] && exists_at[i]);
            } else {
                assert(candidates[candidates.len() - 1] == all[k]);
            }
        }
    }
}

/// What is kept depends only on the flags of the candidates there are.
proof fn flags_beyond_do_not_matter(candidates: Seq<Seq<char>>, a: Seq<bool>, b: Seq<bool>)
    requires
        forall|i: int| 0 <= i < candidates.len() ==> a[i] == b[i],
    ensures
        existing_once(candidates, a) == existing_once(candidates, b),
    decreases candidates.len(),
{
    if candidates.len() > 0 {
        flags_beyond_do_not_matter(candidates.drop_last(), a, b);
    }
}

/// The version that stands in quotes behind the first `version` of the output is the one
/// whose major is read, whatever surrounds it.
pub proof fn first_quoted_version_decides(
    output: Seq<char>,
    i: int,
    at: int,
    version: Seq<char>,
    rest: Seq<char>,
)
    requires
        0 <= i < lines_of(output).len(),
        forall|j: int|
            0 <= j < i ==> !contains_text(#[trigger] lines_of(output)[j], "version \""@),
        first_at(lines_of(output)[i], "version \""@, at),
        lines_of(output)[i].skip(at + "version \""@.len()) == version.push('"') + rest,
        !version.contains('"'),
    ensures
        java_major(output) == major_of(version),
{
    let all = lines_of(output);
    find_text_is(all[i], "version \""@, at);
    nothing_quoted_before(all, i);
    assert(all.take(i + 1).drop_last() =~= all.take(i));
    assert(all.take(i + 1).last() == all[i]);
    first_quoted_stays(all, i + 1);
    let text = version.push('"') + rest;
    assert forall|j: int| 0 <= j < version.len() implies text[j] != '"' by {
        assert(text[j] == version[j]);
    }
    find_char_is(text, '"', version.len() as int);
    assert(text.take(version.len() as int) =~= version);
}

/// Lines that name no version lead to none.
proof fn nothing_quoted_before(lines: Seq<Seq<char>>, n: int)
    requires
        0 <= n <= lines.len(),
        forall|j: int| 0 <= j < n ==> !contains_text(#[trigger] lines[j], "version \""@),
    ensures
        quoted_text(lines.take(n)) is None,
    decreases n,
{
    if n > 0 {
        assert(lines.take(n).drop_last() =~= lines.take(n - 1));
        nothing_quoted_before(lines, n - 1);
        find_text_bounds(lines[n - 1], "version \""@);
    }
}

/// The major of a version is its first number, whatever follows behind a dot, an
/// underscore or a hyphen; only behind a leading `1` it is the second one.
pub proof fn major_is_the_leading_number(major: u32, c: char, rest: Seq<char>)
    requires
        c == '.' || c == '_' || c == '-',
    ensures
        major != 1 ==> major_of(decimal(major as nat)) == Some(major),
        major != 1 ==> major_of(decimal(major as nat).push(c) + rest) == Some(major),
        major_of("1"@.push(c) + decimal(major as nat)) == Some(major),
        major_of("1"@.push(c) + (decimal(major as nat).push(c) + rest)) == Some(major),
        major_of("1"@) is None,
{
    let sep = Separator::VersionPart;
    let number = decimal(major as nat);
    let one = "1"@;
    reveal_strlit("1");
    decimal_reads_back(major as nat);
    decimal_reads_back(1);
    assert forall|i: int| 0 <= i < number.len() implies !sep.has(#[trigger] number[i]) by {
        assert(is_digit(number[i]));
    }
    split_without_separator(number, sep);
    split_without_separator(one, sep);
    split_around(number, c, rest, sep);
    split_around(one, c, number, sep);
    split_around(one, c, number.push(c) + rest, sep);
    assert(one =~= decimal(1));
    if number == one {
        assert(digits_value(number) == 1);
    }
    assert((seq![one] + (seq![number] + split_at_each(rest, sep)))[1] == number);
}

/// A candidate that could be probed is taken over with its path and its major where it
/// stands; one that could not is left out.
pub proof fn probed_candidates_keep_their_majors(
    probed: Seq<(String, Result<u32, Error>)>,
    candidate: (String, Result<u32, Error>),
)
    ensures
        working(Seq::empty()).len() == 0,
        working(probed.push(candidate)) == match candidate.1 {
            Ok(major) => working(probed).push((candidate.0@, major)),
            Err(_) => working(probed),
        },
{
    reveal(Seq::filter);
    let more = probed.push(candidate);
    assert(more.take(probed.len() as int + 1) =~= more);
    assert(more.take(probed.len() as int) =~= probed);
    working_grows(more, probed.len() as int);
}

/// A version that is quoted on no line, or that is no number, is a failure that shows the
/// output without the white space around it.
pub proof fn unreadable_versions_are_shown(output: Seq<char>)
    ensures
        java_major(output) matches Some(major) ==> probe_outcome(output) == Ok::<u32, ErrorView>(
            major,
        ),
        java_major(output) is None ==> (probe_outcome(output) matches Err(error) && error.cause == (
        CauseView::Other {
            message: "could not parse a java major version from: "@ + trimmed_right(
                trimmed_left(output),
            ),
        })),
{
}

/// Output that names no version has no major, and a version that is not closed by a quote
/// reaches to the end of its line.
pub proof fn open_versions_reach_to_the_end(
    output: Seq<char>,
    i: int,
    at: int,
    version: Seq<char>,
)
    requires
        !version.contains('"'),
    ensures
        (forall|j: int|
            0 <= j < lines_of(output).len() ==> !contains_text(
                #[trigger] lines_of(output)[j],
                "version \""@,
            )) ==> java_major(output) is None,
        0 <= i < lines_of(output).len() && (forall|j: int|
            0 <= j < i ==> !contains_text(#[trigger] lines_of(output)[j], "version \""@))
            && first_at(lines_of(output)[i], "version \""@, at) && lines_of(output)[i].skip(
            at + "version \""@.len(),
        ) == version ==> java_major(output) == major_of(version),
{
    let all = lines_of(output);
    find_char_bounds(version, '"');
    if forall|j: int|
        0 <= j < all.len() ==> !contains_text(#[trigger] all[j], "version \""@) {
        nothing_quoted_before(all, all.len() as int);
        assert(all.take(all.len() as int) =~= all);
    }
    if 0 <= i < all.len() && (forall|j: int|
        0 <= j < i ==> !contains_text(#[trigger] all[j], "version \""@)) && first_at(
        all[i],
        "version \""@,
        at,
    ) && all[i].skip(at + "version \""@.len()) == version {
        find_text_is(all[i], "version \""@, at);
        nothing_quoted_before(all, i);
        assert(all.take(i + 1).drop_last() =~= all.take(i));
        assert(all.take(i + 1).last() == all[i]);
        first_quoted_stays(all, i + 1);
    }
}

/// A list of majors is shown in brackets, with a comma and a space between two.
pub proof fn majors_are_shown_in_brackets(numbers: Seq<u32>, n: u32)
    ensures
        shown(Seq::empty()) == "["@ + "]"@,
        shown(seq![n]) == "["@ + decimal(n as nat) + "]"@,
        numbers.len() > 0 ==> shown(numbers.push(n)).push(']') == shown(numbers).drop_last()
            + ", "@ + decimal(n as nat) + "]]"@,
{
    reveal_strlit("]");
    reveal_strlit("]]");
    let of = |n: u32| decimal(n as nat);
    let text = joined(numbers.map_values(of), ", "@);
    joined_grows(numbers.map_values(of), decimal(n as nat), ", "@);
    assert(Seq::<u32>::empty().map_values(of) =~= Seq::<Seq<char>>::empty());
    assert("["@ + Seq::<char>::empty() =~= "["@);
    assert(seq![n].map_values(of) =~= seq![decimal(n as nat)]);
    assert(numbers.push(n).map_values(of) =~= numbers.map_values(of).push(decimal(n as nat)));
    assert(shown(numbers).drop_last() =~= "["@ + text);
    if numbers.len() > 0 {
        assert(shown(numbers.push(n)).push(']') =~= "["@ + text + ", "@ + decimal(n as nat)
            + "]]"@);
    }
}

/// Without a JDK the failure says so; with JDKs none of which fits, it tells the majors that
/// are wanted and those that were found. A `--java` that cannot be probed is named.
pub proof fn failed_selections_tell_why(
    candidates: nat,
    probed: Seq<(Seq<char>, u32)>,
    majors: Seq<u32>,
    java: ExplicitJava,
)
    ensures
        java_choice(None, 0, probed, majors) matches Err(error) && error.cause == (
        CauseView::Other {
            message: "no `java` found on PATH - install a JDK or pass --java <path>"@,
        }),
        candidates > 0 ==> (java_choice(None, candidates, probed, majors) matches Err(error)
            ==> error.cause == (CauseView::Other {
            message: "no JDK on PATH satisfies compatibleJavaMajors "@ + shown(majors)
                + " (found majors: "@ + shown(
                Seq::new(probed.len(), |i: int| probed[i].1),
            ) + ") - pass --java <path> to a matching JDK"@,
        })),
        java.probed matches Err(error) ==> (java_choice(Some(java), candidates, probed, majors)
            matches Err(told) && told.contexts == error.deep_view().contexts.push(
            "probing the --java binary at "@ + java.path@,
        )),
{
    assert(probed.map_values(|candidate: (Seq<char>, u32)| candidate.1) =~= Seq::new(
        probed.len(),
        |i: int| probed[i].1,
    ));
}

} // verus!
