//! Maven coordinates: `group:artifact:version[:classifier][@extension]`.

use vstd::prelude::*;
use vstd::string::*;

use crate::exit::{plain_error, Cause, CauseView, Error, ErrorView};
use crate::text::{
    chars_of, find_char, find_char_bounds, find_char_from, find_char_is, split, split_around,
    split_at_each, split_has_a_piece, split_once, split_once_at, split_without_separator, Separator,
};

verus! {

/// A parsed maven coordinate.
#[derive(Debug)]
pub struct Coordinate {
    pub group: String,
    pub artifact: String,
    pub version: String,
    pub classifier: Option<String>,
    /// File extension (`jar` unless an `@ext` suffix set otherwise).
    pub extension: String,
}

/// What a [`Coordinate`] holds.
#[verifier::ext_equal]
pub struct CoordinateView {
    pub group: Seq<char>,
    pub artifact: Seq<char>,
    pub version: Seq<char>,
    pub classifier: Option<Seq<char>>,
    pub extension: Seq<char>,
}

impl DeepView for Coordinate {
    type V = CoordinateView;

    open spec fn deep_view(&self) -> CoordinateView {
        CoordinateView {
            group: self.group@,
            artifact: self.artifact@,
            version: self.version@,
            classifier: self.classifier.deep_view(),
            extension: self.extension@,
        }
    }
}

/// The coordinate that `name` writes. An `@ext` suffix belongs to the whole
/// coordinate, so it is taken off before the rest is split at the colons.
pub open spec fn coordinate_of(name: Seq<char>) -> Option<CoordinateView> {
    let (body, extension) = match split_once_at(name, '@') {
        Some(parts) => parts,
        None => (name, "jar"@),
    };
    let parts = split_at_each(body, Separator::Is(':'));
    if parts.len() == 3 || parts.len() == 4 {
        Some(
            CoordinateView {
                group: parts[0],
                artifact: parts[1],
                version: parts[2],
                classifier: if parts.len() == 4 {
                    Some(parts[3])
                } else {
                    None
                },
                extension,
            },
        )
    } else {
        None
    }
}

/// The failure to read `name` as a coordinate.
pub open spec fn bad_coordinate(name: Seq<char>) -> ErrorView {
    plain_error(CauseView::InvalidCoordinate { name })
}

/// `text` with a `/` for every `.`.
pub open spec fn slashed(text: Seq<char>) -> Seq<char> {
    text.map_values(
        |c: char|
            if c == '.' {
                '/'
            } else {
                c
            },
    )
}

impl CoordinateView {
    /// The filename: `artifact-version[-classifier].extension`.
    pub open spec fn file(self) -> Seq<char> {
        let stem = self.artifact + "-"@ + self.version;
        match self.classifier {
            Some(classifier) => stem + "-"@ + classifier + "."@ + self.extension,
            None => stem + "."@ + self.extension,
        }
    }

    /// The place in a maven repository: `group/artifact/version/filename`, where
    /// the group is split into directories at its dots.
    pub open spec fn layout(self) -> Seq<char> {
        slashed(self.group) + "/"@ + self.artifact + "/"@ + self.version + "/"@ + self.file()
    }
}

/// The maven layout path of `name`, if it is a coordinate.
pub open spec fn maven_path(name: Seq<char>) -> Option<Seq<char>> {
    match coordinate_of(name) {
        Some(coordinate) => Some(coordinate.layout()),
        None => None,
    }
}

/// The `group:artifact` prefix of a coordinate: the text before the second colon,
/// or all of it.
pub open spec fn key_of(name: Seq<char>) -> Seq<char> {
    match find_char(name, ':') {
        Some(first) => match find_char(name.skip(first + 1), ':') {
            Some(second) => name.take(first + 1 + second),
            None => name,
        },
        None => name,
    }
}

/// The version segment of a coordinate: its third segment, if it has one.
pub open spec fn version_segment(name: Seq<char>) -> Option<Seq<char>> {
    let parts = split_at_each(name, Separator::Is(':'));
    if parts.len() > 2 {
        Some(parts[2])
    } else {
        None
    }
}

impl Coordinate {
    /// The filename: `artifact-version[-classifier].extension`.
    pub fn filename(&self) -> (name: String)
        ensures
            name@ == self.deep_view().file(),
    {
        let mut name = self.artifact.clone();
        name.append("-");
        name.append(self.version.as_str());
        if let Some(classifier) = &self.classifier {
            name.append("-");
            name.append(classifier.as_str());
        }
        name.append(".");
        name.append(self.extension.as_str());
        name
    }
}

/// Split `group:artifact:version[:classifier][@extension]` into its parts.
pub fn parse_coordinate(name: &str) -> (coordinate: Result<Coordinate, Error>)
    ensures
        match coordinate {
            Ok(parsed) => coordinate_of(name@) == Some(parsed.deep_view()),
            Err(error) => coordinate_of(name@) is None && error.deep_view() == bad_coordinate(
                name@,
            ),
        },
{
    let (body, extension) = match split_once(name, '@') {
        Some((body, extension)) => (body, extension),
        None => (name.to_owned(), "jar".to_owned()),
    };
    let parts = split(body.as_str(), Separator::Is(':'));
    proof {
        assert(forall|i: int|
            0 <= i < parts@.len() ==> parts.deep_view()[i] == (#[trigger] parts@[i])@);
    }
    if parts.len() == 3 || parts.len() == 4 {
        let classifier = if parts.len() == 4 {
            Some(parts[3].clone())
        } else {
            None
        };
        Ok(
            Coordinate {
                group: parts[0].clone(),
                artifact: parts[1].clone(),
                version: parts[2].clone(),
                classifier,
                extension,
            },
        )
    } else {
        Err(Error::new(Cause::InvalidCoordinate { name: name.to_owned() }))
    }
}

/// `text` with a `/` for every `.`.
fn dots_to_slashes(text: &str) -> (out: String)
    ensures
        out@ == slashed(text@),
{
    let chars = chars_of(text);
    let mut out = String::new();
    for i in 0..chars.len()
        invariant
            chars@ == text@,
            out@ == slashed(text@).take(i as int),
    {
        if chars[i] == '.' {
            out.push('/');
        } else {
            out.push(chars[i]);
        }
        proof {
            assert(out@ =~= slashed(text@).take(i + 1));
        }
    }
    proof {
        assert(slashed(text@).take(text@.len() as int) =~= slashed(text@));
    }
    out
}

/// The maven layout path as a `/`-joined string: the single source both the
/// on-disk path and a derived url are built from, so they can't drift.
pub fn maven_relative_path(name: &str) -> (path: Result<String, Error>)
    ensures
        match path {
            Ok(path) => maven_path(name@) == Some(path@),
            Err(error) => maven_path(name@) is None && error.deep_view() == bad_coordinate(name@),
        },
{
    match parse_coordinate(name) {
        Ok(coordinate) => {
            let mut path = dots_to_slashes(coordinate.group.as_str());
            path.append("/");
            path.append(coordinate.artifact.as_str());
            path.append("/");
            path.append(coordinate.version.as_str());
            path.append("/");
            let file = coordinate.filename();
            path.append(file.as_str());
            Ok(path)
        },
        Err(error) => Err(error),
    }
}

/// Compute the relative maven path (`group/artifact/version/file.jar`) for a
/// coordinate.
///
/// # Errors
/// Returns an error if `name` is not
/// `group:artifact:version[:classifier][@extension]`.
pub fn maven_coordinate_to_path(name: &str) -> (path: Result<String, Error>)
    ensures
        match path {
            Ok(path) => maven_path(name@) == Some(path@),
            Err(error) => maven_path(name@) is None && error.deep_view() == bad_coordinate(name@),
        },
{
    maven_relative_path(name)
}

/// The bare jar filename, for jars that live flat in the libraries directory.
pub fn maven_filename(name: &str) -> (file: Result<String, Error>)
    ensures
        match file {
            Ok(file) => coordinate_of(name@) matches Some(coordinate) && file@
                == coordinate.file(),
            Err(error) => coordinate_of(name@) is None && error.deep_view() == bad_coordinate(
                name@,
            ),
        },
{
    match parse_coordinate(name) {
        Ok(coordinate) => Ok(coordinate.filename()),
        Err(error) => Err(error),
    }
}

/// The `group:artifact` prefix of a maven coordinate - the first two
/// colon-separated segments, ignoring any version/classifier that follow.
#[must_use]
pub fn artifact_key(name: &str) -> (key: &str)
    ensures
        key@ == key_of(name@),
{
    let chars = chars_of(name);
    proof {
        assert(name@.skip(0) =~= name@);
    }
    match find_char_from(&chars, ':', 0) {
        Some(first) => match find_char_from(&chars, ':', first + 1) {
            Some(second) => {
                let key = name.substring_char(0, first + 1 + second);
                proof {
                    assert(key@ =~= name@.take(first + 1 + second));
                }
                key
            },
            None => name,
        },
        None => name,
    }
}

/// The version component (third segment) of a maven coordinate, if present.
pub fn coordinate_version(coordinate: &str) -> (version: Option<String>)
    ensures
        version.deep_view() == version_segment(coordinate@),
{
    let parts = split(coordinate, Separator::Is(':'));
    proof {
        assert(forall|i: int|
            0 <= i < parts@.len() ==> parts.deep_view()[i] == (#[trigger] parts@[i])@);
    }
    if parts.len() > 2 {
        Some(parts[2].clone())
    } else {
        None
    }
}

// ---------------------------------------------------------------------------
// Laws
// ---------------------------------------------------------------------------

/// Whether `text` can be one segment of a coordinate: it holds none of the
/// characters that coordinates are split at.
pub open spec fn segment(text: Seq<char>) -> bool {
    !text.contains(':') && !text.contains('@')
}

/// The pieces of `group:artifact:rest`.
proof fn split_of_three(group: Seq<char>, artifact: Seq<char>, rest: Seq<char>)
    requires
        segment(group),
        segment(artifact),
    ensures
        split_at_each(group.push(':') + (artifact.push(':') + rest), Separator::Is(':')) == seq![
            group,
            artifact,
        ] + split_at_each(rest, Separator::Is(':')),
{
    let sep = Separator::Is(':');
    split_around(group, ':', artifact.push(':') + rest, sep);
    split_around(artifact, ':', rest, sep);
    split_without_separator(group, sep);
    split_without_separator(artifact, sep);
    assert(seq![group] + (seq![artifact] + split_at_each(rest, sep)) =~= seq![group, artifact]
        + split_at_each(rest, sep));
}

/// A coordinate without classifier and extension is read back as its segments.
pub proof fn plain_coordinate_reads_back(
    group: Seq<char>,
    artifact: Seq<char>,
    version: Seq<char>,
)
    requires
        segment(group),
        segment(artifact),
        segment(version),
    ensures
        coordinate_of(group.push(':') + (artifact.push(':') + version)) == Some(
            CoordinateView { group, artifact, version, classifier: None, extension: "jar"@ },
        ),
{
    let name = group.push(':') + (artifact.push(':') + version);
    assert(!name.contains('@')) by {
        if name.contains('@') {
            let i = choose|i: int| 0 <= i < name.len() && name[i] == '@';
            segment_at(group, artifact, version, i);
        }
    }
    find_char_bounds(name, '@');
    split_of_three(group, artifact, version);
    split_without_separator(version, Separator::Is(':'));
}

/// How a coordinate is written, with its extension.
pub open spec fn written(coordinate: CoordinateView) -> Seq<char> {
    let version = match coordinate.classifier {
        Some(classifier) => coordinate.version.push(':') + classifier,
        None => coordinate.version,
    };
    (coordinate.group.push(':') + (coordinate.artifact.push(':') + version)).push('@')
        + coordinate.extension
}

/// A coordinate that is written with its extension is read back as it was.
pub proof fn coordinate_reads_back(coordinate: CoordinateView)
    requires
        segment(coordinate.group),
        segment(coordinate.artifact),
        segment(coordinate.version),
        coordinate.classifier matches Some(classifier) ==> segment(classifier),
    ensures
        coordinate_of(written(coordinate)) == Some(coordinate),
{
    let sep = Separator::Is(':');
    let group = coordinate.group;
    let artifact = coordinate.artifact;
    let tail = match coordinate.classifier {
        Some(classifier) => coordinate.version.push(':') + classifier,
        None => coordinate.version,
    };
    let body = group.push(':') + (artifact.push(':') + tail);
    let name = written(coordinate);
    assert(!tail.contains('@')) by {
        if tail.contains('@') {
            let i = choose|i: int| 0 <= i < tail.len() && tail[i] == '@';
            if i < coordinate.version.len() {
                assert(coordinate.version[i] == '@');
            } else if i > coordinate.version.len() {
                assert(coordinate.classifier->0[i - coordinate.version.len() - 1] == '@');
            }
        }
    }
    assert forall|i: int| 0 <= i < body.len() implies name[i] != '@' by {
        segment_at(group, artifact, tail, i);
        assert(name[i] == body[i]);
    }
    find_char_is(name, '@', body.len() as int);
    assert(name.take(body.len() as int) =~= body);
    assert(name.skip(body.len() as int + 1) =~= coordinate.extension);
    split_of_three(group, artifact, tail);
    split_without_separator(coordinate.version, sep);
    if let Some(classifier) = coordinate.classifier {
        split_around(coordinate.version, ':', classifier, sep);
        split_without_separator(classifier, sep);
    }
}

/// Every character of `group:artifact:rest` is a colon or one of the parts'.
proof fn segment_at(group: Seq<char>, artifact: Seq<char>, rest: Seq<char>, i: int)
    requires
        0 <= i < group.len() + artifact.len() + rest.len() + 2,
    ensures
        ({
            let c = (group.push(':') + (artifact.push(':') + rest))[i];
            c == ':' || group.contains(c) || artifact.contains(c) || rest.contains(c)
        }),
{
    let name = group.push(':') + (artifact.push(':') + rest);
    if i < group.len() {
        assert(name[i] == group[i]);
    } else if group.len() < i && i - group.len() - 1 < artifact.len() {
        assert(name[i] == artifact[i - group.len() - 1]);
    } else if i > group.len() + artifact.len() + 1 {
        assert(name[i] == rest[i - group.len() - artifact.len() - 2]);
    }
}

/// The key of a coordinate is its group and artifact, whatever version, classifier
/// or extension follow. Only colons matter: an `@` may stand anywhere.
pub proof fn key_ignores_version(group: Seq<char>, artifact: Seq<char>, rest: Seq<char>)
    requires
        !group.contains(':'),
        !artifact.contains(':'),
    ensures
        key_of(group.push(':') + (artifact.push(':') + rest)) == group.push(':') + artifact,
        key_of(group.push(':') + artifact) == group.push(':') + artifact,
{
    let name = group.push(':') + (artifact.push(':') + rest);
    let bare = group.push(':') + artifact;
    assert forall|j: int| 0 <= j < group.len() implies name[j] != ':' && bare[j] != ':' by {
        assert(name[j] == group[j] && bare[j] == group[j]);
    }
    find_char_is(name, ':', group.len() as int);
    find_char_is(bare, ':', group.len() as int);
    assert(name.skip(group.len() as int + 1) =~= artifact.push(':') + rest);
    assert(bare.skip(group.len() as int + 1) =~= artifact);
    let tail = artifact.push(':') + rest;
    assert forall|j: int| 0 <= j < artifact.len() implies tail[j] != ':' by {
        assert(tail[j] == artifact[j]);
    }
    find_char_is(tail, ':', artifact.len() as int);
    find_char_bounds(artifact, ':');
    assert(name.take(group.len() as int + 1 + artifact.len()) =~= bare);
}

/// The file of a coordinate lies in the directory of its group, artifact and version,
/// under a name made of artifact, version, classifier and extension.
pub proof fn coordinate_leads_to_its_file(coordinate: CoordinateView)
    requires
        segment(coordinate.group),
        segment(coordinate.artifact),
        segment(coordinate.version),
        coordinate.classifier matches Some(classifier) ==> segment(classifier),
    ensures
        coordinate.classifier is None ==> maven_path(written(coordinate)) == Some(
            slashed(coordinate.group) + "/"@ + coordinate.artifact + "/"@ + coordinate.version
                + "/"@ + (coordinate.artifact + "-"@ + coordinate.version + "."@
                + coordinate.extension),
        ),
        coordinate.classifier matches Some(classifier) ==> maven_path(written(coordinate)) == Some(
            slashed(coordinate.group) + "/"@ + coordinate.artifact + "/"@ + coordinate.version
                + "/"@ + (coordinate.artifact + "-"@ + coordinate.version + "-"@ + classifier + "."@
                + coordinate.extension),
        ),
{
    coordinate_reads_back(coordinate);
}

/// Without an extension the file is a jar.
pub proof fn plain_coordinate_leads_to_a_jar(
    group: Seq<char>,
    artifact: Seq<char>,
    version: Seq<char>,
)
    requires
        segment(group),
        segment(artifact),
        segment(version),
    ensures
        maven_path(group.push(':') + (artifact.push(':') + version)) == Some(
            slashed(group) + "/"@ + artifact + "/"@ + version + "/"@ + (artifact + "-"@ + version
                + "."@ + "jar"@),
        ),
        version_segment(group.push(':') + (artifact.push(':') + version)) == Some(version),
        coordinate_of(group.push(':') + artifact) is None,
        coordinate_of(group) is None,
{
    let sep = Separator::Is(':');
    plain_coordinate_reads_back(group, artifact, version);
    split_of_three(group, artifact, version);
    split_without_separator(version, sep);
    split_without_separator(group, sep);
    split_without_separator(artifact, sep);
    split_around(group, ':', artifact, sep);
    let pair = group.push(':') + artifact;
    assert(!pair.contains('@')) by {
        if pair.contains('@') {
            let i = choose|i: int| 0 <= i < pair.len() && pair[i] == '@';
            if i < group.len() {
                assert(group[i] == '@');
            } else if i > group.len() {
                assert(artifact[i - group.len() - 1] == '@');
            }
        }
    }
    find_char_bounds(pair, '@');
    find_char_bounds(group, '@');
}

/// A coordinate with more than four segments is none, and the version of any coordinate
/// is its third segment, whatever follows.
pub proof fn segments_are_counted(
    group: Seq<char>,
    artifact: Seq<char>,
    version: Seq<char>,
    classifier: Seq<char>,
    rest: Seq<char>,
)
    requires
        segment(group),
        segment(artifact),
        segment(version),
        segment(classifier),
        !rest.contains('@'),
    ensures
        version_segment(
            group.push(':') + (artifact.push(':') + (version.push(':') + rest)),
        ) == Some(version),
        coordinate_of(
            group.push(':') + (artifact.push(':') + (version.push(':') + (classifier.push(':')
                + rest))),
        ) is None,
{
    let sep = Separator::Is(':');
    split_of_three(group, artifact, version.push(':') + rest);
    split_around(version, ':', rest, sep);
    split_without_separator(version, sep);
    split_without_separator(classifier, sep);
    split_has_a_piece(rest, sep);
    let inner = classifier.push(':') + rest;
    let tail = version.push(':') + inner;
    let name = group.push(':') + (artifact.push(':') + tail);
    split_of_three(group, artifact, tail);
    split_around(version, ':', inner, sep);
    split_around(classifier, ':', rest, sep);
    assert(!name.contains('@')) by {
        if name.contains('@') {
            let i = choose|i: int| 0 <= i < name.len() && name[i] == '@';
            segment_at(group, artifact, tail, i);
            let j = choose|j: int| 0 <= j < tail.len() && tail[j] == '@';
            segment_at(version, classifier, rest, j);
        }
    }
    find_char_bounds(name, '@');
    let three = seq![group, artifact] + (seq![version] + split_at_each(rest, sep));
    assert(three[2] == version);
}

/// A group is split into directories at its dots, and at nothing else.
pub proof fn dots_become_directories(a: Seq<char>, b: Seq<char>)
    ensures
        slashed(a.push('.') + b) == slashed(a).push('/') + slashed(b),
        !a.contains('.') ==> slashed(a) == a,
{
    assert(slashed(a.push('.') + b) =~= slashed(a).push('/') + slashed(b));
    if !a.contains('.') {
        assert forall|i: int| 0 <= i < a.len() implies slashed(a)[i] == a[i] by {
            assert(a.contains(a[i]));
        }
        assert(slashed(a) =~= a);
    }
}

/// The version is the third segment, and a name with fewer has none.
pub proof fn version_is_the_third_segment(
    group: Seq<char>,
    artifact: Seq<char>,
    version: Seq<char>,
)
    requires
        !group.contains(':'),
        !artifact.contains(':'),
        !version.contains(':'),
    ensures
        version_segment(group.push(':') + (artifact.push(':') + version)) == Some(version),
        version_segment(group.push(':') + artifact) is None,
        version_segment(group) is None,
{
    let sep = Separator::Is(':');
    split_without_separator(group, sep);
    split_without_separator(artifact, sep);
    split_without_separator(version, sep);
    split_around(artifact, ':', version, sep);
    split_around(group, ':', artifact.push(':') + version, sep);
    split_around(group, ':', artifact, sep);
}

} // verus!
