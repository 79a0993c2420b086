//! The text of the deliverable.
//!
//! `launch.argv` (one token per line) and the same command as one line for stdout.
//! With `--headless` also a companion `launch.env` carrying the software-GL and
//! silent-audio hints for the caller to source, and an OpenAL Soft config - never an
//! xvfb-wrapped command. `resolution.lock` is an audit manifest.

use vstd::prelude::*;
use vstd::string::*;

use crate::model::artifact::{ArtifactRecord, ArtifactRecordView, Role};
use crate::paths::{
    join_path, joined_name_stands_inside, parent, parent_of, path_join, same_place, trimmed_path,
    trimming_keeps_the_place,
};
use crate::replicate::Replicate;
use crate::text::{
    join, joined, split_around, split_at_each, split_without_separator, Separator,
};

verus! {

/// The environment hints of `launch.env`: software GL, and no audio device.
pub open spec fn headless_env() -> Seq<(Seq<char>, Seq<char>)> {
    seq![
        ("LIBGL_ALWAYS_SOFTWARE"@, "1"@),
        ("GALLIUM_DRIVER"@, "llvmpipe"@),
        ("ALSOFT_DRIVERS"@, "null"@),
    ]
}

/// One `KEY=value` per line.
pub open spec fn env_lines(pairs: Seq<(Seq<char>, Seq<char>)>) -> Seq<char>
    decreases pairs.len(),
{
    if pairs.len() == 0 {
        Seq::empty()
    } else {
        env_lines(pairs.drop_last()) + pairs.last().0 + "="@ + pairs.last().1 + "\n"@
    }
}

/// The text of `launch.argv`: one token per line, trailing newline.
pub open spec fn argv_lines(argv: Seq<Seq<char>>) -> Seq<char> {
    joined(argv, "\n"@) + "\n"@
}

/// The text of `launch.argv`: one token per line, trailing newline.
pub fn argv_text(argv: &Vec<String>) -> (text: String)
    ensures
        text@ == argv_lines(argv.deep_view()),
{
    join(argv, "\n").concat("\n")
}

/// The command as a single runnable line.
pub fn command_line(argv: &Vec<String>) -> (line: String)
    ensures
        line@ == joined(argv.deep_view(), " "@),
{
    join(argv, " ")
}

/// The text of the headless `launch.env` (one `KEY=value` per line).
pub fn env_text() -> (text: String)
    ensures
        text@ == env_lines(headless_env()),
{
    let pairs: Vec<(&str, &str)> = vec![
        ("LIBGL_ALWAYS_SOFTWARE", "1"),
        ("GALLIUM_DRIVER", "llvmpipe"),
        ("ALSOFT_DRIVERS", "null"),
    ];
    let mut text = String::new();
    let ghost all = headless_env();
    proof {
        assert(text@ =~= env_lines(all.take(0)));
    }
    for i in 0..pairs.len()
        invariant
            all == headless_env(),
            pairs@.len() == all.len(),
            forall|j: int|
                0 <= j < all.len() ==> (#[trigger] pairs@[j]).0@ == all[j].0 && pairs@[j].1@
                    == all[j].1,
            text@ == env_lines(all.take(i as int)),
    {
        proof {
            assert(all.take(i + 1).drop_last() =~= all.take(i as int));
            assert(all.take(i + 1).last() == all[i as int]);
        }
        text.append(pairs[i].0);
        text.append("=");
        text.append(pairs[i].1);
        text.append("\n");
    }
    proof {
        assert(all.take(pairs.len() as int) =~= all);
    }
    text
}

/// The text of the headless `alsoft.conf`: the null output, so that no audio device
/// is needed.
pub fn alsoft_text() -> (text: String)
    ensures
        text@ == "[general]\ndrivers = null\n"@,
{
    "[general]\ndrivers = null\n".to_owned()
}

/// The directory of the outputs: the one that the argv file stands in.
pub open spec fn output_dir(argv_path: Seq<char>) -> Seq<char> {
    match parent_of(argv_path) {
        Some(directory) => directory,
        None => "."@,
    }
}

/// The place of an output beside the argv file.
pub open spec fn beside(argv_path: Seq<char>, name: Seq<char>) -> Seq<char> {
    path_join(output_dir(argv_path), name)
}

/// The place of an output beside the argv file.
fn path_beside(argv_path: &str, name: &str) -> (path: String)
    ensures
        path@ == beside(argv_path@, name@),
{
    match parent(argv_path) {
        Some(directory) => join_path(directory.as_str(), name),
        None => join_path(".", name),
    }
}

/// The place of the audit manifest, which every run writes: `resolution.lock` beside
/// the argv file.
pub fn lock_path(argv_path: &str) -> (path: String)
    ensures
        path@ == beside(argv_path@, "resolution.lock"@),
{
    path_beside(argv_path, "resolution.lock")
}

/// A text to write.
#[derive(Debug)]
pub struct TextFile {
    /// What it is, for messages.
    pub name: String,
    /// Where it goes.
    pub path: String,
    /// What it holds.
    pub text: String,
}

/// What a [`TextFile`] holds.
#[verifier::ext_equal]
pub struct TextFileView {
    pub name: Seq<char>,
    pub path: Seq<char>,
    pub text: Seq<char>,
}

impl DeepView for TextFile {
    type V = TextFileView;

    open spec fn deep_view(&self) -> TextFileView {
        TextFileView { name: self.name@, path: self.path@, text: self.text@ }
    }
}

/// The argv file.
pub open spec fn argv_file(argv: Seq<Seq<char>>, argv_path: Seq<char>) -> TextFileView {
    TextFileView { name: "launch.argv"@, path: argv_path, text: argv_lines(argv) }
}

/// The hints for a headless launch, beside the argv file.
pub open spec fn headless_files(argv_path: Seq<char>) -> Seq<TextFileView> {
    seq![
        TextFileView {
            name: "launch.env"@,
            path: beside(argv_path, "launch.env"@),
            text: env_lines(headless_env()),
        },
        TextFileView {
            name: "alsoft.conf"@,
            path: beside(argv_path, "alsoft.conf"@),
            text: "[general]\ndrivers = null\n"@,
        },
    ]
}

/// The texts that a run writes: the argv file, and the headless hints if and only if the
/// run is headless.
pub open spec fn emitted(argv: Seq<Seq<char>>, argv_path: Seq<char>, headless: bool) -> Seq<
    TextFileView,
> {
    if headless {
        seq![argv_file(argv, argv_path)] + headless_files(argv_path)
    } else {
        seq![argv_file(argv, argv_path)]
    }
}

/// The texts that a run writes, in order: `launch.argv` to `argv_path`, and (when
/// `headless`) `launch.env` and `alsoft.conf` beside it. The audit manifest goes to
/// [`lock_path`] in any case.
pub fn emitted_files(argv: &Vec<String>, argv_path: &str, headless: bool) -> (files: Vec<TextFile>)
    ensures
        files.deep_view() == emitted(argv.deep_view(), argv_path@, headless),
{
    let mut files: Vec<TextFile> = Vec::new();
    files.push(
        TextFile {
            name: "launch.argv".to_owned(),
            path: argv_path.to_owned(),
            text: argv_text(argv),
        },
    );
    if headless {
        files.push(
            TextFile {
                name: "launch.env".to_owned(),
                path: path_beside(argv_path, "launch.env"),
                text: env_text(),
            },
        );
        files.push(
            TextFile {
                name: "alsoft.conf".to_owned(),
                path: path_beside(argv_path, "alsoft.conf"),
                text: alsoft_text(),
            },
        );
    }
    proof {
        assert(files.deep_view() =~= emitted(argv.deep_view(), argv_path@, headless));
    }
    files
}

/// The stable name of a role for the manifest.
pub open spec fn role_text(role: Role) -> Seq<char> {
    match role {
        Role::Classpath => "classpath"@,
        Role::MavenFile => "maven-file"@,
        Role::NativeExtract => "native-extract"@,
        Role::Asset => "asset"@,
        Role::NoUrl => "no-url"@,
    }
}

/// The stable string name of a role for the manifest.
pub fn role_name(role: Role) -> (name: &'static str)
    ensures
        name@ == role_text(role),
{
    match role {
        Role::Classpath => "classpath",
        Role::MavenFile => "maven-file",
        Role::NativeExtract => "native-extract",
        Role::Asset => "asset",
        Role::NoUrl => "no-url",
    }
}

/// A single artifact row in `resolution.lock`.
#[derive(Debug)]
pub struct LockEntry {
    pub coordinate: String,
    pub url: Option<String>,
    pub sha1: Option<String>,
    pub local_path: String,
    pub role: String,
}

/// What a [`LockEntry`] holds.
#[verifier::ext_equal]
pub struct LockEntryView {
    pub coordinate: Seq<char>,
    pub url: Option<Seq<char>>,
    pub sha1: Option<Seq<char>>,
    pub local_path: Seq<char>,
    pub role: Seq<char>,
}

impl DeepView for LockEntry {
    type V = LockEntryView;

    open spec fn deep_view(&self) -> LockEntryView {
        LockEntryView {
            coordinate: self.coordinate@,
            url: self.url.deep_view(),
            sha1: self.sha1.deep_view(),
            local_path: self.local_path@,
            role: self.role@,
        }
    }
}

/// The row of an artifact.
pub open spec fn lock_row(record: ArtifactRecordView) -> LockEntryView {
    LockEntryView {
        coordinate: record.coordinate,
        url: record.url,
        sha1: record.sha1,
        local_path: record.local_path,
        role: role_text(record.role),
    }
}

/// The rows of the `resolution.lock` audit manifest: every resolved artifact's
/// coordinate, url, sha1, local path, and role, in order.
pub fn lock_entries(records: &[ArtifactRecord]) -> (entries: Vec<LockEntry>)
    ensures
        entries.deep_view() == records.deep_view().map_values(
            |record: ArtifactRecordView| lock_row(record),
        ),
{
    let mut entries: Vec<LockEntry> = Vec::new();
    let ghost all = records.deep_view().map_values(|record: ArtifactRecordView| lock_row(record));
    proof {
        assert(entries.deep_view() =~= all.take(0));
    }
    for i in 0..records.len()
        invariant
            all == records.deep_view().map_values(|record: ArtifactRecordView| lock_row(record)),
            entries.deep_view() == all.take(i as int),
    {
        let ghost before = entries.deep_view();
        let record = &records[i];
        let entry = LockEntry {
            coordinate: record.coordinate.clone(),
            url: record.url.replicate(),
            sha1: record.sha1.replicate(),
            local_path: record.local_path.clone(),
            role: role_name(record.role).to_owned(),
        };
        entries.push(entry);
        proof {
            assert(entry.deep_view() == all[i as int]);
            assert(entries.deep_view() =~= before.push(all[i as int]));
            assert(entries.deep_view() =~= all.take(i + 1));
        }
    }
    proof {
        assert(all.take(records@.len() as int) =~= all);
    }
    entries
}

// ---------------------------------------------------------------------------
// Laws
// ---------------------------------------------------------------------------

/// The lines of `launch.argv` are the tokens of the command, as long as no token
/// holds a line feed.
pub proof fn argv_reads_back(argv: Seq<Seq<char>>)
    requires
        argv.len() > 0,
        forall|i: int| 0 <= i < argv.len() ==> !(#[trigger] argv[i]).contains('\n'),
    ensures
        split_at_each(argv_lines(argv), Separator::Is('\n')) == argv.push(Seq::empty()),
{
    reveal_strlit("\n");
    let text = joined(argv, "\n"@);
    let feed = Separator::Is('\n');
    joined_splits(argv);
    assert(text + "\n"@ =~= text.push('\n') + Seq::<char>::empty());
    split_around(text, '\n', Seq::empty(), feed);
    assert(split_at_each(Seq::<char>::empty(), feed) =~= seq![Seq::<char>::empty()]);
    assert(argv + seq![Seq::<char>::empty()] =~= argv.push(Seq::empty()));
}

proof fn joined_splits(argv: Seq<Seq<char>>)
    requires
        argv.len() > 0,
        forall|i: int| 0 <= i < argv.len() ==> !(#[trigger] argv[i]).contains('\n'),
    ensures
        split_at_each(joined(argv, "\n"@), Separator::Is('\n')) == argv,
    decreases argv.len(),
{
    reveal_strlit("\n");
    let feed = Separator::Is('\n');
    let last = argv.last();
    assert(last == argv[argv.len() - 1]);
    assert forall|i: int| 0 <= i < last.len() implies !feed.has(#[trigger] last[i]) by {
        assert(last.contains(last[i]));
    }
    split_without_separator(last, feed);
    if argv.len() == 1 {
        assert(seq![last] =~= argv);
    } else {
        let before = argv.drop_last();
        assert forall|i: int| 0 <= i < before.len() implies !(#[trigger] before[i]).contains(
            '\n',
        ) by {
            assert(before[i] == argv[i]);
        }
        joined_splits(before);
        assert(joined(argv, "\n"@) =~= joined(before, "\n"@).push('\n') + last);
        split_around(joined(before, "\n"@), '\n', last, feed);
        assert(before + seq![last] =~= argv);
    }
}

/// `--headless` only adds its two hint files: the argv file stays as it is, and without
/// the flag there is nothing else.
pub proof fn headless_only_adds_hints(argv: Seq<Seq<char>>, argv_path: Seq<char>)
    ensures
        emitted(argv, argv_path, false) == seq![argv_file(argv, argv_path)],
        emitted(argv, argv_path, true) == emitted(argv, argv_path, false) + headless_files(
            argv_path,
        ),
{
}

/// Whatever is written besides the argv file stands under its own name in the same
/// directory.
pub proof fn outputs_stand_beside_the_argv(
    argv: Seq<Seq<char>>,
    directory: Seq<char>,
    name: Seq<char>,
    headless: bool,
)
    requires
        directory.len() > 0,
        name.len() > 0,
        name != "."@,
        !name.contains('/'),
    ensures
        same_place(trimmed_path(directory), directory),
        beside(path_join(directory, name), "resolution.lock"@) == path_join(
            trimmed_path(directory),
            "resolution.lock"@,
        ),
        forall|i: int|
            1 <= i < emitted(argv, path_join(directory, name), headless).len() ==> (
            #[trigger] emitted(argv, path_join(directory, name), headless)[i]).path == path_join(
                trimmed_path(directory),
                emitted(argv, path_join(directory, name), headless)[i].name,
            ),
{
    trimming_keeps_the_place(directory);
    joined_name_stands_inside(directory, name);
}

/// Different roles have different names in the manifest.
pub proof fn role_names_are_distinct(a: Role, b: Role)
    ensures
        role_text(a) == role_text(b) ==> a == b,
{
    reveal_strlit("classpath");
    reveal_strlit("maven-file");
    reveal_strlit("native-extract");
    reveal_strlit("asset");
    reveal_strlit("no-url");
    assert(role_text(a) == role_text(b) ==> role_text(a).len() == role_text(b).len());
}

/// The audit manifest tells of an artifact what was resolved of it, under the name of its
/// role.
pub proof fn rows_tell_what_was_resolved(record: ArtifactRecordView)
    ensures
        lock_row(record).coordinate == record.coordinate,
        lock_row(record).url == record.url,
        lock_row(record).sha1 == record.sha1,
        lock_row(record).local_path == record.local_path,
        record.role == Role::Classpath ==> lock_row(record).role == "classpath"@,
        record.role == Role::MavenFile ==> lock_row(record).role == "maven-file"@,
        record.role == Role::NativeExtract ==> lock_row(record).role == "native-extract"@,
        record.role == Role::Asset ==> lock_row(record).role == "asset"@,
        record.role == Role::NoUrl ==> lock_row(record).role == "no-url"@,
{
}

/// The environment hints are software rendering and no audio device, one per line.
pub proof fn hints_are_one_per_line(
    pairs: Seq<(Seq<char>, Seq<char>)>,
    key: Seq<char>,
    value: Seq<char>,
)
    ensures
        env_lines(Seq::empty()).len() == 0,
        env_lines(pairs.push((key, value))) == env_lines(pairs) + key + "="@ + value + "\n"@,
        env_lines(headless_env()) == "LIBGL_ALWAYS_SOFTWARE"@ + "="@ + "1"@ + "\n"@
            + "GALLIUM_DRIVER"@ + "="@ + "llvmpipe"@ + "\n"@ + "ALSOFT_DRIVERS"@ + "="@ + "null"@
            + "\n"@,
{
    assert(pairs.push((key, value)).drop_last() =~= pairs);
    let all = headless_env();
    let two = all.drop_last();
    let one = two.drop_last();
    assert(one.drop_last() =~= Seq::empty());
    assert(env_lines(one.drop_last()) =~= Seq::<char>::empty());
    assert(all.last() == ("ALSOFT_DRIVERS"@, "null"@));
    assert(two.last() == ("GALLIUM_DRIVER"@, "llvmpipe"@));
    assert(one.last() == ("LIBGL_ALWAYS_SOFTWARE"@, "1"@));
    let first = "LIBGL_ALWAYS_SOFTWARE"@ + "="@ + "1"@ + "\n"@;
    assert(env_lines(one) =~= first);
    assert(env_lines(two) == first + "GALLIUM_DRIVER"@ + "="@ + "llvmpipe"@ + "\n"@);
    assert(env_lines(all) == env_lines(two) + "ALSOFT_DRIVERS"@ + "="@ + "null"@ + "\n"@);
}

/// A run writes the command to the argv file, a token per line. A headless run also writes
/// the hints and the audio config, each under its own name.
pub proof fn runs_write_these_files(argv: Seq<Seq<char>>, argv_path: Seq<char>)
    ensures
        emitted(argv, argv_path, false).len() == 1,
        emitted(argv, argv_path, true).len() == 3,
        emitted(argv, argv_path, true)[0] == emitted(argv, argv_path, false)[0],
        emitted(argv, argv_path, false)[0].name == "launch.argv"@,
        emitted(argv, argv_path, false)[0].path == argv_path,
        emitted(argv, argv_path, false)[0].text == joined(argv, "\n"@) + "\n"@,
        emitted(argv, argv_path, true)[1].name == "launch.env"@,
        emitted(argv, argv_path, true)[1].text == env_lines(headless_env()),
        emitted(argv, argv_path, true)[2].name == "alsoft.conf"@,
        emitted(argv, argv_path, true)[2].text == "[general]\ndrivers = null\n"@,
        parent_of(argv_path) is None ==> emitted(argv, argv_path, true)[1].path == path_join(
            "."@,
            "launch.env"@,
        ) && emitted(argv, argv_path, true)[2].path == path_join("."@, "alsoft.conf"@),
        parent_of(argv_path) matches Some(directory) ==> emitted(argv, argv_path, true)[1].path
            == path_join(directory, "launch.env"@) && emitted(argv, argv_path, true)[2].path
            == path_join(directory, "alsoft.conf"@),
{
}

} // verus!
