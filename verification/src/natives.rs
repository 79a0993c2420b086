//! Legacy native extraction.
//!
//! Two native mechanisms exist and must not be conflated:
//! - Modern (LWJGL3 / 1.13+): the per-OS classifier jar is its own library,
//!   classified `Classpath` by resolution - it rides the classpath and the loader
//!   self-extracts. There is deliberately nothing to do here for those.
//! - Legacy (LWJGL2 / =<1.12): a `NativeExtract` jar whose contents are unzipped
//!   into `<instance>/natives/`, honoring `extract.exclude`, so the command can
//!   point `-Djava.library.path` at it.
//!
//! With `--headless`, input-device natives (the jinput family) are skipped -
//! there's no input device - while their jar stays on the classpath; controller
//! support is simply unavailable. `--keep-natives`/`--skip-natives` override the
//! built-in list.

use vstd::prelude::*;
use vstd::string::*;

use crate::archive::{
    bytes_or_words, text_or_words, zip_content, zip_count, zip_entry_content, zip_entry_count,
    zip_entry_name, zip_name,
};
use crate::exit::{plain_error, Cause, CauseView, Error, ErrorView};
use crate::lists::{chained, chained_holds_its_parts};
use crate::model::artifact::{ArtifactRecord, ArtifactRecordView, Role};
use crate::paths::{is_absolute, is_absolute_path, join_path, path_join};
use crate::text::{
    chars_of, contains, contains_text, occurs_at, same_text, split, split_at_each, starts_with,
    Separator,
};

verus! {

/// Options controlling which natives get extracted.
#[derive(Debug)]
pub struct NativeOptions {
    /// Skip input-device natives (the built-in list) unless `keep` overrides.
    pub headless: bool,
    /// Coordinate patterns to force-extract (highest precedence).
    pub keep: Vec<String>,
    /// Coordinate patterns to force-skip.
    pub skip: Vec<String>,
}

/// What [`NativeOptions`] hold.
#[verifier::ext_equal]
pub struct NativeOptionsView {
    pub headless: bool,
    pub keep: Seq<Seq<char>>,
    pub skip: Seq<Seq<char>>,
}

impl DeepView for NativeOptions {
    type V = NativeOptionsView;

    open spec fn deep_view(&self) -> NativeOptionsView {
        NativeOptionsView {
            headless: self.headless,
            keep: self.keep.deep_view(),
            skip: self.skip.deep_view(),
        }
    }
}

// ---------------------------------------------------------------------------
// Which natives are extracted
// ---------------------------------------------------------------------------

/// The coordinate substrings of the input-device native families.
pub open spec fn input_device_natives() -> Seq<Seq<char>> {
    seq!["jinput"@, "ois"@]
}

/// Whether `coordinate` contains one of `patterns`.
pub open spec fn matches_any(coordinate: Seq<char>, patterns: Seq<Seq<char>>) -> bool {
    exists|i: int| 0 <= i < patterns.len() && contains_text(coordinate, #[trigger] patterns[i])
}

/// Whether a native is extracted: keeping wins over skipping, and both over the
/// built-in list of input devices, which counts only on a headless run.
pub open spec fn extracts(coordinate: Seq<char>, options: NativeOptionsView) -> bool {
    matches_any(coordinate, options.keep) || !(matches_any(coordinate, options.skip) || (
    options.headless && matches_any(coordinate, input_device_natives())))
}

/// Whether `coordinate` contains any of the given substrings.
pub fn coordinate_matches(coordinate: &str, patterns: &Vec<String>) -> (yes: bool)
    ensures
        yes == matches_any(coordinate@, patterns.deep_view()),
{
    for i in 0..patterns.len()
        invariant
            forall|j: int|
                0 <= j < i ==> !contains_text(coordinate@, #[trigger] patterns.deep_view()[j]),
    {
        if contains(coordinate, patterns[i].as_str()) {
            proof {
                assert(contains_text(coordinate@, patterns.deep_view()[i as int]));
            }
            return true;
        }
        proof {
            assert(patterns.deep_view()[i as int] == patterns@[i as int]@);
        }
    }
    false
}

/// Decide whether one native should be extracted. Precedence: `keep` wins over
/// everything, then `skip`, then the headless built-in input-device list.
pub fn should_extract(coordinate: &str, options: &NativeOptions) -> (yes: bool)
    ensures
        yes == extracts(coordinate@, options.deep_view()),
{
    if coordinate_matches(coordinate, &options.keep) {
        return true;
    }
    if coordinate_matches(coordinate, &options.skip) {
        return false;
    }
    let devices: Vec<String> = vec!["jinput".to_owned(), "ois".to_owned()];
    proof {
        assert(devices.deep_view() =~= input_device_natives());
    }
    !(options.headless && coordinate_matches(coordinate, &devices))
}

/// Whether the jar of a record is unpacked.
pub open spec fn unpacks(record: ArtifactRecordView, options: NativeOptionsView) -> bool {
    record.role == Role::NativeExtract && extracts(record.coordinate, options)
}

/// The records whose jars are extracted, in order.
pub open spec fn extracted_records(
    records: Seq<ArtifactRecordView>,
    options: NativeOptionsView,
) -> Seq<ArtifactRecordView> {
    records.filter(|record: ArtifactRecordView| unpacks(record, options))
}

/// Pick the `NativeExtract` records to extract, in order. Modern (classpath)
/// natives are ignored here by design.
pub fn natives_to_extract<'a>(records: &'a [ArtifactRecord], options: &NativeOptions) -> (picked:
    Vec<&'a ArtifactRecord>)
    ensures
        picked.deep_view() == extracted_records(records.deep_view(), options.deep_view()),
{
    let mut picked: Vec<&'a ArtifactRecord> = Vec::new();
    let ghost all = records.deep_view();
    proof {
        reveal(Seq::filter);
        assert(picked.deep_view() =~= extracted_records(all.take(0), options.deep_view()));
    }
    for i in 0..records.len()
        invariant
            all == records.deep_view(),
            picked.deep_view() == extracted_records(all.take(i as int), options.deep_view()),
    {
        let ghost before = picked.deep_view();
        proof {
            reveal(Seq::filter);
            assert(all.take(i + 1).drop_last() =~= all.take(i as int));
            assert(all.take(i + 1).last() == records@[i as int].deep_view());
        }
        if records[i].role == Role::NativeExtract && should_extract(
            records[i].coordinate.as_str(),
            options,
        ) {
            picked.push(&records[i]);
            proof {
                assert(picked.deep_view() =~= before.push(records@[i as int].deep_view()));
            }
        }
    }
    proof {
        assert(all.take(records@.len() as int) =~= all);
    }
    picked
}

// ---------------------------------------------------------------------------
// What is unpacked from a jar
// ---------------------------------------------------------------------------

/// How deep a path leads below where it starts, if it never leads above it. As
/// everywhere, this is a path of a Unix host.
pub open spec fn depth_of(parts: Seq<Seq<char>>) -> Option<nat>
    decreases parts.len(),
{
    if parts.len() == 0 {
        Some(0)
    } else {
        let part = parts.last();
        match depth_of(parts.drop_last()) {
            None => None,
            Some(depth) => if part.len() == 0 || part == "."@ {
                Some(depth)
            } else if part == ".."@ {
                if depth == 0 {
                    None
                } else {
                    Some((depth - 1) as nat)
                }
            } else {
                Some(depth + 1)
            },
        }
    }
}

/// Whether the name of an entry stays inside the directory it is unpacked into on a
/// Unix host: no NUL, not absolute, and never above the directory on the way.
pub open spec fn enclosed(name: Seq<char>) -> bool {
    &&& !name.contains('\0')
    &&& !is_absolute_path(name)
    &&& depth_of(split_at_each(name, Separator::Is('/'))) is Some
}

/// Whether the name of an entry is that of a directory.
pub open spec fn names_directory(name: Seq<char>) -> bool {
    name.len() > 0 && (name.last() == '/' || name.last() == '\\')
}

/// Whether one of the `extract.exclude` prefixes covers a name.
pub open spec fn excluded(name: Seq<char>, exclude: Seq<Seq<char>>) -> bool {
    exists|i: int| 0 <= i < exclude.len() && (#[trigger] exclude[i]).is_prefix_of(name)
}

/// Where an entry is unpacked to, if it is.
pub open spec fn destination(
    name: Seq<char>,
    natives_dir: Seq<char>,
    exclude: Seq<Seq<char>>,
) -> Option<Seq<char>> {
    if enclosed(name) && !names_directory(name) && !excluded(name, exclude) {
        Some(path_join(natives_dir, name))
    } else {
        None
    }
}

/// Whether the name of an entry stays inside the directory it is unpacked into.
pub fn is_enclosed(name: &str) -> (yes: bool)
    ensures
        yes == enclosed(name@),
{
    let chars = chars_of(name);
    for i in 0..chars.len()
        invariant
            chars@ == name@,
            forall|j: int| 0 <= j < i ==> chars@[j] != '\0',
    {
        if chars[i] == '\0' {
            proof {
                assert(name@[i as int] == '\0');
            }
            return false;
        }
    }
    if is_absolute(name) {
        return false;
    }
    let parts = split(name, Separator::Is('/'));
    let ghost all = parts.deep_view();
    let mut depth: usize = 0;
    for i in 0..parts.len()
        invariant
            all == parts.deep_view(),
            all == split_at_each(name@, Separator::Is('/')),
            depth <= i,
            depth_of(all.take(i as int)) == Some(depth as nat),
    {
        proof {
            assert(all.take(i + 1).drop_last() =~= all.take(i as int));
            assert(all.take(i + 1).last() == parts@[i as int]@);
        }
        let part = parts[i].as_str();
        let stays = part.is_empty() || same_text(part, ".");
        if !stays && same_text(part, "..") {
            if depth == 0 {
                proof {
                    no_depth_stays(all, i + 1);
                }
                return false;
            }
            depth = depth - 1;
        } else if !stays {
            depth = depth + 1;
        }
    }
    proof {
        assert(all.take(parts.len() as int) =~= all);
    }
    true
}

/// A path that leads above its start does so whatever follows.
proof fn no_depth_stays(parts: Seq<Seq<char>>, n: int)
    requires
        0 <= n <= parts.len(),
        depth_of(parts.take(n)) is None,
    ensures
        depth_of(parts) is None,
    decreases parts.len() - n,
{
    if n == parts.len() {
        assert(parts.take(n) =~= parts);
    } else {
        assert(parts.take(n + 1).drop_last() =~= parts.take(n));
        no_depth_stays(parts, n + 1);
    }
}

/// Decide where an entry of a native jar is unpacked to. Directories, unsafe names
/// and entries under an `extract.exclude` prefix are skipped: stray signatures can
/// break native loading.
pub fn entry_destination(name: &str, natives_dir: &str, exclude: &Vec<String>) -> (place: Option<
    String,
>)
    ensures
        place.deep_view() == destination(name@, natives_dir@, exclude.deep_view()),
{
    if !is_enclosed(name) {
        return None;
    }
    let chars = chars_of(name);
    if chars.len() > 0 && (chars[chars.len() - 1] == '/' || chars[chars.len() - 1] == '\\') {
        return None;
    }
    for i in 0..exclude.len()
        invariant
            forall|j: int| 0 <= j < i ==> !(#[trigger] exclude.deep_view()[j]).is_prefix_of(name@),
    {
        if starts_with(name, exclude[i].as_str()) {
            proof {
                assert(exclude.deep_view()[i as int].is_prefix_of(name@));
            }
            return None;
        }
        proof {
            assert(exclude.deep_view()[i as int] == exclude@[i as int]@);
        }
    }
    Some(join_path(natives_dir, name))
}

/// A file to write.
#[derive(Debug)]
pub struct NativeFile {
    pub path: String,
    pub content: Vec<u8>,
}

/// What a [`NativeFile`] holds.
#[verifier::ext_equal]
pub struct NativeFileView {
    pub path: Seq<char>,
    pub content: Seq<u8>,
}

impl DeepView for NativeFile {
    type V = NativeFileView;

    open spec fn deep_view(&self) -> NativeFileView {
        NativeFileView { path: self.path@, content: self.content@ }
    }
}

/// What a jar unpacks to: the files to write in order, and the failure at which it
/// ends early, if there is one.
#[derive(Debug)]
pub struct Unpacked {
    pub files: Vec<NativeFile>,
    pub failure: Option<Error>,
}

/// What an [`Unpacked`] holds.
#[verifier::ext_equal]
pub struct UnpackedView {
    pub files: Seq<NativeFileView>,
    pub failure: Option<ErrorView>,
}

impl DeepView for Unpacked {
    type V = UnpackedView;

    open spec fn deep_view(&self) -> UnpackedView {
        UnpackedView { files: self.files.deep_view(), failure: self.failure.deep_view() }
    }
}

/// A failure in words.
pub open spec fn in_words(words: Seq<char>) -> ErrorView {
    plain_error(CauseView::Other { message: words })
}

/// What one entry unpacks to, given its name and its content: a file, nothing, or a
/// failure. The content of an entry that is skipped does not matter.
pub open spec fn entry_outcome(
    name: Result<Seq<char>, Seq<char>>,
    content: Result<Seq<u8>, Seq<char>>,
    natives_dir: Seq<char>,
    exclude: Seq<Seq<char>>,
) -> Result<Option<NativeFileView>, ErrorView> {
    match name {
        Err(words) => Err(in_words(words)),
        Ok(name) => match destination(name, natives_dir, exclude) {
            None => Ok(None),
            Some(path) => match content {
                Ok(content) => Ok(Some(NativeFileView { path, content })),
                Err(words) => Err(in_words(words).within("writing "@ + path)),
            },
        },
    }
}

/// What the first `n` entries of a jar unpack to, given the names and contents of
/// the entries.
pub open spec fn entries_outcome(
    names: Seq<Result<Seq<char>, Seq<char>>>,
    contents: Seq<Result<Seq<u8>, Seq<char>>>,
    n: nat,
    natives_dir: Seq<char>,
    exclude: Seq<Seq<char>>,
) -> UnpackedView
    decreases n,
{
    if n == 0 {
        UnpackedView { files: Seq::empty(), failure: None }
    } else {
        let before = entries_outcome(names, contents, (n - 1) as nat, natives_dir, exclude);
        if before.failure is Some {
            before
        } else {
            match entry_outcome(names[n - 1], contents[n - 1], natives_dir, exclude) {
                Ok(None) => before,
                Ok(Some(file)) => UnpackedView { files: before.files.push(file), ..before },
                Err(error) => UnpackedView { failure: Some(error), ..before },
            }
        }
    }
}

/// What a jar unpacks to.
pub open spec fn jar_outcome(
    jar: Seq<u8>,
    jar_path: Seq<char>,
    natives_dir: Seq<char>,
    exclude: Seq<Seq<char>>,
) -> UnpackedView {
    match zip_count(jar) {
        Err(words) => UnpackedView {
            files: Seq::empty(),
            failure: Some(in_words(words).within("reading native jar "@ + jar_path)),
        },
        Ok(count) => entries_outcome(
            Seq::new(count, |i: int| zip_name(jar, i as nat)),
            Seq::new(count, |i: int| zip_content(jar, i as nat)),
            count,
            natives_dir,
            exclude,
        ),
    }
}

/// What one entry unpacks to, given its name and its content.
///
/// # Errors
/// Returns an error if the name cannot be had, or if the entry is to be unpacked
/// and its content cannot be had.
pub fn unpack_entry(
    name: Result<String, String>,
    content: Result<Vec<u8>, String>,
    natives_dir: &str,
    exclude: &Vec<String>,
) -> (result: Result<Option<NativeFile>, Error>)
    ensures
        crate::exit::outcome(result) == entry_outcome(
            text_or_words(name),
            bytes_or_words(content),
            natives_dir@,
            exclude.deep_view(),
        ),
{
    let name = match name {
        Ok(name) => name,
        Err(words) => {
            return Err(Error::new(Cause::Other { message: words }));
        },
    };
    let path = match entry_destination(name.as_str(), natives_dir, exclude) {
        Some(path) => path,
        None => {
            return Ok(None);
        },
    };
    match content {
        Ok(content) => Ok(Some(NativeFile { path, content })),
        Err(words) => {
            let error = Error::new(Cause::Other { message: words });
            Err(error.within("writing ".to_owned().concat(path.as_str())))
        },
    }
}

/// Unpack one native jar for `natives_dir`, preserving entry paths but skipping
/// directories, unsafe names and any entry under an `extract.exclude` prefix.
pub fn unpack_jar(jar: &[u8], jar_path: &str, natives_dir: &str, exclude: &Vec<String>) -> (unpacked:
    Unpacked)
    ensures
        unpacked.deep_view() == jar_outcome(jar@, jar_path@, natives_dir@, exclude.deep_view()),
{
    let mut files: Vec<NativeFile> = Vec::new();
    proof {
        assert(files.deep_view() =~= Seq::<NativeFileView>::empty());
    }
    let count: usize = match zip_entry_count(jar) {
        Ok(count) => count,
        Err(words) => {
            let error = Error::new(Cause::Other { message: words });
            let failure = error.within("reading native jar ".to_owned().concat(jar_path));
            return Unpacked { files, failure: Some(failure) };
        },
    };
    let ghost names = Seq::new(count as nat, |i: int| zip_name(jar@, i as nat));
    let ghost contents = Seq::new(count as nat, |i: int| zip_content(jar@, i as nat));
    for i in 0..count
        invariant
            names == Seq::new(count as nat, |i: int| zip_name(jar@, i as nat)),
            contents == Seq::new(count as nat, |i: int| zip_content(jar@, i as nat)),
            zip_count(jar@) == Ok::<nat, Seq<char>>(count as nat),
            entries_outcome(names, contents, i as nat, natives_dir@, exclude.deep_view()) == (
            UnpackedView { files: files.deep_view(), failure: None }),
    {
        let ghost before = files.deep_view();
        let name = zip_entry_name(jar, i);
        // The content is only unpacked where it is needed.
        let wanted = match &name {
            Ok(name) => entry_destination(name.as_str(), natives_dir, exclude).is_some(),
            Err(_) => false,
        };
        let content = if wanted {
            zip_entry_content(jar, i)
        } else {
            Ok(Vec::new())
        };
        proof {
            assert(names[i as int] == text_or_words(name));
            assert(wanted ==> contents[i as int] == bytes_or_words(content));
            assert(entry_outcome(
                names[i as int],
                contents[i as int],
                natives_dir@,
                exclude.deep_view(),
            ) == entry_outcome(
                text_or_words(name),
                bytes_or_words(content),
                natives_dir@,
                exclude.deep_view(),
            ));
        }
        match unpack_entry(name, content, natives_dir, exclude) {
            Ok(None) => {},
            Ok(Some(file)) => {
                files.push(file);
                proof {
                    assert(files.deep_view() =~= before.push(file.deep_view()));
                }
            },
            Err(error) => {
                let unpacked = Unpacked { files, failure: Some(error) };
                proof {
                    early_end_stays(
                        names,
                        contents,
                        (i + 1) as nat,
                        count as nat,
                        natives_dir@,
                        exclude.deep_view(),
                    );
                }
                return unpacked;
            },
        }
    }
    Unpacked { files, failure: None }
}

/// After a failure nothing more is unpacked.
proof fn early_end_stays(
    names: Seq<Result<Seq<char>, Seq<char>>>,
    contents: Seq<Result<Seq<u8>, Seq<char>>>,
    n: nat,
    m: nat,
    natives_dir: Seq<char>,
    exclude: Seq<Seq<char>>,
)
    requires
        n <= m,
        entries_outcome(names, contents, n, natives_dir, exclude).failure is Some,
    ensures
        entries_outcome(names, contents, m, natives_dir, exclude) == entries_outcome(
            names,
            contents,
            n,
            natives_dir,
            exclude,
        ),
    decreases m,
{
    if n < m {
        early_end_stays(names, contents, n, (m - 1) as nat, natives_dir, exclude);
    }
}

/// What the jars of an instance unpack to: the files to write in order, how many jars
/// were unpacked to their end, and the failure at which it ends early, if there is
/// one.
#[derive(Debug)]
pub struct Extraction {
    pub files: Vec<NativeFile>,
    pub extracted: usize,
    pub failure: Option<Error>,
}

/// What an [`Extraction`] holds.
#[verifier::ext_equal]
pub struct ExtractionView {
    pub files: Seq<NativeFileView>,
    pub extracted: nat,
    pub failure: Option<ErrorView>,
}

impl DeepView for Extraction {
    type V = ExtractionView;

    open spec fn deep_view(&self) -> ExtractionView {
        ExtractionView {
            files: self.files.deep_view(),
            extracted: self.extracted as nat,
            failure: self.failure.deep_view(),
        }
    }
}

/// What the jar of a record unpacks to, given its bytes, or why they cannot be had.
pub open spec fn record_outcome(
    record: ArtifactRecordView,
    jar: Result<Seq<u8>, Seq<char>>,
    natives_dir: Seq<char>,
) -> UnpackedView {
    let unpacked = match jar {
        Err(words) => UnpackedView {
            files: Seq::empty(),
            failure: Some(in_words(words).within("opening native jar "@ + record.local_path)),
        },
        Ok(jar) => jar_outcome(jar, record.local_path, natives_dir, record.extract_exclude),
    };
    UnpackedView {
        failure: match unpacked.failure {
            Some(error) => Some(error.within("extracting native "@ + record.coordinate)),
            None => None,
        },
        ..unpacked
    }
}

/// What the jars of the first `n` records unpack to.
pub open spec fn extraction(
    records: Seq<ArtifactRecordView>,
    jars: Seq<Result<Seq<u8>, Seq<char>>>,
    n: nat,
    natives_dir: Seq<char>,
    options: NativeOptionsView,
) -> ExtractionView
    decreases n,
{
    if n == 0 {
        ExtractionView { files: Seq::empty(), extracted: 0, failure: None }
    } else {
        let before = extraction(records, jars, (n - 1) as nat, natives_dir, options);
        let record = records[n - 1];
        if before.failure is Some || !unpacks(record, options) {
            before
        } else {
            let unpacked = record_outcome(record, jars[n - 1], natives_dir);
            ExtractionView {
                files: before.files + unpacked.files,
                extracted: before.extracted + if unpacked.failure is None {
                    1nat
                } else {
                    0nat
                },
                failure: unpacked.failure,
            }
        }
    }
}

/// What the reading of the jars led to.
pub open spec fn jar_views(jars: Seq<Result<Vec<u8>, String>>) -> Seq<
    Result<Seq<u8>, Seq<char>>,
> {
    jars.map_values(|jar: Result<Vec<u8>, String>| bytes_or_words(jar))
}

/// What the jar of a record unpacks to, given its bytes, or why they cannot be had.
fn unpack_record(
    record: &ArtifactRecord,
    jar: &Result<Vec<u8>, String>,
    natives_dir: &str,
) -> (unpacked: Unpacked)
    ensures
        unpacked.deep_view() == record_outcome(
            record.deep_view(),
            bytes_or_words(*jar),
            natives_dir@,
        ),
{
    let unpacked = match jar {
        Ok(bytes) => unpack_jar(
            bytes.as_slice(),
            record.local_path.as_str(),
            natives_dir,
            &record.extract_exclude,
        ),
        Err(words) => {
            let error = Error::new(Cause::Other { message: words.clone() });
            let context = "opening native jar ".to_owned().concat(record.local_path.as_str());
            let files: Vec<NativeFile> = Vec::new();
            proof {
                assert(files.deep_view() =~= Seq::<NativeFileView>::empty());
            }
            Unpacked { files, failure: Some(error.within(context)) }
        },
    };
    let failure = match unpacked.failure {
        Some(error) => {
            let context = "extracting native ".to_owned().concat(record.coordinate.as_str());
            Some(error.within(context))
        },
        None => None,
    };
    Unpacked { files: unpacked.files, failure }
}

/// Unpack every `NativeExtract` record for `natives_dir`. `jars` holds for each record
/// what reading its jar led to; it matters for the records of [`natives_to_extract`]
/// only. Modern (classpath) natives are ignored here by design.
pub fn extract_natives(
    records: &[ArtifactRecord],
    jars: &Vec<Result<Vec<u8>, String>>,
    natives_dir: &str,
    options: &NativeOptions,
) -> (result: Extraction)
    requires
        jars@.len() == records@.len(),
    ensures
        result.deep_view() == extraction(
            records.deep_view(),
            jar_views(jars@),
            records@.len() as nat,
            natives_dir@,
            options.deep_view(),
        ),
        result.deep_view().failure is None ==> result.deep_view().files == chained(
            files_by_record(
                records.deep_view(),
                jar_views(jars@),
                natives_dir@,
                options.deep_view(),
            ),
        ),
{
    let mut files: Vec<NativeFile> = Vec::new();
    let mut extracted: usize = 0;
    let ghost all = records.deep_view();
    let ghost contents = jar_views(jars@);
    proof {
        assert(files.deep_view() =~= Seq::<NativeFileView>::empty());
    }
    for i in 0..records.len()
        invariant
            jars@.len() == records@.len(),
            all == records.deep_view(),
            contents == jar_views(jars@),
            extracted <= i,
            extraction(all, contents, i as nat, natives_dir@, options.deep_view()) == (
            ExtractionView { files: files.deep_view(), extracted: extracted as nat, failure: None }),
    {
        let record = &records[i];
        proof {
            assert(all[i as int] == record.deep_view());
            assert(contents[i as int] == bytes_or_words(jars@[i as int]));
        }
        if record.role == Role::NativeExtract && should_extract(
            record.coordinate.as_str(),
            options,
        ) {
            let unpacked = unpack_record(record, &jars[i], natives_dir);
            append_files(&mut files, unpacked.files);
            if let Some(error) = unpacked.failure {
                let result = Extraction { files, extracted, failure: Some(error) };
                proof {
                    early_failure_stays(
                        all,
                        contents,
                        (i + 1) as nat,
                        records@.len() as nat,
                        natives_dir@,
                        options.deep_view(),
                    );
                }
                return result;
            }
            extracted = extracted + 1;
        }
    }
    proof {
        files_of_all_jars_are_there(all, contents, natives_dir@, options.deep_view());
    }
    Extraction { files, extracted, failure: None }
}

/// Append files to those that are to be written already.
fn append_files(files: &mut Vec<NativeFile>, more: Vec<NativeFile>)
    ensures
        final(files).deep_view() == old(files).deep_view() + more.deep_view(),
{
    let ghost before = files.deep_view();
    let ghost added = more.deep_view();
    let mut more = more;
    files.append(&mut more);
    proof {
        assert(files.deep_view() =~= before + added);
    }
}

/// After a failure no further jar is unpacked.
proof fn early_failure_stays(
    records: Seq<ArtifactRecordView>,
    jars: Seq<Result<Seq<u8>, Seq<char>>>,
    n: nat,
    m: nat,
    natives_dir: Seq<char>,
    options: NativeOptionsView,
)
    requires
        n <= m,
        extraction(records, jars, n, natives_dir, options).failure is Some,
    ensures
        extraction(records, jars, m, natives_dir, options) == extraction(
            records,
            jars,
            n,
            natives_dir,
            options,
        ),
    decreases m,
{
    if n < m {
        early_failure_stays(records, jars, n, (m - 1) as nat, natives_dir, options);
    }
}

// ---------------------------------------------------------------------------
// Laws
// ---------------------------------------------------------------------------

/// What is to be kept is extracted, whatever else is asked for; what is to be
/// skipped and not kept is not; and without `--headless` everything else is.
pub proof fn keep_beats_skip_beats_default(coordinate: Seq<char>, options: NativeOptionsView)
    ensures
        matches_any(coordinate, options.keep) ==> extracts(coordinate, options),
        !matches_any(coordinate, options.keep) && matches_any(coordinate, options.skip)
            ==> !extracts(coordinate, options),
        !options.headless && !matches_any(coordinate, options.skip) ==> extracts(
            coordinate,
            options,
        ),
        !matches_any(coordinate, input_device_natives()) && !matches_any(coordinate, options.skip)
            ==> extracts(coordinate, options),
{
}

/// Only records to extract are extracted.
pub proof fn only_natives_are_extracted(
    records: Seq<ArtifactRecordView>,
    options: NativeOptionsView,
    i: int,
)
    requires
        0 <= i < extracted_records(records, options).len(),
    ensures
        extracted_records(records, options)[i].role == Role::NativeExtract,
        records.contains(extracted_records(records, options)[i]),
{
    let wanted = |record: ArtifactRecordView| unpacks(record, options);
    records.lemma_filter_pred(wanted, i);
    records.lemma_filter_contains_rev(wanted, extracted_records(records, options)[i]);
}

/// As many jars are unpacked as there are records to extract, unless one fails.
pub proof fn every_native_is_extracted(
    records: Seq<ArtifactRecordView>,
    jars: Seq<Result<Seq<u8>, Seq<char>>>,
    natives_dir: Seq<char>,
    options: NativeOptionsView,
)
    ensures
        extraction(records, jars, records.len(), natives_dir, options).failure is None
            ==> extraction(records, jars, records.len(), natives_dir, options).extracted
            == extracted_records(records, options).len(),
{
    extracted_so_far(records, jars, records.len(), natives_dir, options);
    assert(records.take(records.len() as int) =~= records);
}

proof fn extracted_so_far(
    records: Seq<ArtifactRecordView>,
    jars: Seq<Result<Seq<u8>, Seq<char>>>,
    n: nat,
    natives_dir: Seq<char>,
    options: NativeOptionsView,
)
    requires
        n <= records.len(),
    ensures
        extraction(records, jars, n, natives_dir, options).failure is None ==> extraction(
            records,
            jars,
            n,
            natives_dir,
            options,
        ).extracted == extracted_records(records.take(n as int), options).len(),
    decreases n,
{
    reveal(Seq::filter);
    if n > 0 {
        extracted_so_far(records, jars, (n - 1) as nat, natives_dir, options);
        assert(records.take(n as int).drop_last() =~= records.take(n - 1));
        assert(records.take(n as int).last() == records[n - 1]);
    }
}

/// What is unpacked lies in the natives directory: its path is that directory,
/// extended by a name that never leads above it.
pub proof fn unpacked_files_stay_inside(
    name: Seq<char>,
    natives_dir: Seq<char>,
    exclude: Seq<Seq<char>>,
)
    requires
        natives_dir.len() > 0,
    ensures
        destination(name, natives_dir, exclude) matches Some(path) ==> enclosed(name)
            && natives_dir.is_prefix_of(path) && name.is_suffix_of(path),
{
    if let Some(path) = destination(name, natives_dir, exclude) {
        assert(path.take(natives_dir.len() as int) =~= natives_dir);
        assert(path.skip(path.len() - name.len()) =~= name);
    }
}

/// Nothing under an excluded prefix is unpacked.
pub proof fn excluded_entries_are_skipped(
    name: Seq<char>,
    natives_dir: Seq<char>,
    exclude: Seq<Seq<char>>,
    i: int,
)
    requires
        0 <= i < exclude.len(),
        exclude[i].is_prefix_of(name),
    ensures
        destination(name, natives_dir, exclude) is None,
{
}

/// The files of the jars of the records that are extracted, jar by jar; a record that is
/// not extracted has none.
pub open spec fn files_by_record(
    records: Seq<ArtifactRecordView>,
    jars: Seq<Result<Seq<u8>, Seq<char>>>,
    natives_dir: Seq<char>,
    options: NativeOptionsView,
) -> Seq<Seq<NativeFileView>> {
    Seq::new(
        records.len(),
        |i: int|
            if records[i].role == Role::NativeExtract && extracts(records[i].coordinate, options) {
                record_outcome(records[i], jars[i], natives_dir).files
            } else {
                Seq::empty()
            },
    )
}

/// If the extraction does not fail, its files are those of the jars of all records that are
/// extracted, one jar after the other in the order of the records.
pub proof fn files_of_all_jars_are_there(
    records: Seq<ArtifactRecordView>,
    jars: Seq<Result<Seq<u8>, Seq<char>>>,
    natives_dir: Seq<char>,
    options: NativeOptionsView,
)
    ensures
        extraction(records, jars, records.len(), natives_dir, options).failure is None
            ==> extraction(records, jars, records.len(), natives_dir, options).files == chained(
            files_by_record(records, jars, natives_dir, options),
        ),
{
    let parts = files_by_record(records, jars, natives_dir, options);
    files_so_far(records, jars, records.len(), natives_dir, options);
    assert(parts.take(records.len() as int) =~= parts);
}

proof fn files_so_far(
    records: Seq<ArtifactRecordView>,
    jars: Seq<Result<Seq<u8>, Seq<char>>>,
    n: nat,
    natives_dir: Seq<char>,
    options: NativeOptionsView,
)
    requires
        n <= records.len(),
    ensures
        extraction(records, jars, n, natives_dir, options).failure is None ==> {
            &&& extraction(records, jars, n, natives_dir, options).files == chained(
                files_by_record(records, jars, natives_dir, options).take(n as int),
            )
            &&& forall|i: int|
                0 <= i < n && unpacks(#[trigger] records[i], options) ==> record_outcome(
                    records[i],
                    jars[i],
                    natives_dir,
                ).failure is None
        },
    decreases n,
{
    let parts = files_by_record(records, jars, natives_dir, options);
    if n > 0 {
        files_so_far(records, jars, (n - 1) as nat, natives_dir, options);
        let before = extraction(records, jars, (n - 1) as nat, natives_dir, options);
        assert(parts.take(n as int).drop_last() =~= parts.take(n - 1));
        assert(parts.take(n as int).last() == parts[n - 1]);
        assert(before.files + Seq::<NativeFileView>::empty() =~= before.files);
    }
}

/// If the extraction does not fail, every entry that has a destination, in the jar of any
/// record that is extracted, is among the files with its content.
pub proof fn every_entry_is_written(
    records: Seq<ArtifactRecordView>,
    jars: Seq<Result<Seq<u8>, Seq<char>>>,
    natives_dir: Seq<char>,
    options: NativeOptionsView,
    i: int,
    jar: Seq<u8>,
    count: nat,
    k: nat,
    name: Seq<char>,
    path: Seq<char>,
)
    requires
        extraction(records, jars, records.len(), natives_dir, options).failure is None,
        0 <= i < records.len(),
        records[i].role == Role::NativeExtract,
        extracts(records[i].coordinate, options),
        jars[i] == Ok::<Seq<u8>, Seq<char>>(jar),
        zip_count(jar) == Ok::<nat, Seq<char>>(count),
        k < count,
        zip_name(jar, k) == Ok::<Seq<char>, Seq<char>>(name),
        destination(name, natives_dir, records[i].extract_exclude) == Some(path),
    ensures
        zip_content(jar, k) matches Ok(content) && extraction(
            records,
            jars,
            records.len(),
            natives_dir,
            options,
        ).files.contains(NativeFileView { path, content }),
{
    let parts = files_by_record(records, jars, natives_dir, options);
    let exclude = records[i].extract_exclude;
    let names = Seq::new(count, |i: int| zip_name(jar, i as nat));
    let contents = Seq::new(count, |i: int| zip_content(jar, i as nat));
    files_of_all_jars_are_there(records, jars, natives_dir, options);
    files_so_far(records, jars, records.len(), natives_dir, options);
    assert(record_outcome(records[i], jars[i], natives_dir).failure is None);
    assert(names[k as int] == zip_name(jar, k) && contents[k as int] == zip_content(jar, k));
    entries_are_all_unpacked(names, contents, count, natives_dir, exclude, k as int);
    if let Ok(content) = zip_content(jar, k) {
        let file = NativeFileView { path, content };
        assert(parts[i].contains(file));
        chained_holds_its_parts(parts, i, file);
    }
}

/// If a jar unpacks without a failure, each of its entries with a destination is among its
/// files, and each of its files is one of its entries.
pub proof fn entries_are_all_unpacked(
    names: Seq<Result<Seq<char>, Seq<char>>>,
    contents: Seq<Result<Seq<u8>, Seq<char>>>,
    n: nat,
    natives_dir: Seq<char>,
    exclude: Seq<Seq<char>>,
    k: int,
)
    requires
        entries_outcome(names, contents, n, natives_dir, exclude).failure is None,
    ensures
        ({
            let files = entries_outcome(names, contents, n, natives_dir, exclude).files;
            &&& 0 <= k < n ==> {
                &&& names[k] matches Ok(name) && (destination(
                    name,
                    natives_dir,
                    exclude,
                ) matches Some(path) ==> (contents[k] matches Ok(content) && files.contains(
                    NativeFileView { path, content },
                )))
            }
            &&& 0 <= k < files.len() ==> exists|j: int|
                0 <= j < n && is_entry(files[k], #[trigger] names[j], contents[j], natives_dir, exclude)
        }),
    decreases n,
{
    if n > 0 {
        let before = entries_outcome(names, contents, (n - 1) as nat, natives_dir, exclude);
        let files = entries_outcome(names, contents, n, natives_dir, exclude).files;
        entries_are_all_unpacked(names, contents, (n - 1) as nat, natives_dir, exclude, k);
        assert(is_entry(
            files.last(),
            names[n - 1],
            contents[n - 1],
            natives_dir,
            exclude,
        ) || files == before.files);
        if 0 <= k < n - 1 {
            let name = names[k]->Ok_0;
            if let Some(path) = destination(name, natives_dir, exclude) {
                let file = NativeFileView { path, content: contents[k]->Ok_0 };
                let i = choose|i: int| 0 <= i < before.files.len() && before.files[i] == file;
                assert(files[i] == file);
            }
        } else if k == n - 1 {
            assert(files != before.files ==> files.contains(files[before.files.len() as int]));
            assert(files.len() > before.files.len() ==> files.contains(
                files[before.files.len() as int],
            ));
        }
        if 0 <= k < files.len() {
            if k < before.files.len() {
                let j = choose|j: int|
                    0 <= j < n - 1 && is_entry(
                        before.files[k],
                        #[trigger] names[j],
                        contents[j],
                        natives_dir,
                        exclude,
                    );
                assert(is_entry(files[k], names[j], contents[j], natives_dir, exclude));
            } else {
                assert(is_entry(
                    files[k],
                    names[n - 1],
                    contents[n - 1],
                    natives_dir,
                    exclude,
                ));
            }
        }
    }
}

/// Whether a file is an entry: it lies where the name of the entry leads to and has the
/// content of the entry.
pub open spec fn is_entry(
    file: NativeFileView,
    name: Result<Seq<char>, Seq<char>>,
    content: Result<Seq<u8>, Seq<char>>,
    natives_dir: Seq<char>,
    exclude: Seq<Seq<char>>,
) -> bool {
    &&& name is Ok
    &&& destination(name->Ok_0, natives_dir, exclude) == Some(file.path)
    &&& content == Ok::<Seq<u8>, Seq<char>>(file.content)
}

/// The first jar that fails ends the extraction with its failure, which names the native.
/// The jars before it count as extracted, and their files stay, as do those that it was
/// unpacked to before it failed.
pub proof fn failing_jar_ends_the_extraction(
    records: Seq<ArtifactRecordView>,
    jars: Seq<Result<Seq<u8>, Seq<char>>>,
    natives_dir: Seq<char>,
    options: NativeOptionsView,
    i: int,
)
    requires
        0 <= i < records.len(),
        records[i].role == Role::NativeExtract,
        extracts(records[i].coordinate, options),
        extraction(records, jars, i as nat, natives_dir, options).failure is None,
        record_outcome(records[i], jars[i], natives_dir).failure is Some,
    ensures
        ({
            let all = extraction(records, jars, records.len(), natives_dir, options);
            let before = extraction(records, jars, i as nat, natives_dir, options);
            &&& all.failure == record_outcome(records[i], jars[i], natives_dir).failure
            &&& all.extracted == before.extracted
            &&& all.files == before.files + record_outcome(records[i], jars[i], natives_dir).files
            &&& all.failure matches Some(error) && error.contexts.last() == "extracting native "@
                + records[i].coordinate
        }),
{
    early_failure_stays(
        records,
        jars,
        (i + 1) as nat,
        records.len(),
        natives_dir,
        options,
    );
}

/// A jar that cannot be opened or is no archive fails with the words that say why.
pub proof fn unreadable_jars_fail(
    record: ArtifactRecordView,
    jar: Result<Seq<u8>, Seq<char>>,
    natives_dir: Seq<char>,
)
    ensures
        jar matches Err(words) ==> (record_outcome(
            record,
            jar,
            natives_dir,
        ).failure matches Some(error) && error.cause == (CauseView::Other { message: words })),
        jar matches Ok(bytes) ==> (zip_count(bytes) matches Err(words) ==> (record_outcome(
            record,
            jar,
            natives_dir,
        ).failure matches Some(error) && error.cause == (CauseView::Other { message: words }))),
        jar matches Ok(bytes) ==> (zip_count(bytes) == Ok::<nat, Seq<char>>(0nat) ==> {
            let outcome = record_outcome(record, jar, natives_dir);
            outcome.failure is None && outcome.files.len() == 0
        }),
{
}

/// On a headless run the natives of input devices are left out, unless they are to be
/// kept; on any other run they are like all others.
pub proof fn input_devices_need_a_head(
    head: Seq<char>,
    rest: Seq<char>,
    options: NativeOptionsView,
)
    ensures
        options.headless && !matches_any(head + "jinput"@ + rest, options.keep) ==> !extracts(
            head + "jinput"@ + rest,
            options,
        ),
        options.headless && !matches_any(head + "ois"@ + rest, options.keep) ==> !extracts(
            head + "ois"@ + rest,
            options,
        ),
        !contains_text(head, "jinput"@) && !contains_text(head, "ois"@) && !matches_any(
            head,
            options.skip,
        ) ==> extracts(head, options),
{
    let devices = input_device_natives();
    let first = head + "jinput"@ + rest;
    let second = head + "ois"@ + rest;
    let at = head.len() as int;
    assert(first.subrange(at, at + "jinput"@.len()) =~= "jinput"@);
    assert(second.subrange(at, at + "ois"@.len()) =~= "ois"@);
    assert(occurs_at(first, "jinput"@, at));
    assert(occurs_at(second, "ois"@, at));
    assert(devices[0] == "jinput"@ && devices[1] == "ois"@);
    assert(contains_text(first, devices[0]));
    assert(contains_text(second, devices[1]));
}

/// A pattern matches a coordinate in which it stands anywhere, and no list of patterns
/// matches without one that does.
pub proof fn patterns_match_anywhere(
    head: Seq<char>,
    pattern: Seq<char>,
    rest: Seq<char>,
    patterns: Seq<Seq<char>>,
)
    ensures
        patterns.contains(pattern) ==> matches_any(head + pattern + rest, patterns),
        patterns.len() == 0 ==> !matches_any(head, patterns),
        (forall|i: int| 0 <= i < patterns.len() ==> (#[trigger] patterns[i]).len() > head.len())
            ==> !matches_any(head, patterns),
{
    let whole = head + pattern + rest;
    let at = head.len() as int;
    assert(whole.subrange(at, at + pattern.len()) =~= pattern);
    assert(occurs_at(whole, pattern, at));
    if patterns.contains(pattern) {
        let i = choose|i: int| 0 <= i < patterns.len() && patterns[i] == pattern;
        assert(contains_text(whole, patterns[i]));
    }
    if (forall|i: int| 0 <= i < patterns.len() ==> (#[trigger] patterns[i]).len() > head.len())
        && matches_any(head, patterns) {
        let i = choose|i: int|
            0 <= i < patterns.len() && contains_text(head, #[trigger] patterns[i]);
        let at = choose|at: int| occurs_at(head, patterns[i], at);
        assert(at + patterns[i].len() <= head.len());
    }
}

/// The parts of a path that lead down.
pub open spec fn descents(parts: Seq<Seq<char>>) -> nat {
    parts.filter(|part: Seq<char>| part.len() > 0 && part != "."@ && part != ".."@).len()
}

/// The parts of a path that lead up.
pub open spec fn ascents(parts: Seq<Seq<char>>) -> nat {
    parts.filter(|part: Seq<char>| part == ".."@).len()
}

/// A name stays inside the directory exactly if it has no NUL, does not start at the root,
/// and has nowhere on its way led up more often than down.
pub proof fn enclosed_names_never_lead_out(name: Seq<char>)
    ensures
        enclosed(name) <==> {
            &&& !name.contains('\0')
            &&& !(name.len() > 0 && name[0] == '/')
            &&& forall|n: int|
                0 <= n <= split_at_each(name, Separator::Is('/')).len() ==> ascents(
                    #[trigger] split_at_each(name, Separator::Is('/')).take(n),
                ) <= descents(split_at_each(name, Separator::Is('/')).take(n))
        },
{
    depth_is_the_difference(split_at_each(name, Separator::Is('/')));
}

proof fn depth_is_the_difference(parts: Seq<Seq<char>>)
    ensures
        depth_of(parts) is Some <==> (forall|n: int|
            0 <= n <= parts.len() ==> ascents(#[trigger] parts.take(n)) <= descents(parts.take(n))),
        depth_of(parts) matches Some(depth) ==> depth == descents(parts) - ascents(parts),
    decreases parts.len(),
{
    reveal(Seq::filter);
    reveal_strlit(".");
    reveal_strlit("..");
    assert(parts.take(parts.len() as int) =~= parts);
    if parts.len() > 0 {
        let before = parts.drop_last();
        depth_is_the_difference(before);
        assert forall|n: int| 0 <= n < parts.len() implies #[trigger] parts.take(n)
            == before.take(n) by {
            assert(parts.take(n) =~= before.take(n));
        }
        if depth_of(parts) is Some {
            assert forall|n: int| 0 <= n <= parts.len() implies ascents(#[trigger] parts.take(n))
                <= descents(parts.take(n)) by {
                if n < parts.len() {
                    assert(parts.take(n) == before.take(n));
                }
            }
        }
        if forall|n: int|
            0 <= n <= parts.len() ==> ascents(#[trigger] parts.take(n)) <= descents(
                parts.take(n),
            ) {
            assert forall|n: int| 0 <= n <= before.len() implies ascents(
                #[trigger] before.take(n),
            ) <= descents(before.take(n)) by {
                assert(parts.take(n) == before.take(n));
            }
            assert(ascents(parts.take(parts.len() as int)) <= descents(
                parts.take(parts.len() as int),
            ));
        }
    } else {
        assert forall|n: int| 0 <= n <= parts.len() implies ascents(#[trigger] parts.take(n))
            <= descents(parts.take(n)) by {
            assert(parts.take(n) =~= parts);
        }
    }
}

/// An entry is unpacked exactly if its name stays inside, does not end as the name of a
/// directory does, and starts with none of the excluded prefixes; and then to its name
/// below the directory.
pub proof fn destination_is_given_exactly_if(
    name: Seq<char>,
    natives_dir: Seq<char>,
    exclude: Seq<Seq<char>>,
)
    ensures
        destination(name, natives_dir, exclude) is Some <==> {
            &&& enclosed(name)
            &&& !(name.len() > 0 && name[name.len() - 1] == '/')
            &&& !(name.len() > 0 && name[name.len() - 1] == '\\')
            &&& forall|i: int|
                0 <= i < exclude.len() ==> !(name.len() >= (#[trigger] exclude[i]).len()
                    && name.take(exclude[i].len() as int) == exclude[i])
        },
        destination(name, natives_dir, exclude) matches Some(path) ==> path == path_join(
            natives_dir,
            name,
        ),
{
    assert forall|i: int| 0 <= i < exclude.len() implies ((
    #[trigger] exclude[i]).is_prefix_of(name) <==> name.len() >= exclude[i].len() && name.take(
        exclude[i].len() as int,
    ) == exclude[i]) by {
        if name.len() >= exclude[i].len() {
            assert(name.take(exclude[i].len() as int) =~= name.subrange(
                0,
                exclude[i].len() as int,
            ));
        }
    }
}

/// A native record is extracted exactly if it is to be, where it stands.
pub proof fn natives_are_picked_one_by_one(
    a: Seq<ArtifactRecordView>,
    record: ArtifactRecordView,
    options: NativeOptionsView,
)
    ensures
        extracted_records(Seq::empty(), options).len() == 0,
        extracted_records(a.push(record), options) == (if record.role == Role::NativeExtract
            && extracts(record.coordinate, options) {
            extracted_records(a, options).push(record)
        } else {
            extracted_records(a, options)
        }),
{
    reveal(Seq::filter);
    assert(a.push(record).drop_last() =~= a);
}

/// A failure says what was being done to which file: opening or reading the jar, or writing
/// the entry.
pub proof fn native_failures_name_the_file(
    record: ArtifactRecordView,
    words: Seq<char>,
    bytes: Seq<u8>,
    name: Seq<char>,
    natives_dir: Seq<char>,
    exclude: Seq<Seq<char>>,
)
    ensures
        record_outcome(record, Err(words), natives_dir).failure matches Some(error)
            && error.contexts == seq![
            "opening native jar "@ + record.local_path,
            "extracting native "@ + record.coordinate,
        ] && error.cause == (CauseView::Other { message: words }),
        zip_count(bytes) == Err::<nat, Seq<char>>(words) ==> (record_outcome(
            record,
            Ok(bytes),
            natives_dir,
        ).failure matches Some(error) && error.contexts == seq![
            "reading native jar "@ + record.local_path,
            "extracting native "@ + record.coordinate,
        ]),
        destination(name, natives_dir, exclude) matches Some(path) ==> (entry_outcome(
            Ok(name),
            Err(words),
            natives_dir,
            exclude,
        ) matches Err(error) && error.contexts == seq!["writing "@ + path] && error.cause == (
        CauseView::Other { message: words })),
        entry_outcome(Err(words), Ok(bytes), natives_dir, exclude) matches Err(error)
            && error.cause == (CauseView::Other { message: words }) && error.contexts.len() == 0,
        destination(name, natives_dir, exclude) is None ==> entry_outcome(
            Ok(name),
            Err(words),
            natives_dir,
            exclude,
        ) == Ok::<Option<NativeFileView>, ErrorView>(None),
{
    let plain = Seq::<Seq<char>>::empty();
    let opening = "opening native jar "@ + record.local_path;
    let reading = "reading native jar "@ + record.local_path;
    let extracting = "extracting native "@ + record.coordinate;
    assert(plain.push(opening).push(extracting) =~= seq![opening, extracting]);
    assert(plain.push(reading).push(extracting) =~= seq![reading, extracting]);
    if let Some(path) = destination(name, natives_dir, exclude) {
        assert(plain.push("writing "@ + path) =~= seq!["writing "@ + path]);
    }
}

/// The first entry that fails ends the jar with its failure, and the files of the entries
/// before it stay.
pub proof fn failing_entry_ends_the_jar(
    names: Seq<Result<Seq<char>, Seq<char>>>,
    contents: Seq<Result<Seq<u8>, Seq<char>>>,
    n: nat,
    k: nat,
    natives_dir: Seq<char>,
    exclude: Seq<Seq<char>>,
    error: ErrorView,
)
    requires
        k < n,
        entries_outcome(names, contents, k, natives_dir, exclude).failure is None,
        entry_outcome(names[k as int], contents[k as int], natives_dir, exclude) == Err::<
            Option<NativeFileView>,
            ErrorView,
        >(error),
    ensures
        entries_outcome(names, contents, n, natives_dir, exclude).failure == Some(error),
        entries_outcome(names, contents, n, natives_dir, exclude).files == entries_outcome(
            names,
            contents,
            k,
            natives_dir,
            exclude,
        ).files,
{
    early_end_stays(names, contents, k + 1, n, natives_dir, exclude);
}

/// A jar is unpacked without a failure exactly if each of its names can be had, and the
/// content of each entry that has a destination.
pub proof fn sound_jars_are_unpacked(
    names: Seq<Result<Seq<char>, Seq<char>>>,
    contents: Seq<Result<Seq<u8>, Seq<char>>>,
    n: nat,
    natives_dir: Seq<char>,
    exclude: Seq<Seq<char>>,
)
    ensures
        entries_outcome(names, contents, n, natives_dir, exclude).failure is None <==> (forall|
            i: int,
        |
            0 <= i < n ==> {
                &&& (#[trigger] names[i]) is Ok
                &&& destination(names[i]->Ok_0, natives_dir, exclude) is Some ==> contents[i] is Ok
            }),
    decreases n,
{
    if n > 0 {
        sound_jars_are_unpacked(names, contents, (n - 1) as nat, natives_dir, exclude);
        let before = entries_outcome(names, contents, (n - 1) as nat, natives_dir, exclude);
        let last = names[n - 1];
        if before.failure is None && entries_outcome(
            names,
            contents,
            n,
            natives_dir,
            exclude,
        ).failure is None {
            assert(last is Ok);
        }
    }
}

} // verus!
