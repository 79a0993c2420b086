//! The asset pipeline.
//!
//! The asset index goes to `assets/indexes/<id>.json`, each of its objects to
//! `assets/objects/<ab>/<hash>`, and - for a legacy `virtual` / `map_to_resources`
//! index - a readable `assets/virtual/<id>/<name>` tree is materialized. Modern
//! indexes use the plain object store only. The log4j config of a component is
//! part of the asset store too.

use vstd::prelude::*;
use vstd::string::*;

use crate::exit::{outcome, plain_error, Cause, CauseView, Error, ErrorView};
use crate::model::artifact::{ArtifactRecord, ArtifactRecordView, Role};
use crate::model::patch::{AssetIndexRef, AssetIndexRefView, Logging, LoggingView};
use crate::paths::{is_absolute_path, join_path, path_join};
use crate::pattern::{
    only_patched, regex_matches, regex_replace_all, regex_replaced, regex_verdict,
};
use crate::resolve::{filled, normalize_sha1};
use crate::string_map::StringMap;
use crate::text::{chars_of, concat3, contains, contains_text, string_of_range};

verus! {

/// Mojang's asset host for the hashed object store.
pub const RESOURCES_BASE: &'static str = "https://resources.download.minecraft.net";

/// The self-closing console layout that the GUI launcher parses.
pub const XML_LAYOUT: &'static str = "<XMLLayout\\s*/>";

/// A plain console layout (Mojang's own file-appender pattern).
pub const PATTERN_LAYOUT: &'static str =
    "<PatternLayout pattern=\"[%d{HH:mm:ss}] [%t/%level]: %msg%n\" />";

/// One asset object: content-addressed by its sha1 `hash`.
#[derive(Debug)]
pub struct AssetObject {
    pub hash: String,
    pub size: u64,
}

/// What an [`AssetObject`] holds.
#[verifier::ext_equal]
pub struct AssetObjectView {
    pub hash: Seq<char>,
    pub size: u64,
}

impl DeepView for AssetObject {
    type V = AssetObjectView;

    open spec fn deep_view(&self) -> AssetObjectView {
        AssetObjectView { hash: self.hash@, size: self.size }
    }
}

/// A parsed `assets/indexes/<id>.json`.
#[derive(Debug)]
pub struct AssetIndex {
    /// The objects by the names they have in the game.
    pub objects: StringMap<AssetObject>,
    /// Legacy pre-1.7 layout: a readable name->file tree is required.
    pub is_virtual: bool,
    /// 1.7-era flag: assets are mapped into a resources tree.
    pub map_to_resources: bool,
}

/// What an [`AssetIndex`] holds.
#[verifier::ext_equal]
pub struct AssetIndexView {
    pub objects: Seq<(Seq<char>, AssetObjectView)>,
    pub is_virtual: bool,
    pub map_to_resources: bool,
}

impl DeepView for AssetIndex {
    type V = AssetIndexView;

    open spec fn deep_view(&self) -> AssetIndexView {
        AssetIndexView {
            objects: self.objects.deep_view(),
            is_virtual: self.is_virtual,
            map_to_resources: self.map_to_resources,
        }
    }
}

// ---------------------------------------------------------------------------
// The index
// ---------------------------------------------------------------------------

/// The failure to find the url of an asset index.
pub open spec fn no_index_url(id: Seq<char>) -> ErrorView {
    plain_error(CauseView::Other { message: "asset index "@ + id + " has no download url"@ })
}

/// The record of the index file itself, if it is to be downloaded.
pub open spec fn index_request(
    asset_index: AssetIndexRefView,
    instance_dir: Seq<char>,
    dry_run: bool,
) -> Result<Option<ArtifactRecordView>, ErrorView> {
    match asset_index.url {
        None => Err(no_index_url(asset_index.id)),
        Some(url) => if dry_run {
            Ok(None)
        } else {
            Ok(
                Some(
                    ArtifactRecordView {
                        coordinate: "assetIndex:"@ + asset_index.id,
                        url: Some(url),
                        url_is_fallback: false,
                        sha1: filled(asset_index.sha1),
                        size: asset_index.size,
                        local_path: path_join(
                            path_join(path_join(instance_dir, "assets"@), "indexes"@),
                            asset_index.id + ".json"@,
                        ),
                        role: Role::Asset,
                        extract_exclude: Seq::empty(),
                    },
                ),
            )
        },
    }
}

/// Decide how the asset pipeline of an instance starts: with the download of the
/// index file (verified by its own sha1), or not at all on a dry run.
///
/// # Errors
/// Returns an error if the index has no url.
pub fn request_index(asset_index: &AssetIndexRef, instance_dir: &str, dry_run: bool) -> (result:
    Result<Option<ArtifactRecord>, Error>)
    ensures
        outcome(result) == index_request(asset_index.deep_view(), instance_dir@, dry_run),
{
    let url = match &asset_index.url {
        Some(url) => url,
        None => {
            let message = concat3(
                "asset index ",
                asset_index.id.as_str(),
                " has no download url",
            );
            return Err(Error::new(Cause::Other { message }));
        },
    };
    if dry_run {
        return Ok(None);
    }
    let assets_dir = join_path(instance_dir, "assets");
    let indexes = join_path(assets_dir.as_str(), "indexes");
    let file = asset_index.id.clone().concat(".json");
    Ok(
        Some(
            asset_record(
                "assetIndex:".to_owned().concat(asset_index.id.as_str()),
                url.clone(),
                normalize_sha1(&asset_index.sha1),
                asset_index.size,
                join_path(indexes.as_str(), file.as_str()),
            ),
        ),
    )
}

/// The record of something in the asset store.
fn asset_record(
    coordinate: String,
    url: String,
    sha1: Option<String>,
    size: Option<u64>,
    local_path: String,
) -> (record: ArtifactRecord)
    ensures
        record.deep_view() == (ArtifactRecordView {
            coordinate: coordinate@,
            url: Some(url@),
            url_is_fallback: false,
            sha1: sha1.deep_view(),
            size,
            local_path: local_path@,
            role: Role::Asset,
            extract_exclude: Seq::empty(),
        }),
{
    let record = ArtifactRecord {
        coordinate,
        url: Some(url),
        url_is_fallback: false,
        sha1,
        size,
        local_path,
        role: Role::Asset,
        extract_exclude: Vec::new(),
    };
    proof {
        assert(record.deep_view().extract_exclude =~= Seq::<Seq<char>>::empty());
    }
    record
}

// ---------------------------------------------------------------------------
// The objects
// ---------------------------------------------------------------------------

/// Whether a character takes one byte.
pub open spec fn one_byte(c: char) -> bool {
    (c as u32) < 0x80
}

/// Whether a character takes two bytes.
pub open spec fn two_bytes(c: char) -> bool {
    0x80 <= (c as u32) < 0x800
}

/// The first two bytes of a hash, where they are a text.
pub open spec fn hash_prefix(hash: Seq<char>) -> Option<Seq<char>> {
    if hash.len() >= 1 && two_bytes(hash[0]) {
        Some(hash.take(1))
    } else if hash.len() >= 2 && one_byte(hash[0]) && one_byte(hash[1]) {
        Some(hash.take(2))
    } else {
        None
    }
}

/// Whether a hash holds less than two bytes.
pub open spec fn too_short(hash: Seq<char>) -> bool {
    hash.len() == 0 || (hash.len() == 1 && one_byte(hash[0]))
}

/// Whether the first two bytes of every hash that has them are a text.
pub open spec fn hashes_have_prefixes(objects: Seq<(Seq<char>, AssetObjectView)>) -> bool {
    forall|i: int|
        0 <= i < objects.len() ==> too_short((#[trigger] objects[i]).1.hash) || hash_prefix(
            objects[i].1.hash,
        ) is Some
}

/// The place of an object in the store.
pub open spec fn object_place(
    assets_dir: Seq<char>,
    prefix: Seq<char>,
    hash: Seq<char>,
) -> Seq<char> {
    path_join(path_join(path_join(assets_dir, "objects"@), prefix), hash)
}

/// The record of an object. An object whose hash is too short has none.
pub open spec fn object_record(object: AssetObjectView, assets_dir: Seq<char>) -> Option<
    ArtifactRecordView,
> {
    match hash_prefix(object.hash) {
        None => None,
        Some(prefix) => Some(
            ArtifactRecordView {
                coordinate: "asset:"@ + object.hash,
                url: Some(RESOURCES_BASE@ + "/"@ + prefix + "/"@ + object.hash),
                url_is_fallback: false,
                sha1: Some(object.hash),
                size: Some(object.size),
                local_path: object_place(assets_dir, prefix, object.hash),
                role: Role::Asset,
                extract_exclude: Seq::empty(),
            },
        ),
    }
}

/// The records of the objects that have one, in order.
pub open spec fn object_records(
    objects: Seq<(Seq<char>, AssetObjectView)>,
    assets_dir: Seq<char>,
) -> Seq<ArtifactRecordView>
    decreases objects.len(),
{
    if objects.len() == 0 {
        Seq::empty()
    } else {
        let before = object_records(objects.drop_last(), assets_dir);
        match object_record(objects.last().1, assets_dir) {
            Some(record) => before.push(record),
            None => before,
        }
    }
}

/// The first two bytes of a hash, where they are a text.
fn prefix_of(hash: &str) -> (prefix: Option<String>)
    ensures
        prefix.deep_view() == hash_prefix(hash@),
{
    let chars = chars_of(hash);
    if chars.len() >= 1 && 0x80 <= chars[0] as u32 && (chars[0] as u32) < 0x800 {
        let prefix = string_of_range(&chars, 0, 1);
        proof {
            assert(prefix@ =~= hash@.take(1));
        }
        return Some(prefix);
    }
    if chars.len() >= 2 && (chars[0] as u32) < 0x80 && (chars[1] as u32) < 0x80 {
        let prefix = string_of_range(&chars, 0, 2);
        proof {
            assert(prefix@ =~= hash@.take(2));
        }
        return Some(prefix);
    }
    None
}

impl AssetIndex {
    /// Whether a readable `virtual/<id>/<name>` tree must be materialized.
    pub fn needs_virtual_tree(&self) -> (yes: bool)
        ensures
            yes == (self.deep_view().is_virtual || self.deep_view().map_to_resources),
    {
        self.is_virtual || self.map_to_resources
    }

    /// Whether the first two bytes of every hash that has them are a text.
    pub fn hashes_are_sound(&self) -> (yes: bool)
        ensures
            yes == hashes_have_prefixes(self.deep_view().objects),
    {
        let count: usize = self.objects.len();
        for i in 0..count
            invariant
                count == self.objects.deep_view().len(),
                forall|j: int|
                    0 <= j < i ==> too_short((#[trigger] self.objects.deep_view()[j]).1.hash)
                        || hash_prefix(self.objects.deep_view()[j].1.hash) is Some,
        {
            let hash = self.objects.value_at(i).hash.as_str();
            let chars = chars_of(hash);
            let short = chars.len() == 0 || (chars.len() == 1 && (chars[0] as u32) < 0x80);
            if !short && prefix_of(hash).is_none() {
                return false;
            }
        }
        true
    }
}

/// Turn each `objects[name] = {hash, size}` into a download record at
/// `assets/objects/<hash[:2]>/<hash>`. Objects with a malformed hash are skipped.
pub fn build_object_records(index: &AssetIndex, assets_dir: &str) -> (records: Vec<ArtifactRecord>)
    requires
        hashes_have_prefixes(index.deep_view().objects),
    ensures
        records.deep_view() == object_records(index.deep_view().objects, assets_dir@),
{
    let objects_dir = join_path(assets_dir, "objects");
    let mut records: Vec<ArtifactRecord> = Vec::new();
    let ghost all = index.objects.deep_view();
    let count: usize = index.objects.len();
    proof {
        assert(records.deep_view() =~= object_records(all.take(0), assets_dir@));
    }
    for i in 0..count
        invariant
            all == index.objects.deep_view(),
            count == all.len(),
            objects_dir@ == path_join(assets_dir@, "objects"@),
            records.deep_view() == object_records(all.take(i as int), assets_dir@),
    {
        let ghost before = records.deep_view();
        proof {
            assert(all.take(i + 1).drop_last() =~= all.take(i as int));
            assert(all.take(i + 1).last() == all[i as int]);
        }
        let object = index.objects.value_at(i);
        if let Some(prefix) = prefix_of(object.hash.as_str()) {
            let mut url = concat3(RESOURCES_BASE, "/", prefix.as_str());
            url.append("/");
            url.append(object.hash.as_str());
            let directory = join_path(objects_dir.as_str(), prefix.as_str());
            let record = asset_record(
                "asset:".to_owned().concat(object.hash.as_str()),
                url,
                Some(object.hash.clone()),
                Some(object.size),
                join_path(directory.as_str(), object.hash.as_str()),
            );
            records.push(record);
            proof {
                assert(Some(record.deep_view()) == object_record(all[i as int].1, assets_dir@));
                assert(records.deep_view() =~= before.push(record.deep_view()));
            }
        }
    }
    proof {
        assert(all.take(count as int) =~= all);
    }
    records
}

// ---------------------------------------------------------------------------
// The readable tree
// ---------------------------------------------------------------------------

/// A file of the readable tree and the object it shows.
#[derive(Debug)]
pub struct VirtualLink {
    pub source: String,
    pub target: String,
}

/// What a [`VirtualLink`] holds.
#[verifier::ext_equal]
pub struct VirtualLinkView {
    pub source: Seq<char>,
    pub target: Seq<char>,
}

impl DeepView for VirtualLink {
    type V = VirtualLinkView;

    open spec fn deep_view(&self) -> VirtualLinkView {
        VirtualLinkView { source: self.source@, target: self.target@ }
    }
}

/// The file of the readable tree that shows an object. An object whose hash is too
/// short has none.
pub open spec fn virtual_link(
    entry: (Seq<char>, AssetObjectView),
    assets_dir: Seq<char>,
    id: Seq<char>,
) -> Option<VirtualLinkView> {
    match hash_prefix(entry.1.hash) {
        None => None,
        Some(prefix) => Some(
            VirtualLinkView {
                source: object_place(assets_dir, prefix, entry.1.hash),
                target: path_join(path_join(path_join(assets_dir, "virtual"@), id), entry.0),
            },
        ),
    }
}

/// The files of the readable tree, in order.
pub open spec fn virtual_links(
    objects: Seq<(Seq<char>, AssetObjectView)>,
    assets_dir: Seq<char>,
    id: Seq<char>,
) -> Seq<VirtualLinkView>
    decreases objects.len(),
{
    if objects.len() == 0 {
        Seq::empty()
    } else {
        let before = virtual_links(objects.drop_last(), assets_dir, id);
        match virtual_link(objects.last(), assets_dir, id) {
            Some(link) => before.push(link),
            None => before,
        }
    }
}

/// Plan the readable tree: `assets/virtual/<id>/<name>` for every object in the
/// store.
pub fn plan_virtual_tree(index: &AssetIndex, assets_dir: &str, id: &str) -> (links: Vec<VirtualLink>)
    requires
        hashes_have_prefixes(index.deep_view().objects),
    ensures
        links.deep_view() == virtual_links(index.deep_view().objects, assets_dir@, id@),
{
    let objects_dir = join_path(assets_dir, "objects");
    let virtual_dir = join_path(assets_dir, "virtual");
    let virtual_root = join_path(virtual_dir.as_str(), id);
    let mut links: Vec<VirtualLink> = Vec::new();
    let ghost all = index.objects.deep_view();
    let count: usize = index.objects.len();
    proof {
        assert(links.deep_view() =~= virtual_links(all.take(0), assets_dir@, id@));
    }
    for i in 0..count
        invariant
            all == index.objects.deep_view(),
            count == all.len(),
            objects_dir@ == path_join(assets_dir@, "objects"@),
            virtual_root@ == path_join(path_join(assets_dir@, "virtual"@), id@),
            links.deep_view() == virtual_links(all.take(i as int), assets_dir@, id@),
    {
        let ghost before = links.deep_view();
        proof {
            assert(all.take(i + 1).drop_last() =~= all.take(i as int));
            assert(all.take(i + 1).last() == all[i as int]);
        }
        let object = index.objects.value_at(i);
        if let Some(prefix) = prefix_of(object.hash.as_str()) {
            let directory = join_path(objects_dir.as_str(), prefix.as_str());
            let link = VirtualLink {
                source: join_path(directory.as_str(), object.hash.as_str()),
                target: join_path(virtual_root.as_str(), index.objects.key_at(i)),
            };
            links.push(link);
            proof {
                assert(Some(link.deep_view()) == virtual_link(all[i as int], assets_dir@, id@));
                assert(links.deep_view() =~= before.push(link.deep_view()));
            }
        }
    }
    proof {
        assert(all.take(count as int) =~= all);
    }
    links
}

// ---------------------------------------------------------------------------
// The log config
// ---------------------------------------------------------------------------

/// The place of a log4j config in an instance.
pub open spec fn log_config_place(instance_dir: Seq<char>, file_id: Seq<char>) -> Seq<char> {
    path_join(path_join(path_join(instance_dir, "assets"@), "log_configs"@), file_id)
}

/// On-disk path for a log4j config: `<instance>/assets/log_configs/<id>`, matching
/// the launcher layout. Shared by the download of the config and the assembler so
/// the downloaded file and the `${path}` argument cannot drift.
#[must_use]
pub fn log_config_path(instance_dir: &str, file_id: &str) -> (path: String)
    ensures
        path@ == log_config_place(instance_dir@, file_id@),
{
    let assets = join_path(instance_dir, "assets");
    let configs = join_path(assets.as_str(), "log_configs");
    join_path(configs.as_str(), file_id)
}

/// The record of the log config, if there is one to download.
pub open spec fn log_config_record(
    logging: LoggingView,
    instance_dir: Seq<char>,
    dry_run: bool,
) -> Option<ArtifactRecordView> {
    match logging.file {
        Some(file) => if filled(file.url) is Some && !dry_run {
            Some(
                ArtifactRecordView {
                    coordinate: "logConfig:"@ + file.id,
                    url: file.url,
                    url_is_fallback: false,
                    sha1: filled(file.sha1),
                    size: file.size,
                    local_path: log_config_place(instance_dir, file.id),
                    role: Role::Asset,
                    extract_exclude: Seq::empty(),
                },
            )
        } else {
            None
        },
        None => None,
    }
}

/// Decide whether there is a log4j config (the `Log4Shell` mitigation) to download.
/// There is none when no file or url is declared, or on a dry run (the assembler
/// still emits the argument).
pub fn request_log_config(logging: &Logging, instance_dir: &str, dry_run: bool) -> (record: Option<
    ArtifactRecord,
>)
    ensures
        record.deep_view() == log_config_record(logging.deep_view(), instance_dir@, dry_run),
{
    let file = match &logging.file {
        Some(file) => file,
        None => {
            return None;
        },
    };
    let url = match &file.url {
        Some(url) => url,
        None => {
            return None;
        },
    };
    if url.as_str().is_empty() || dry_run {
        return None;
    }
    Some(
        asset_record(
            "logConfig:".to_owned().concat(file.id.as_str()),
            url.clone(),
            normalize_sha1(&file.sha1),
            file.size,
            log_config_path(instance_dir, file.id.as_str()),
        ),
    )
}

/// Whether the log config that is there, if it could be read, has to be replaced. A
/// config without `XMLLayout` is either patched or natively plain. It is not fetched
/// again: patching invalidates its sha1, which would otherwise force a download on
/// every run.
pub fn log_config_is_stale(existing: Option<&str>) -> (stale: bool)
    ensures
        stale == (existing matches Some(text) ==> contains_text(text@, "XMLLayout"@)),
{
    match existing {
        Some(text) => contains(text, "XMLLayout"),
        None => true,
    }
}

/// The content of a log config with its console layout swapped, given whether it
/// has one and what the swap yields.
pub open spec fn patch_outcome(verdict: Option<bool>, replaced: Option<Seq<char>>) -> Option<
    Seq<char>,
> {
    if verdict == Some(true) {
        replaced
    } else {
        None
    }
}

/// The content of a log config with its console layout swapped, if it has one to
/// swap.
pub open spec fn patched_config(content: Seq<char>) -> Option<Seq<char>> {
    patch_outcome(
        regex_verdict(XML_LAYOUT@, content),
        regex_replaced(XML_LAYOUT@, content, PATTERN_LAYOUT@),
    )
}

/// The content of a log config with its console layout swapped, given whether it
/// has one (`None` if that cannot be told) and what the swap yields.
pub fn patch_given(verdict: Option<bool>, replaced: Option<String>) -> (patched: Option<String>)
    ensures
        patched.deep_view() == patch_outcome(verdict, replaced.deep_view()),
{
    match verdict {
        Some(true) => replaced,
        _ => None,
    }
}

/// Swap a self-closing console `<XMLLayout />` for a plain `PatternLayout`, so
/// headless stdout is readable. Returns the patched content, or `None` when there is
/// no such layout to swap. Nothing else changes: the JNDI filter (the actual
/// mitigation) stays.
///
/// Only the self-closing form is handled (what every known Mojang `client-1.x.xml`
/// uses); a paired `<XMLLayout>...</XMLLayout>` is left as-is.
pub fn patch_console_layout(content: &str) -> (patched: Option<String>)
    ensures
        patched.deep_view() == patched_config(content@),
        patched matches Some(text) ==> only_patched(content@, text@, PATTERN_LAYOUT@),
{
    let verdict = regex_matches(XML_LAYOUT, content);
    let replaced = regex_replace_all(XML_LAYOUT, content, PATTERN_LAYOUT);
    proof {
        reveal_strlit("<PatternLayout pattern=\"[%d{HH:mm:ss}] [%t/%level]: %msg%n\" />");
        assert(!PATTERN_LAYOUT@.contains('$'));
    }
    patch_given(verdict, replaced)
}

// ---------------------------------------------------------------------------
// Laws
// ---------------------------------------------------------------------------

/// An object is stored and fetched under the same two-part name: the first two
/// bytes of its hash, then the hash, which is also what its bytes are checked
/// against.
pub proof fn objects_are_content_addressed(object: AssetObjectView, assets_dir: Seq<char>)
    ensures
        object_record(object, assets_dir) matches Some(record) ==> {
            let prefix = hash_prefix(object.hash)->0;
            &&& prefix.is_prefix_of(object.hash)
            &&& record.url == Some(RESOURCES_BASE@ + "/"@ + prefix + "/"@ + object.hash)
            &&& record.local_path == object_place(assets_dir, prefix, object.hash)
            &&& record.sha1 == Some(object.hash)
        },
{
}

/// The readable tree shows exactly the objects that are in the store: a link leads
/// to the place of the record of the same object.
pub proof fn links_lead_to_stored_objects(
    objects: Seq<(Seq<char>, AssetObjectView)>,
    assets_dir: Seq<char>,
    id: Seq<char>,
)
    ensures
        virtual_links(objects, assets_dir, id).len() == object_records(objects, assets_dir).len(),
        forall|i: int|
            0 <= i < virtual_links(objects, assets_dir, id).len() ==> (#[trigger] virtual_links(
                objects,
                assets_dir,
                id,
            )[i]).source == object_records(objects, assets_dir)[i].local_path,
    decreases objects.len(),
{
    if objects.len() > 0 {
        links_lead_to_stored_objects(objects.drop_last(), assets_dir, id);
    }
}

/// The log config is downloaded to the place that the command points at.
pub proof fn log_config_is_where_the_command_points(
    logging: LoggingView,
    instance_dir: Seq<char>,
    dry_run: bool,
)
    ensures
        log_config_record(logging, instance_dir, dry_run) matches Some(record) ==> logging.file
            is Some && record.local_path == log_config_place(instance_dir, logging.file->0.id),
{
}

/// On a dry run nothing of the asset store is downloaded.
pub proof fn dry_run_downloads_no_assets(
    asset_index: AssetIndexRefView,
    logging: LoggingView,
    instance_dir: Seq<char>,
)
    ensures
        index_request(asset_index, instance_dir, true) matches Ok(request) ==> request is None,
        log_config_record(logging, instance_dir, true) is None,
{
}

/// What lies in the asset store of an absolute instance directory has an absolute
/// path.
pub proof fn asset_paths_are_absolute(
    asset_index: AssetIndexRefView,
    logging: LoggingView,
    instance_dir: Seq<char>,
    dry_run: bool,
)
    requires
        is_absolute_path(instance_dir),
    ensures
        index_request(asset_index, instance_dir, dry_run) matches Ok(Some(record))
            ==> is_absolute_path(record.local_path),
        log_config_record(logging, instance_dir, dry_run) matches Some(record) ==> is_absolute_path(
            record.local_path,
        ),
{
}

/// The index is requested from its url, to its place among the indexes, with the hash and
/// the size that are declared; without a url there is a failure, on a dry run too.
pub proof fn index_is_requested_as_declared(
    asset_index: AssetIndexRefView,
    instance_dir: Seq<char>,
    dry_run: bool,
)
    ensures
        asset_index.url is None ==> (index_request(
            asset_index,
            instance_dir,
            dry_run,
        ) matches Err(error) && error.cause == (CauseView::Other {
            message: "asset index "@ + asset_index.id + " has no download url"@,
        })),
        asset_index.url is Some ==> (index_request(
            asset_index,
            instance_dir,
            false,
        ) matches Ok(Some(record)) && {
            &&& record.coordinate == "assetIndex:"@ + asset_index.id
            &&& record.url == asset_index.url
            &&& !record.url_is_fallback
            &&& asset_index.sha1 matches Some(hash) ==> record.sha1 == (if hash.len() > 0 {
                Some(hash)
            } else {
                None
            })
            &&& asset_index.sha1 is None ==> record.sha1 is None
            &&& record.size == asset_index.size
            &&& record.local_path == path_join(
                path_join(path_join(instance_dir, "assets"@), "indexes"@),
                asset_index.id + ".json"@,
            )
            &&& record.role == Role::Asset
            &&& record.extract_exclude.len() == 0
        }),
{
}

/// An object with a hash of ASCII characters is fetched and stored under the first two of
/// them and the whole hash, and its bytes are checked against hash and size.
pub proof fn ascii_hashes_are_stored_under_two_characters(
    object: AssetObjectView,
    assets_dir: Seq<char>,
)
    requires
        object.hash.len() >= 2,
        (object.hash[0] as u32) < 0x80,
        (object.hash[1] as u32) < 0x80,
    ensures
        object_record(object, assets_dir) matches Some(record) && {
            let two = seq![object.hash[0], object.hash[1]];
            &&& record.coordinate == "asset:"@ + object.hash
            &&& record.url == Some(
                "https://resources.download.minecraft.net"@ + "/"@ + two + "/"@ + object.hash,
            )
            &&& !record.url_is_fallback
            &&& record.sha1 == Some(object.hash)
            &&& record.size == Some(object.size)
            &&& record.local_path == path_join(
                path_join(path_join(assets_dir, "objects"@), two),
                object.hash,
            )
            &&& record.role == Role::Asset
            &&& record.extract_exclude.len() == 0
        },
{
    assert(object.hash.take(2) =~= seq![object.hash[0], object.hash[1]]);
}

/// A hash without two bytes has no record and no link, and objects do not influence each
/// other: each adds its record and its link at the end.
pub proof fn objects_are_taken_one_by_one(
    objects: Seq<(Seq<char>, AssetObjectView)>,
    name: Seq<char>,
    object: AssetObjectView,
    assets_dir: Seq<char>,
    id: Seq<char>,
)
    ensures
        object_records(Seq::empty(), assets_dir).len() == 0,
        virtual_links(Seq::empty(), assets_dir, id).len() == 0,
        object.hash.len() == 0 || (object.hash.len() == 1 && (object.hash[0] as u32) < 0x80) ==> {
            &&& object_records(objects.push((name, object)), assets_dir) == object_records(
                objects,
                assets_dir,
            )
            &&& virtual_links(objects.push((name, object)), assets_dir, id) == virtual_links(
                objects,
                assets_dir,
                id,
            )
        },
        object_record(object, assets_dir) matches Some(record) ==> {
            &&& object_records(objects.push((name, object)), assets_dir) == object_records(
                objects,
                assets_dir,
            ).push(record)
            &&& virtual_links(objects.push((name, object)), assets_dir, id) == virtual_links(
                objects,
                assets_dir,
                id,
            ).push(
                VirtualLinkView {
                    source: record.local_path,
                    target: path_join(path_join(path_join(assets_dir, "virtual"@), id), name),
                },
            )
        },
{
    assert(objects.push((name, object)).drop_last() =~= objects);
}

/// Every object that has a record is among the records, and its name leads to it in the
/// readable tree.
pub proof fn every_object_is_fetched_and_shown(
    objects: Seq<(Seq<char>, AssetObjectView)>,
    assets_dir: Seq<char>,
    id: Seq<char>,
    i: int,
    record: ArtifactRecordView,
)
    requires
        0 <= i < objects.len(),
        object_record(objects[i].1, assets_dir) == Some(record),
    ensures
        object_records(objects, assets_dir).contains(record),
        virtual_links(objects, assets_dir, id).contains(
            VirtualLinkView {
                source: record.local_path,
                target: path_join(path_join(path_join(assets_dir, "virtual"@), id), objects[i].0),
            },
        ),
    decreases objects.len(),
{
    let before = objects.drop_last();
    let records = object_records(objects, assets_dir);
    let links = virtual_links(objects, assets_dir, id);
    let link = VirtualLinkView {
        source: record.local_path,
        target: path_join(path_join(path_join(assets_dir, "virtual"@), id), objects[i].0),
    };
    if i < before.len() {
        every_object_is_fetched_and_shown(before, assets_dir, id, i, record);
        let earlier = object_records(before, assets_dir);
        let k = choose|k: int| 0 <= k < earlier.len() && earlier[k] == record;
        assert(records[k] == record);
        let shown = virtual_links(before, assets_dir, id);
        let n = choose|n: int| 0 <= n < shown.len() && shown[n] == link;
        assert(links[n] == link);
    } else {
        assert(records[records.len() - 1] == record);
        assert(links[links.len() - 1] == link);
    }
}

/// The log config is fetched from its url with the hash and the size that are declared; it
/// is left out only on a dry run, or where no file or no url is declared.
pub proof fn log_config_is_fetched_as_declared(logging: LoggingView, instance_dir: Seq<char>)
    ensures
        logging.file is None ==> log_config_record(logging, instance_dir, false) is None,
        logging.file matches Some(file) ==> {
            &&& file.url is None ==> log_config_record(logging, instance_dir, false) is None
            &&& file.url matches Some(url) ==> (url.len() == 0 ==> log_config_record(
                logging,
                instance_dir,
                false,
            ) is None)
            &&& file.url matches Some(url) ==> (url.len() > 0 ==> (log_config_record(
                logging,
                instance_dir,
                false,
            ) matches Some(record) && {
                &&& record.coordinate == "logConfig:"@ + file.id
                &&& record.url == Some(url)
                &&& !record.url_is_fallback
                &&& file.sha1 matches Some(hash) ==> record.sha1 == (if hash.len() > 0 {
                    Some(hash)
                } else {
                    None
                })
                &&& file.sha1 is None ==> record.sha1 is None
                &&& record.size == file.size
                &&& record.local_path == path_join(
                    path_join(path_join(instance_dir, "assets"@), "log_configs"@),
                    file.id,
                )
                &&& record.role == Role::Asset
                &&& record.extract_exclude.len() == 0
            }))
        },
{
}

/// A log config is patched exactly if it is known to have the layout, and then to what the
/// swap yields.
pub proof fn only_a_known_layout_is_swapped(
    verdict: Option<bool>,
    replaced: Seq<char>,
    content: Seq<char>,
)
    ensures
        patch_outcome(Some(true), Some(replaced)) == Some(replaced),
        verdict != Some(true) ==> patch_outcome(verdict, Some(replaced)) is None,
        patch_outcome(verdict, None) is None,
        regex_verdict("<XMLLayout\\s*/>"@, content) == Some(true) ==> patched_config(content)
            == regex_replaced(
            "<XMLLayout\\s*/>"@,
            content,
            "<PatternLayout pattern=\"[%d{HH:mm:ss}] [%t/%level]: %msg%n\" />"@,
        ),
        regex_verdict("<XMLLayout\\s*/>"@, content) != Some(true) ==> patched_config(
            content,
        ) is None,
{
}

/// The prefix of a hash is its first two bytes: the first character if that takes two bytes,
/// the first two if each takes one. Every other hash is too short for one, or is cut inside
/// a character.
pub proof fn prefixes_are_two_bytes(hash: Seq<char>)
    ensures
        hash.len() >= 1 && 0x80 <= (hash[0] as u32) < 0x800 ==> hash_prefix(hash) == Some(
            seq![hash[0]],
        ),
        hash.len() >= 2 && (hash[0] as u32) < 0x80 && (hash[1] as u32) < 0x80 ==> hash_prefix(hash)
            == Some(seq![hash[0], hash[1]]),
        hash.len() >= 1 && (hash[0] as u32) >= 0x800 ==> hash_prefix(hash) is None && !too_short(
            hash,
        ),
        hash.len() >= 2 && (hash[0] as u32) < 0x80 && (hash[1] as u32) >= 0x80 ==> hash_prefix(
            hash,
        ) is None && !too_short(hash),
        hash.len() == 1 && (hash[0] as u32) < 0x80 ==> hash_prefix(hash) is None && too_short(hash),
        hash.len() == 0 ==> hash_prefix(hash) is None && too_short(hash),
        hash.len() >= 2 ==> !too_short(hash),
{
    if hash.len() >= 1 {
        assert(hash.take(1) =~= seq![hash[0]]);
    }
    if hash.len() >= 2 {
        assert(hash.take(2) =~= seq![hash[0], hash[1]]);
    }
}

/// The hashes of an index are sound exactly if each of them is; in particular where all are
/// ASCII.
pub proof fn hashes_are_judged_one_by_one(
    objects: Seq<(Seq<char>, AssetObjectView)>,
    name: Seq<char>,
    object: AssetObjectView,
)
    ensures
        hashes_have_prefixes(Seq::empty()),
        hashes_have_prefixes(objects.push((name, object))) <==> hashes_have_prefixes(objects) && (
        too_short(object.hash) || hash_prefix(object.hash) is Some),
{
    let more = objects.push((name, object));
    if hashes_have_prefixes(more) {
        assert(more[objects.len() as int] == (name, object));
        assert forall|i: int| 0 <= i < objects.len() implies too_short(
            (#[trigger] objects[i]).1.hash,
        ) || hash_prefix(objects[i].1.hash) is Some by {
            assert(more[i] == objects[i]);
        }
    }
}

} // verus!
