//! Assemble the final `java ...` argv from a resolved instance.
//!
//! This is where everything resolved so far becomes the command: build the
//! classpath (target separator, not the host's), substitute both argument forms
//! against a dummy-auth + directories map, inject the heap, and append the
//! tweakers. The result is one list of tokens with the java path at index 0, ready
//! for the emitter to write a token per line.
//!
//! Two correctness rules drive the shape: never double-add `-cp` or
//! `-Djava.library.path` - only add what the JVM arguments didn't already
//! template. And Prism-only extras are deliberately omitted.

use vstd::prelude::*;
use vstd::string::*;

use crate::assets::{log_config_path, log_config_place};
use crate::coordinate::{
    bad_coordinate, coordinate_version, maven_coordinate_to_path, maven_path,
    version_is_the_third_segment, version_segment,
};
use crate::exit::{outcome, plain_error, CauseView, Error, ErrorView, FatalError, FatalErrorView};
use crate::lists::{
    chained, chained_of_both, chained_of_one, first_some, first_some_is, first_some_none,
};
use crate::model::artifact::{ArtifactRecord, ArtifactRecordView, Role};
use crate::model::patch::{
    Agent, AgentView, ArgEntry, ArgEntryView, ArgValue, ArgValueView, Dependency, DependencyView,
    Patch, PatchView, RuleView,
};
use crate::model::profile::{GameArgs, GameArgsView, Profile, ProfileView};
use crate::paths::{join_path, path_join};
use crate::platform::{Ctx, CtxView};
use crate::replicate::extend_replicas;
use crate::rules::{allowed, permits};
use crate::string_map::{
    distinct_keys, distinct_pairs_are_kept, lookup, lookup_is, stored_all, StringMap,
};
use crate::text::{
    chars_of, concat3, contains, contains_text, find_char, find_char_bounds, find_char_from,
    find_char_is, find_in, find_text, find_text_bounds, find_text_is, join, joined, joined_grows,
    non_empty, occurs_at, replace, replace_each, same_text, split_around, split_at_each, split_once,
    split_once_at, split_whitespace, split_without_separator, starts_with, string_of,
    string_of_range, white_space, Separator,
};

verus! {

/// The name of this launcher, for `${launcher_name}`.
pub const LAUNCHER_NAME: &'static str = "prism-bootstrap";

/// The version of this launcher, for `${launcher_version}`.
pub const LAUNCHER_VERSION: &'static str = "0.1.0";

/// Command-line knobs the assembly needs (heap, dummy auth, directories).
#[derive(Debug)]
pub struct Config {
    /// The selected JDK (becomes `argv[0]`).
    pub java: String,
    /// `-Xms` value (e.g. `512m`).
    pub xms: String,
    /// `-Xmx` value (e.g. `6144m`).
    pub xmx: String,
    /// Extra JVM args injected verbatim right after `-Xmx`.
    pub jvm_args: Vec<String>,
    /// `${auth_player_name}`.
    pub username: String,
    /// `${auth_uuid}`.
    pub uuid: String,
    /// `${auth_access_token}`.
    pub access_token: String,
    /// `${user_type}`.
    pub user_type: String,
    /// `${game_directory}` (working dir for the launched game).
    pub game_dir: String,
    /// Adjust internals for a no-display context; never wraps in xvfb.
    pub headless: bool,
}

/// What a [`Config`] holds.
#[verifier::ext_equal]
pub struct ConfigView {
    pub java: Seq<char>,
    pub xms: Seq<char>,
    pub xmx: Seq<char>,
    pub jvm_args: Seq<Seq<char>>,
    pub username: Seq<char>,
    pub uuid: Seq<char>,
    pub access_token: Seq<char>,
    pub user_type: Seq<char>,
    pub game_dir: Seq<char>,
    pub headless: bool,
}

impl DeepView for Config {
    type V = ConfigView;

    open spec fn deep_view(&self) -> ConfigView {
        ConfigView {
            java: self.java@,
            xms: self.xms@,
            xmx: self.xmx@,
            jvm_args: self.jvm_args.deep_view(),
            username: self.username@,
            uuid: self.uuid@,
            access_token: self.access_token@,
            user_type: self.user_type@,
            game_dir: self.game_dir@,
            headless: self.headless,
        }
    }
}

// ---------------------------------------------------------------------------
// Substitution
// ---------------------------------------------------------------------------

/// What a placeholder becomes: its value, or itself if it has none.
pub open spec fn placeholder_value(
    key: Seq<char>,
    subs: Seq<(Seq<char>, Seq<char>)>,
) -> Seq<char> {
    match lookup(subs, key) {
        Some(value) => value,
        None => "${"@ + key + "}"@,
    }
}

/// `token` with every `${name}` replaced, from the left. What follows an
/// unterminated `${` stays as it is.
pub open spec fn substituted(token: Seq<char>, subs: Seq<(Seq<char>, Seq<char>)>) -> Seq<char>
    decreases token.len(),
{
    match find_text(token, "${"@) {
        None => token,
        Some(start) => {
            let after = token.skip(start + "${"@.len());
            match find_char(after, '}') {
                None => token,
                Some(end) => {
                    proof {
                        find_text_bounds(token, "${"@);
                        find_char_bounds(after, '}');
                    }
                    token.take(start) + placeholder_value(after.take(end), subs) + substituted(
                        after.skip(end + 1),
                        subs,
                    )
                },
            }
        },
    }
}

/// The substitution map (`name` -> value).
pub type Subs = StringMap<String>;

/// Replace every `${name}` in `token` with its value from `subs`. An unknown
/// placeholder is left intact, and an unterminated `${` is emitted verbatim.
pub fn substitute(token: &str, subs: &Subs) -> (out: String)
    ensures
        out@ == substituted(token@, subs.deep_view()),
{
    let mut rest = chars_of(token);
    let opener = chars_of("${");
    let mut out = String::new();
    let ghost pairs = subs.deep_view();
    loop
        invariant
            pairs == subs.deep_view(),
            opener@ == "${"@,
            out@ + substituted(rest@, pairs) == substituted(token@, pairs),
        ensures
            out@ + rest@ == substituted(token@, pairs),
        decreases rest.len(),
    {
        let start: usize = match find_in(&rest, &opener) {
            Some(start) => start,
            None => {
                break;
            },
        };
        let from: usize = start + opener.len();
        let end: usize = match find_char_from(&rest, '}', from) {
            Some(end) => end,
            // No closing brace - the rest is emitted literally.
            None => {
                break;
            },
        };
        let ghost before = out@;
        let ghost text = rest@;
        let ghost after = text.skip(from as int);
        let head = string_of_range(&rest, 0, start);
        let key = string_of_range(&rest, from, from + end);
        proof {
            assert(head@ =~= text.take(start as int));
            assert(key@ =~= after.take(end as int));
        }
        out.append(head.as_str());
        match subs.get(key.as_str()) {
            Some(value) => {
                out.append(value.as_str());
            },
            // Leave an unrecognised placeholder untouched.
            None => {
                out.append("${");
                out.append(key.as_str());
                out.append("}");
            },
        }
        proof {
            assert(out@ =~= before + text.take(start as int) + placeholder_value(key@, pairs));
        }
        let tail = string_of_range(&rest, from + end + 1, rest.len());
        rest = chars_of(tail.as_str());
        proof {
            assert(rest@ =~= after.skip(end + 1));
            assert(out@ + substituted(rest@, pairs) =~= before + substituted(text, pairs));
        }
    }
    let tail = string_of(rest.as_slice());
    out.append(tail.as_str());
    out
}

// ---------------------------------------------------------------------------
// Preflight
// ---------------------------------------------------------------------------

/// The first component with a uid.
pub open spec fn component_named(components: Seq<PatchView>, uid: Seq<char>) -> Option<PatchView> {
    first_some(
        components.map_values(
            |component: PatchView|
                if component.uid == uid {
                    Some(component)
                } else {
                    None
                },
        ),
    )
}

/// Why a requirement does not hold, if it does not.
pub open spec fn requirement_failure(
    required: DependencyView,
    components: Seq<PatchView>,
) -> Option<Seq<char>> {
    match component_named(components, required.uid) {
        None => Some("required component "@ + required.uid + " is not present"@),
        Some(component) => match required.equals {
            None => None,
            Some(wanted) => if component.version == Some(wanted) {
                None
            } else {
                Some(
                    "component "@ + required.uid + " is version "@ + (match component.version {
                        Some(version) => version,
                        None => "<unset>"@,
                    }) + ", but "@ + wanted + " is required"@,
                )
            },
        },
    }
}

/// Why a conflict stands in the way, if it does.
pub open spec fn conflict_failure(
    conflict: DependencyView,
    components: Seq<PatchView>,
) -> Option<Seq<char>> {
    if component_named(components, conflict.uid) is Some {
        Some("conflicting component "@ + conflict.uid + " is present"@)
    } else {
        None
    }
}

/// The failure of a dependency check.
pub open spec fn unsatisfied(reason: Seq<char>) -> ErrorView {
    plain_error(CauseView::Fatal { error: FatalErrorView::UnsatisfiedDeps { reason } })
}

/// The failure to find a main class.
pub open spec fn no_main_class() -> ErrorView {
    plain_error(CauseView::Fatal { error: FatalErrorView::NoMainClass })
}

/// Whether there is a main class to launch.
pub open spec fn has_main_class(profile: ProfileView) -> bool {
    profile.main_class matches Some(class) && class.len() > 0
}

/// The first reason for which the requirements and conflicts of a profile do not
/// hold; requirements come first.
pub open spec fn dependency_failure(profile: ProfileView, components: Seq<PatchView>) -> Option<
    Seq<char>,
> {
    match first_some(
        profile.requires.map_values(
            |required: DependencyView| requirement_failure(required, components),
        ),
    ) {
        Some(reason) => Some(reason),
        None => first_some(
            profile.conflicts.map_values(
                |conflict: DependencyView| conflict_failure(conflict, components),
            ),
        ),
    }
}

/// What the preflight check says.
pub open spec fn preflight_outcome(profile: ProfileView, components: Seq<PatchView>) -> Result<
    (),
    ErrorView,
> {
    if !has_main_class(profile) {
        Err(no_main_class())
    } else {
        match dependency_failure(profile, components) {
            Some(reason) => Err(unsatisfied(reason)),
            None => Ok(()),
        }
    }
}

/// The first component with a uid.
fn find_component<'a>(components: &'a [Patch], uid: &str) -> (found: Option<&'a Patch>)
    ensures
        found.deep_view() == component_named(components.deep_view(), uid@),
{
    let ghost values = components.deep_view().map_values(
        |component: PatchView|
            if component.uid == uid@ {
                Some(component)
            } else {
                None
            },
    );
    for i in 0..components.len()
        invariant
            values == components.deep_view().map_values(
                |component: PatchView|
                    if component.uid == uid@ {
                        Some(component)
                    } else {
                        None
                    },
            ),
            forall|j: int| 0 <= j < i ==> (#[trigger] values[j]) is None,
    {
        if same_text(components[i].uid.as_str(), uid) {
            proof {
                assert(values[i as int] == Some(components@[i as int].deep_view()));
                first_some_is(values, i as int);
            }
            return Some(&components[i]);
        }
        proof {
            assert(values[i as int] is None);
        }
    }
    proof {
        first_some_none(values);
    }
    None
}

/// Why a requirement does not hold, if it does not.
fn unmet_requirement(required: &Dependency, components: &[Patch]) -> (reason: Option<String>)
    ensures
        reason.deep_view() == requirement_failure(required.deep_view(), components.deep_view()),
{
    let component = match find_component(components, required.uid.as_str()) {
        Some(component) => component,
        None => {
            return Some(
                concat3("required component ", required.uid.as_str(), " is not present"),
            );
        },
    };
    let wanted = match &required.equals {
        Some(wanted) => wanted,
        None => {
            return None;
        },
    };
    let version = match &component.version {
        Some(version) => {
            if same_text(version.as_str(), wanted.as_str()) {
                return None;
            }
            version.as_str()
        },
        None => "<unset>",
    };
    let mut reason = concat3("component ", required.uid.as_str(), " is version ");
    reason.append(version);
    reason.append(", but ");
    reason.append(wanted.as_str());
    reason.append(" is required");
    Some(reason)
}

/// Preflight checks that can run before downloads.
///
/// Validates that there is a `mainClass` to launch and that every `requires` is
/// present (with a matching version when `equals` is set) and no `conflicts`
/// component is present. `components` is the loaded component list (uid+version).
///
/// # Errors
/// Returns a typed [`FatalError`] (-> a distinct exit code) when a constraint
/// fails.
pub fn preflight(profile: &Profile, components: &[Patch]) -> (result: Result<(), Error>)
    ensures
        outcome(result) == preflight_outcome(profile.deep_view(), components.deep_view()),
{
    let ghost p = profile.deep_view();
    let ghost all = components.deep_view();
    let has_class = match &profile.main_class {
        Some(class) => !class.as_str().is_empty(),
        None => false,
    };
    if !has_class {
        return Err(Error::fatal(FatalError::NoMainClass));
    }

    let ghost requirements = p.requires.map_values(
        |required: DependencyView| requirement_failure(required, all),
    );
    for i in 0..profile.requires.len()
        invariant
            p == profile.deep_view(),
            all == components.deep_view(),
            has_main_class(p),
            requirements == p.requires.map_values(
                |required: DependencyView| requirement_failure(required, all),
            ),
            forall|j: int| 0 <= j < i ==> (#[trigger] requirements[j]) is None,
    {
        let unmet = unmet_requirement(&profile.requires[i], components);
        proof {
            assert(requirements[i as int] == unmet.deep_view());
        }
        if let Some(reason) = unmet {
            proof {
                first_some_is(requirements, i as int);
            }
            return Err(Error::fatal(FatalError::UnsatisfiedDeps { reason }));
        }
    }
    proof {
        first_some_none(requirements);
    }

    let ghost conflicts = p.conflicts.map_values(
        |conflict: DependencyView| conflict_failure(conflict, all),
    );
    for i in 0..profile.conflicts.len()
        invariant
            p == profile.deep_view(),
            all == components.deep_view(),
            has_main_class(p),
            first_some(
                p.requires.map_values(
                    |required: DependencyView| requirement_failure(required, all),
                ),
            ) is None,
            conflicts == p.conflicts.map_values(
                |conflict: DependencyView| conflict_failure(conflict, all),
            ),
            forall|j: int| 0 <= j < i ==> (#[trigger] conflicts[j]) is None,
    {
        let uid = profile.conflicts[i].uid.as_str();
        let present = find_component(components, uid).is_some();
        proof {
            assert(conflicts[i as int] == conflict_failure(
                profile.conflicts@[i as int].deep_view(),
                all,
            ));
        }
        if present {
            proof {
                first_some_is(conflicts, i as int);
            }
            let reason = concat3("conflicting component ", uid, " is present");
            return Err(Error::fatal(FatalError::UnsatisfiedDeps { reason }));
        }
    }
    proof {
        first_some_none(conflicts);
    }
    Ok(())
}

// ---------------------------------------------------------------------------
// The classpath and the substitution map
// ---------------------------------------------------------------------------

/// The paths on the classpath, in resolved order.
pub open spec fn classpath_entries(records: Seq<ArtifactRecordView>) -> Seq<Seq<char>> {
    records.filter(|record: ArtifactRecordView| record.role == Role::Classpath).map_values(
        |record: ArtifactRecordView| record.local_path,
    )
}

/// The classpath: its paths with the separator of the target between them.
pub open spec fn classpath_text(records: Seq<ArtifactRecordView>, ctx: CtxView) -> Seq<char> {
    joined(classpath_entries(records), seq![ctx.path_sep])
}

/// The Minecraft version: that of the main jar's coordinate, else the asset index
/// id, else a placeholder.
pub open spec fn version_of(profile: ProfileView) -> Seq<char> {
    let from_jar = match profile.main_jar {
        Some(jar) => version_segment(jar.name),
        None => None,
    };
    match from_jar {
        Some(version) => version,
        None => match profile.asset_index {
            Some(index) => index.id,
            None => "unknown"@,
        },
    }
}

/// The name of the asset index, or of the version where there is none.
pub open spec fn assets_index_of(profile: ProfileView) -> Seq<char> {
    match profile.asset_index {
        Some(index) => index.id,
        None => version_of(profile),
    }
}

/// The placeholders and their values.
pub open spec fn substitution_pairs(
    profile: ProfileView,
    ctx: CtxView,
    instance: Seq<char>,
    config: ConfigView,
    classpath: Seq<char>,
) -> Seq<(Seq<char>, Seq<char>)> {
    let assets_root = path_join(instance, "assets"@);
    seq![
        ("auth_player_name"@, config.username),
        ("version_name"@, version_of(profile)),
        ("game_directory"@, config.game_dir),
        ("assets_root"@, assets_root),
        // The virtual asset tree for this index.
        (
            "game_assets"@,
            path_join(path_join(assets_root, "virtual"@), assets_index_of(profile)),
        ),
        ("assets_index_name"@, assets_index_of(profile)),
        ("auth_uuid"@, config.uuid),
        ("auth_access_token"@, config.access_token),
        ("user_properties"@, "{}"@),
        ("user_type"@, config.user_type),
        ("classpath"@, classpath),
        ("classpath_separator"@, seq![ctx.path_sep]),
        ("natives_directory"@, path_join(instance, "natives"@)),
        ("library_directory"@, path_join(instance, "libraries"@)),
        ("launcher_name"@, LAUNCHER_NAME@),
        ("launcher_version"@, LAUNCHER_VERSION@),
    ]
}

/// Join every classpath record's local path with the *target* separator (`;` on
/// windows, `:` otherwise), in resolved order. `MavenFile` and `NativeExtract`
/// records are excluded by role.
pub fn build_classpath(records: &[ArtifactRecord], ctx: &Ctx) -> (classpath: String)
    ensures
        classpath@ == classpath_text(records.deep_view(), ctx.deep_view()),
{
    let mut entries: Vec<String> = Vec::new();
    let ghost all = records.deep_view();
    proof {
        reveal(Seq::filter);
        assert(entries.deep_view() =~= classpath_entries(all.take(0)));
    }
    for i in 0..records.len()
        invariant
            all == records.deep_view(),
            entries.deep_view() == classpath_entries(all.take(i as int)),
    {
        let ghost before = entries.deep_view();
        proof {
            reveal(Seq::filter);
            assert(all.take(i + 1).drop_last() =~= all.take(i as int));
            assert(all.take(i + 1).last() == records@[i as int].deep_view());
        }
        if records[i].role == Role::Classpath {
            entries.push(records[i].local_path.clone());
            proof {
                assert(entries.deep_view() =~= before.push(records@[i as int].local_path@));
                assert(entries.deep_view() =~= classpath_entries(all.take(i + 1)));
            }
        }
    }
    proof {
        assert(all.take(records@.len() as int) =~= all);
    }
    let separator = one_char(ctx.path_sep);
    join(&entries, separator.as_str())
}

/// A text of one character.
fn one_char(c: char) -> (text: String)
    ensures
        text@ == seq![c],
{
    let mut text = String::new();
    text.push(c);
    proof {
        assert(text@ =~= seq![c]);
    }
    text
}

/// The Minecraft version for `${version_name}`: the main jar's coordinate version,
/// else the asset index id, else a placeholder.
pub fn version_name(profile: &Profile) -> (version: String)
    ensures
        version@ == version_of(profile.deep_view()),
{
    if let Some(jar) = &profile.main_jar {
        if let Some(version) = coordinate_version(jar.name.as_str()) {
            return version;
        }
    }
    match &profile.asset_index {
        Some(index) => index.id.clone(),
        None => "unknown".to_owned(),
    }
}

/// Build the substitution map: dummy auth + computed directories + classpath.
pub fn build_subs(
    profile: &Profile,
    ctx: &Ctx,
    instance: &str,
    config: &Config,
    classpath: &str,
) -> (subs: Subs)
    ensures
        subs.deep_view() == stored_all(
            substitution_pairs(
                profile.deep_view(),
                ctx.deep_view(),
                instance@,
                config.deep_view(),
                classpath@,
            ),
        ),
        lookup(subs.deep_view(), "game_directory"@) == Some(config.game_dir@),
        lookup(subs.deep_view(), "auth_player_name"@) == Some(config.username@),
        lookup(subs.deep_view(), "auth_uuid"@) == Some(config.uuid@),
        lookup(subs.deep_view(), "auth_access_token"@) == Some(config.access_token@),
        lookup(subs.deep_view(), "user_type"@) == Some(config.user_type@),
        lookup(subs.deep_view(), "classpath"@) == Some(classpath@),
{
    let assets_index_name = match &profile.asset_index {
        Some(index) => index.id.clone(),
        None => version_name(profile),
    };
    let assets_root = join_path(instance, "assets");
    let virtual_root = join_path(assets_root.as_str(), "virtual");
    let game_assets = join_path(virtual_root.as_str(), assets_index_name.as_str());
    let pairs: Vec<(String, String)> = vec![
        ("auth_player_name".to_owned(), config.username.clone()),
        ("version_name".to_owned(), version_name(profile)),
        ("game_directory".to_owned(), config.game_dir.clone()),
        ("assets_root".to_owned(), assets_root),
        ("game_assets".to_owned(), game_assets),
        ("assets_index_name".to_owned(), assets_index_name),
        ("auth_uuid".to_owned(), config.uuid.clone()),
        ("auth_access_token".to_owned(), config.access_token.clone()),
        ("user_properties".to_owned(), "{}".to_owned()),
        ("user_type".to_owned(), config.user_type.clone()),
        ("classpath".to_owned(), classpath.to_owned()),
        ("classpath_separator".to_owned(), one_char(ctx.path_sep)),
        ("natives_directory".to_owned(), join_path(instance, "natives")),
        ("library_directory".to_owned(), join_path(instance, "libraries")),
        ("launcher_name".to_owned(), LAUNCHER_NAME.to_owned()),
        ("launcher_version".to_owned(), LAUNCHER_VERSION.to_owned()),
    ];
    proof {
        assert(pairs.deep_view() =~= substitution_pairs(
            profile.deep_view(),
            ctx.deep_view(),
            instance@,
            config.deep_view(),
            classpath@,
        ));
        settings_are_substituted(
            profile.deep_view(),
            ctx.deep_view(),
            instance@,
            config.deep_view(),
            classpath@,
        );
        places_are_substituted(
            profile.deep_view(),
            ctx.deep_view(),
            instance@,
            config.deep_view(),
            classpath@,
        );
    }
    StringMap::of_pairs(&pairs)
}

// ---------------------------------------------------------------------------
// Argument entries
// ---------------------------------------------------------------------------

/// The tokens of one entry, as they are written, if its rules allow the platform.
pub open spec fn entry_tokens(entry: ArgEntryView, ctx: CtxView) -> Seq<Seq<char>> {
    match entry {
        ArgEntryView::Plain(token) => seq![token],
        ArgEntryView::Conditional { rules, value } => if permits(rules, ctx) {
            match value {
                ArgValueView::Single(token) => seq![token],
                ArgValueView::Many(tokens) => tokens,
            }
        } else {
            Seq::empty()
        },
    }
}

/// The tokens of the entries that the platform allows, as they are written.
pub open spec fn active_tokens(entries: Seq<ArgEntryView>, ctx: CtxView) -> Seq<Seq<char>> {
    chained(entries.map_values(|entry: ArgEntryView| entry_tokens(entry, ctx)))
}

/// `tokens`, with the placeholders in each replaced.
pub open spec fn all_substituted(
    tokens: Seq<Seq<char>>,
    subs: Seq<(Seq<char>, Seq<char>)>,
) -> Seq<Seq<char>> {
    tokens.map_values(|token: Seq<char>| substituted(token, subs))
}

/// The tokens of the entries that the platform allows, as they are written.
fn allowed_tokens(entries: &Vec<ArgEntry>, ctx: &Ctx) -> (tokens: Vec<String>)
    ensures
        tokens.deep_view() == active_tokens(entries.deep_view(), ctx.deep_view()),
{
    let mut tokens: Vec<String> = Vec::new();
    let ghost parts = entries.deep_view().map_values(
        |entry: ArgEntryView| entry_tokens(entry, ctx.deep_view()),
    );
    proof {
        assert(tokens.deep_view() =~= chained(parts.take(0)));
    }
    for i in 0..entries.len()
        invariant
            parts == entries.deep_view().map_values(
                |entry: ArgEntryView| entry_tokens(entry, ctx.deep_view()),
            ),
            tokens.deep_view() == chained(parts.take(i as int)),
    {
        let ghost before = tokens.deep_view();
        proof {
            assert(parts.take(i + 1).drop_last() =~= parts.take(i as int));
            assert(parts.take(i + 1).last() == entry_tokens(
                entries@[i as int].deep_view(),
                ctx.deep_view(),
            ));
        }
        match &entries[i] {
            ArgEntry::Plain(token) => {
                tokens.push(token.clone());
                proof {
                    assert(tokens.deep_view() =~= before + seq![token@]);
                }
            },
            ArgEntry::Conditional { rules, value } => {
                if allowed(rules.as_slice(), ctx) {
                    match value {
                        ArgValue::Single(token) => {
                            tokens.push(token.clone());
                            proof {
                                assert(tokens.deep_view() =~= before + seq![token@]);
                            }
                        },
                        ArgValue::Many(many) => {
                            extend_replicas(&mut tokens, many);
                        },
                    }
                } else {
                    proof {
                        assert(before + Seq::<Seq<char>>::empty() =~= before);
                    }
                }
            },
        }
    }
    proof {
        assert(parts.take(entries.len() as int) =~= parts);
    }
    tokens
}

/// Replace the placeholders in every token.
fn substitute_all(tokens: &Vec<String>, subs: &Subs) -> (out: Vec<String>)
    ensures
        out.deep_view() == all_substituted(tokens.deep_view(), subs.deep_view()),
{
    let mut out: Vec<String> = Vec::new();
    let ghost all = all_substituted(tokens.deep_view(), subs.deep_view());
    proof {
        assert(out.deep_view() =~= all.take(0));
    }
    for i in 0..tokens.len()
        invariant
            all == all_substituted(tokens.deep_view(), subs.deep_view()),
            out.deep_view() == all.take(i as int),
    {
        let ghost before = out.deep_view();
        out.push(substitute(tokens[i].as_str(), subs));
        proof {
            assert(out.deep_view() =~= before.push(all[i as int]));
            assert(out.deep_view() =~= all.take(i + 1));
        }
    }
    proof {
        assert(all.take(tokens.len() as int) =~= all);
    }
    out
}

/// Resolve a modern `arguments.{game,jvm}` list: keep each entry only if its rules
/// allow `ctx`, substituting placeholders and flattening list values.
pub fn resolve_arg_entries(entries: &Vec<ArgEntry>, ctx: &Ctx, subs: &Subs) -> (tokens: Vec<String>)
    ensures
        tokens.deep_view() == all_substituted(
            active_tokens(entries.deep_view(), ctx.deep_view()),
            subs.deep_view(),
        ),
{
    let tokens = allowed_tokens(entries, ctx);
    substitute_all(&tokens, subs)
}

// ---------------------------------------------------------------------------
// JVM arguments
// ---------------------------------------------------------------------------

/// Whether a token supplies the classpath, by a flag or by a placeholder.
pub open spec fn supplies_classpath(token: Seq<char>) -> bool {
    token == "-cp"@ || token == "-classpath"@ || contains_text(token, "${classpath}"@)
}

/// Whether a token sets the native library path.
pub open spec fn sets_library_path(token: Seq<char>) -> bool {
    "-Djava.library.path="@.is_prefix_of(token)
}

/// Whether one of `tokens` supplies the classpath.
pub open spec fn any_supplies_classpath(tokens: Seq<Seq<char>>) -> bool {
    exists|i: int| 0 <= i < tokens.len() && supplies_classpath(#[trigger] tokens[i])
}

/// Whether one of `tokens` sets the native library path.
pub open spec fn any_sets_library_path(tokens: Seq<Seq<char>>) -> bool {
    exists|i: int| 0 <= i < tokens.len() && sets_library_path(#[trigger] tokens[i])
}

/// The modern JVM argument entries that the platform allows, as they are written.
pub open spec fn modern_jvm_tokens(profile: ProfileView, ctx: CtxView) -> Seq<Seq<char>> {
    match profile.game_args {
        GameArgsView::Modern { game, jvm } => active_tokens(jvm, ctx),
        _ => Seq::empty(),
    }
}

/// The JVM arguments of the components: `+jvmArgs` verbatim, then the modern
/// entries with their placeholders replaced.
pub open spec fn profile_jvm_args(
    profile: ProfileView,
    ctx: CtxView,
    subs: Seq<(Seq<char>, Seq<char>)>,
) -> Seq<Seq<char>> {
    profile.jvm_args + all_substituted(modern_jvm_tokens(profile, ctx), subs)
}

/// All tokens that may template the classpath or the library path: those that are
/// emitted, and the modern entries as they are written.
pub open spec fn templating_tokens(
    profile: ProfileView,
    ctx: CtxView,
    subs: Seq<(Seq<char>, Seq<char>)>,
) -> Seq<Seq<char>> {
    profile_jvm_args(profile, ctx, subs) + modern_jvm_tokens(profile, ctx)
}

/// The JVM flag of a trait: only `FirstThreadOnMacOS` has one, and only on osx.
pub open spec fn trait_args(name: Seq<char>, ctx: CtxView) -> Seq<Seq<char>> {
    if name == "FirstThreadOnMacOS"@ && ctx.os_name == "osx"@ {
        seq!["-XstartOnFirstThread"@]
    } else {
        Seq::empty()
    }
}

/// Whether a trait is a launcher trait that is known, whether or not it has an
/// effect on the JVM.
pub open spec fn known_trait(name: Seq<char>) -> bool {
    ||| name == "FirstThreadOnMacOS"@
    ||| name == "noapplet"@
    ||| name == "legacyServices"@
    ||| name == "legacyLaunch"@
    ||| name == "texturepacks"@
    ||| name == "no-texturepacks"@
}

/// The JVM argument of an agent: its jar, with the options that follow an `=` in
/// its name.
pub open spec fn agent_arg(name: Seq<char>, libraries_dir: Seq<char>) -> Result<
    Seq<char>,
    ErrorView,
> {
    let (coordinate, options) = match split_once_at(name, '=') {
        Some((coordinate, options)) => (coordinate, "="@ + options),
        None => (name, Seq::empty()),
    };
    match maven_path(coordinate) {
        Some(relative) => Ok("-javaagent:"@ + path_join(libraries_dir, relative) + options),
        None => Err(bad_coordinate(coordinate)),
    }
}

/// The JVM arguments of the agents in order, or the first failure.
pub open spec fn agent_args(agents: Seq<AgentView>, libraries_dir: Seq<char>) -> Result<
    Seq<Seq<char>>,
    ErrorView,
>
    decreases agents.len(),
{
    if agents.len() == 0 {
        Ok(Seq::empty())
    } else {
        match agent_args(agents.drop_last(), libraries_dir) {
            Err(error) => Err(error),
            Ok(args) => match agent_arg(agents.last().name, libraries_dir) {
                Err(error) => Err(error),
                Ok(arg) => Ok(args.push(arg)),
            },
        }
    }
}

/// The heap, then the extra JVM arguments.
pub open spec fn heap_args(config: ConfigView) -> Seq<Seq<char>> {
    seq!["-Xms"@ + config.xms, "-Xmx"@ + config.xmx] + config.jvm_args
}

/// The native library path, unless it is set already or there is nothing to point
/// at.
pub open spec fn library_path_args(instance: Seq<char>, already_set: bool, extracts: bool) -> Seq<
    Seq<char>,
> {
    if already_set || !extracts {
        Seq::empty()
    } else {
        seq!["-Djava.library.path="@ + path_join(instance, "natives"@)]
    }
}

/// The argument that points log4j at its config, if there is a config.
pub open spec fn logging_args(profile: ProfileView, instance: Seq<char>) -> Seq<Seq<char>> {
    match profile.logging {
        Some(logging) => if logging.argument is Some && logging.file is Some {
            seq![
                replace_each(
                    logging.argument->0,
                    "${path}"@,
                    log_config_place(instance, logging.file->0.id),
                ),
            ]
        } else {
            Seq::empty()
        },
        None => Seq::empty(),
    }
}

/// The headless internals: LWJGL's native-extract directory inside the instance.
pub open spec fn headless_args(instance: Seq<char>, config: ConfigView) -> Seq<Seq<char>> {
    if config.headless {
        seq![
            "-Dorg.lwjgl.system.SharedLibraryExtractDirectory="@ + path_join(
                instance,
                "lwjgl-natives"@,
            ),
        ]
    } else {
        Seq::empty()
    }
}

/// The accumulating JVM-argument list plus the flags that gate the no-double-add
/// rules.
#[derive(Debug)]
pub struct JvmAssembly {
    /// The arguments so far.
    pub args: Vec<String>,
    /// A JVM argument already supplied `${classpath}` -> don't add a legacy `-cp`.
    pub classpath_templated: bool,
    /// A JVM argument already set `-Djava.library.path` -> don't add ours.
    pub library_path_set: bool,
}

impl JvmAssembly {
    /// No arguments yet.
    pub fn new() -> (jvm: JvmAssembly)
        ensures
            jvm.args.deep_view() == Seq::<Seq<char>>::empty(),
            !jvm.classpath_templated,
            !jvm.library_path_set,
    {
        let jvm = JvmAssembly {
            args: Vec::new(),
            classpath_templated: false,
            library_path_set: false,
        };
        proof {
            assert(jvm.args.deep_view() =~= Seq::<Seq<char>>::empty());
        }
        jvm
    }

    /// Add one argument.
    fn push(&mut self, arg: String)
        ensures
            final(self).args.deep_view() == old(self).args.deep_view().push(arg@),
            final(self).classpath_templated == old(self).classpath_templated,
            final(self).library_path_set == old(self).library_path_set,
    {
        let ghost before = self.args.deep_view();
        self.args.push(arg);
        proof {
            assert(self.args.deep_view() =~= before.push(arg@));
        }
    }

    /// Record whether a token already templates the classpath or sets the native
    /// library path, so they are not added again.
    pub fn note_flags(&mut self, token: &str)
        ensures
            final(self).args == old(self).args,
            final(self).classpath_templated == (old(self).classpath_templated
                || supplies_classpath(token@)),
            final(self).library_path_set == (old(self).library_path_set || sets_library_path(
                token@,
            )),
    {
        if same_text(token, "-cp") || same_text(token, "-classpath") || contains(
            token,
            "${classpath}",
        ) {
            self.classpath_templated = true;
        }
        if starts_with(token, "-Djava.library.path=") {
            self.library_path_set = true;
        }
    }

    /// Record the flags of every token.
    fn note_all(&mut self, tokens: &Vec<String>)
        ensures
            final(self).args == old(self).args,
            final(self).classpath_templated == (old(self).classpath_templated
                || any_supplies_classpath(tokens.deep_view())),
            final(self).library_path_set == (old(self).library_path_set || any_sets_library_path(
                tokens.deep_view(),
            )),
    {
        let ghost classpath_before = self.classpath_templated;
        let ghost library_before = self.library_path_set;
        let ghost args = self.args;
        let ghost all = tokens.deep_view();
        for i in 0..tokens.len()
            invariant
                all == tokens.deep_view(),
                self.args == args,
                self.classpath_templated == (classpath_before || exists|j: int|
                    0 <= j < i && supplies_classpath(#[trigger] all[j])),
                self.library_path_set == (library_before || exists|j: int|
                    0 <= j < i && sets_library_path(#[trigger] all[j])),
        {
            proof {
                assert(all[i as int] == tokens@[i as int]@);
            }
            self.note_flags(tokens[i].as_str());
        }
    }

    /// `+jvmArgs` verbatim (pre-tokenized), then the modern `arguments.jvm` entries
    /// - rule-filtered and substituted.
    pub fn append_profile_args(&mut self, profile: &Profile, ctx: &Ctx, subs: &Subs)
        ensures
            final(self).args.deep_view() == old(self).args.deep_view() + profile_jvm_args(
                profile.deep_view(),
                ctx.deep_view(),
                subs.deep_view(),
            ),
            final(self).classpath_templated == (old(self).classpath_templated
                || any_supplies_classpath(
                templating_tokens(profile.deep_view(), ctx.deep_view(), subs.deep_view()),
            )),
            final(self).library_path_set == (old(self).library_path_set || any_sets_library_path(
                templating_tokens(profile.deep_view(), ctx.deep_view(), subs.deep_view()),
            )),
    {
        let ghost before = self.args.deep_view();
        let authored = match &profile.game_args {
            GameArgs::Modern { game: _, jvm } => allowed_tokens(jvm, ctx),
            _ => Vec::new(),
        };
        proof {
            if !(profile.game_args is Modern) {
                assert(authored.deep_view() =~= Seq::<Seq<char>>::empty());
            }
        }
        let emitted = substitute_all(&authored, subs);
        // `+jvmArgs` pass through unchanged - never re-split or substituted.
        self.note_all(&profile.jvm_args);
        self.note_all(&emitted);
        self.note_all(&authored);
        extend_replicas(&mut self.args, &profile.jvm_args);
        extend_replicas(&mut self.args, &emitted);
        proof {
            let a = profile.jvm_args.deep_view();
            let b = emitted.deep_view();
            let c = authored.deep_view();
            any_token_splits(a, b);
            any_token_splits(a + b, c);
            assert(self.args.deep_view() =~= before + (a + b));
        }
    }

    /// Translate `+traits`. Only `FirstThreadOnMacOS` maps to a JVM flag, and only
    /// on osx; every other trait has no effect on the JVM.
    pub fn append_traits(&mut self, profile: &Profile, ctx: &Ctx)
        ensures
            final(self).args.deep_view() == old(self).args.deep_view() + chained(
                profile.deep_view().traits.map_values(
                    |name: Seq<char>| trait_args(name, ctx.deep_view()),
                ),
            ),
            final(self).classpath_templated == old(self).classpath_templated,
            final(self).library_path_set == old(self).library_path_set,
    {
        let ghost before = self.args.deep_view();
        let ghost parts = profile.deep_view().traits.map_values(
            |name: Seq<char>| trait_args(name, ctx.deep_view()),
        );
        proof {
            assert(before + chained(parts.take(0)) =~= before);
        }
        for i in 0..profile.traits.len()
            invariant
                parts == profile.deep_view().traits.map_values(
                    |name: Seq<char>| trait_args(name, ctx.deep_view()),
                ),
                self.args.deep_view() == before + chained(parts.take(i as int)),
                self.classpath_templated == old(self).classpath_templated,
                self.library_path_set == old(self).library_path_set,
        {
            proof {
                assert(parts.take(i + 1).drop_last() =~= parts.take(i as int));
                assert(parts.take(i + 1).last() == trait_args(
                    profile.traits@[i as int]@,
                    ctx.deep_view(),
                ));
            }
            if same_text(profile.traits[i].as_str(), "FirstThreadOnMacOS") && same_text(
                ctx.os_name.as_str(),
                "osx",
            ) {
                self.push("-XstartOnFirstThread".to_owned());
            }
            proof {
                assert(self.args.deep_view() =~= before + chained(parts.take(i + 1)));
            }
        }
        proof {
            assert(parts.take(profile.traits.len() as int) =~= parts);
        }
    }

    /// Translate `+agents`: each -> `-javaagent:<resolved local jar>[=opts]`.
    ///
    /// # Errors
    /// Returns an error if an agent coordinate is malformed.
    pub fn append_agents(&mut self, profile: &Profile, instance: &str) -> (result: Result<
        (),
        Error,
    >)
        ensures
            match result {
                Ok(()) => agent_args(
                    profile.deep_view().agents,
                    path_join(instance@, "libraries"@),
                ) matches Ok(args) && final(self).args.deep_view() == old(self).args.deep_view()
                    + args,
                Err(error) => final(self).args.deep_view() == old(self).args.deep_view()
                    && agent_args(profile.deep_view().agents, path_join(instance@, "libraries"@))
                    == Err::<Seq<Seq<char>>, ErrorView>(error.deep_view()),
            },
            final(self).classpath_templated == old(self).classpath_templated,
            final(self).library_path_set == old(self).library_path_set,
    {
        let libraries_dir = join_path(instance, "libraries");
        let mut args: Vec<String> = Vec::new();
        let ghost agents = profile.deep_view().agents;
        proof {
            assert(args.deep_view() =~= Seq::<Seq<char>>::empty());
        }
        for i in 0..profile.agents.len()
            invariant
                agents == profile.deep_view().agents,
                libraries_dir@ == path_join(instance@, "libraries"@),
                agent_args(agents.take(i as int), libraries_dir@) == Ok::<
                    Seq<Seq<char>>,
                    ErrorView,
                >(args.deep_view()),
                *self == *old(self),
        {
            let ghost before = args.deep_view();
            proof {
                assert(agents.take(i + 1).drop_last() =~= agents.take(i as int));
                assert(agents.take(i + 1).last() == profile.agents@[i as int].deep_view());
            }
            match javaagent(&profile.agents[i], libraries_dir.as_str()) {
                Ok(arg) => {
                    args.push(arg);
                    proof {
                        assert(args.deep_view() =~= before.push(arg@));
                    }
                },
                Err(error) => {
                    proof {
                        first_bad_agent(agents, i + 1, libraries_dir@, error.deep_view());
                    }
                    return Err(error);
                },
            }
        }
        proof {
            assert(agents.take(profile.agents.len() as int) =~= agents);
        }
        extend_replicas(&mut self.args, &args);
        Ok(())
    }

    /// Inject the tool-supplied heap (`-Xms`/`-Xmx`) - never from patches -
    /// followed by any user-supplied extra JVM args, kept in order.
    pub fn inject_heap(&mut self, config: &Config)
        ensures
            final(self).args.deep_view() == old(self).args.deep_view() + heap_args(
                config.deep_view(),
            ),
            final(self).classpath_templated == old(self).classpath_templated,
            final(self).library_path_set == old(self).library_path_set,
    {
        let ghost before = self.args.deep_view();
        let xms = "-Xms".to_owned().concat(config.xms.as_str());
        let xmx = "-Xmx".to_owned().concat(config.xmx.as_str());
        self.push(xms);
        self.push(xmx);
        extend_replicas(&mut self.args, &config.jvm_args);
        proof {
            assert(self.args.deep_view() =~= before + heap_args(config.deep_view()));
        }
    }

    /// Add `-Djava.library.path=<instance>/natives` unless the JVM args already set
    /// it, and only when there are extracted natives to point at.
    pub fn inject_library_path(&mut self, instance: &str, has_native_extracts: bool)
        ensures
            final(self).args.deep_view() == old(self).args.deep_view() + library_path_args(
                instance@,
                old(self).library_path_set,
                has_native_extracts,
            ),
            final(self).classpath_templated == old(self).classpath_templated,
            final(self).library_path_set == old(self).library_path_set,
    {
        let ghost before = self.args.deep_view();
        if !self.library_path_set && has_native_extracts {
            let natives = join_path(instance, "natives");
            let arg = "-Djava.library.path=".to_owned().concat(natives.as_str());
            self.push(arg);
        }
        proof {
            assert(self.args.deep_view() =~= before + library_path_args(
                instance@,
                old(self).library_path_set,
                has_native_extracts,
            ));
        }
    }

    /// Add the component's `logging.argument` as the `Log4Shell` mitigation arg,
    /// with `${path}` replaced by the downloaded (and patched) config's local path.
    /// A no-op unless the profile has a logging config with an `argument` and
    /// `file`.
    pub fn inject_logging(&mut self, profile: &Profile, instance: &str)
        ensures
            final(self).args.deep_view() == old(self).args.deep_view() + logging_args(
                profile.deep_view(),
                instance@,
            ),
            final(self).classpath_templated == old(self).classpath_templated,
            final(self).library_path_set == old(self).library_path_set,
    {
        let ghost before = self.args.deep_view();
        if let Some(logging) = &profile.logging {
            if let Some(argument) = &logging.argument {
                if let Some(file) = &logging.file {
                    let path = log_config_path(instance, file.id.as_str());
                    proof {
                        reveal_strlit("${path}");
                    }
                    self.push(replace(argument.as_str(), "${path}", path.as_str()));
                }
            }
        }
        proof {
            assert(self.args.deep_view() =~= before + logging_args(
                profile.deep_view(),
                instance@,
            ));
        }
    }

    /// `--headless` internals: pin LWJGL's native-extract dir to a writable
    /// instance path. The GL env hints go in `launch.env`, not here.
    pub fn inject_headless(&mut self, instance: &str, config: &Config)
        ensures
            final(self).args.deep_view() == old(self).args.deep_view() + headless_args(
                instance@,
                config.deep_view(),
            ),
            final(self).classpath_templated == old(self).classpath_templated,
            final(self).library_path_set == old(self).library_path_set,
    {
        let ghost before = self.args.deep_view();
        if config.headless {
            let directory = join_path(instance, "lwjgl-natives");
            let arg = "-Dorg.lwjgl.system.SharedLibraryExtractDirectory=".to_owned().concat(
                directory.as_str(),
            );
            self.push(arg);
        }
        proof {
            assert(self.args.deep_view() =~= before + headless_args(
                instance@,
                config.deep_view(),
            ));
        }
    }
}

/// Whether a trait is known. An unknown one is worth a warning, but never a failure.
pub fn is_known_trait(name: &str) -> (yes: bool)
    ensures
        yes == known_trait(name@),
{
    same_text(name, "FirstThreadOnMacOS") || same_text(name, "noapplet") || same_text(
        name,
        "legacyServices",
    ) || same_text(name, "legacyLaunch") || same_text(name, "texturepacks") || same_text(
        name,
        "no-texturepacks",
    )
}

/// What holds of a token of one list or the other holds of a token of both.
proof fn any_token_splits(a: Seq<Seq<char>>, b: Seq<Seq<char>>)
    ensures
        any_supplies_classpath(a + b) == (any_supplies_classpath(a) || any_supplies_classpath(b)),
        any_sets_library_path(a + b) == (any_sets_library_path(a) || any_sets_library_path(b)),
{
    let both = a + b;
    if any_supplies_classpath(a) {
        let i = choose|i: int| 0 <= i < a.len() && supplies_classpath(#[trigger] a[i]);
        assert(both[i] == a[i]);
    }
    if any_supplies_classpath(b) {
        let i = choose|i: int| 0 <= i < b.len() && supplies_classpath(#[trigger] b[i]);
        assert(both[a.len() + i] == b[i]);
    }
    if any_supplies_classpath(both) {
        let i = choose|i: int| 0 <= i < both.len() && supplies_classpath(#[trigger] both[i]);
        if i < a.len() {
            assert(a[i] == both[i]);
        } else {
            assert(b[i - a.len()] == both[i]);
        }
    }
    if any_sets_library_path(a) {
        let i = choose|i: int| 0 <= i < a.len() && sets_library_path(#[trigger] a[i]);
        assert(both[i] == a[i]);
    }
    if any_sets_library_path(b) {
        let i = choose|i: int| 0 <= i < b.len() && sets_library_path(#[trigger] b[i]);
        assert(both[a.len() + i] == b[i]);
    }
    if any_sets_library_path(both) {
        let i = choose|i: int| 0 <= i < both.len() && sets_library_path(#[trigger] both[i]);
        if i < a.len() {
            assert(a[i] == both[i]);
        } else {
            assert(b[i - a.len()] == both[i]);
        }
    }
}

/// A malformed agent is the failure of the whole list.
proof fn first_bad_agent(
    agents: Seq<AgentView>,
    n: int,
    libraries_dir: Seq<char>,
    error: ErrorView,
)
    requires
        0 <= n <= agents.len(),
        agent_args(agents.take(n), libraries_dir) == Err::<Seq<Seq<char>>, ErrorView>(error),
    ensures
        agent_args(agents, libraries_dir) == Err::<Seq<Seq<char>>, ErrorView>(error),
    decreases agents.len() - n,
{
    if n == agents.len() {
        assert(agents.take(n) =~= agents);
    } else {
        assert(agents.take(n + 1).drop_last() =~= agents.take(n));
        first_bad_agent(agents, n + 1, libraries_dir, error);
    }
}

/// The JVM argument of an agent.
fn javaagent(agent: &Agent, libraries_dir: &str) -> (result: Result<String, Error>)
    ensures
        outcome(result) == agent_arg(agent.deep_view().name, libraries_dir@),
{
    // An agent coordinate may carry `=options` after the maven name.
    let (coordinate, options) = match split_once(agent.name.as_str(), '=') {
        Some((coordinate, options)) => (coordinate, "=".to_owned().concat(options.as_str())),
        None => (agent.name.clone(), String::new()),
    };
    match maven_coordinate_to_path(coordinate.as_str()) {
        Ok(relative) => {
            let path = join_path(libraries_dir, relative.as_str());
            let arg = concat3("-javaagent:", path.as_str(), options.as_str());
            Ok(arg)
        },
        Err(error) => Err(error),
    }
}

// ---------------------------------------------------------------------------
// Game arguments and the command
// ---------------------------------------------------------------------------

/// The active argument form, with its placeholders replaced: the words of the
/// legacy string, or the modern entries that the platform allows.
pub open spec fn form_args(
    game_args: GameArgsView,
    ctx: CtxView,
    subs: Seq<(Seq<char>, Seq<char>)>,
) -> Seq<Seq<char>> {
    match game_args {
        GameArgsView::Legacy(arguments) => all_substituted(
            non_empty(split_at_each(arguments, Separator::Whitespace)),
            subs,
        ),
        GameArgsView::Modern { game, jvm } => all_substituted(active_tokens(game, ctx), subs),
        GameArgsView::Absent => Seq::empty(),
    }
}

/// The arguments that name a tweaker.
pub open spec fn tweaker_args(tweaker: Seq<char>) -> Seq<Seq<char>> {
    seq!["--tweakClass"@, tweaker]
}

/// The game arguments: the active form, then a pair per tweaker.
pub open spec fn all_game_args(
    profile: ProfileView,
    ctx: CtxView,
    subs: Seq<(Seq<char>, Seq<char>)>,
) -> Seq<Seq<char>> {
    form_args(profile.game_args, ctx, subs) + chained(
        profile.tweakers.map_values(|tweaker: Seq<char>| tweaker_args(tweaker)),
    )
}

/// Whether there are natives to extract.
pub open spec fn has_extracts(records: Seq<ArtifactRecordView>) -> bool {
    exists|i: int| 0 <= i < records.len() && (#[trigger] records[i]).role == Role::NativeExtract
}

/// The values of the placeholders in a command.
pub open spec fn command_subs(
    profile: ProfileView,
    ctx: CtxView,
    records: Seq<ArtifactRecordView>,
    instance: Seq<char>,
    config: ConfigView,
) -> Seq<(Seq<char>, Seq<char>)> {
    stored_all(
        substitution_pairs(profile, ctx, instance, config, classpath_text(records, ctx)),
    )
}

/// The JVM arguments of the command: those of the components, of the traits and of
/// the agents, the heap, the library path, the log config and the headless
/// internals.
pub open spec fn all_jvm_args(
    profile: ProfileView,
    ctx: CtxView,
    records: Seq<ArtifactRecordView>,
    instance: Seq<char>,
    config: ConfigView,
    agents: Seq<Seq<char>>,
) -> Seq<Seq<char>> {
    let subs = command_subs(profile, ctx, records, instance, config);
    profile_jvm_args(profile, ctx, subs) + chained(
        profile.traits.map_values(|name: Seq<char>| trait_args(name, ctx)),
    ) + agents + heap_args(config) + library_path_args(
        instance,
        any_sets_library_path(templating_tokens(profile, ctx, subs)),
        has_extracts(records),
    ) + logging_args(profile, instance) + headless_args(instance, config)
}

/// The legacy classpath arguments, unless the JVM arguments template the
/// classpath.
pub open spec fn classpath_args(templated: bool, classpath: Seq<char>) -> Seq<Seq<char>> {
    if templated {
        Seq::empty()
    } else {
        seq!["-cp"@, classpath]
    }
}

/// The command: java, the JVM arguments, the classpath where it is still missing,
/// the main class and the game arguments.
pub open spec fn assembled(
    profile: ProfileView,
    ctx: CtxView,
    records: Seq<ArtifactRecordView>,
    instance: Seq<char>,
    config: ConfigView,
) -> Result<Seq<Seq<char>>, ErrorView> {
    if !has_main_class(profile) {
        Err(no_main_class())
    } else {
        let subs = command_subs(profile, ctx, records, instance, config);
        match agent_args(profile.agents, path_join(instance, "libraries"@)) {
            Err(error) => Err(error),
            Ok(agents) => Ok(
                seq![config.java] + all_jvm_args(profile, ctx, records, instance, config, agents)
                    + classpath_args(
                    any_supplies_classpath(templating_tokens(profile, ctx, subs)),
                    classpath_text(records, ctx),
                ) + seq![profile.main_class->0] + all_game_args(profile, ctx, subs),
            ),
        }
    }
}

/// Build the game-argument list: the active form substituted, then a
/// `--tweakClass <name>` pair per accumulated tweaker.
pub fn build_game_args(profile: &Profile, ctx: &Ctx, subs: &Subs) -> (game: Vec<String>)
    ensures
        game.deep_view() == all_game_args(
            profile.deep_view(),
            ctx.deep_view(),
            subs.deep_view(),
        ),
{
    let mut game = match &profile.game_args {
        // Legacy: split on whitespace, substitute each token.
        GameArgs::Legacy(arguments) => {
            let words = split_whitespace(arguments.as_str());
            substitute_all(&words, subs)
        },
        // Modern: resolve the rule-gated entries.
        GameArgs::Modern { game, jvm: _ } => resolve_arg_entries(game, ctx, subs),
        GameArgs::Absent => Vec::new(),
    };
    let ghost form = form_args(profile.deep_view().game_args, ctx.deep_view(), subs.deep_view());
    let ghost parts = profile.deep_view().tweakers.map_values(
        |tweaker: Seq<char>| tweaker_args(tweaker),
    );
    proof {
        if profile.game_args is Absent {
            assert(game.deep_view() =~= form);
        }
        assert(form + chained(parts.take(0)) =~= form);
    }
    for i in 0..profile.tweakers.len()
        invariant
            parts == profile.deep_view().tweakers.map_values(
                |tweaker: Seq<char>| tweaker_args(tweaker),
            ),
            game.deep_view() == form + chained(parts.take(i as int)),
    {
        let ghost before = game.deep_view();
        proof {
            assert(parts.take(i + 1).drop_last() =~= parts.take(i as int));
            assert(parts.take(i + 1).last() == tweaker_args(profile.tweakers@[i as int]@));
        }
        game.push("--tweakClass".to_owned());
        game.push(profile.tweakers[i].clone());
        proof {
            assert(game.deep_view() =~= before + tweaker_args(profile.tweakers@[i as int]@));
            assert(game.deep_view() =~= form + chained(parts.take(i + 1)));
        }
    }
    proof {
        assert(parts.take(profile.tweakers.len() as int) =~= parts);
    }
    game
}

/// Whether there are natives to extract.
fn any_native_extract(records: &[ArtifactRecord]) -> (yes: bool)
    ensures
        yes == has_extracts(records.deep_view()),
{
    for i in 0..records.len()
        invariant
            forall|j: int|
                0 <= j < i ==> (#[trigger] records.deep_view()[j]).role != Role::NativeExtract,
    {
        if records[i].role == Role::NativeExtract {
            proof {
                assert(records.deep_view()[i as int].role == Role::NativeExtract);
            }
            return true;
        }
    }
    false
}

/// Build the full launch argv (`[java, ...jvm, -cp, cp, mainClass, ...game]`).
///
/// # Errors
/// Returns [`FatalError::NoMainClass`] if no component set a main class, or an
/// error if an agent coordinate is malformed.
pub fn assemble(
    profile: &Profile,
    ctx: &Ctx,
    records: &[ArtifactRecord],
    instance: &str,
    config: &Config,
) -> (result: Result<Vec<String>, Error>)
    ensures
        outcome(result) == assembled(
            profile.deep_view(),
            ctx.deep_view(),
            records.deep_view(),
            instance@,
            config.deep_view(),
        ),
{
    let main_class = match &profile.main_class {
        Some(class) => class,
        None => {
            return Err(Error::fatal(FatalError::NoMainClass));
        },
    };
    if main_class.as_str().is_empty() {
        return Err(Error::fatal(FatalError::NoMainClass));
    }

    let classpath = build_classpath(records, ctx);
    let has_native_extracts = any_native_extract(records);
    let subs = build_subs(profile, ctx, instance, config, classpath.as_str());

    let mut jvm = JvmAssembly::new();
    jvm.append_profile_args(profile, ctx, &subs);
    jvm.append_traits(profile, ctx);
    if let Err(error) = jvm.append_agents(profile, instance) {
        return Err(error);
    }
    jvm.inject_heap(config);
    jvm.inject_library_path(instance, has_native_extracts);
    jvm.inject_logging(profile, instance);
    jvm.inject_headless(instance, config);
    let ghost agents = agent_args(
        profile.deep_view().agents,
        path_join(instance@, "libraries"@),
    )->Ok_0;
    let ghost all_jvm = all_jvm_args(
        profile.deep_view(),
        ctx.deep_view(),
        records.deep_view(),
        instance@,
        config.deep_view(),
        agents,
    );
    proof {
        assert(jvm.args.deep_view() =~= all_jvm);
    }

    let game = build_game_args(profile, ctx, &subs);

    let mut argv: Vec<String> = Vec::new();
    argv.push(config.java.clone());
    proof {
        assert(argv.deep_view() =~= seq![config.deep_view().java]);
    }
    extend_replicas(&mut argv, &jvm.args);
    let ghost so_far = argv.deep_view();
    if !jvm.classpath_templated {
        argv.push("-cp".to_owned());
        argv.push(classpath);
    }
    proof {
        assert(argv.deep_view() =~= so_far + classpath_args(
            jvm.classpath_templated,
            classpath@,
        ));
    }
    let ghost with_classpath = argv.deep_view();
    argv.push(main_class.clone());
    proof {
        assert(argv.deep_view() =~= with_classpath + seq![main_class@]);
    }
    extend_replicas(&mut argv, &game);
    Ok(argv)
}

// ---------------------------------------------------------------------------
// Laws
// ---------------------------------------------------------------------------

/// A token without a placeholder is left as it is.
pub proof fn plain_token_is_unchanged(token: Seq<char>, subs: Seq<(Seq<char>, Seq<char>)>)
    requires
        !contains_text(token, "${"@),
    ensures
        substituted(token, subs) == token,
{
    find_text_bounds(token, "${"@);
}

/// Where no placeholder is known, every token is left as it is.
pub proof fn unknown_placeholders_stay(token: Seq<char>, subs: Seq<(Seq<char>, Seq<char>)>)
    requires
        subs.len() == 0,
    ensures
        substituted(token, subs) == token,
    decreases token.len(),
{
    if let Some(start) = find_text(token, "${"@) {
        reveal_strlit("${");
        reveal_strlit("}");
        let after = token.skip(start + "${"@.len());
        find_text_bounds(token, "${"@);
        find_char_bounds(after, '}');
        if let Some(end) = find_char(after, '}') {
            let rest = after.skip(end + 1);
            unknown_placeholders_stay(rest, subs);
            let key = after.take(end);
            assert(token.subrange(start, start + 2) =~= "${"@);
            assert(lookup(subs, key) is None);
            assert forall|i: int| 0 <= i < token.len() implies (token.take(start) + (("${"@ + key)
                + "}"@) + rest)[i] == #[trigger] token[i] by {
                if start <= i < start + 2 {
                    assert(token[i] == token.subrange(start, start + 2)[i - start]);
                }
            }
            assert(token.take(start) + ("${"@ + key + "}"@) + rest =~= token);
        }
    }
}

/// The first placeholder of a token is replaced where it stands, by its value or by
/// itself, and what follows it is treated the same way.
pub proof fn placeholders_are_replaced_in_place(
    head: Seq<char>,
    key: Seq<char>,
    rest: Seq<char>,
    subs: Seq<(Seq<char>, Seq<char>)>,
)
    requires
        !contains_text(head, "${"@),
        !key.contains('}'),
    ensures
        substituted(head + ("${"@ + key + "}"@) + rest, subs) == head + placeholder_value(key, subs)
            + substituted(rest, subs),
{
    reveal_strlit("${");
    reveal_strlit("}");
    let opener = "${"@;
    let token = head + (opener + key + "}"@) + rest;
    let start = head.len() as int;
    assert(token.subrange(start, start + 2) =~= opener);
    assert forall|j: int| 0 <= j < start implies !occurs_at(token, opener, j) by {
        if occurs_at(token, opener, j) {
            assert(token.subrange(j, j + 2)[0] == token[j]);
            assert(token.subrange(j, j + 2)[1] == token[j + 1]);
            if j + 1 < start {
                assert(head.subrange(j, j + 2) =~= opener);
                assert(occurs_at(head, opener, j));
            }
        }
    }
    find_text_is(token, opener, start);
    let after = token.skip(start + opener.len());
    assert(after =~= key.push('}') + rest);
    assert forall|j: int| 0 <= j < key.len() implies after[j] != '}' by {
        assert(after[j] == key[j]);
    }
    find_char_is(after, '}', key.len() as int);
    assert(token.take(start) =~= head);
    assert(after.take(key.len() as int) =~= key);
    assert(after.skip(key.len() as int + 1) =~= rest);
}

/// A token that is one known placeholder becomes its value.
pub proof fn placeholder_becomes_value(
    key: Seq<char>,
    value: Seq<char>,
    subs: Seq<(Seq<char>, Seq<char>)>,
)
    requires
        lookup(subs, key) == Some(value),
        !key.contains('}'),
    ensures
        substituted("${"@ + key + "}"@, subs) == value,
{
    reveal_strlit("${");
    let nothing = Seq::<char>::empty();
    placeholders_are_replaced_in_place(nothing, key, nothing, subs);
    plain_token_is_unchanged(nothing, subs);
    assert(nothing + ("${"@ + key + "}"@) + nothing =~= "${"@ + key + "}"@);
    assert(nothing + value + nothing =~= value);
}

/// A record off the classpath role leaves the classpath as it is; one with it adds
/// its path at the end.
pub proof fn classpath_follows_role(records: Seq<ArtifactRecordView>, record: ArtifactRecordView)
    ensures
        classpath_entries(records.push(record)) == if record.role == Role::Classpath {
            classpath_entries(records).push(record.local_path)
        } else {
            classpath_entries(records)
        },
{
    reveal(Seq::filter);
    assert(records.push(record).drop_last() =~= records);
    assert(classpath_entries(records.push(record)) =~= if record.role == Role::Classpath {
        classpath_entries(records).push(record.local_path)
    } else {
        classpath_entries(records)
    });
}

/// The preflight check passes exactly if there is a main class, every required
/// component is there in the wanted version, and no conflicting one is.
pub proof fn preflight_passes_exactly_if(profile: ProfileView, components: Seq<PatchView>)
    ensures
        preflight_outcome(profile, components) is Ok <==> {
            &&& has_main_class(profile)
            &&& forall|i: int|
                0 <= i < profile.requires.len() ==> {
                    let required = #[trigger] profile.requires[i];
                    component_named(components, required.uid) matches Some(component) && (
                    required.equals is Some ==> component.version == required.equals)
                }
            &&& forall|i: int|
                0 <= i < profile.conflicts.len() ==> component_named(
                    components,
                    (#[trigger] profile.conflicts[i]).uid,
                ) is None
        },
{
    let requirements = profile.requires.map_values(
        |required: DependencyView| requirement_failure(required, components),
    );
    let conflicts = profile.conflicts.map_values(
        |conflict: DependencyView| conflict_failure(conflict, components),
    );
    first_some_none(requirements);
    first_some_none(conflicts);
    assert forall|i: int| 0 <= i < profile.requires.len() implies (#[trigger] requirements[i] is None
        <==> ({
        let required = profile.requires[i];
        component_named(components, required.uid) matches Some(component) && (
        required.equals is Some ==> component.version == required.equals)
    })) by {
        assert(requirements[i] == requirement_failure(profile.requires[i], components));
    }
    assert forall|i: int| 0 <= i < profile.conflicts.len() implies (#[trigger] conflicts[i] is None
        <==> component_named(components, profile.conflicts[i].uid) is None) by {
        assert(conflicts[i] == conflict_failure(profile.conflicts[i], components));
    }
    if preflight_outcome(profile, components) is Ok {
        assert forall|i: int| 0 <= i < profile.requires.len() implies ({
            let required = #[trigger] profile.requires[i];
            component_named(components, required.uid) matches Some(component) && (
            required.equals is Some ==> component.version == required.equals)
        }) by {
            assert(requirements[i] is None);
        }
        assert forall|i: int| 0 <= i < profile.conflicts.len() implies component_named(
            components,
            (#[trigger] profile.conflicts[i]).uid,
        ) is None by {
            assert(conflicts[i] is None);
        }
    }
    if (forall|i: int|
        0 <= i < profile.requires.len() ==> {
            let required = #[trigger] profile.requires[i];
            component_named(components, required.uid) matches Some(component) && (
            required.equals is Some ==> component.version == required.equals)
        }) && (forall|i: int|
        0 <= i < profile.conflicts.len() ==> component_named(
            components,
            (#[trigger] profile.conflicts[i]).uid,
        ) is None) {
        assert forall|i: int| 0 <= i < requirements.len() implies (
        #[trigger] requirements[i]) is None by {
            let required = profile.requires[i];
        }
        assert forall|i: int| 0 <= i < conflicts.len() implies (#[trigger] conflicts[i]) is None by {
            let conflict = profile.conflicts[i];
        }
    }
}

/// What passes preflight assembles, unless an agent is malformed.
pub proof fn preflight_admits_assembly(
    profile: ProfileView,
    components: Seq<PatchView>,
    ctx: CtxView,
    records: Seq<ArtifactRecordView>,
    instance: Seq<char>,
    config: ConfigView,
)
    requires
        preflight_outcome(profile, components) is Ok,
    ensures
        assembled(profile, ctx, records, instance, config) is Ok <==> agent_args(
            profile.agents,
            path_join(instance, "libraries"@),
        ) is Ok,
{
}

/// The command starts with java. Its main class stands directly behind the
/// classpath where the JVM arguments did not template one, and `-cp` is added in no
/// other case.
pub proof fn command_shape(
    profile: ProfileView,
    ctx: CtxView,
    records: Seq<ArtifactRecordView>,
    instance: Seq<char>,
    config: ConfigView,
) -> (at: int)
    requires
        assembled(profile, ctx, records, instance, config) is Ok,
    ensures
        ({
            let argv = assembled(profile, ctx, records, instance, config)->Ok_0;
            let subs = command_subs(profile, ctx, records, instance, config);
            let agents = agent_args(profile.agents, path_join(instance, "libraries"@))->Ok_0;
            let jvm = all_jvm_args(profile, ctx, records, instance, config, agents);
            let templated = any_supplies_classpath(templating_tokens(profile, ctx, subs));
            &&& argv[0] == config.java
            &&& argv.subrange(1, jvm.len() as int + 1) == jvm
            &&& at == jvm.len() + 1 + (if templated {
                0int
            } else {
                2int
            })
            &&& at < argv.len()
            &&& Some(argv[at]) == profile.main_class
            &&& argv.skip(at + 1) == all_game_args(profile, ctx, subs)
            &&& !templated ==> argv[at - 2] == "-cp"@ && argv[at - 1] == classpath_text(
                records,
                ctx,
            )
        }),
{
    let argv = assembled(profile, ctx, records, instance, config)->Ok_0;
    let subs = command_subs(profile, ctx, records, instance, config);
    let agents = agent_args(profile.agents, path_join(instance, "libraries"@))->Ok_0;
    let jvm = all_jvm_args(profile, ctx, records, instance, config, agents);
    let templated = any_supplies_classpath(templating_tokens(profile, ctx, subs));
    let cp = classpath_args(templated, classpath_text(records, ctx));
    let at = jvm.len() as int + 1 + cp.len();
    assert(argv.subrange(1, jvm.len() as int + 1) =~= jvm);
    assert(argv.skip(at + 1) =~= all_game_args(profile, ctx, subs));
    if !templated {
        assert(argv[at - 2] == cp[0]);
        assert(argv[at - 1] == cp[1]);
    }
    assert(argv[at] == profile.main_class->0);
    at
}

/// The extra JVM arguments stand directly behind the heap, in order.
pub proof fn extra_args_follow_heap(
    profile: ProfileView,
    ctx: CtxView,
    records: Seq<ArtifactRecordView>,
    instance: Seq<char>,
    config: ConfigView,
) -> (at: int)
    requires
        assembled(profile, ctx, records, instance, config) is Ok,
    ensures
        ({
            let argv = assembled(profile, ctx, records, instance, config)->Ok_0;
            &&& 0 < at
            &&& at + 2 + config.jvm_args.len() <= argv.len()
            &&& argv[at] == "-Xms"@ + config.xms
            &&& argv[at + 1] == "-Xmx"@ + config.xmx
            &&& argv.subrange(at + 2, at + 2 + config.jvm_args.len()) == config.jvm_args
        }),
{
    let argv = assembled(profile, ctx, records, instance, config)->Ok_0;
    let subs = command_subs(profile, ctx, records, instance, config);
    let agents = agent_args(profile.agents, path_join(instance, "libraries"@))->Ok_0;
    let jvm = all_jvm_args(profile, ctx, records, instance, config, agents);
    let head = profile_jvm_args(profile, ctx, subs) + chained(
        profile.traits.map_values(|name: Seq<char>| trait_args(name, ctx)),
    ) + agents;
    let heap = heap_args(config);
    let at = head.len() as int + 1;
    command_shape(profile, ctx, records, instance, config);
    assert(jvm.subrange(head.len() as int, head.len() as int + heap.len()) =~= heap);
    assert forall|i: int| 0 <= i < heap.len() implies argv[at + i] == #[trigger] heap[i] by {
        assert(argv.subrange(1, jvm.len() as int + 1)[head.len() + i] == jvm[head.len() + i]);
        assert(jvm.subrange(head.len() as int, head.len() as int + heap.len())[i] == jvm[head.len() + i]);
    }
    assert(argv[at] == heap[0]);
    assert(argv[at + 1] == heap[1]);
    assert forall|i: int| 0 <= i < config.jvm_args.len() implies argv.subrange(
        at + 2,
        at + 2 + config.jvm_args.len(),
    )[i] == #[trigger] config.jvm_args[i] by {
        assert(heap[2 + i] == config.jvm_args[i]);
        assert(argv[at + (2 + i)] == heap[2 + i]);
    }
    assert(argv.subrange(at + 2, at + 2 + config.jvm_args.len()) =~= config.jvm_args);
    at
}

/// A library path or classpath that a JVM argument brings along is not added a
/// second time.
pub proof fn nothing_is_added_twice(
    profile: ProfileView,
    ctx: CtxView,
    subs: Seq<(Seq<char>, Seq<char>)>,
    instance: Seq<char>,
    extracts: bool,
    classpath: Seq<char>,
    i: int,
)
    requires
        0 <= i < templating_tokens(profile, ctx, subs).len(),
    ensures
        sets_library_path(templating_tokens(profile, ctx, subs)[i]) ==> library_path_args(
            instance,
            any_sets_library_path(templating_tokens(profile, ctx, subs)),
            extracts,
        ).len() == 0,
        supplies_classpath(templating_tokens(profile, ctx, subs)[i]) ==> classpath_args(
            any_supplies_classpath(templating_tokens(profile, ctx, subs)),
            classpath,
        ).len() == 0,
{
}

/// Off osx no trait adds a JVM flag.
pub proof fn traits_matter_only_on_osx(traits: Seq<Seq<char>>, ctx: CtxView)
    requires
        ctx.os_name != "osx"@,
    ensures
        chained(traits.map_values(|name: Seq<char>| trait_args(name, ctx))).len() == 0,
    decreases traits.len(),
{
    if traits.len() > 0 {
        traits_matter_only_on_osx(traits.drop_last(), ctx);
        assert(traits.map_values(|name: Seq<char>| trait_args(name, ctx)).drop_last()
            =~= traits.drop_last().map_values(|name: Seq<char>| trait_args(name, ctx)));
    }
}

/// The names of the placeholders are different.
proof fn placeholder_names_differ(
    profile: ProfileView,
    ctx: CtxView,
    instance: Seq<char>,
    config: ConfigView,
    classpath: Seq<char>,
)
    ensures
        distinct_keys(substitution_pairs(profile, ctx, instance, config, classpath)),
{
    let pairs = substitution_pairs(profile, ctx, instance, config, classpath);
    reveal_strlit("auth_player_name");
    reveal_strlit("version_name");
    reveal_strlit("game_directory");
    reveal_strlit("assets_root");
    reveal_strlit("game_assets");
    reveal_strlit("assets_index_name");
    reveal_strlit("auth_uuid");
    reveal_strlit("auth_access_token");
    reveal_strlit("user_properties");
    reveal_strlit("user_type");
    reveal_strlit("classpath");
    reveal_strlit("classpath_separator");
    reveal_strlit("natives_directory");
    reveal_strlit("library_directory");
    reveal_strlit("launcher_name");
    reveal_strlit("launcher_version");
    assert(pairs[0].0.len() == 16 && pairs[0].0[0] == 'a' && pairs[0].0[1] == 'u');
    assert(pairs[1].0.len() == 12 && pairs[1].0[0] == 'v' && pairs[1].0[1] == 'e');
    assert(pairs[2].0.len() == 14 && pairs[2].0[0] == 'g' && pairs[2].0[1] == 'a');
    assert(pairs[3].0.len() == 11 && pairs[3].0[0] == 'a' && pairs[3].0[1] == 's');
    assert(pairs[4].0.len() == 11 && pairs[4].0[0] == 'g' && pairs[4].0[1] == 'a');
    assert(pairs[5].0.len() == 17 && pairs[5].0[0] == 'a' && pairs[5].0[1] == 's');
    assert(pairs[6].0.len() == 9 && pairs[6].0[0] == 'a' && pairs[6].0[1] == 'u');
    assert(pairs[7].0.len() == 17 && pairs[7].0[0] == 'a' && pairs[7].0[1] == 'u');
    assert(pairs[8].0.len() == 15 && pairs[8].0[0] == 'u' && pairs[8].0[1] == 's');
    assert(pairs[9].0.len() == 9 && pairs[9].0[0] == 'u' && pairs[9].0[1] == 's');
    assert(pairs[10].0.len() == 9 && pairs[10].0[0] == 'c' && pairs[10].0[1] == 'l');
    assert(pairs[11].0.len() == 19 && pairs[11].0[0] == 'c' && pairs[11].0[1] == 'l');
    assert(pairs[12].0.len() == 17 && pairs[12].0[0] == 'n' && pairs[12].0[1] == 'a');
    assert(pairs[13].0.len() == 17 && pairs[13].0[0] == 'l' && pairs[13].0[1] == 'i');
    assert(pairs[14].0.len() == 13 && pairs[14].0[0] == 'l' && pairs[14].0[1] == 'a');
    assert(pairs[15].0.len() == 16 && pairs[15].0[0] == 'l' && pairs[15].0[1] == 'a');
    assert forall|i: int, j: int| 0 <= i < j < pairs.len() implies (#[trigger] pairs[i]).0 != (
    #[trigger] pairs[j]).0 by {
        assert(i == 0 || i == 1 || i == 2 || i == 3 || i == 4 || i == 5 || i == 6 || i == 7 || i == 8
            || i == 9 || i == 10 || i == 11 || i == 12 || i == 13 || i == 14);
        assert(j == 1 || j == 2 || j == 3 || j == 4 || j == 5 || j == 6 || j == 7 || j == 8 || j == 9
            || j == 10 || j == 11 || j == 12 || j == 13 || j == 14 || j == 15);
    }
}

/// Whatever the profile, the platform and the directories are, each auth placeholder and
/// the game directory stand for the setting of that name.
pub proof fn settings_are_substituted(
    profile: ProfileView,
    ctx: CtxView,
    instance: Seq<char>,
    config: ConfigView,
    classpath: Seq<char>,
)
    ensures
        ({
            let subs = stored_all(substitution_pairs(profile, ctx, instance, config, classpath));
            &&& lookup(subs, "game_directory"@) == Some(config.game_dir)
            &&& lookup(subs, "auth_player_name"@) == Some(config.username)
            &&& lookup(subs, "auth_uuid"@) == Some(config.uuid)
            &&& lookup(subs, "auth_access_token"@) == Some(config.access_token)
            &&& lookup(subs, "user_type"@) == Some(config.user_type)
            &&& lookup(subs, "user_properties"@) == Some("{}"@)
            &&& lookup(subs, "launcher_name"@) == Some("prism-bootstrap"@)
            &&& lookup(subs, "launcher_version"@) == Some("0.1.0"@)
        }),
{
    let pairs = substitution_pairs(profile, ctx, instance, config, classpath);
    placeholder_names_differ(profile, ctx, instance, config, classpath);
    distinct_pairs_are_kept(pairs);
    lookup_is(pairs, 0);
    lookup_is(pairs, 2);
    lookup_is(pairs, 6);
    lookup_is(pairs, 7);
    lookup_is(pairs, 8);
    lookup_is(pairs, 9);
    lookup_is(pairs, 14);
    lookup_is(pairs, 15);
}

/// The directory placeholders lie in the instance directory, the classpath is the one
/// given, its separator that of the target, and the assets are those of the index.
pub proof fn places_are_substituted(
    profile: ProfileView,
    ctx: CtxView,
    instance: Seq<char>,
    config: ConfigView,
    classpath: Seq<char>,
)
    ensures
        ({
            let subs = stored_all(substitution_pairs(profile, ctx, instance, config, classpath));
            &&& lookup(subs, "assets_root"@) == Some(path_join(instance, "assets"@))
            &&& lookup(subs, "natives_directory"@) == Some(path_join(instance, "natives"@))
            &&& lookup(subs, "library_directory"@) == Some(path_join(instance, "libraries"@))
            &&& lookup(subs, "classpath"@) == Some(classpath)
            &&& lookup(subs, "classpath_separator"@) == Some(seq![ctx.path_sep])
            &&& lookup(subs, "version_name"@) == Some(version_of(profile))
            &&& profile.asset_index matches Some(index) ==> lookup(subs, "assets_index_name"@)
                == Some(index.id)
            &&& profile.asset_index is None ==> lookup(subs, "assets_index_name"@) == lookup(
                subs,
                "version_name"@,
            )
            &&& lookup(subs, "assets_index_name"@) matches Some(name) && lookup(
                subs,
                "game_assets"@,
            ) == Some(path_join(path_join(path_join(instance, "assets"@), "virtual"@), name))
        }),
{
    let pairs = substitution_pairs(profile, ctx, instance, config, classpath);
    placeholder_names_differ(profile, ctx, instance, config, classpath);
    distinct_pairs_are_kept(pairs);
    lookup_is(pairs, 1);
    lookup_is(pairs, 3);
    lookup_is(pairs, 4);
    lookup_is(pairs, 5);
    lookup_is(pairs, 10);
    lookup_is(pairs, 11);
    lookup_is(pairs, 12);
    lookup_is(pairs, 13);
}

/// In a command the game directory and the auth placeholders become the settings, and the
/// classpath placeholder the classpath of the records.
pub proof fn settings_reach_the_command(
    profile: ProfileView,
    ctx: CtxView,
    records: Seq<ArtifactRecordView>,
    instance: Seq<char>,
    config: ConfigView,
)
    ensures
        ({
            let subs = command_subs(profile, ctx, records, instance, config);
            &&& substituted("${"@ + "game_directory"@ + "}"@, subs) == config.game_dir
            &&& substituted("${"@ + "auth_player_name"@ + "}"@, subs) == config.username
            &&& substituted("${"@ + "auth_uuid"@ + "}"@, subs) == config.uuid
            &&& substituted("${"@ + "auth_access_token"@ + "}"@, subs) == config.access_token
            &&& substituted("${"@ + "user_type"@ + "}"@, subs) == config.user_type
            &&& substituted("${"@ + "classpath"@ + "}"@, subs) == classpath_text(records, ctx)
            &&& substituted("${"@ + "natives_directory"@ + "}"@, subs) == path_join(
                instance,
                "natives"@,
            )
        }),
{
    let subs = command_subs(profile, ctx, records, instance, config);
    let classpath = classpath_text(records, ctx);
    settings_are_substituted(profile, ctx, instance, config, classpath);
    places_are_substituted(profile, ctx, instance, config, classpath);
    reveal_strlit("game_directory");
    reveal_strlit("auth_player_name");
    reveal_strlit("auth_uuid");
    reveal_strlit("auth_access_token");
    reveal_strlit("user_type");
    reveal_strlit("classpath");
    reveal_strlit("natives_directory");
    placeholder_becomes_value("game_directory"@, config.game_dir, subs);
    placeholder_becomes_value("auth_player_name"@, config.username, subs);
    placeholder_becomes_value("auth_uuid"@, config.uuid, subs);
    placeholder_becomes_value("auth_access_token"@, config.access_token, subs);
    placeholder_becomes_value("user_type"@, config.user_type, subs);
    placeholder_becomes_value("classpath"@, classpath, subs);
    placeholder_becomes_value("natives_directory"@, path_join(instance, "natives"@), subs);
}

/// The classpath holds the paths of the records on it in order, with the separator of the
/// target between two.
pub proof fn classpath_grows(
    records: Seq<ArtifactRecordView>,
    record: ArtifactRecordView,
    ctx: CtxView,
)
    ensures
        classpath_text(Seq::empty(), ctx).len() == 0,
        record.role != Role::Classpath ==> classpath_text(records.push(record), ctx)
            == classpath_text(records, ctx),
        record.role == Role::Classpath ==> classpath_text(records.push(record), ctx) == (if exists|
            i: int,
        |
            0 <= i < records.len() && (#[trigger] records[i]).role == Role::Classpath {
            classpath_text(records, ctx).push(ctx.path_sep) + record.local_path
        } else {
            record.local_path
        }),
{
    reveal(Seq::filter);
    assert(classpath_entries(Seq::empty()) =~= Seq::<Seq<char>>::empty());
    classpath_follows_role(records, record);
    some_are_on_the_classpath(records);
    let sep = seq![ctx.path_sep];
    joined_grows(classpath_entries(records), record.local_path, sep);
    let before = classpath_text(records, ctx);
    assert(before + sep =~= before.push(ctx.path_sep));
    if classpath_entries(records).len() == 0 {
        assert(classpath_entries(records).push(record.local_path) =~= seq![record.local_path]);
    }
}

/// The classpath has an entry exactly if a record is on it.
proof fn some_are_on_the_classpath(records: Seq<ArtifactRecordView>)
    ensures
        classpath_entries(records).len() > 0 <==> exists|i: int|
            0 <= i < records.len() && (#[trigger] records[i]).role == Role::Classpath,
    decreases records.len(),
{
    reveal(Seq::filter);
    if records.len() > 0 {
        let before = records.drop_last();
        some_are_on_the_classpath(before);
        classpath_follows_role(before, records.last());
        assert(before.push(records.last()) =~= records);
        if records.last().role == Role::Classpath {
            assert(records[records.len() - 1].role == Role::Classpath);
        } else {
            if exists|i: int| 0 <= i < before.len() && (#[trigger] before[i]).role == Role::Classpath {
                let i = choose|i: int|
                    0 <= i < before.len() && (#[trigger] before[i]).role == Role::Classpath;
                assert(records[i].role == Role::Classpath);
            }
            if exists|i: int|
                0 <= i < records.len() && (#[trigger] records[i]).role == Role::Classpath {
                let i = choose|i: int|
                    0 <= i < records.len() && (#[trigger] records[i]).role == Role::Classpath;
                assert(before[i].role == Role::Classpath);
            }
        }
    }
}

/// The version is that of the main jar; where it gives none, the id of the asset index;
/// and where there is none either, a fixed word.
pub proof fn version_comes_from_the_main_jar(
    profile: ProfileView,
    group: Seq<char>,
    artifact: Seq<char>,
    version: Seq<char>,
)
    requires
        !group.contains(':'),
        !artifact.contains(':'),
        !version.contains(':'),
    ensures
        profile.main_jar matches Some(jar) ==> (jar.name == group.push(':') + (artifact.push(':')
            + version) ==> version_of(profile) == version),
        profile.main_jar matches Some(jar) ==> (jar.name == group ==> (
        profile.asset_index matches Some(index) ==> version_of(profile) == index.id)),
        profile.main_jar is None ==> (profile.asset_index matches Some(index) ==> version_of(
            profile,
        ) == index.id),
        profile.main_jar is None && profile.asset_index is None ==> version_of(profile)
            == "unknown"@,
{
    version_is_the_third_segment(group, artifact, version);
}

/// A plain entry is always there, a conditional one exactly if its rules permit the
/// platform, and entries do not influence each other.
pub proof fn entries_follow_their_rules(
    a: Seq<ArgEntryView>,
    b: Seq<ArgEntryView>,
    rules: Seq<RuleView>,
    token: Seq<char>,
    tokens: Seq<Seq<char>>,
    ctx: CtxView,
)
    ensures
        active_tokens(Seq::empty(), ctx).len() == 0,
        active_tokens(a + b, ctx) == active_tokens(a, ctx) + active_tokens(b, ctx),
        active_tokens(seq![ArgEntryView::Plain(token)], ctx) == seq![token],
        permits(rules, ctx) ==> active_tokens(
            seq![ArgEntryView::Conditional { rules, value: ArgValueView::Single(token) }],
            ctx,
        ) == seq![token],
        permits(rules, ctx) ==> active_tokens(
            seq![ArgEntryView::Conditional { rules, value: ArgValueView::Many(tokens) }],
            ctx,
        ) == tokens,
        !permits(rules, ctx) ==> active_tokens(
            seq![ArgEntryView::Conditional { rules, value: ArgValueView::Single(token) }],
            ctx,
        ).len() == 0,
        !permits(rules, ctx) ==> active_tokens(
            seq![ArgEntryView::Conditional { rules, value: ArgValueView::Many(tokens) }],
            ctx,
        ).len() == 0,
{
    let of = |entry: ArgEntryView| entry_tokens(entry, ctx);
    let nothing = Seq::<Seq<char>>::empty();
    assert(Seq::<ArgEntryView>::empty().map_values(of) =~= Seq::empty());
    chained_of_both(a.map_values(of), b.map_values(of));
    assert((a + b).map_values(of) =~= a.map_values(of) + b.map_values(of));
    chained_of_one(seq![token]);
    chained_of_one(tokens);
    chained_of_one(nothing);
    let plain = ArgEntryView::Plain(token);
    let single = ArgEntryView::Conditional { rules, value: ArgValueView::Single(token) };
    let many = ArgEntryView::Conditional { rules, value: ArgValueView::Many(tokens) };
    assert(seq![plain].map_values(of) =~= seq![entry_tokens(plain, ctx)]);
    assert(seq![single].map_values(of) =~= seq![entry_tokens(single, ctx)]);
    assert(seq![many].map_values(of) =~= seq![entry_tokens(many, ctx)]);
}

/// What is in one of two lists is in both together.
proof fn stays_contained(a: Seq<Seq<char>>, b: Seq<Seq<char>>, token: Seq<char>)
    ensures
        (a + b).contains(token) <==> a.contains(token) || b.contains(token),
{
    if a.contains(token) {
        let i = choose|i: int| 0 <= i < a.len() && a[i] == token;
        assert((a + b)[i] == token);
    }
    if b.contains(token) {
        let i = choose|i: int| 0 <= i < b.len() && b[i] == token;
        assert((a + b)[a.len() + i] == token);
    }
    if (a + b).contains(token) {
        let i = choose|i: int| 0 <= i < (a + b).len() && (a + b)[i] == token;
        if i < a.len() {
            assert(a[i] == token);
        } else {
            assert(b[i - a.len()] == token);
        }
    }
}

/// The JVM arguments of the command stand behind java in a fixed order: those of the
/// components as they are written, the modern entries with their placeholders replaced,
/// the flags of the traits, one argument per agent, the heap, and the extra arguments.
pub proof fn jvm_args_stand_in_order(
    profile: ProfileView,
    ctx: CtxView,
    records: Seq<ArtifactRecordView>,
    instance: Seq<char>,
    config: ConfigView,
    argv: Seq<Seq<char>>,
) -> (places: (int, int, int))
    requires
        assembled(profile, ctx, records, instance, config) == Ok::<Seq<Seq<char>>, ErrorView>(argv),
    ensures
        ({
            let (traits, agents, heap) = places;
            let subs = command_subs(profile, ctx, records, instance, config);
            let written = profile.jvm_args.len() as int;
            &&& 1 + written <= traits <= agents <= heap
            &&& heap + 2 + config.jvm_args.len() < argv.len()
            &&& argv[0] == config.java
            &&& argv.subrange(1, 1 + written) == profile.jvm_args
            &&& profile.game_args matches GameArgsView::Modern { game, jvm } ==> {
                &&& traits == 1 + written + active_tokens(jvm, ctx).len()
                &&& forall|i: int|
                    0 <= i < active_tokens(jvm, ctx).len() ==> argv[1 + written + i] == substituted(
                        #[trigger] active_tokens(jvm, ctx)[i],
                        subs,
                    )
            }
            &&& !(profile.game_args is Modern) ==> traits == 1 + written
            &&& agents == heap - profile.agents.len()
            &&& forall|i: int|
                0 <= i < profile.agents.len() ==> agent_arg(
                    (#[trigger] profile.agents[i]).name,
                    path_join(instance, "libraries"@),
                ) == Ok::<Seq<char>, ErrorView>(argv[agents + i])
            &&& argv[heap] == "-Xms"@ + config.xms
            &&& argv[heap + 1] == "-Xmx"@ + config.xmx
            &&& argv.subrange(heap + 2, heap + 2 + config.jvm_args.len()) == config.jvm_args
        }),
{
    let subs = command_subs(profile, ctx, records, instance, config);
    let agents = agent_args(profile.agents, path_join(instance, "libraries"@))->Ok_0;
    let jvm = all_jvm_args(profile, ctx, records, instance, config, agents);
    let written = profile.jvm_args;
    let modern = all_substituted(modern_jvm_tokens(profile, ctx), subs);
    let flags = chained(profile.traits.map_values(|name: Seq<char>| trait_args(name, ctx)));
    let heap = heap_args(config);
    let head = written + modern + flags + agents + heap;
    agents_in_order(profile.agents, path_join(instance, "libraries"@));
    let at = 1 + (written + modern + flags + agents).len() as int;
    assert forall|i: int| 0 <= i < head.len() implies argv[1 + i] == #[trigger] head[i] by {
        assert(jvm[i] == head[i]);
    }
    assert forall|i: int| 0 <= i < written.len() implies argv[1 + i] == #[trigger] written[i] by {
        assert(head[i] == written[i]);
    }
    assert(argv.subrange(1, 1 + written.len() as int) =~= written);
    assert forall|i: int| 0 <= i < modern.len() implies argv[1 + written.len() + i]
        == #[trigger] modern[i] by {
        assert(head[written.len() + i] == modern[i]);
    }
    if let GameArgsView::Modern { game, jvm } = profile.game_args {
        assert forall|i: int| 0 <= i < active_tokens(jvm, ctx).len() implies argv[1 + written.len()
            + i] == substituted(#[trigger] active_tokens(jvm, ctx)[i], subs) by {
            assert(modern[i] == substituted(active_tokens(jvm, ctx)[i], subs));
        }
    }
    assert forall|i: int| 0 <= i < agents.len() implies argv[at - agents.len() + i]
        == #[trigger] agents[i] by {
        assert(head[(written + modern + flags).len() + i] == agents[i]);
    }
    assert forall|i: int| 0 <= i < heap.len() implies argv[at + i] == #[trigger] heap[i] by {
        assert(head[(written + modern + flags + agents).len() + i] == heap[i]);
    }
    assert(argv[at] == heap[0]);
    assert(argv[at + 1] == heap[1]);
    assert forall|i: int| 0 <= i < config.jvm_args.len() implies argv[at + 2 + i]
        == #[trigger] config.jvm_args[i] by {
        assert(heap[2 + i] == config.jvm_args[i]);
    }
    assert(argv.subrange(at + 2, at + 2 + config.jvm_args.len()) =~= config.jvm_args);
    assert forall|i: int| 0 <= i < profile.agents.len() implies agent_arg(
        (#[trigger] profile.agents[i]).name,
        path_join(instance, "libraries"@),
    ) == Ok::<Seq<char>, ErrorView>(argv[at - agents.len() + i]) by {
        assert(agents[i] == argv[at - agents.len() + i]);
    }
    (1 + (written + modern).len() as int, at - agents.len(), at)
}

/// The agents become one argument each, in order.
proof fn agents_in_order(agents: Seq<AgentView>, libraries_dir: Seq<char>)
    ensures
        agent_args(agents, libraries_dir) matches Ok(args) ==> args.len() == agents.len() && forall|
            i: int,
        |
            0 <= i < agents.len() ==> agent_arg((#[trigger] agents[i]).name, libraries_dir) == Ok::<
                Seq<char>,
                ErrorView,
            >(args[i]),
    decreases agents.len(),
{
    if agents.len() > 0 {
        agents_in_order(agents.drop_last(), libraries_dir);
        assert(forall|i: int|
            0 <= i < agents.len() - 1 ==> agents.drop_last()[i] == #[trigger] agents[i]);
    }
}

/// The arguments behind the extra ones: the natives are on the library path if some are
/// extracted and no JVM argument sets that path, the log config is pointed at if there
/// is one, and the headless directory is set exactly in headless mode.
pub proof fn trailing_jvm_args_are_there(
    profile: ProfileView,
    ctx: CtxView,
    records: Seq<ArtifactRecordView>,
    instance: Seq<char>,
    config: ConfigView,
    argv: Seq<Seq<char>>,
    k: int,
)
    requires
        assembled(profile, ctx, records, instance, config) == Ok::<Seq<Seq<char>>, ErrorView>(argv),
    ensures
        ({
            let subs = command_subs(profile, ctx, records, instance, config);
            let tokens = templating_tokens(profile, ctx, subs);
            0 <= k < records.len() && records[k].role == Role::NativeExtract && (forall|i: int|
                0 <= i < tokens.len() ==> !("-Djava.library.path="@.is_prefix_of(
                    #[trigger] tokens[i],
                ))) ==> argv.contains("-Djava.library.path="@ + path_join(instance, "natives"@))
        }),
        config.headless ==> argv.contains(
            "-Dorg.lwjgl.system.SharedLibraryExtractDirectory="@ + path_join(
                instance,
                "lwjgl-natives"@,
            ),
        ),
        profile.logging matches Some(logging) ==> (logging.argument matches Some(argument) ==> (
        logging.file matches Some(file) ==> argv.contains(
            replace_each(
                argument,
                "${path}"@,
                path_join(path_join(path_join(instance, "assets"@), "log_configs"@), file.id),
            ),
        ))),
{
    let subs = command_subs(profile, ctx, records, instance, config);
    let agents = agent_args(profile.agents, path_join(instance, "libraries"@))->Ok_0;
    let jvm = all_jvm_args(profile, ctx, records, instance, config, agents);
    let head = profile_jvm_args(profile, ctx, subs) + chained(
        profile.traits.map_values(|name: Seq<char>| trait_args(name, ctx)),
    ) + agents + heap_args(config);
    let library = library_path_args(
        instance,
        any_sets_library_path(templating_tokens(profile, ctx, subs)),
        has_extracts(records),
    );
    let logging = logging_args(profile, instance);
    let headless = headless_args(instance, config);
    assert forall|token: Seq<char>|
        library.contains(token) || logging.contains(token) || headless.contains(
            token,
        ) implies #[trigger] argv.contains(token) by {
        stays_contained(head, library, token);
        stays_contained(head + library, logging, token);
        stays_contained(head + library + logging, headless, token);
        let i = choose|i: int| 0 <= i < jvm.len() && jvm[i] == token;
        assert(argv[1 + i] == token);
    }
    if library.len() > 0 {
        assert(library.contains(library[0]));
    }
    if logging.len() > 0 {
        assert(logging.contains(logging[0]));
    }
    if headless.len() > 0 {
        assert(headless.contains(headless[0]));
    }
}

/// Without natives to extract no library path is added, without a log config no argument
/// for one, and outside headless mode no directory for LWJGL.
pub proof fn nothing_needless_is_added(
    profile: ProfileView,
    instance: Seq<char>,
    config: ConfigView,
    already_set: bool,
)
    ensures
        library_path_args(instance, already_set, false).len() == 0,
        library_path_args(instance, true, true).len() == 0,
        !config.headless ==> headless_args(instance, config).len() == 0,
        profile.logging is None ==> logging_args(profile, instance).len() == 0,
        profile.logging matches Some(logging) ==> (logging.argument is None || logging.file is None
            ==> logging_args(profile, instance).len() == 0),
{
}

/// On osx the trait for it puts the flag for the first thread among the JVM arguments; no
/// other trait adds an argument.
pub proof fn first_thread_trait_adds_its_flag(
    a: Seq<Seq<char>>,
    b: Seq<Seq<char>>,
    name: Seq<char>,
    ctx: CtxView,
)
    ensures
        ({
            let flags = |traits: Seq<Seq<char>>|
                chained(traits.map_values(|name: Seq<char>| trait_args(name, ctx)));
            &&& flags(a.push(name) + b) == (if name == "FirstThreadOnMacOS"@ && ctx.os_name
                == "osx"@ {
                flags(a).push("-XstartOnFirstThread"@) + flags(b)
            } else {
                flags(a) + flags(b)
            })
        }),
{
    let of = |name: Seq<char>| trait_args(name, ctx);
    let one = trait_args(name, ctx);
    assert((a.push(name) + b).map_values(of) =~= a.map_values(of).push(one) + b.map_values(of));
    chained_of_both(a.map_values(of).push(one), b.map_values(of));
    assert(a.map_values(of).push(one).drop_last() =~= a.map_values(of));
    assert(chained(a.map_values(of).push(one)) =~= chained(a.map_values(of)) + one);
    let before = chained(a.map_values(of));
    if name == "FirstThreadOnMacOS"@ && ctx.os_name == "osx"@ {
        assert(before + one =~= before.push("-XstartOnFirstThread"@));
    } else {
        assert(before + one =~= before);
    }
}

/// An agent is loaded from the jar of its coordinate, with the options that follow the
/// first `=` of its name; a malformed coordinate is a failure that names it.
pub proof fn agent_is_loaded_from_its_jar(
    coordinate: Seq<char>,
    options: Seq<char>,
    libraries_dir: Seq<char>,
)
    requires
        !coordinate.contains('='),
    ensures
        maven_path(coordinate) matches Some(path) ==> {
            &&& agent_arg(coordinate, libraries_dir) == Ok::<Seq<char>, ErrorView>(
                "-javaagent:"@ + path_join(libraries_dir, path),
            )
            &&& agent_arg(coordinate + "="@ + options, libraries_dir) == Ok::<
                Seq<char>,
                ErrorView,
            >("-javaagent:"@ + path_join(libraries_dir, path) + ("="@ + options))
        },
        maven_path(coordinate) is None ==> {
            &&& agent_arg(coordinate, libraries_dir) matches Err(error) && error.cause == (
            CauseView::InvalidCoordinate { name: coordinate })
            &&& agent_arg(coordinate + "="@ + options, libraries_dir) matches Err(error)
                && error.cause == (CauseView::InvalidCoordinate { name: coordinate })
        },
{
    reveal_strlit("=");
    let name = coordinate + "="@ + options;
    let at = coordinate.len() as int;
    find_char_bounds(coordinate, '=');
    assert forall|j: int| 0 <= j < at implies name[j] != '=' by {
        assert(name[j] == coordinate[j]);
        assert(coordinate.contains(coordinate[j]));
    }
    assert(name[at] == '=');
    find_char_is(name, '=', at);
    assert(name.take(at) =~= coordinate);
    assert(name.skip(at + 1) =~= options);
    if let Some(path) = maven_path(coordinate) {
        let plain = "-javaagent:"@ + path_join(libraries_dir, path);
        assert(plain + Seq::<char>::empty() =~= plain);
    }
}

/// The game arguments are the active form, then `--tweakClass` and the name for each
/// tweaker in order.
pub proof fn tweakers_close_the_command(
    profile: ProfileView,
    ctx: CtxView,
    subs: Seq<(Seq<char>, Seq<char>)>,
    i: int,
)
    ensures
        ({
            let game = all_game_args(profile, ctx, subs);
            let form = form_args(profile.game_args, ctx, subs);
            &&& game.len() == form.len() + 2 * profile.tweakers.len()
            &&& game.take(form.len() as int) == form
            &&& 0 <= i < profile.tweakers.len() ==> game[form.len() + 2 * i] == "--tweakClass"@
                && game[form.len() + 2 * i + 1] == profile.tweakers[i]
        }),
{
    let game = all_game_args(profile, ctx, subs);
    let form = form_args(profile.game_args, ctx, subs);
    let pairs = chained(profile.tweakers.map_values(|tweaker: Seq<char>| tweaker_args(tweaker)));
    tweaker_pair(profile.tweakers, i);
    assert(game =~= form + pairs);
    assert(game.take(form.len() as int) =~= form);
    if 0 <= i < profile.tweakers.len() {
        assert(game[form.len() + 2 * i] == pairs[2 * i]);
        assert(game[form.len() + 2 * i + 1] == pairs[2 * i + 1]);
    }
}

/// Each tweaker has its pair.
proof fn tweaker_pair(tweakers: Seq<Seq<char>>, i: int)
    ensures
        ({
            let pairs = chained(tweakers.map_values(|tweaker: Seq<char>| tweaker_args(tweaker)));
            &&& pairs.len() == 2 * tweakers.len()
            &&& 0 <= i < tweakers.len() ==> pairs[2 * i] == "--tweakClass"@ && pairs[2 * i + 1]
                == tweakers[i]
        }),
    decreases tweakers.len(),
{
    let of = |tweaker: Seq<char>| tweaker_args(tweaker);
    if tweakers.len() == 0 {
        assert(tweakers.map_values(of) =~= Seq::empty());
    } else {
        let before = tweakers.drop_last();
        tweaker_pair(before, i);
        let pairs = chained(tweakers.map_values(of));
        let earlier = chained(before.map_values(of));
        let last = tweaker_args(tweakers.last());
        assert(tweakers.map_values(of).drop_last() =~= before.map_values(of));
        assert(pairs =~= earlier + last);
        if 0 <= i < before.len() {
            assert(pairs[2 * i] == earlier[2 * i]);
            assert(pairs[2 * i + 1] == earlier[2 * i + 1]);
        } else if i == before.len() {
            assert(pairs[2 * i] == last[0]);
            assert(pairs[2 * i + 1] == last[1]);
        }
    }
}

/// Of the modern form each entry that the platform allows becomes an argument with its
/// placeholders replaced, and a profile without a form has no arguments.
pub proof fn modern_form_is_substituted(
    game: Seq<ArgEntryView>,
    jvm: Seq<ArgEntryView>,
    ctx: CtxView,
    subs: Seq<(Seq<char>, Seq<char>)>,
)
    ensures
        ({
            let args = form_args(GameArgsView::Modern { game, jvm }, ctx, subs);
            &&& args.len() == active_tokens(game, ctx).len()
            &&& forall|i: int|
                0 <= i < args.len() ==> args[i] == substituted(
                    #[trigger] active_tokens(game, ctx)[i],
                    subs,
                )
        }),
        form_args(GameArgsView::Absent, ctx, subs).len() == 0,
{
}

/// Of the legacy form each word becomes an argument with its placeholders replaced; how
/// much white space stands between two words makes no difference.
pub proof fn legacy_form_is_split_into_words(
    word: Seq<char>,
    space: char,
    rest: Seq<char>,
    ctx: CtxView,
    subs: Seq<(Seq<char>, Seq<char>)>,
)
    requires
        forall|i: int| 0 <= i < word.len() ==> !white_space(#[trigger] word[i]),
        white_space(space),
    ensures
        form_args(GameArgsView::Legacy(word), ctx, subs) == (if word.len() > 0 {
            seq![substituted(word, subs)]
        } else {
            Seq::empty()
        }),
        form_args(GameArgsView::Legacy(word.push(space) + rest), ctx, subs) == form_args(
            GameArgsView::Legacy(word),
            ctx,
            subs,
        ) + form_args(GameArgsView::Legacy(rest), ctx, subs),
{
    let sep = Separator::Whitespace;
    split_without_separator(word, sep);
    split_around(word, space, rest, sep);
    let pieces = split_at_each(rest, sep);
    non_empty_of_both(seq![word], pieces);
    reveal(Seq::filter);
    assert(seq![word].drop_last() =~= Seq::<Seq<char>>::empty());
    assert(non_empty(Seq::empty()) =~= Seq::<Seq<char>>::empty());
    let words = non_empty(seq![word]);
    assert(words =~= if word.len() > 0 {
        seq![word]
    } else {
        Seq::empty()
    });
    assert(all_substituted(words, subs) =~= if word.len() > 0 {
        seq![substituted(word, subs)]
    } else {
        Seq::empty()
    });
    assert(all_substituted(words + non_empty(pieces), subs) =~= all_substituted(words, subs)
        + all_substituted(non_empty(pieces), subs));
}

/// The non-empty pieces of two lists together.
proof fn non_empty_of_both(a: Seq<Seq<char>>, b: Seq<Seq<char>>)
    ensures
        non_empty(a + b) == non_empty(a) + non_empty(b),
    decreases b.len(),
{
    reveal(Seq::filter);
    if b.len() == 0 {
        assert(a + b =~= a);
        assert(non_empty(a) + non_empty(b) =~= non_empty(a));
    } else {
        non_empty_of_both(a, b.drop_last());
        assert((a + b).drop_last() =~= a + b.drop_last());
        assert((a + b).last() == b.last());
        assert(non_empty(a + b) =~= non_empty(a) + non_empty(b));
    }
}

/// The component with a uid is the first one that has it, and there is none exactly if
/// no component has it.
pub proof fn component_is_the_first_with_its_uid(
    components: Seq<PatchView>,
    uid: Seq<char>,
    i: int,
)
    ensures
        0 <= i < components.len() && components[i].uid == uid && (forall|j: int|
            0 <= j < i ==> (#[trigger] components[j]).uid != uid) ==> component_named(
            components,
            uid,
        ) == Some(components[i]),
        component_named(components, uid) is None <==> (forall|j: int|
            0 <= j < components.len() ==> (#[trigger] components[j]).uid != uid),
{
    let values = components.map_values(
        |component: PatchView|
            if component.uid == uid {
                Some(component)
            } else {
                None
            },
    );
    first_some_none(values);
    assert(forall|j: int| 0 <= j < components.len() ==> (#[trigger] values[j] is None
        <==> components[j].uid != uid));
    if forall|j: int| 0 <= j < components.len() ==> (#[trigger] components[j]).uid != uid {
        assert forall|j: int| 0 <= j < values.len() implies (#[trigger] values[j]) is None by {
            assert(components[j].uid != uid);
        }
    }
    if component_named(components, uid) is None {
        assert forall|j: int| 0 <= j < components.len() implies (#[trigger] components[j]).uid
            != uid by {
            assert(values[j] is None);
        }
    }
    if 0 <= i < components.len() && components[i].uid == uid && (forall|j: int|
        0 <= j < i ==> (#[trigger] components[j]).uid != uid) {
        assert forall|j: int| 0 <= j < i implies (#[trigger] values[j]) is None by {
            assert(components[j].uid != uid);
        }
        first_some_is(values, i);
    }
}

/// A missing main class comes before everything else. Behind it the first requirement that
/// fails is told, and a conflict only where no requirement fails.
pub proof fn preflight_tells_the_first_failure(
    profile: ProfileView,
    components: Seq<PatchView>,
    i: int,
)
    ensures
        profile.main_class is None ==> (preflight_outcome(profile, components) matches Err(error)
            && error.cause == (CauseView::Fatal { error: FatalErrorView::NoMainClass })),
        profile.main_class matches Some(class) ==> (class.len() == 0 ==> (preflight_outcome(
            profile,
            components,
        ) matches Err(error) && error.cause == (CauseView::Fatal {
            error: FatalErrorView::NoMainClass,
        }))),
        profile.main_class matches Some(class) ==> (class.len() > 0 && 0 <= i
            < profile.requires.len() && requirement_failure(
            profile.requires[i],
            components,
        ) is Some && (forall|j: int|
            0 <= j < i ==> requirement_failure(
                #[trigger] profile.requires[j],
                components,
            ) is None) ==> (preflight_outcome(profile, components) matches Err(error)
            && error.cause == (CauseView::Fatal {
            error: FatalErrorView::UnsatisfiedDeps {
                reason: requirement_failure(profile.requires[i], components)->0,
            },
        }))),
        profile.main_class matches Some(class) ==> (class.len() > 0 && (forall|j: int|
            0 <= j < profile.requires.len() ==> requirement_failure(
                #[trigger] profile.requires[j],
                components,
            ) is None) && 0 <= i < profile.conflicts.len() && conflict_failure(
            profile.conflicts[i],
            components,
        ) is Some && (forall|j: int|
            0 <= j < i ==> conflict_failure(#[trigger] profile.conflicts[j], components) is None)
            ==> (preflight_outcome(profile, components) matches Err(error) && error.cause == (
        CauseView::Fatal {
            error: FatalErrorView::UnsatisfiedDeps {
                reason: conflict_failure(profile.conflicts[i], components)->0,
            },
        }))),
{
    let requirements = profile.requires.map_values(
        |required: DependencyView| requirement_failure(required, components),
    );
    let conflicts = profile.conflicts.map_values(
        |conflict: DependencyView| conflict_failure(conflict, components),
    );
    first_some_none(requirements);
    if 0 <= i < profile.requires.len() && requirement_failure(
        profile.requires[i],
        components,
    ) is Some && (forall|j: int|
        0 <= j < i ==> requirement_failure(#[trigger] profile.requires[j], components) is None) {
        assert forall|j: int| 0 <= j < i implies (#[trigger] requirements[j]) is None by {
            assert(requirement_failure(profile.requires[j], components) is None);
        }
        first_some_is(requirements, i);
    }
    if forall|j: int|
        0 <= j < profile.requires.len() ==> requirement_failure(
            #[trigger] profile.requires[j],
            components,
        ) is None {
        assert forall|j: int| 0 <= j < requirements.len() implies (
        #[trigger] requirements[j]) is None by {
            assert(requirement_failure(profile.requires[j], components) is None);
        }
    }
    if 0 <= i < profile.conflicts.len() && conflict_failure(
        profile.conflicts[i],
        components,
    ) is Some && (forall|j: int|
        0 <= j < i ==> conflict_failure(#[trigger] profile.conflicts[j], components) is None) {
        assert forall|j: int| 0 <= j < i implies (#[trigger] conflicts[j]) is None by {
            assert(conflict_failure(profile.conflicts[j], components) is None);
        }
        first_some_is(conflicts, i);
    }
}

/// What is told of a requirement names the component, the version that is there and the one
/// that is wanted; what is told of a conflict names the component.
pub proof fn failures_name_the_component(
    dependency: DependencyView,
    components: Seq<PatchView>,
    wanted: Seq<char>,
    version: Seq<char>,
)
    ensures
        component_named(components, dependency.uid) is None ==> requirement_failure(
            dependency,
            components,
        ) == Some("required component "@ + dependency.uid + " is not present"@)
            && conflict_failure(dependency, components) is None,
        component_named(components, dependency.uid) matches Some(component) ==> {
            &&& conflict_failure(dependency, components) == Some(
                "conflicting component "@ + dependency.uid + " is present"@,
            )
            &&& dependency.equals is None ==> requirement_failure(dependency, components) is None
            &&& dependency.equals == Some(wanted) && component.version == Some(wanted)
                ==> requirement_failure(dependency, components) is None
            &&& dependency.equals == Some(wanted) && component.version == Some(version) && version
                != wanted ==> requirement_failure(dependency, components) == Some(
                "component "@ + dependency.uid + " is version "@ + version + ", but "@ + wanted
                    + " is required"@,
            )
            &&& dependency.equals == Some(wanted) && component.version is None
                ==> requirement_failure(dependency, components) == Some(
                "component "@ + dependency.uid + " is version "@ + "<unset>"@ + ", but "@ + wanted
                    + " is required"@,
            )
        },
{
}

/// A token supplies the classpath if it is one of the two flags or has the placeholder
/// anywhere in it; it sets the library path if it begins with that property.
pub proof fn templating_is_recognised(head: Seq<char>, rest: Seq<char>)
    ensures
        supplies_classpath("-cp"@),
        supplies_classpath("-classpath"@),
        supplies_classpath(head + "${classpath}"@ + rest),
        !head.contains('$') && head != "-cp"@ && head != "-classpath"@ ==> !supplies_classpath(
            head,
        ),
        sets_library_path("-Djava.library.path="@ + rest),
        head.len() < "-Djava.library.path="@.len() ==> !sets_library_path(head),
{
    let token = head + "${classpath}"@ + rest;
    let at = head.len() as int;
    assert(token.subrange(at, at + "${classpath}"@.len()) =~= "${classpath}"@);
    assert(occurs_at(token, "${classpath}"@, at));
    reveal_strlit("${classpath}");
    if !head.contains('$') && contains_text(head, "${classpath}"@) {
        let at = choose|at: int| occurs_at(head, "${classpath}"@, at);
        assert(head.subrange(at, at + "${classpath}"@.len())[0] == '$');
        assert(head[at] == '$');
    }
    let path = "-Djava.library.path="@;
    assert(path =~= (path + rest).subrange(0, path.len() as int));
}

/// The known traits are these six.
pub proof fn six_traits_are_known(name: Seq<char>)
    ensures
        known_trait(name) <==> seq![
            "FirstThreadOnMacOS"@,
            "noapplet"@,
            "legacyServices"@,
            "legacyLaunch"@,
            "texturepacks"@,
            "no-texturepacks"@,
        ].contains(name),
{
    let known = seq![
        "FirstThreadOnMacOS"@,
        "noapplet"@,
        "legacyServices"@,
        "legacyLaunch"@,
        "texturepacks"@,
        "no-texturepacks"@,
    ];
    assert(known.contains(known[0]) && known.contains(known[1]) && known.contains(known[2]));
    assert(known.contains(known[3]) && known.contains(known[4]) && known.contains(known[5]));
    if known.contains(name) {
        let i = choose|i: int| 0 <= i < known.len() && known[i] == name;
        assert(i == 0 || i == 1 || i == 2 || i == 3 || i == 4 || i == 5);
    }
}

/// The classpath and the library path count as templated exactly if an argument of the
/// components does it as it is written, or a modern entry that the platform allows does it
/// as it is written or with its placeholders replaced.
pub proof fn templating_is_looked_for_everywhere(
    profile: ProfileView,
    ctx: CtxView,
    subs: Seq<(Seq<char>, Seq<char>)>,
    token: Seq<char>,
)
    ensures
        profile.jvm_args.contains(token) ==> templating_tokens(profile, ctx, subs).contains(token),
        profile.game_args matches GameArgsView::Modern { game, jvm } ==> {
            &&& active_tokens(jvm, ctx).contains(token) ==> templating_tokens(
                profile,
                ctx,
                subs,
            ).contains(token) && templating_tokens(profile, ctx, subs).contains(
                substituted(token, subs),
            )
            &&& templating_tokens(profile, ctx, subs).contains(token) ==> profile.jvm_args.contains(
                token,
            ) || active_tokens(jvm, ctx).contains(token) || exists|i: int|
                0 <= i < active_tokens(jvm, ctx).len() && token == substituted(
                    #[trigger] active_tokens(jvm, ctx)[i],
                    subs,
                )
        },
        !(profile.game_args is Modern) ==> templating_tokens(profile, ctx, subs)
            == profile.jvm_args,
        any_supplies_classpath(templating_tokens(profile, ctx, subs)) <==> exists|i: int|
            0 <= i < templating_tokens(profile, ctx, subs).len() && supplies_classpath(
                #[trigger] templating_tokens(profile, ctx, subs)[i],
            ),
        any_sets_library_path(templating_tokens(profile, ctx, subs)) <==> exists|i: int|
            0 <= i < templating_tokens(profile, ctx, subs).len() && sets_library_path(
                #[trigger] templating_tokens(profile, ctx, subs)[i],
            ),
{
    let raw = modern_jvm_tokens(profile, ctx);
    let done = all_substituted(raw, subs);
    let all = templating_tokens(profile, ctx, subs);
    let value = substituted(token, subs);
    stays_contained(profile.jvm_args, done, token);
    stays_contained(profile.jvm_args, done, value);
    stays_contained(profile.jvm_args + done, raw, token);
    stays_contained(profile.jvm_args + done, raw, value);
    if raw.contains(token) {
        let i = choose|i: int| 0 <= i < raw.len() && raw[i] == token;
        assert(done[i] == value);
        assert(done.contains(value));
    }
    if done.contains(token) {
        let i = choose|i: int| 0 <= i < done.len() && done[i] == token;
        assert(token == substituted(raw[i], subs));
    }
    if !(profile.game_args is Modern) {
        assert(all =~= profile.jvm_args);
    }
}

/// `-cp` and the classpath stand before the main class exactly if no argument supplies the
/// classpath already.
pub proof fn classpath_is_added_where_missing(classpath: Seq<char>)
    ensures
        classpath_args(false, classpath) == seq!["-cp"@, classpath],
        classpath_args(true, classpath).len() == 0,
{
}

} // verus!
