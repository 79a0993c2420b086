//! The stages of a run and their order.
//!
//! Load, resolve any pack-only components from the meta server, merge, preflight,
//! resolve artifacts, download (libraries and assets), extract natives, select java,
//! assemble, and emit. Without a `--platform` a run stops after the merge summary
//! (everything downstream needs a target).

use vstd::prelude::*;
use vstd::string::*;

use crate::cli::{Args, ArgsView};
use crate::exit::{Error, ErrorView};
use crate::model::artifact::{ArtifactRecord, ArtifactRecordView, Role};
use crate::model::profile::{GameArgs, GameArgsView, Profile, ProfileView};

verus! {

/// A stage of a run.
#[derive(Debug, Clone, Copy, PartialEq, Eq, Structural)]
pub enum Stage {
    /// Read the manifest and the patches.
    Load,
    /// Fill in pack-only components.
    Components,
    /// Fold the components into a profile.
    Merge,
    /// Check what can be checked before any download.
    Preflight,
    /// Turn the profile into artifact records.
    Resolve,
    /// Download libraries, maven files, natives and the main jar.
    Libraries,
    /// Download the asset index and its objects.
    Assets,
    /// Download and patch the log config.
    LogConfig,
    /// Extract legacy natives.
    Natives,
    /// Select a JDK.
    Java,
    /// Assemble the command.
    Assemble,
    /// Write the command.
    Emit,
    /// The run is over.
    Finished,
}

impl Stage {
    /// The place of a stage in the order of the stages.
    pub open spec fn rank(self) -> int {
        match self {
            Stage::Load => 0,
            Stage::Components => 1,
            Stage::Merge => 2,
            Stage::Preflight => 3,
            Stage::Resolve => 4,
            Stage::Libraries => 5,
            Stage::Assets => 6,
            Stage::LogConfig => 7,
            Stage::Natives => 8,
            Stage::Java => 9,
            Stage::Assemble => 10,
            Stage::Emit => 11,
            Stage::Finished => 12,
        }
    }
}

/// What decides which stages a run has.
#[derive(Debug, Clone, Copy)]
pub struct RunFacts {
    /// A target platform was given.
    pub has_platform: bool,
    /// The profile has an asset index.
    pub has_asset_index: bool,
    /// The profile has a log config.
    pub has_logging: bool,
    /// Nothing is to be downloaded.
    pub dry_run: bool,
}

/// Whether a run has a stage.
pub open spec fn has_stage(facts: RunFacts, stage: Stage) -> bool {
    match stage {
        Stage::Load | Stage::Components | Stage::Merge | Stage::Finished => true,
        Stage::Assets => facts.has_platform && facts.has_asset_index,
        Stage::LogConfig => facts.has_platform && facts.has_logging,
        Stage::Natives => facts.has_platform && !facts.dry_run,
        _ => facts.has_platform,
    }
}

/// What decides which stages a run has, from its arguments and its profile.
pub open spec fn facts_of(args: ArgsView, profile: ProfileView) -> RunFacts {
    RunFacts {
        has_platform: args.platform is Some,
        has_asset_index: profile.asset_index is Some,
        has_logging: profile.logging is Some,
        dry_run: args.dry_run,
    }
}

/// What decides which stages a run has, from its arguments and its profile.
pub fn run_facts(args: &Args, profile: &Profile) -> (facts: RunFacts)
    ensures
        facts == facts_of(args.deep_view(), profile.deep_view()),
{
    RunFacts {
        has_platform: args.platform.is_some(),
        has_asset_index: profile.asset_index.is_some(),
        has_logging: profile.logging.is_some(),
        dry_run: args.dry_run,
    }
}

/// The stage after `stage`: the next one in the order that the run has.
pub fn next_stage(facts: RunFacts, stage: Stage) -> (next: Stage)
    requires
        stage != Stage::Finished,
    ensures
        has_stage(facts, next),
        stage.rank() < next.rank(),
        forall|between: Stage|
            stage.rank() < (#[trigger] between.rank()) < next.rank() ==> !has_stage(facts, between),
{
    match stage {
        Stage::Load => Stage::Components,
        Stage::Components => Stage::Merge,
        Stage::Merge => if facts.has_platform {
            Stage::Preflight
        } else {
            Stage::Finished
        },
        _ if !facts.has_platform => Stage::Finished,
        Stage::Preflight => Stage::Resolve,
        Stage::Resolve => Stage::Libraries,
        Stage::Libraries => if facts.has_asset_index {
            Stage::Assets
        } else if facts.has_logging {
            Stage::LogConfig
        } else if !facts.dry_run {
            Stage::Natives
        } else {
            Stage::Java
        },
        Stage::Assets => if facts.has_logging {
            Stage::LogConfig
        } else if !facts.dry_run {
            Stage::Natives
        } else {
            Stage::Java
        },
        // Natives are extracted once their jars are on disk; on a dry run nothing
        // was downloaded.
        Stage::LogConfig => if !facts.dry_run {
            Stage::Natives
        } else {
            Stage::Java
        },
        Stage::Natives => Stage::Java,
        Stage::Java => Stage::Assemble,
        Stage::Assemble => Stage::Emit,
        Stage::Emit | Stage::Finished => Stage::Finished,
    }
}

/// What is said of a failure in a stage. Downloads speak for themselves.
pub open spec fn stage_words(stage: Stage) -> Option<Seq<char>> {
    match stage {
        Stage::Components => Some("resolving components"@),
        Stage::Preflight => Some("preflight checks"@),
        Stage::Resolve => Some("resolving artifacts for the target platform"@),
        Stage::Java => Some("selecting a JDK"@),
        Stage::Assemble => Some("assembling the launch command"@),
        Stage::Emit => Some("emitting the launch command"@),
        _ => None,
    }
}

/// A failure in a stage, told from outside the stage.
pub open spec fn failure_in(stage: Stage, error: ErrorView) -> ErrorView {
    match stage_words(stage) {
        Some(words) => error.within(words),
        None => error,
    }
}

/// A failure in a stage, told from outside the stage.
pub fn stage_failure(stage: Stage, error: Error) -> (told: Error)
    ensures
        told.deep_view() == failure_in(stage, error.deep_view()),
{
    match stage {
        Stage::Components => error.within("resolving components".to_owned()),
        Stage::Preflight => error.within("preflight checks".to_owned()),
        Stage::Resolve => error.within("resolving artifacts for the target platform".to_owned()),
        Stage::Java => error.within("selecting a JDK".to_owned()),
        Stage::Assemble => error.within("assembling the launch command".to_owned()),
        Stage::Emit => error.within("emitting the launch command".to_owned()),
        _ => error,
    }
}

// ---------------------------------------------------------------------------
// Summaries
// ---------------------------------------------------------------------------

/// How many records have a role.
pub open spec fn with_role(records: Seq<ArtifactRecordView>, role: Role) -> nat
    decreases records.len(),
{
    if records.len() == 0 {
        0
    } else {
        with_role(records.drop_last(), role) + if records.last().role == role {
            1nat
        } else {
            0nat
        }
    }
}

/// How many records have no url.
pub open spec fn without_url(records: Seq<ArtifactRecordView>) -> nat
    decreases records.len(),
{
    if records.len() == 0 {
        0
    } else {
        without_url(records.drop_last()) + if records.last().url is None {
            1nat
        } else {
            0nat
        }
    }
}

/// A per-role breakdown of resolved artifacts. The assume-local count is orthogonal
/// to role: any record without a url.
#[derive(Debug, Clone, Copy)]
pub struct RoleCounts {
    pub classpath: usize,
    pub natives: usize,
    pub maven: usize,
    pub assume_local: usize,
}

/// Count the resolved artifacts by role.
pub fn count_roles(records: &[ArtifactRecord]) -> (counts: RoleCounts)
    ensures
        counts.classpath == with_role(records.deep_view(), Role::Classpath),
        counts.natives == with_role(records.deep_view(), Role::NativeExtract),
        counts.maven == with_role(records.deep_view(), Role::MavenFile),
        counts.assume_local == without_url(records.deep_view()),
{
    let mut counts = RoleCounts { classpath: 0, natives: 0, maven: 0, assume_local: 0 };
    let ghost all = records.deep_view();
    for i in 0..records.len()
        invariant
            all == records.deep_view(),
            counts.classpath <= i,
            counts.natives <= i,
            counts.maven <= i,
            counts.assume_local <= i,
            counts.classpath == with_role(all.take(i as int), Role::Classpath),
            counts.natives == with_role(all.take(i as int), Role::NativeExtract),
            counts.maven == with_role(all.take(i as int), Role::MavenFile),
            counts.assume_local == without_url(all.take(i as int)),
    {
        proof {
            assert(all.take(i + 1).drop_last() =~= all.take(i as int));
            assert(all.take(i + 1).last() == records@[i as int].deep_view());
        }
        match records[i].role {
            Role::Classpath => {
                counts.classpath = counts.classpath + 1;
            },
            Role::NativeExtract => {
                counts.natives = counts.natives + 1;
            },
            Role::MavenFile => {
                counts.maven = counts.maven + 1;
            },
            Role::Asset | Role::NoUrl => {},
        }
        if records[i].url.is_none() {
            counts.assume_local = counts.assume_local + 1;
        }
    }
    proof {
        assert(all.take(records@.len() as int) =~= all);
    }
    counts
}

/// The form of the game arguments in words.
pub fn game_arg_form(profile: &Profile) -> (form: &'static str)
    ensures
        form@ == match profile.deep_view().game_args {
            GameArgsView::Absent => "none"@,
            GameArgsView::Legacy(_) => "legacy (minecraftArguments)"@,
            GameArgsView::Modern { game, jvm } => "modern (arguments)"@,
        },
{
    match &profile.game_args {
        GameArgs::Absent => "none",
        GameArgs::Legacy(_) => "legacy (minecraftArguments)",
        GameArgs::Modern { game: _, jvm: _ } => "modern (arguments)",
    }
}

// ---------------------------------------------------------------------------
// Laws
// ---------------------------------------------------------------------------

/// A run checks before it downloads, downloads before it extracts, and assembles
/// last.
pub proof fn checks_come_first()
    ensures
        Stage::Preflight.rank() < Stage::Libraries.rank(),
        Stage::Libraries.rank() < Stage::Assets.rank(),
        Stage::Libraries.rank() < Stage::Natives.rank(),
        Stage::Natives.rank() < Stage::Assemble.rank(),
        Stage::Java.rank() < Stage::Assemble.rank(),
        Stage::Assemble.rank() < Stage::Emit.rank(),
{
}

/// Without a platform nothing comes after the merge.
pub proof fn no_platform_ends_after_merge(facts: RunFacts, stage: Stage)
    requires
        !facts.has_platform,
        has_stage(facts, stage),
    ensures
        stage.rank() <= Stage::Merge.rank() || stage == Stage::Finished,
{
}

/// On a dry run nothing is extracted, but a command is still emitted.
pub proof fn dry_run_still_emits(facts: RunFacts)
    requires
        facts.dry_run,
        facts.has_platform,
    ensures
        !has_stage(facts, Stage::Natives),
        has_stage(facts, Stage::Assemble),
        has_stage(facts, Stage::Emit),
{
}

/// Different stages have different places.
pub proof fn stages_are_ordered(a: Stage, b: Stage)
    ensures
        a.rank() == b.rank() ==> a == b,
{
}

/// Every record is counted once, by its role.
pub proof fn every_record_is_counted(records: Seq<ArtifactRecordView>)
    ensures
        with_role(records, Role::Classpath) + with_role(records, Role::NativeExtract) + with_role(
            records,
            Role::MavenFile,
        ) + with_role(records, Role::Asset) + with_role(records, Role::NoUrl) == records.len(),
    decreases records.len(),
{
    if records.len() > 0 {
        every_record_is_counted(records.drop_last());
    }
}

/// The stages come in the order in which each needs what the one before it yields.
pub proof fn stages_follow_the_pipeline()
    ensures
        Stage::Load.rank() < Stage::Components.rank() < Stage::Merge.rank(),
        Stage::Merge.rank() < Stage::Preflight.rank() < Stage::Resolve.rank(),
        Stage::Resolve.rank() < Stage::Libraries.rank() < Stage::Assets.rank(),
        Stage::Assets.rank() < Stage::LogConfig.rank() < Stage::Natives.rank(),
        Stage::Natives.rank() < Stage::Java.rank() < Stage::Assemble.rank(),
        Stage::Assemble.rank() < Stage::Emit.rank() < Stage::Finished.rank(),
{
}

/// With a platform every stage is part of the run, but for those that have nothing to
/// work on: assets without an index, a log config without one, natives on a dry run.
pub proof fn only_idle_stages_are_left_out(args: ArgsView, profile: ProfileView, stage: Stage)
    requires
        args.platform is Some,
    ensures
        !has_stage(facts_of(args, profile), stage) <==> ((stage == Stage::Assets
            && profile.asset_index is None) || (stage == Stage::LogConfig && profile.logging is None)
            || (stage == Stage::Natives && args.dry_run)),
{
}

/// Without a platform a run still loads and merges.
pub proof fn every_run_merges(args: ArgsView, profile: ProfileView)
    ensures
        has_stage(facts_of(args, profile), Stage::Load),
        has_stage(facts_of(args, profile), Stage::Components),
        has_stage(facts_of(args, profile), Stage::Merge),
        has_stage(facts_of(args, profile), Stage::Finished),
        args.platform is None ==> !has_stage(facts_of(args, profile), Stage::Preflight),
        args.platform is None ==> !has_stage(facts_of(args, profile), Stage::Libraries),
        args.platform is None ==> !has_stage(facts_of(args, profile), Stage::Emit),
{
}

/// A stage tells a failure by its cause and contexts as they are, with at most one
/// context more.
pub proof fn stages_keep_the_failure(stage: Stage, error: ErrorView)
    ensures
        failure_in(stage, error).cause == error.cause,
        error.contexts.is_prefix_of(failure_in(stage, error).contexts),
        failure_in(stage, error).contexts.len() <= error.contexts.len() + 1,
{
    assert(failure_in(stage, error).contexts.take(error.contexts.len() as int)
        =~= error.contexts);
}

/// The count of a role is the number of records that have it, and the count of
/// assume-local records the number of those without a url.
pub proof fn counts_are_numbers_of_records(records: Seq<ArtifactRecordView>, role: Role)
    ensures
        with_role(records, role) == records.filter(
            |record: ArtifactRecordView| record.role == role,
        ).len(),
        without_url(records) == records.filter(
            |record: ArtifactRecordView| record.url is None,
        ).len(),
    decreases records.len(),
{
    reveal(Seq::filter);
    if records.len() > 0 {
        counts_are_numbers_of_records(records.drop_last(), role);
    }
}

/// The stages that can fail for reasons of their own say what was being done.
pub proof fn stages_say_what_was_being_done(error: ErrorView)
    ensures
        failure_in(Stage::Components, error).contexts == error.contexts.push(
            "resolving components"@,
        ),
        failure_in(Stage::Preflight, error).contexts == error.contexts.push("preflight checks"@),
        failure_in(Stage::Resolve, error).contexts == error.contexts.push(
            "resolving artifacts for the target platform"@,
        ),
        failure_in(Stage::Java, error).contexts == error.contexts.push("selecting a JDK"@),
        failure_in(Stage::Assemble, error).contexts == error.contexts.push(
            "assembling the launch command"@,
        ),
        failure_in(Stage::Emit, error).contexts == error.contexts.push(
            "emitting the launch command"@,
        ),
        failure_in(Stage::Load, error) == error,
        failure_in(Stage::Merge, error) == error,
        failure_in(Stage::Libraries, error) == error,
        failure_in(Stage::Assets, error) == error,
        failure_in(Stage::LogConfig, error) == error,
        failure_in(Stage::Natives, error) == error,
{
}

} // verus!
