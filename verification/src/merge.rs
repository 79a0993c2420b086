//! Fold the component patches into one [`Profile`].
//!
//! The merge is pure and order-sensitive: callers pass patches in the declaration
//! (array) order of `mmc-pack.json`, which is what the launcher actually folds in
//! (the patch `order` field is informational). Accumulating fields preserve that
//! order; "last-wins" fields take the value from the last component in the
//! sequence that sets them.

use vstd::prelude::*;

use crate::coordinate::{artifact_key, key_of};
use crate::lists::{chained, last_set, last_some};
use crate::model::patch::{
    ArgEntryView, Library, LibraryRefView, LibraryView, Patch, PatchView,
};
use crate::model::profile::{empty_profile, GameArgs, GameArgsView, Profile, ProfileView};
use crate::replicate::{extend_replicas, Replicate};
use crate::text::same_text;

verus! {

// ---------------------------------------------------------------------------
// What merging means
// ---------------------------------------------------------------------------

/// Whether one of the references of `-libraries` names the `group:artifact` of a
/// library. Version and classifier do not matter.
pub open spec fn removed_by(removals: Seq<LibraryRefView>, library: LibraryView) -> bool {
    exists|i: int|
        0 <= i < removals.len() && key_of((#[trigger] removals[i]).coordinate()) == key_of(
            library.name,
        )
}

/// The libraries that no removal names, in order.
#[verifier::opaque]
pub open spec fn survivors(libraries: Seq<LibraryView>, removals: Seq<LibraryRefView>) -> Seq<
    LibraryView,
> {
    libraries.filter(|library: LibraryView| !removed_by(removals, library))
}

/// The libraries with another `group:artifact` than `key`, in order.
#[verifier::opaque]
pub open spec fn without_key(libraries: Seq<LibraryView>, key: Seq<char>) -> Seq<LibraryView> {
    libraries.filter(|library: LibraryView| key_of(library.name) != key)
}

/// The Java majors after `more` was added: each once, in the order of their first
/// mention.
pub open spec fn with_majors(majors: Seq<u32>, more: Seq<u32>) -> Seq<u32>
    decreases more.len(),
{
    if more.len() == 0 {
        majors
    } else {
        let before = with_majors(majors, more.drop_last());
        if before.contains(more.last()) {
            before
        } else {
            before.push(more.last())
        }
    }
}

/// The Java majors that a component names: its list, then its structured
/// requirement.
pub open spec fn majors_of(patch: PatchView) -> Seq<u32> {
    match patch.java_version {
        Some(java) => match java.major_version {
            Some(major) => patch.compatible_java_majors.push(major),
            None => patch.compatible_java_majors,
        },
        None => patch.compatible_java_majors,
    }
}

/// The game arguments after a component. The two forms are never mixed: the legacy
/// form replaces, the modern form accumulates over the modern form and replaces
/// anything else.
pub open spec fn game_args_with(current: GameArgsView, patch: PatchView) -> GameArgsView {
    let base = match patch.minecraft_arguments {
        Some(legacy) => GameArgsView::Legacy(legacy),
        None => current,
    };
    match patch.arguments {
        None => base,
        Some(arguments) => match base {
            GameArgsView::Modern { game, jvm } => GameArgsView::Modern {
                game: game + arguments.game,
                jvm: jvm + arguments.jvm,
            },
            _ => GameArgsView::Modern { game: arguments.game, jvm: arguments.jvm },
        },
    }
}

/// The profile after one more component was folded in.
pub open spec fn merged_with(profile: ProfileView, patch: PatchView) -> ProfileView {
    ProfileView {
        libraries: survivors(
            profile.libraries + patch.libraries + patch.plus_libraries,
            patch.minus_libraries,
        ),
        maven_files: profile.maven_files + patch.maven_files,
        main_class: last_set(profile.main_class, patch.main_class),
        main_jar: last_set(profile.main_jar, patch.main_jar),
        asset_index: last_set(profile.asset_index, patch.asset_index),
        logging: last_set(profile.logging, patch.logging),
        game_args: game_args_with(profile.game_args, patch),
        jvm_args: profile.jvm_args + patch.plus_jvm_args,
        tweakers: profile.tweakers + patch.plus_tweakers,
        traits: profile.traits + patch.plus_traits,
        agents: profile.agents + patch.plus_agents,
        compatible_java_majors: with_majors(profile.compatible_java_majors, majors_of(patch)),
        requires: profile.requires + patch.requires,
        conflicts: profile.conflicts + patch.conflicts,
    }
}

/// The profile after the components of `patches` were folded into `profile`, in
/// order.
pub open spec fn merged_onto(profile: ProfileView, patches: Seq<PatchView>) -> ProfileView
    decreases patches.len(),
{
    if patches.len() == 0 {
        profile
    } else {
        merged_with(merged_onto(profile, patches.drop_last()), patches.last())
    }
}

/// The profile that a list of components folds into.
pub open spec fn merged(patches: Seq<PatchView>) -> ProfileView {
    merged_onto(empty_profile(), patches)
}

// ---------------------------------------------------------------------------
// Merging
// ---------------------------------------------------------------------------

/// Fold `patches`, in order, into a merged [`Profile`].
#[must_use]
pub fn merge(patches: &[Patch]) -> (profile: Profile)
    ensures
        profile.deep_view() == merged(patches.deep_view()),
{
    let mut profile = Profile::default();
    let ghost all = patches.deep_view();
    for i in 0..patches.len()
        invariant
            all == patches.deep_view(),
            profile.deep_view() == merged(all.take(i as int)),
    {
        proof {
            assert(all.take(i + 1).drop_last() =~= all.take(i as int));
            assert(all.take(i + 1).last() == patches@[i as int].deep_view());
        }
        merge_patch(&mut profile, &patches[i]);
    }
    proof {
        assert(all.take(patches@.len() as int) =~= all);
    }
    profile
}

/// Fold a single component patch into the running profile.
pub fn merge_patch(profile: &mut Profile, patch: &Patch)
    ensures
        final(profile).deep_view() == merged_with(old(profile).deep_view(), patch.deep_view()),
{
    merge_libraries(&mut profile.libraries, patch);

    // Maven files accumulate, kept separate from the classpath libraries.
    extend_replicas(&mut profile.maven_files, &patch.maven_files);

    // Last-wins fields: a later component in array order overrides.
    if let Some(main_class) = &patch.main_class {
        profile.main_class = Some(main_class.clone());
    }
    if let Some(main_jar) = &patch.main_jar {
        profile.main_jar = Some(main_jar.replicate());
    }
    if let Some(asset_index) = &patch.asset_index {
        profile.asset_index = Some(asset_index.replicate());
    }
    if let Some(logging) = &patch.logging {
        profile.logging = Some(logging.replicate());
    }

    apply_game_args(&mut profile.game_args, patch);

    // Pass-through accumulators (order preserved). `+jvmArgs` stay tokenized.
    extend_replicas(&mut profile.jvm_args, &patch.plus_jvm_args);
    extend_replicas(&mut profile.tweakers, &patch.plus_tweakers);
    extend_replicas(&mut profile.traits, &patch.plus_traits);
    extend_replicas(&mut profile.agents, &patch.plus_agents);

    collect_majors(&mut profile.compatible_java_majors, patch);

    // Dependency metadata: collected now, asserted by preflight.
    extend_replicas(&mut profile.requires, &patch.requires);
    extend_replicas(&mut profile.conflicts, &patch.conflicts);
}

/// Fold the libraries of a patch in: `libraries` first, then `+libraries`, and
/// what `-libraries` names removed, from the patch's own additions too.
fn merge_libraries(libraries: &mut Vec<Library>, patch: &Patch)
    ensures
        final(libraries).deep_view() == survivors(
            old(libraries).deep_view() + patch.deep_view().libraries
                + patch.deep_view().plus_libraries,
            patch.deep_view().minus_libraries,
        ),
{
    extend_replicas(libraries, &patch.libraries);
    extend_replicas(libraries, &patch.plus_libraries);
    let ghost added = libraries.deep_view();
    let ghost removals = patch.minus_libraries.deep_view();
    proof {
        survivors_of_nothing(added, removals.take(0));
    }
    for i in 0..patch.minus_libraries.len()
        invariant
            removals == patch.minus_libraries.deep_view(),
            libraries.deep_view() == survivors(added, removals.take(i as int)),
    {
        proof {
            one_more_removal(added, removals, i as int);
        }
        remove_library(libraries, patch.minus_libraries[i].name());
    }
    proof {
        assert(removals.take(removals.len() as int) =~= removals);
    }
}

/// Collect the Java-major hints of a patch, order-preserving and deduped.
fn collect_majors(majors: &mut Vec<u32>, patch: &Patch)
    ensures
        final(majors).deep_view() == with_majors(
            old(majors).deep_view(),
            majors_of(patch.deep_view()),
        ),
{
    let ghost before = majors@;
    let ghost hints = patch.compatible_java_majors@;
    proof {
        assert(patch.deep_view().compatible_java_majors =~= hints);
        assert(majors.deep_view() =~= majors@);
    }
    for i in 0..patch.compatible_java_majors.len()
        invariant
            hints == patch.compatible_java_majors@,
            majors@ == with_majors(before, hints.take(i as int)),
    {
        proof {
            assert(hints.take(i + 1).drop_last() =~= hints.take(i as int));
        }
        add_major(majors, patch.compatible_java_majors[i]);
    }
    proof {
        assert(hints.take(hints.len() as int) =~= hints);
    }
    if let Some(java) = &patch.java_version {
        if let Some(major) = java.major_version {
            proof {
                assert(hints.push(major).drop_last() =~= hints);
            }
            add_major(majors, major);
        }
    }
    proof {
        assert(majors.deep_view() =~= majors@);
    }
}

/// Add a Java major unless it is there already.
fn add_major(majors: &mut Vec<u32>, major: u32)
    ensures
        final(majors)@ == (if old(majors)@.contains(major) {
            old(majors)@
        } else {
            old(majors)@.push(major)
        }),
{
    for i in 0..majors.len()
        invariant
            majors@ == old(majors)@,
            forall|j: int| 0 <= j < i ==> majors@[j] != major,
    {
        if majors[i] == major {
            return;
        }
    }
    majors.push(major);
}

/// Apply a patch's game arguments, tracking the active form. The legacy and modern
/// forms are never merged together: legacy is last-wins (replace), while modern
/// entries accumulate across components.
pub fn apply_game_args(game_args: &mut GameArgs, patch: &Patch)
    ensures
        final(game_args).deep_view() == game_args_with(old(game_args).deep_view(), patch.deep_view()),
{
    if let Some(legacy) = &patch.minecraft_arguments {
        *game_args = GameArgs::Legacy(legacy.clone());
    }
    if let Some(arguments) = &patch.arguments {
        let mut active = GameArgs::Absent;
        std::mem::swap(game_args, &mut active);
        match active {
            GameArgs::Modern { game, jvm } => {
                let mut game = game;
                let mut jvm = jvm;
                extend_replicas(&mut game, &arguments.game);
                extend_replicas(&mut jvm, &arguments.jvm);
                *game_args = GameArgs::Modern { game, jvm };
            },
            _ => {
                *game_args = GameArgs::Modern {
                    game: arguments.game.replicate(),
                    jvm: arguments.jvm.replicate(),
                };
            },
        }
    }
}

/// Remove every library whose `group:artifact` matches that of `name`, preserving
/// the order of the survivors.
pub fn remove_library(libraries: &mut Vec<Library>, name: &str)
    ensures
        final(libraries).deep_view() == without_key(old(libraries).deep_view(), key_of(name@)),
{
    let target = artifact_key(name);
    let ghost all = libraries.deep_view();
    let mut i: usize = 0;
    proof {
        assert(all.skip(0) =~= all);
        assert(all.take(0) + without_key(all, target@) =~= without_key(all, target@));
    }
    while i < libraries.len()
        invariant
            i <= libraries.len(),
            target@ == key_of(name@),
            libraries.deep_view().take(i as int) + without_key(
                libraries.deep_view().skip(i as int),
                target@,
            ) == without_key(all, target@),
        decreases libraries.len() - i,
    {
        let ghost now = libraries.deep_view();
        let ghost rest = now.skip(i + 1);
        proof {
            reveal(without_key);
            assert(now.skip(i as int) =~= seq![now[i as int]] + rest);
            rest.lemma_filter_prepend(
                now[i as int],
                |library: LibraryView| key_of(library.name) != target@,
            );
        }
        if same_text(artifact_key(libraries[i].name.as_str()), target) {
            libraries.remove(i);
            proof {
                assert(libraries.deep_view() =~= now.remove(i as int));
                assert(libraries.deep_view().take(i as int) =~= now.take(i as int));
                assert(libraries.deep_view().skip(i as int) =~= rest);
            }
        } else {
            i = i + 1;
            proof {
                assert(now.take(i as int) + without_key(rest, target@) =~= now.take(i - 1) + (
                seq![now[i - 1]] + without_key(rest, target@)));
            }
        }
    }
    proof {
        reveal(Seq::filter);
        reveal(without_key);
        assert(libraries.deep_view().take(i as int) =~= libraries.deep_view());
        assert(libraries.deep_view().skip(i as int) =~= Seq::empty());
        assert(without_key(Seq::empty(), target@) =~= Seq::empty());
        assert(libraries.deep_view() =~= without_key(all, target@));
    }
}

/// Without a removal every library stays.
proof fn survivors_of_nothing(libraries: Seq<LibraryView>, removals: Seq<LibraryRefView>)
    requires
        removals.len() == 0,
    ensures
        survivors(libraries, removals) == libraries,
    decreases libraries.len(),
{
    reveal(Seq::filter);
    reveal(survivors);
    if libraries.len() > 0 {
        survivors_of_nothing(libraries.drop_last(), removals);
        assert(!removed_by(removals, libraries.last()));
        assert(libraries.drop_last().push(libraries.last()) =~= libraries);
    }
}

/// One more removal drops the libraries with its key from those that are left.
proof fn one_more_removal(
    libraries: Seq<LibraryView>,
    removals: Seq<LibraryRefView>,
    i: int,
)
    requires
        0 <= i < removals.len(),
    ensures
        survivors(libraries, removals.take(i + 1)) == without_key(
            survivors(libraries, removals.take(i)),
            key_of(removals[i].coordinate()),
        ),
    decreases libraries.len(),
{
    reveal(Seq::filter);
    reveal(survivors);
    reveal(without_key);
    let key = key_of(removals[i].coordinate());
    if libraries.len() > 0 {
        let library = libraries.last();
        one_more_removal(libraries.drop_last(), removals, i);
        let more = removals.take(i + 1);
        let less = removals.take(i);
        assert(removed_by(more, library) <==> (removed_by(less, library) || key_of(library.name)
            == key)) by {
            if removed_by(more, library) {
                let j = choose|j: int|
                    0 <= j < more.len() && key_of((#[trigger] more[j]).coordinate()) == key_of(
                        library.name,
                    );
                if j < i {
                    assert(less[j] == more[j]);
                }
            }
            if removed_by(less, library) {
                let j = choose|j: int|
                    0 <= j < less.len() && key_of((#[trigger] less[j]).coordinate()) == key_of(
                        library.name,
                    );
                assert(more[j] == less[j]);
            }
            if key_of(library.name) == key {
                assert(key_of(more[i].coordinate()) == key);
            }
        }
        let kept = survivors(libraries.drop_last(), less);
        if !removed_by(less, library) {
            assert(kept.push(library).drop_last() =~= kept);
        }
    } else {
        assert(survivors(libraries, removals.take(i)) =~= Seq::empty());
    }
}

// ---------------------------------------------------------------------------
// Laws
// ---------------------------------------------------------------------------

/// Merging in two steps is merging in one.
pub proof fn merge_is_compositional(first: Seq<PatchView>, second: Seq<PatchView>)
    ensures
        merged(first + second) == merged_onto(merged(first), second),
    decreases second.len(),
{
    if second.len() == 0 {
        assert(first + second =~= first);
    } else {
        assert((first + second).drop_last() =~= first + second.drop_last());
        merge_is_compositional(first, second.drop_last());
    }
}

/// Main class, main jar, asset index and logging come from the last component that
/// sets them.
pub proof fn last_setter_wins(patches: Seq<PatchView>)
    ensures
        merged(patches).main_class == last_some(patches.map_values(|p: PatchView| p.main_class)),
        merged(patches).main_jar == last_some(patches.map_values(|p: PatchView| p.main_jar)),
        merged(patches).asset_index == last_some(patches.map_values(|p: PatchView| p.asset_index)),
        merged(patches).logging == last_some(patches.map_values(|p: PatchView| p.logging)),
    decreases patches.len(),
{
    if patches.len() > 0 {
        let before = patches.drop_last();
        last_setter_wins(before);
        assert(patches.map_values(|p: PatchView| p.main_class).drop_last() =~= before.map_values(
            |p: PatchView| p.main_class,
        ));
        assert(patches.map_values(|p: PatchView| p.main_jar).drop_last() =~= before.map_values(
            |p: PatchView| p.main_jar,
        ));
        assert(patches.map_values(|p: PatchView| p.asset_index).drop_last() =~= before.map_values(
            |p: PatchView| p.asset_index,
        ));
        assert(patches.map_values(|p: PatchView| p.logging).drop_last() =~= before.map_values(
            |p: PatchView| p.logging,
        ));
    }
}

/// JVM arguments, tweakers, traits, agents, maven files and dependencies accumulate
/// verbatim, in component order.
pub proof fn lists_accumulate_in_order(patches: Seq<PatchView>)
    ensures
        merged(patches).jvm_args == chained(patches.map_values(|p: PatchView| p.plus_jvm_args)),
        merged(patches).tweakers == chained(patches.map_values(|p: PatchView| p.plus_tweakers)),
        merged(patches).traits == chained(patches.map_values(|p: PatchView| p.plus_traits)),
        merged(patches).agents == chained(patches.map_values(|p: PatchView| p.plus_agents)),
        merged(patches).maven_files == chained(patches.map_values(|p: PatchView| p.maven_files)),
        merged(patches).requires == chained(patches.map_values(|p: PatchView| p.requires)),
        merged(patches).conflicts == chained(patches.map_values(|p: PatchView| p.conflicts)),
    decreases patches.len(),
{
    if patches.len() > 0 {
        let before = patches.drop_last();
        lists_accumulate_in_order(before);
        assert(patches.map_values(|p: PatchView| p.plus_jvm_args).drop_last()
            =~= before.map_values(|p: PatchView| p.plus_jvm_args));
        assert(patches.map_values(|p: PatchView| p.plus_tweakers).drop_last()
            =~= before.map_values(|p: PatchView| p.plus_tweakers));
        assert(patches.map_values(|p: PatchView| p.plus_traits).drop_last() =~= before.map_values(
            |p: PatchView| p.plus_traits,
        ));
        assert(patches.map_values(|p: PatchView| p.plus_agents).drop_last() =~= before.map_values(
            |p: PatchView| p.plus_agents,
        ));
        assert(patches.map_values(|p: PatchView| p.maven_files).drop_last() =~= before.map_values(
            |p: PatchView| p.maven_files,
        ));
        assert(patches.map_values(|p: PatchView| p.requires).drop_last() =~= before.map_values(
            |p: PatchView| p.requires,
        ));
        assert(patches.map_values(|p: PatchView| p.conflicts).drop_last() =~= before.map_values(
            |p: PatchView| p.conflicts,
        ));
    }
}

/// The libraries that a component adds: its `libraries`, then its `+libraries`.
pub open spec fn own_libraries(patch: PatchView) -> Seq<LibraryView> {
    patch.libraries + patch.plus_libraries
}

/// A component that removes nothing adds its libraries at the end.
pub proof fn libraries_are_appended(profile: ProfileView, patch: PatchView)
    requires
        patch.minus_libraries.len() == 0,
    ensures
        merged_with(profile, patch).libraries == profile.libraries + own_libraries(patch),
{
    let added = profile.libraries + patch.libraries + patch.plus_libraries;
    survivors_of_nothing(added, patch.minus_libraries);
    assert(added =~= profile.libraries + own_libraries(patch));
}

/// Where no component removes anything, the libraries are those of the components
/// in order, each with its own `libraries` before its `+libraries`.
pub proof fn libraries_accumulate_in_order(patches: Seq<PatchView>)
    requires
        forall|i: int| 0 <= i < patches.len() ==> (#[trigger] patches[i]).minus_libraries.len() == 0,
    ensures
        merged(patches).libraries == chained(
            patches.map_values(|patch: PatchView| own_libraries(patch)),
        ),
    decreases patches.len(),
{
    if patches.len() > 0 {
        let before = patches.drop_last();
        assert forall|i: int| 0 <= i < before.len() implies (
        #[trigger] before[i]).minus_libraries.len() == 0 by {
            assert(before[i] == patches[i]);
        }
        libraries_accumulate_in_order(before);
        assert(patches[patches.len() - 1].minus_libraries.len() == 0);
        libraries_are_appended(merged(before), patches.last());
        assert(patches.map_values(|patch: PatchView| own_libraries(patch)).drop_last()
            =~= before.map_values(|patch: PatchView| own_libraries(patch)));
    }
}

/// What a component removes is gone after it, whatever version it named, and
/// nothing else is.
pub proof fn removal_is_by_group_and_artifact(
    profile: ProfileView,
    patch: PatchView,
    library: LibraryView,
)
    ensures
        merged_with(profile, patch).libraries.contains(library) <==> (!removed_by(
            patch.minus_libraries,
            library,
        ) && (profile.libraries + patch.libraries + patch.plus_libraries).contains(library)),
{
    let added = profile.libraries + patch.libraries + patch.plus_libraries;
    reveal(survivors);
    let stays = |l: LibraryView| !removed_by(patch.minus_libraries, l);
    let kept = survivors(added, patch.minus_libraries);
    if kept.contains(library) {
        let i = choose|i: int| 0 <= i < kept.len() && kept[i] == library;
        added.lemma_filter_pred(stays, i);
        added.lemma_filter_contains_rev(stays, library);
    }
    if added.contains(library) && stays(library) {
        let i = choose|i: int| 0 <= i < added.len() && added[i] == library;
        added.lemma_filter_contains(stays, i);
    }
}

/// The `order` field of a component has no influence.
pub proof fn order_field_is_ignored(patches: Seq<PatchView>, orders: Seq<i64>)
    requires
        orders.len() == patches.len(),
    ensures
        merged(
            Seq::new(
                patches.len(),
                |i: int| PatchView { order: orders[i], ..patches[i] },
            ),
        ) == merged(patches),
    decreases patches.len(),
{
    let changed = Seq::new(
        patches.len(),
        |i: int| PatchView { order: orders[i], ..patches[i] },
    );
    if patches.len() > 0 {
        let before = patches.drop_last();
        order_field_is_ignored(before, orders.drop_last());
        assert(changed.drop_last() =~= Seq::new(
            before.len(),
            |i: int| PatchView { order: orders.drop_last()[i], ..before[i] },
        ));
        assert(merged_with(merged(before), changed.last()) == merged_with(
            merged(before),
            patches.last(),
        ));
    }
}

/// Adding majors keeps them distinct and adds exactly those that are named.
proof fn majors_stay_distinct(majors: Seq<u32>, more: Seq<u32>)
    requires
        majors.no_duplicates(),
    ensures
        with_majors(majors, more).no_duplicates(),
        forall|m: u32|
            #![auto]
            with_majors(majors, more).contains(m) <==> (majors.contains(m) || more.contains(m)),
        majors.is_prefix_of(with_majors(majors, more)),
    decreases more.len(),
{
    if more.len() > 0 {
        let before = with_majors(majors, more.drop_last());
        majors_stay_distinct(majors, more.drop_last());
        let after = with_majors(majors, more);
        assert forall|m: u32|
            #![auto]
            after.contains(m) <==> (majors.contains(m) || more.contains(m)) by {
            assert(more.contains(m) <==> (more.drop_last().contains(m) || m == more.last())) by {
                if more.contains(m) {
                    let i = choose|i: int| 0 <= i < more.len() && more[i] == m;
                    if i < more.len() - 1 {
                        assert(more.drop_last()[i] == m);
                    }
                }
                if more.drop_last().contains(m) {
                    let i = choose|i: int| 0 <= i < more.len() - 1 && more.drop_last()[i] == m;
                    assert(more[i] == m);
                }
                assert(more[more.len() - 1] == more.last());
            }
            assert(after.contains(m) <==> (before.contains(m) || m == more.last())) by {
                if !before.contains(more.last()) {
                    assert(after == before.push(more.last()));
                    if before.contains(m) {
                        let i = choose|i: int| 0 <= i < before.len() && before[i] == m;
                        assert(after[i] == m);
                    }
                    assert(after[before.len() as int] == more.last());
                }
            }
        }
    }
}

/// Each Java major is listed once, and exactly those are listed that a component
/// names.
pub proof fn majors_are_distinct_and_exact(patches: Seq<PatchView>, major: u32)
    ensures
        merged(patches).compatible_java_majors.no_duplicates(),
        merged(patches).compatible_java_majors.contains(major) <==> exists|i: int|
            0 <= i < patches.len() && majors_of(#[trigger] patches[i]).contains(major),
    decreases patches.len(),
{
    if patches.len() > 0 {
        let before = patches.drop_last();
        majors_are_distinct_and_exact(before, major);
        majors_stay_distinct(merged(before).compatible_java_majors, majors_of(patches.last()));
        if exists|i: int| 0 <= i < before.len() && majors_of(#[trigger] before[i]).contains(major) {
            let i = choose|i: int|
                0 <= i < before.len() && majors_of(#[trigger] before[i]).contains(major);
            assert(patches[i] == before[i]);
        }
        if exists|i: int|
            0 <= i < patches.len() && majors_of(#[trigger] patches[i]).contains(major) {
            let i = choose|i: int|
                0 <= i < patches.len() && majors_of(#[trigger] patches[i]).contains(major);
            if i < before.len() {
                assert(before[i] == patches[i]);
            }
        }
        assert(patches[patches.len() - 1] == patches.last());
    }
}

/// The form of the game arguments is that of the last component that sets any; a
/// component that sets both forms sets the modern one.
pub proof fn last_form_wins(profile: ProfileView, patch: PatchView)
    ensures
        patch.arguments is Some ==> merged_with(profile, patch).game_args is Modern,
        patch.arguments is None && patch.minecraft_arguments is Some ==> merged_with(
            profile,
            patch,
        ).game_args == GameArgsView::Legacy(patch.minecraft_arguments->0),
        patch.arguments is None && patch.minecraft_arguments is None ==> merged_with(
            profile,
            patch,
        ).game_args == profile.game_args,
{
}

/// The modern game arguments of a component.
pub open spec fn own_game_args(patch: PatchView) -> Seq<ArgEntryView> {
    match patch.arguments {
        Some(arguments) => arguments.game,
        None => Seq::empty(),
    }
}

/// The modern JVM arguments of a component.
pub open spec fn own_jvm_args(patch: PatchView) -> Seq<ArgEntryView> {
    match patch.arguments {
        Some(arguments) => arguments.jvm,
        None => Seq::empty(),
    }
}

/// Where no component uses the legacy form, the modern arguments accumulate in
/// component order.
pub proof fn modern_arguments_accumulate(patches: Seq<PatchView>)
    requires
        forall|i: int|
            0 <= i < patches.len() ==> (#[trigger] patches[i]).minecraft_arguments is None,
    ensures
        merged(patches).game_args == if exists|i: int|
            0 <= i < patches.len() && (#[trigger] patches[i]).arguments is Some {
            GameArgsView::Modern {
                game: chained(patches.map_values(|patch: PatchView| own_game_args(patch))),
                jvm: chained(patches.map_values(|patch: PatchView| own_jvm_args(patch))),
            }
        } else {
            GameArgsView::Absent
        },
    decreases patches.len(),
{
    if patches.len() > 0 {
        let before = patches.drop_last();
        let last = patches.last();
        assert(forall|i: int| 0 <= i < before.len() ==> before[i] == #[trigger] patches[i]);
        assert forall|i: int| 0 <= i < before.len() implies (
        #[trigger] before[i]).minecraft_arguments is None by {
            assert(before[i] == patches[i]);
        }
        modern_arguments_accumulate(before);
        assert(patches[patches.len() - 1] == last);
        let games = patches.map_values(|patch: PatchView| own_game_args(patch));
        let jvms = patches.map_values(|patch: PatchView| own_jvm_args(patch));
        assert(games.drop_last() =~= before.map_values(|patch: PatchView| own_game_args(patch)));
        assert(jvms.drop_last() =~= before.map_values(|patch: PatchView| own_jvm_args(patch)));
        if exists|i: int| 0 <= i < before.len() && (#[trigger] before[i]).arguments is Some {
            let i = choose|i: int|
                0 <= i < before.len() && (#[trigger] before[i]).arguments is Some;
            assert(patches[i].arguments is Some);
        } else {
            nothing_chains_to_nothing(before);
        }
    }
}

/// Components without modern arguments contribute none.
proof fn nothing_chains_to_nothing(patches: Seq<PatchView>)
    requires
        forall|i: int| 0 <= i < patches.len() ==> (#[trigger] patches[i]).arguments is None,
    ensures
        chained(patches.map_values(|patch: PatchView| own_game_args(patch))) == Seq::<
            ArgEntryView,
        >::empty(),
        chained(patches.map_values(|patch: PatchView| own_jvm_args(patch))) == Seq::<
            ArgEntryView,
        >::empty(),
    decreases patches.len(),
{
    if patches.len() > 0 {
        let before = patches.drop_last();
        assert forall|i: int| 0 <= i < before.len() implies (
        #[trigger] before[i]).arguments is None by {
            assert(before[i] == patches[i]);
        }
        nothing_chains_to_nothing(before);
        assert(patches[patches.len() - 1].arguments is None);
        assert(patches.map_values(|patch: PatchView| own_game_args(patch)).drop_last()
            =~= before.map_values(|patch: PatchView| own_game_args(patch)));
        assert(patches.map_values(|patch: PatchView| own_jvm_args(patch)).drop_last()
            =~= before.map_values(|patch: PatchView| own_jvm_args(patch)));
    }
}

/// A Java major is listed exactly if a component names it, in its list or in its
/// structured requirement.
pub proof fn majors_come_from_both_hints(patches: Seq<PatchView>, major: u32)
    ensures
        merged(patches).compatible_java_majors.contains(major) <==> exists|i: int|
            0 <= i < patches.len() && ((#[trigger] patches[i]).compatible_java_majors.contains(
                major,
            ) || (patches[i].java_version matches Some(java) && java.major_version == Some(major))),
{
    majors_are_distinct_and_exact(patches, major);
    assert forall|i: int| 0 <= i < patches.len() implies (majors_of(#[trigger] patches[i]).contains(
        major,
    ) <==> (patches[i].compatible_java_majors.contains(major) || (patches[i].java_version matches
        Some(java) && java.major_version == Some(major)))) by {
        let list = patches[i].compatible_java_majors;
        let all = majors_of(patches[i]);
        if list.contains(major) {
            let k = choose|k: int| 0 <= k < list.len() && list[k] == major;
            assert(all[k] == major);
        }
        if all.contains(major) {
            let k = choose|k: int| 0 <= k < all.len() && all[k] == major;
            if k < list.len() {
                assert(list[k] == major);
            }
        }
        if all.len() > list.len() {
            assert(all[list.len() as int] == all.last());
        }
    }
    if exists|i: int| 0 <= i < patches.len() && majors_of(#[trigger] patches[i]).contains(major) {
        let i = choose|i: int|
            0 <= i < patches.len() && majors_of(#[trigger] patches[i]).contains(major);
        assert(patches[i].compatible_java_majors.contains(major) || (patches[i].java_version matches
            Some(java) && java.major_version == Some(major)));
    }
    if exists|i: int|
        0 <= i < patches.len() && ((#[trigger] patches[i]).compatible_java_majors.contains(major)
            || (patches[i].java_version matches Some(java) && java.major_version == Some(major))) {
        let i = choose|i: int|
            0 <= i < patches.len() && ((#[trigger] patches[i]).compatible_java_majors.contains(
                major,
            ) || (patches[i].java_version matches Some(java) && java.major_version == Some(major)));
        assert(majors_of(patches[i]).contains(major));
    }
}

/// Majors that are new stand behind those that are there, in the order in which they are
/// named; and what was there before a component stays in front.
pub proof fn new_majors_are_appended(majors: Seq<u32>, more: Seq<u32>)
    requires
        majors.no_duplicates(),
    ensures
        majors.is_prefix_of(with_majors(majors, more)),
        (majors + more).no_duplicates() ==> with_majors(majors, more) == majors + more,
    decreases more.len(),
{
    majors_stay_distinct(majors, more);
    if (majors + more).no_duplicates() {
        if more.len() == 0 {
            assert(majors + more =~= majors);
        } else {
            let fewer = more.drop_last();
            assert forall|i: int, j: int|
                0 <= i < (majors + fewer).len() && 0 <= j < (majors + fewer).len() && i != j implies (
            majors + fewer)[i] != (majors + fewer)[j] by {
                assert((majors + more)[i] == (majors + fewer)[i]);
                assert((majors + more)[j] == (majors + fewer)[j]);
            }
            new_majors_are_appended(majors, fewer);
            let before = majors + fewer;
            if before.contains(more.last()) {
                let i = choose|i: int| 0 <= i < before.len() && before[i] == more.last();
                assert((majors + more)[i] == (majors + more)[before.len() as int]);
            }
            assert(before.push(more.last()) =~= majors + more);
        }
    }
}

/// The two forms of game arguments are never mixed: modern entries are appended to modern
/// ones, and replace everything else; a legacy string replaces whatever was there.
pub proof fn forms_are_never_mixed(
    profile: ProfileView,
    patch: PatchView,
    game: Seq<ArgEntryView>,
    jvm: Seq<ArgEntryView>,
)
    ensures
        profile.game_args == (GameArgsView::Modern { game, jvm }) && patch.minecraft_arguments is None
            ==> (patch.arguments matches Some(arguments) ==> merged_with(profile, patch).game_args
            == (GameArgsView::Modern { game: game + arguments.game, jvm: jvm + arguments.jvm })),
        !(profile.game_args is Modern) || patch.minecraft_arguments is Some ==> (
        patch.arguments matches Some(arguments) ==> merged_with(profile, patch).game_args == (
        GameArgsView::Modern { game: arguments.game, jvm: arguments.jvm })),
{
}

/// Removal looks at each library on its own, so it keeps the order: what is left of two
/// lists is what is left of the first, then what is left of the second.
pub proof fn removal_keeps_the_order(
    a: Seq<LibraryView>,
    b: Seq<LibraryView>,
    removals: Seq<LibraryRefView>,
)
    ensures
        survivors(a + b, removals) == survivors(a, removals) + survivors(b, removals),
    decreases b.len(),
{
    reveal(Seq::filter);
    reveal(survivors);
    if b.len() == 0 {
        assert(a + b =~= a);
        assert(survivors(a, removals) + survivors(b, removals) =~= survivors(a, removals));
    } else {
        removal_keeps_the_order(a, b.drop_last(), removals);
        assert((a + b).drop_last() =~= a + b.drop_last());
        assert((a + b).last() == b.last());
        assert(survivors(a + b, removals) =~= survivors(a, removals) + survivors(b, removals));
    }
}

/// A library goes exactly if a reference, in either form, names its group and artifact.
pub proof fn one_library_goes_or_stays(library: LibraryView, removals: Seq<LibraryRefView>)
    ensures
        (exists|i: int|
            0 <= i < removals.len() && (((#[trigger] removals[i]) matches LibraryRefView::Bare(name)
                && key_of(name) == key_of(library.name)) || (removals[i] matches
                LibraryRefView::Entry { name } && key_of(name) == key_of(library.name))))
            ==> survivors(seq![library], removals) == Seq::<LibraryView>::empty(),
        (forall|i: int|
            0 <= i < removals.len() ==> ((#[trigger] removals[i]) matches LibraryRefView::Bare(name)
                ==> key_of(name) != key_of(library.name)) && (removals[i] matches
                LibraryRefView::Entry { name } ==> key_of(name) != key_of(library.name)))
            ==> survivors(seq![library], removals) == seq![library],
{
    reveal(Seq::filter);
    reveal(survivors);
    assert(seq![library].drop_last() =~= Seq::<LibraryView>::empty());
    assert(seq![library].last() == library);
    let nothing = Seq::<LibraryView>::empty();
    assert(nothing.filter(|l: LibraryView| !removed_by(removals, l)) =~= nothing);
    if exists|i: int|
        0 <= i < removals.len() && (((#[trigger] removals[i]) matches LibraryRefView::Bare(name)
            && key_of(name) == key_of(library.name)) || (removals[i] matches LibraryRefView::Entry {
            name,
        } && key_of(name) == key_of(library.name))) {
        let i = choose|i: int|
            0 <= i < removals.len() && (((#[trigger] removals[i]) matches LibraryRefView::Bare(name)
                && key_of(name) == key_of(library.name)) || (removals[i] matches
                LibraryRefView::Entry { name } && key_of(name) == key_of(library.name)));
        assert(key_of(removals[i].coordinate()) == key_of(library.name));
        assert(removed_by(removals, library));
    } else {
        assert(nothing.push(library) =~= seq![library]);
    }
}

/// A component removes from what was there and from what it adds itself alike.
pub proof fn removal_comes_after_addition(profile: ProfileView, patch: PatchView)
    ensures
        merged_with(profile, patch).libraries == survivors(profile.libraries, patch.minus_libraries)
            + survivors(patch.libraries, patch.minus_libraries) + survivors(
            patch.plus_libraries,
            patch.minus_libraries,
        ),
{
    removal_keeps_the_order(
        profile.libraries + patch.libraries,
        patch.plus_libraries,
        patch.minus_libraries,
    );
    removal_keeps_the_order(profile.libraries, patch.libraries, patch.minus_libraries);
}

/// Without components there is nothing in a profile.
pub proof fn nothing_merges_to_nothing()
    ensures
        ({
            let profile = merged(Seq::empty());
            &&& profile.libraries.len() == 0 && profile.maven_files.len() == 0
            &&& profile.main_class is None && profile.main_jar is None
            &&& profile.asset_index is None && profile.logging is None
            &&& profile.game_args is Absent
            &&& profile.jvm_args.len() == 0 && profile.tweakers.len() == 0
            &&& profile.traits.len() == 0 && profile.agents.len() == 0
            &&& profile.compatible_java_majors.len() == 0
            &&& profile.requires.len() == 0 && profile.conflicts.len() == 0
        }),
{
}

/// A removal names a coordinate, whichever way it is written; and removing a library by name
/// is what a removal of that name does.
pub proof fn both_spellings_remove_the_same(
    libraries: Seq<LibraryView>,
    library: LibraryView,
    name: Seq<char>,
)
    ensures
        LibraryRefView::Bare(name).coordinate() == name,
        (LibraryRefView::Entry { name }).coordinate() == name,
        without_key(Seq::empty(), key_of(name)).len() == 0,
        without_key(libraries.push(library), key_of(name)) == (if key_of(library.name) == key_of(
            name,
        ) {
            without_key(libraries, key_of(name))
        } else {
            without_key(libraries, key_of(name)).push(library)
        }),
        survivors(libraries, seq![LibraryRefView::Bare(name)]) == without_key(
            libraries,
            key_of(name),
        ),
        survivors(libraries, seq![LibraryRefView::Entry { name }]) == without_key(
            libraries,
            key_of(name),
        ),
    decreases libraries.len(),
{
    reveal(Seq::filter);
    reveal(survivors);
    reveal(without_key);
    let bare = seq![LibraryRefView::Bare(name)];
    let entry = seq![LibraryRefView::Entry { name }];
    assert(libraries.push(library).drop_last() =~= libraries);
    assert(bare[0].coordinate() == name && entry[0].coordinate() == name);
    if libraries.len() > 0 {
        let last = libraries.last();
        both_spellings_remove_the_same(libraries.drop_last(), library, name);
        one_removal_decides(LibraryRefView::Bare(name), last);
        one_removal_decides(LibraryRefView::Entry { name }, last);
        assert(libraries.drop_last().push(last) =~= libraries);
        assert(survivors(libraries, bare) =~= without_key(libraries, key_of(name)));
        assert(survivors(libraries, entry) =~= without_key(libraries, key_of(name)));
    } else {
        assert(survivors(libraries, bare) =~= Seq::empty());
        assert(survivors(libraries, entry) =~= Seq::empty());
        assert(without_key(libraries, key_of(name)) =~= Seq::empty());
    }
}

/// A single removal hits the libraries of its key.
proof fn one_removal_decides(removal: LibraryRefView, library: LibraryView)
    ensures
        removed_by(seq![removal], library) <==> key_of(removal.coordinate()) == key_of(
            library.name,
        ),
{
    let removals = seq![removal];
    assert(removals[0] == removal);
    if key_of(removal.coordinate()) == key_of(library.name) {
        assert(key_of(removals[0].coordinate()) == key_of(library.name));
    }
}

} // verus!
