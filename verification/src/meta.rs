//! Resolve pack-only components from a meta server.
//!
//! A "pack-only" instance lists components by `uid`+`version` but ships no
//! `patches/`. For each such gap the component's version file is fetched -
//! `<base>/<uid>/<version>.json`, which *is* the patch schema - and slotted at the
//! component's array position, so merging is untouched.
//!
//! Meta resolution is opt-in: without a `--meta-url` base, a gap is a fail-fast with
//! a provisioning hint (mirrors the no-url-library rule). It is input acquisition,
//! not artifact download, so it runs regardless of `--dry-run`/`--no-verify`, and it
//! never resolves "latest" - only the version the pack pins.

use vstd::prelude::*;
use vstd::string::*;

use crate::exit::{
    outcome, plain_error, CauseView, Error, ErrorView, FatalError, FatalErrorView,
};
use crate::load::{Component, ComponentView};
use crate::model::patch::{Patch, PatchView};
use crate::replicate::Replicate;
use crate::text::{concat3, trim_end, trimmed_end};

verus! {

/// The url of a version file: `<base>/<uid>/<version>.json`.
pub open spec fn version_file_url(
    base: Seq<char>,
    uid: Seq<char>,
    version: Seq<char>,
) -> Seq<char> {
    trimmed_end(base, '/') + "/"@ + uid + "/"@ + version + ".json"@
}

/// Build the version-file URL `<base>/<uid>/<version>.json`, tolerating a trailing
/// slash on `base`.
#[must_use]
pub fn meta_url_for(base: &str, uid: &str, version: &str) -> (url: String)
    ensures
        url@ == version_file_url(base@, uid@, version@),
{
    let root = trim_end(base, '/');
    let mut url = concat3(root.as_str(), "/", uid);
    url.append("/");
    url.append(version);
    url.append(".json");
    url
}

/// The failure to find a component.
pub open spec fn missing_component(
    uid: Seq<char>,
    version: Option<Seq<char>>,
    patch_path: Seq<char>,
) -> ErrorView {
    plain_error(
        CauseView::Fatal { error: FatalErrorView::MissingComponent { uid, version, patch_path } },
    )
}

/// The failure to get the version file of a component.
pub open spec fn meta_failed(uid: Seq<char>, version: Seq<char>, reason: Seq<char>) -> ErrorView {
    plain_error(
        CauseView::Fatal { error: FatalErrorView::MetaResolveFailed { uid, version, reason } },
    )
}

/// Take the outcome of parsing a version file.
///
/// # Errors
/// [`FatalError::MetaResolveFailed`] if the bytes were not valid component JSON.
pub fn patch_from_parsed(parsed: Result<Patch, String>, uid: &str, version: &str) -> (result: Result<
    Patch,
    Error,
>)
    ensures
        outcome(result) == match parsed {
            Ok(patch) => Ok::<PatchView, ErrorView>(patch.deep_view()),
            Err(words) => Err(
                meta_failed(
                    uid@,
                    version@,
                    "the meta version file is not valid component JSON: "@ + words@,
                ),
            ),
        },
{
    match parsed {
        Ok(patch) => Ok(patch),
        Err(words) => Err(
            Error::fatal(
                FatalError::MetaResolveFailed {
                    uid: uid.to_owned(),
                    version: version.to_owned(),
                    reason: "the meta version file is not valid component JSON: ".to_owned().concat(
                        words.as_str(),
                    ),
                },
            ),
        ),
    }
}

/// What came of fetching a version file: a patch that parsed, why its bytes did not
/// parse, or why they could not be fetched.
#[derive(Debug)]
pub enum MetaAnswer {
    Parsed { patch: Box<Patch> },
    Malformed { words: String },
    Unreachable { words: String },
}

/// What a [`MetaAnswer`] means for the component it belongs to.
pub open spec fn answer_outcome(answer: MetaAnswer, uid: Seq<char>, version: Seq<char>) -> Result<
    PatchView,
    ErrorView,
> {
    match answer {
        MetaAnswer::Parsed { patch } => Ok((*patch).deep_view()),
        MetaAnswer::Malformed { words } => Err(
            meta_failed(
                uid,
                version,
                "the meta version file is not valid component JSON: "@ + words@,
            ),
        ),
        MetaAnswer::Unreachable { words } => Err(meta_failed(uid, version, words@)),
    }
}

/// A version file to fetch.
#[derive(Debug)]
pub struct MetaRequest {
    /// Where it is.
    pub url: String,
    /// What it is, for messages.
    pub label: String,
}

/// What a [`MetaRequest`] holds.
#[verifier::ext_equal]
pub struct MetaRequestView {
    pub url: Seq<char>,
    pub label: Seq<char>,
}

impl DeepView for MetaRequest {
    type V = MetaRequestView;

    open spec fn deep_view(&self) -> MetaRequestView {
        MetaRequestView { url: self.url@, label: self.label@ }
    }
}

/// The request for the version file of a component.
pub open spec fn request_for(base: Seq<char>, uid: Seq<char>, version: Seq<char>) -> MetaRequestView {
    MetaRequestView { url: version_file_url(base, uid, version), label: uid + " "@ + version }
}

/// The resolution of components: those that are resolved, as patches, and the place
/// of the next one.
#[derive(Debug)]
pub struct MetaResolution {
    pub components: Vec<Component>,
    pub base: Option<String>,
    pub patches: Vec<Patch>,
}

/// What a [`MetaResolution`] holds.
#[verifier::ext_equal]
pub struct MetaResolutionView {
    pub components: Seq<ComponentView>,
    pub base: Option<Seq<char>>,
    pub patches: Seq<PatchView>,
}

impl DeepView for MetaResolution {
    type V = MetaResolutionView;

    open spec fn deep_view(&self) -> MetaResolutionView {
        MetaResolutionView {
            components: self.components.deep_view(),
            base: self.base.deep_view(),
            patches: self.patches.deep_view(),
        }
    }
}

/// What is next in a resolution.
#[derive(Debug)]
pub enum MetaStep {
    /// All components are resolved.
    Done,
    /// A local component was taken over.
    Moved,
    /// A version file is to be fetched.
    Fetch { request: MetaRequest },
}

/// What a [`MetaStep`] holds.
#[verifier::ext_equal]
pub enum MetaStepView {
    Done,
    Moved,
    Fetch { request: MetaRequestView },
}

impl DeepView for MetaStep {
    type V = MetaStepView;

    open spec fn deep_view(&self) -> MetaStepView {
        match self {
            MetaStep::Done => MetaStepView::Done,
            MetaStep::Moved => MetaStepView::Moved,
            MetaStep::Fetch { request } => MetaStepView::Fetch { request: request.deep_view() },
        }
    }
}

/// Whether a component is a gap.
pub open spec fn is_gap(component: ComponentView) -> bool {
    component is Missing
}

/// How many components are gaps.
pub open spec fn gaps(components: Seq<ComponentView>) -> nat
    decreases components.len(),
{
    if components.len() == 0 {
        0
    } else {
        gaps(components.drop_last()) + if is_gap(components.last()) {
            1nat
        } else {
            0nat
        }
    }
}

/// The failure of the first gap.
pub open spec fn first_gap_failure(components: Seq<ComponentView>) -> Option<ErrorView>
    decreases components.len(),
{
    if components.len() == 0 {
        None
    } else {
        match first_gap_failure(components.drop_last()) {
            Some(error) => Some(error),
            None => match components.last() {
                ComponentView::Missing { uid, version, patch_path } => Some(
                    missing_component(uid, version, patch_path),
                ),
                ComponentView::Local(_) => None,
            },
        }
    }
}

/// How a resolution starts: a gap without a meta server to ask is a failure.
pub open spec fn resolution_start(
    components: Seq<ComponentView>,
    meta_url: Option<Seq<char>>,
) -> Result<MetaResolutionView, ErrorView> {
    if meta_url is None && first_gap_failure(components) is Some {
        Err(first_gap_failure(components)->0)
    } else {
        Ok(MetaResolutionView { components, base: meta_url, patches: Seq::empty() })
    }
}

impl MetaResolutionView {
    /// The number of the component that is next.
    pub open spec fn next(self) -> nat {
        self.patches.len()
    }

    /// No more patches than components, and a meta server where there is a gap left.
    pub open spec fn sound(self) -> bool {
        &&& self.next() <= self.components.len()
        &&& forall|i: int|
            self.next() <= i < self.components.len() && is_gap(#[trigger] self.components[i])
                ==> self.base is Some
    }

    /// The resolution after one more component was resolved.
    pub open spec fn with(self, patch: PatchView) -> MetaResolutionView {
        MetaResolutionView { patches: self.patches.push(patch), ..self }
    }
}

/// What is next in a resolution, and how it goes on. Without a pinned version no
/// specific file can be fetched, and "latest" is never resolved: the component is
/// still missing.
pub open spec fn step_outcome(state: MetaResolutionView) -> Result<
    (MetaResolutionView, MetaStepView),
    ErrorView,
> {
    if state.next() >= state.components.len() {
        Ok((state, MetaStepView::Done))
    } else {
        match state.components[state.next() as int] {
            ComponentView::Local(patch) => Ok((state.with(patch), MetaStepView::Moved)),
            ComponentView::Missing { uid, version, patch_path } => match version {
                None => Err(missing_component(uid, None, patch_path)),
                Some(version) => Ok(
                    (
                        state,
                        MetaStepView::Fetch { request: request_for(state.base->0, uid, version) },
                    ),
                ),
            },
        }
    }
}

/// How a resolution goes on after the version file of its next component was
/// fetched.
pub open spec fn supply_outcome(state: MetaResolutionView, answer: MetaAnswer) -> Result<
    MetaResolutionView,
    ErrorView,
> {
    match state.components[state.next() as int] {
        ComponentView::Missing { uid, version, patch_path } => match answer_outcome(
            answer,
            uid,
            version->0,
        ) {
            Ok(patch) => Ok(state.with(patch)),
            Err(error) => Err(error),
        },
        ComponentView::Local(patch) => Ok(state.with(patch)),
    }
}

/// Whether the next component of a resolution is a gap with a pinned version.
pub open spec fn awaits_answer(state: MetaResolutionView) -> bool {
    state.next() < state.components.len() && (state.components[state.next() as int] matches
        ComponentView::Missing { uid, version, patch_path } && version is Some)
}

/// The number of gaps, for messages.
pub fn count_gaps(components: &Vec<Component>) -> (count: usize)
    ensures
        count == gaps(components.deep_view()),
{
    let mut count: usize = 0;
    let ghost all = components.deep_view();
    for i in 0..components.len()
        invariant
            all == components.deep_view(),
            count <= i,
            count == gaps(all.take(i as int)),
    {
        proof {
            assert(all.take(i + 1).drop_last() =~= all.take(i as int));
            assert(all.take(i + 1).last() == components@[i as int].deep_view());
        }
        if let Component::Missing { .. } = &components[i] {
            count = count + 1;
        }
    }
    proof {
        assert(all.take(components.len() as int) =~= all);
    }
    count
}

/// The [`FatalError::MissingComponent`] of the first gap, if there is one.
fn missing_component_error(components: &Vec<Component>) -> (error: Option<Error>)
    ensures
        error.deep_view() == first_gap_failure(components.deep_view()),
{
    let ghost all = components.deep_view();
    for i in 0..components.len()
        invariant
            all == components.deep_view(),
            first_gap_failure(all.take(i as int)) is None,
    {
        proof {
            assert(all.take(i + 1).drop_last() =~= all.take(i as int));
            assert(all.take(i + 1).last() == components@[i as int].deep_view());
        }
        if let Component::Missing { uid, version, patch_path } = &components[i] {
            proof {
                first_gap_is_kept(all, i + 1);
            }
            return Some(
                Error::fatal(
                    FatalError::MissingComponent {
                        uid: uid.clone(),
                        version: version.replicate(),
                        patch_path: patch_path.clone(),
                    },
                ),
            );
        }
    }
    proof {
        assert(all.take(components.len() as int) =~= all);
    }
    None
}

/// The first gap stays the first one whatever follows.
proof fn first_gap_is_kept(components: Seq<ComponentView>, n: int)
    requires
        0 <= n <= components.len(),
        first_gap_failure(components.take(n)) is Some,
    ensures
        first_gap_failure(components) == first_gap_failure(components.take(n)),
    decreases components.len() - n,
{
    if n == components.len() {
        assert(components.take(n) =~= components);
    } else {
        assert(components.take(n + 1).drop_last() =~= components.take(n));
        first_gap_is_kept(components, n + 1);
    }
}

/// There is a first gap exactly if there is a gap.
proof fn first_gap_exists(components: Seq<ComponentView>)
    ensures
        first_gap_failure(components) is Some <==> exists|i: int|
            0 <= i < components.len() && is_gap(#[trigger] components[i]),
    decreases components.len(),
{
    if components.len() > 0 {
        let before = components.drop_last();
        first_gap_exists(before);
        if exists|i: int| 0 <= i < before.len() && is_gap(#[trigger] before[i]) {
            let i = choose|i: int| 0 <= i < before.len() && is_gap(#[trigger] before[i]);
            assert(is_gap(components[i]));
        }
        if exists|i: int| 0 <= i < components.len() && is_gap(#[trigger] components[i]) {
            let i = choose|i: int| 0 <= i < components.len() && is_gap(#[trigger] components[i]);
            if i < before.len() {
                assert(is_gap(before[i]));
            }
        }
        if is_gap(components.last()) {
            assert(is_gap(components[components.len() - 1]));
        }
    }
}

/// Start the resolution of the gaps of an instance.
///
/// # Errors
/// [`FatalError::MissingComponent`] for the first gap if there is no meta server to
/// ask.
pub fn start_resolution(components: Vec<Component>, meta_url: Option<String>) -> (result: Result<
    MetaResolution,
    Error,
>)
    ensures
        outcome(result) == resolution_start(components.deep_view(), meta_url.deep_view()),
        result matches Ok(state) ==> state.deep_view().sound(),
{
    proof {
        first_gap_exists(components.deep_view());
    }
    if meta_url.is_none() {
        if let Some(error) = missing_component_error(&components) {
            return Err(error);
        }
    }
    let state = MetaResolution { components, base: meta_url, patches: Vec::new() };
    proof {
        assert(state.deep_view().patches =~= Seq::<PatchView>::empty());
    }
    Ok(state)
}

impl MetaResolution {
    /// Take over the next component if it is local, or say which version file is to
    /// be fetched for it.
    ///
    /// # Errors
    /// [`FatalError::MissingComponent`] if the pack pins no version for a gap.
    pub fn step(&mut self) -> (result: Result<MetaStep, Error>)
        requires
            old(self).deep_view().sound(),
        ensures
            final(self).deep_view().sound(),
            match result {
                Ok(step) => step_outcome(old(self).deep_view()) == Ok::<
                    (MetaResolutionView, MetaStepView),
                    ErrorView,
                >((final(self).deep_view(), step.deep_view())),
                Err(error) => final(self).deep_view() == old(self).deep_view() && step_outcome(
                    old(self).deep_view(),
                ) == Err::<(MetaResolutionView, MetaStepView), ErrorView>(error.deep_view()),
            },
    {
        let ghost before = self.deep_view();
        let next: usize = self.patches.len();
        if next >= self.components.len() {
            return Ok(MetaStep::Done);
        }
        match &self.components[next] {
            Component::Local(patch) => {
                let copy = (**patch).replicate();
                self.patches.push(copy);
                proof {
                    assert(self.deep_view() =~= before.with(copy.deep_view()));
                }
                Ok(MetaStep::Moved)
            },
            Component::Missing { uid, version, patch_path } => {
                let version = match version {
                    Some(version) => version,
                    None => {
                        return Err(
                            Error::fatal(
                                FatalError::MissingComponent {
                                    uid: uid.clone(),
                                    version: None,
                                    patch_path: patch_path.clone(),
                                },
                            ),
                        );
                    },
                };
                proof {
                    assert(is_gap(before.components[next as int]));
                }
                let request = match &self.base {
                    Some(base) => MetaRequest {
                        url: meta_url_for(base.as_str(), uid.as_str(), version.as_str()),
                        label: concat3(uid.as_str(), " ", version.as_str()),
                    },
                    None => MetaRequest { url: String::new(), label: String::new() },
                };
                Ok(MetaStep::Fetch { request })
            },
        }
    }

    /// Fill the next gap with what came of fetching its version file.
    ///
    /// # Errors
    /// [`FatalError::MetaResolveFailed`] if it could not be fetched or parsed.
    pub fn supply(&mut self, answer: MetaAnswer) -> (result: Result<(), Error>)
        requires
            old(self).deep_view().sound(),
            awaits_answer(old(self).deep_view()),
        ensures
            final(self).deep_view().sound(),
            match result {
                Ok(()) => supply_outcome(old(self).deep_view(), answer) == Ok::<
                    MetaResolutionView,
                    ErrorView,
                >(final(self).deep_view()),
                Err(error) => final(self).deep_view() == old(self).deep_view() && supply_outcome(
                    old(self).deep_view(),
                    answer,
                ) == Err::<MetaResolutionView, ErrorView>(error.deep_view()),
            },
    {
        let ghost before = self.deep_view();
        let next: usize = self.patches.len();
        let (uid, version) = match &self.components[next] {
            Component::Missing { uid, version: Some(version), patch_path: _ } => {
                (uid.clone(), version.clone())
            },
            _ => (String::new(), String::new()),
        };
        let parsed = match answer {
            MetaAnswer::Parsed { patch } => Ok(*patch),
            MetaAnswer::Malformed { words } => Err(words),
            MetaAnswer::Unreachable { words } => {
                return Err(
                    Error::fatal(
                        FatalError::MetaResolveFailed { uid, version, reason: words },
                    ),
                );
            },
        };
        match patch_from_parsed(parsed, uid.as_str(), version.as_str()) {
            Ok(patch) => {
                self.patches.push(patch);
                proof {
                    assert(self.deep_view() =~= before.with(patch.deep_view()));
                }
                Ok(())
            },
            Err(error) => Err(error),
        }
    }
}

// ---------------------------------------------------------------------------
// Laws
// ---------------------------------------------------------------------------

/// What a component resolves to, given what came of fetching its version file. The
/// answer does not matter for a local component.
pub open spec fn component_outcome(component: ComponentView, answer: MetaAnswer) -> Result<
    PatchView,
    ErrorView,
> {
    match component {
        ComponentView::Local(patch) => Ok(patch),
        ComponentView::Missing { uid, version, patch_path } => match version {
            None => Err(missing_component(uid, None, patch_path)),
            Some(version) => answer_outcome(answer, uid, version),
        },
    }
}

/// What a resolution ends with, where `answers` holds what comes of fetching the
/// version file of each component.
pub open spec fn resolution_end(state: MetaResolutionView, answers: Seq<MetaAnswer>) -> Result<
    Seq<PatchView>,
    ErrorView,
>
    decreases state.components.len() - state.next(),
{
    match step_outcome(state) {
        Err(error) => Err(error),
        Ok((after, step)) => match step {
            MetaStepView::Done => Ok(state.patches),
            MetaStepView::Moved => if after.components == state.components && after.next()
                == state.next() + 1 && after.next() <= state.components.len() {
                resolution_end(after, answers)
            } else {
                Ok(state.patches)
            },
            MetaStepView::Fetch { request } => match supply_outcome(
                state,
                answers[state.next() as int],
            ) {
                Err(error) => Err(error),
                Ok(after) => if after.components == state.components && after.next()
                    == state.next() + 1 && after.next() <= state.components.len() {
                    resolution_end(after, answers)
                } else {
                    Ok(state.patches)
                },
            },
        },
    }
}

/// A resolution that succeeds yields one patch per component, in their order: that
/// of a local component untouched, that of a gap as it was fetched.
pub proof fn components_keep_their_places(state: MetaResolutionView, answers: Seq<MetaAnswer>)
    requires
        state.next() <= state.components.len(),
        forall|i: int|
            0 <= i < state.next() ==> component_outcome(state.components[i], answers[i]) == Ok::<
                PatchView,
                ErrorView,
            >(#[trigger] state.patches[i]),
    ensures
        resolution_end(state, answers) matches Ok(patches) ==> patches.len()
            == state.components.len() && forall|i: int|
            0 <= i < patches.len() ==> component_outcome(state.components[i], answers[i]) == Ok::<
                PatchView,
                ErrorView,
            >(#[trigger] patches[i]),
    decreases state.components.len() - state.next(),
{
    if state.next() < state.components.len() {
        let next = state.next() as int;
        match component_outcome(state.components[next], answers[next]) {
            Ok(patch) => {
                let after = state.with(patch);
                assert forall|i: int| 0 <= i < after.next() implies component_outcome(
                    after.components[i],
                    answers[i],
                ) == Ok::<PatchView, ErrorView>(#[trigger] after.patches[i]) by {
                    if i < next {
                        assert(after.patches[i] == state.patches[i]);
                    }
                }
                components_keep_their_places(after, answers);
            },
            Err(_) => {},
        }
    }
}

/// Without a gap nothing is fetched, with or without a meta server: the local
/// patches pass through untouched.
pub proof fn local_components_pass_through(
    components: Seq<ComponentView>,
    meta_url: Option<Seq<char>>,
    answers: Seq<MetaAnswer>,
)
    requires
        gaps(components) == 0,
    ensures
        resolution_start(components, meta_url) matches Ok(state) && (resolution_end(
            state,
            answers,
        ) matches Ok(patches) && patches.len() == components.len() && forall|i: int|
            0 <= i < patches.len() ==> components[i] == ComponentView::Local(
                #[trigger] patches[i],
            )),
{
    no_gap_anywhere(components);
    first_gap_exists(components);
    let state = MetaResolutionView { components, base: meta_url, patches: Seq::empty() };
    local_run_ends(state, answers);
    components_keep_their_places(state, answers);
    let patches = resolution_end(state, answers)->Ok_0;
    assert forall|i: int| 0 <= i < patches.len() implies components[i] == ComponentView::Local(
        #[trigger] patches[i],
    ) by {
        assert(!is_gap(components[i]));
    }
}

proof fn no_gap_anywhere(components: Seq<ComponentView>)
    requires
        gaps(components) == 0,
    ensures
        forall|i: int| 0 <= i < components.len() ==> !is_gap(#[trigger] components[i]),
    decreases components.len(),
{
    if components.len() > 0 {
        let before = components.drop_last();
        no_gap_anywhere(before);
        assert forall|i: int| 0 <= i < components.len() implies !is_gap(
            #[trigger] components[i],
        ) by {
            if i < before.len() {
                assert(!is_gap(before[i]));
            }
        }
    }
}

proof fn local_run_ends(state: MetaResolutionView, answers: Seq<MetaAnswer>)
    requires
        state.next() <= state.components.len(),
        forall|i: int|
            0 <= i < state.components.len() ==> !is_gap(#[trigger] state.components[i]),
    ensures
        resolution_end(state, answers) is Ok,
    decreases state.components.len() - state.next(),
{
    if state.next() < state.components.len() {
        let component = state.components[state.next() as int];
        assert(!is_gap(component));
        local_run_ends(state.with(component->Local_0), answers);
    }
}

/// Without a meta server the first gap is the failure, before anything is fetched: it
/// names the component, the version the pack pins and the file that would fill it.
pub proof fn gap_needs_a_meta_server(
    components: Seq<ComponentView>,
    i: int,
    uid: Seq<char>,
    version: Option<Seq<char>>,
    patch_path: Seq<char>,
)
    requires
        0 <= i < components.len(),
        components[i] == (ComponentView::Missing { uid, version, patch_path }),
        forall|j: int| 0 <= j < i ==> !is_gap(#[trigger] components[j]),
    ensures
        resolution_start(components, None) == Err::<MetaResolutionView, ErrorView>(
            missing_component(uid, version, patch_path),
        ),
{
    let head = components.take(i);
    assert(first_gap_failure(head) is None) by {
        first_gap_exists(head);
        if first_gap_failure(head) is Some {
            let j = choose|j: int| 0 <= j < head.len() && is_gap(#[trigger] head[j]);
            assert(is_gap(components[j]));
        }
    }
    assert(components.take(i + 1).drop_last() =~= head);
    assert(components.take(i + 1).last() == components[i]);
    first_gap_is_kept(components, i + 1);
}

/// Slashes at the end of the base of a meta server do not matter.
pub proof fn trailing_slash_is_tolerated(base: Seq<char>, uid: Seq<char>, version: Seq<char>)
    ensures
        version_file_url(base.push('/'), uid, version) == version_file_url(base, uid, version),
{
    assert(base.push('/').drop_last() =~= base);
}

/// The version file of a component lies below the server under the uid, and is named by the
/// version.
pub proof fn version_files_are_named_by_version(
    base: Seq<char>,
    uid: Seq<char>,
    version: Seq<char>,
)
    requires
        base.len() > 0,
        base[base.len() - 1] != '/',
    ensures
        version_file_url(base, uid, version) == base + "/"@ + uid + "/"@ + version + ".json"@,
{
}

/// A local component is taken over as it is, a gap with a pinned version is asked for at the
/// meta server, and a gap without one is a failure that names it. Nothing is left to do
/// exactly behind the last component.
pub proof fn next_component_decides_the_step(
    state: MetaResolutionView,
    base: Seq<char>,
    uid: Seq<char>,
    version: Seq<char>,
    patch_path: Seq<char>,
    patch: PatchView,
)
    ensures
        ({
            let next = state.patches.len();
            &&& next >= state.components.len() <==> step_outcome(state) == Ok::<
                (MetaResolutionView, MetaStepView),
                ErrorView,
            >((state, MetaStepView::Done))
            &&& next < state.components.len() && state.components[next as int]
                == ComponentView::Local(patch) ==> (step_outcome(state) matches Ok((after, step))
                && {
                &&& step == MetaStepView::Moved
                &&& after.patches == state.patches.push(patch)
                &&& after.components == state.components
                &&& after.base == state.base
            })
            &&& next < state.components.len() && state.components[next as int] == (
            ComponentView::Missing { uid, version: Some(version), patch_path }) && state.base
                == Some(base) ==> (step_outcome(state) matches Ok((after, step)) && {
                &&& after == state
                &&& step == (MetaStepView::Fetch {
                    request: MetaRequestView {
                        url: version_file_url(base, uid, version),
                        label: uid + " "@ + version,
                    },
                })
            })
            &&& next < state.components.len() && state.components[next as int] == (
            ComponentView::Missing { uid, version: None, patch_path }) ==> (step_outcome(
                state,
            ) matches Err(error) && error.cause == (CauseView::Fatal {
                error: FatalErrorView::MissingComponent { uid, version: None, patch_path },
            }))
        }),
{
}

/// A version file that parsed fills the gap with its patch and changes nothing else. One that
/// did not parse or could not be fetched is a failure that names the component and its
/// version, and says why.
pub proof fn answers_fill_the_gap(
    state: MetaResolutionView,
    uid: Seq<char>,
    version: Seq<char>,
    patch_path: Seq<char>,
    patch: Box<Patch>,
    words: String,
)
    requires
        state.patches.len() < state.components.len(),
        state.components[state.patches.len() as int] == (ComponentView::Missing {
            uid,
            version: Some(version),
            patch_path,
        }),
    ensures
        supply_outcome(state, MetaAnswer::Parsed { patch }) matches Ok(after) && {
            &&& after.patches == state.patches.push((*patch).deep_view())
            &&& after.components == state.components
            &&& after.base == state.base
        },
        supply_outcome(state, MetaAnswer::Malformed { words }) matches Err(error) && error.cause
            == (CauseView::Fatal {
            error: FatalErrorView::MetaResolveFailed {
                uid,
                version,
                reason: "the meta version file is not valid component JSON: "@ + words@,
            },
        }),
        supply_outcome(state, MetaAnswer::Unreachable { words }) matches Err(error) && error.cause
            == (CauseView::Fatal {
            error: FatalErrorView::MetaResolveFailed { uid, version, reason: words@ },
        }),
{
}

/// With a meta server a resolution starts with all components and no patch yet, and without
/// one it starts exactly if there is no gap.
pub proof fn resolution_starts_empty(components: Seq<ComponentView>, base: Seq<char>)
    ensures
        resolution_start(components, Some(base)) matches Ok(state) && state.components == components
            && state.base == Some(base) && state.patches.len() == 0,
        resolution_start(components, None) is Ok <==> (forall|i: int|
            0 <= i < components.len() ==> (#[trigger] components[i]) is Local),
        resolution_start(components, None) matches Ok(state) ==> state.components == components
            && state.patches.len() == 0,
{
    first_gap_exists(components);
    if resolution_start(components, None) is Ok {
        assert forall|i: int| 0 <= i < components.len() implies (
        #[trigger] components[i]) is Local by {
            assert(!is_gap(components[i]));
        }
    }
    if forall|i: int| 0 <= i < components.len() ==> (#[trigger] components[i]) is Local {
        assert(forall|i: int| 0 <= i < components.len() ==> !is_gap(#[trigger] components[i]));
    }
}

/// A gap counts as one and a local component as none.
pub proof fn gaps_are_counted_one_by_one(
    components: Seq<ComponentView>,
    patch: PatchView,
    uid: Seq<char>,
    version: Option<Seq<char>>,
    patch_path: Seq<char>,
)
    ensures
        gaps(Seq::empty()) == 0,
        gaps(components.push(ComponentView::Local(patch))) == gaps(components),
        gaps(components.push(ComponentView::Missing { uid, version, patch_path })) == gaps(
            components,
        ) + 1,
{
    let local = components.push(ComponentView::Local(patch));
    let gap = components.push(ComponentView::Missing { uid, version, patch_path });
    assert(local.drop_last() =~= components);
    assert(gap.drop_last() =~= components);
}

/// The first component that does not resolve is the failure of the whole resolution, and
/// where each of them resolves the resolution succeeds.
pub proof fn first_unresolved_component_is_told(
    state: MetaResolutionView,
    answers: Seq<MetaAnswer>,
    n: int,
)
    requires
        state.patches.len() <= n <= state.components.len(),
        forall|i: int|
            state.patches.len() <= i < n ==> component_outcome(
                #[trigger] state.components[i],
                answers[i],
            ) is Ok,
        n < state.components.len() ==> component_outcome(state.components[n], answers[n]) is Err,
    ensures
        n == state.components.len() ==> resolution_end(state, answers) is Ok,
        n < state.components.len() ==> (resolution_end(state, answers) matches Err(error)
            && component_outcome(state.components[n], answers[n]) == Err::<PatchView, ErrorView>(
            error,
        )),
    decreases n - state.patches.len(),
{
    let next = state.patches.len() as int;
    if next < n {
        assert(component_outcome(state.components[next], answers[next]) is Ok);
        let patch = component_outcome(state.components[next], answers[next])->Ok_0;
        first_unresolved_component_is_told(state.with(patch), answers, n);
    }
}

} // verus!
