//! The components of an instance: what `mmc-pack.json` lists, and the
//! `patches/<uid>.json` of each, where there is one.
//!
//! Components keep the declaration (array) order of `mmc-pack.json` - that is what
//! the launcher folds in, NOT the patch `order` field.

use vstd::prelude::*;
use vstd::string::*;

use crate::exit::{outcome, plain_error, Cause, CauseView, Error, ErrorView};
use crate::model::pack::{PackComponent, PackComponentView};
use crate::model::patch::{Patch, PatchView};
use crate::paths::{join_path, path_join};
use crate::replicate::Replicate;
use crate::text::concat3;

verus! {

/// One component of an instance.
#[derive(Debug)]
pub enum Component {
    /// Its patch is there.
    Local(Box<Patch>),
    /// It is listed, but there is no patch file.
    Missing { uid: String, version: Option<String>, patch_path: String },
}

/// What a [`Component`] holds.
#[verifier::ext_equal]
pub enum ComponentView {
    Local(PatchView),
    Missing { uid: Seq<char>, version: Option<Seq<char>>, patch_path: Seq<char> },
}

impl DeepView for Component {
    type V = ComponentView;

    open spec fn deep_view(&self) -> ComponentView {
        match self {
            Component::Local(patch) => ComponentView::Local((**patch).deep_view()),
            Component::Missing { uid, version, patch_path } => ComponentView::Missing {
                uid: uid@,
                version: version.deep_view(),
                patch_path: patch_path@,
            },
        }
    }
}

/// The place of the manifest of an instance.
pub fn pack_path(instance_dir: &str) -> (path: String)
    ensures
        path@ == path_join(instance_dir@, "mmc-pack.json"@),
{
    join_path(instance_dir, "mmc-pack.json")
}

/// The place of the patch of a component.
pub open spec fn patch_place(instance_dir: Seq<char>, uid: Seq<char>) -> Seq<char> {
    path_join(path_join(instance_dir, "patches"@), uid + ".json"@)
}

/// The place of the patch of a component: `<instance>/patches/<uid>.json`.
pub fn patch_path(instance_dir: &str, uid: &str) -> (path: String)
    ensures
        path@ == patch_place(instance_dir@, uid@),
{
    let patches = join_path(instance_dir, "patches");
    let file = uid.to_owned().concat(".json");
    join_path(patches.as_str(), file.as_str())
}

/// A listed component, given its patch where there is one.
pub open spec fn component_of(
    listed: PackComponentView,
    instance_dir: Seq<char>,
    patch: Option<PatchView>,
) -> ComponentView {
    match patch {
        Some(patch) => ComponentView::Local(patch),
        None => ComponentView::Missing {
            uid: listed.uid,
            version: listed.version,
            patch_path: patch_place(instance_dir, listed.uid),
        },
    }
}

/// A listed component, given its patch where there is one. A component without a
/// patch is a gap that remembers the version the pack pins and the file that would
/// fill it.
pub fn component(listed: &PackComponent, instance_dir: &str, patch: Option<Patch>) -> (component:
    Component)
    ensures
        component.deep_view() == component_of(
            listed.deep_view(),
            instance_dir@,
            patch.deep_view(),
        ),
{
    match patch {
        Some(patch) => Component::Local(Box::new(patch)),
        None => Component::Missing {
            uid: listed.uid.clone(),
            version: listed.version.replicate(),
            patch_path: patch_path(instance_dir, listed.uid.as_str()),
        },
    }
}

/// The failure to find the patch of a component.
pub open spec fn patch_not_found(uid: Seq<char>, path: Seq<char>) -> ErrorView {
    plain_error(
        CauseView::Other {
            message: "patch file for component '"@ + uid + "' not found at "@ + path
                + " (resolving it from meta.prismlauncher.org is out of scope)"@,
        },
    )
}

/// The patches of components that all have to be there, in order; the first gap is
/// a failure.
pub open spec fn complete_patches(components: Seq<ComponentView>) -> Result<
    Seq<PatchView>,
    ErrorView,
>
    decreases components.len(),
{
    if components.len() == 0 {
        Ok(Seq::empty())
    } else {
        match complete_patches(components.drop_last()) {
            Err(error) => Err(error),
            Ok(patches) => match components.last() {
                ComponentView::Local(patch) => Ok(patches.push(patch)),
                ComponentView::Missing { uid, version, patch_path } => Err(
                    patch_not_found(uid, patch_path),
                ),
            },
        }
    }
}

/// Take the patches of an instance that has to be complete, in manifest order.
///
/// # Errors
/// Returns an error if a listed component has no `patches/<uid>.json` (the path is
/// named in the message).
pub fn require_patches(components: &Vec<Component>) -> (result: Result<Vec<Patch>, Error>)
    ensures
        outcome(result) == complete_patches(components.deep_view()),
{
    let mut patches: Vec<Patch> = Vec::new();
    let ghost all = components.deep_view();
    proof {
        assert(patches.deep_view() =~= Seq::<PatchView>::empty());
    }
    for i in 0..components.len()
        invariant
            all == components.deep_view(),
            complete_patches(all.take(i as int)) == Ok::<Seq<PatchView>, ErrorView>(
                patches.deep_view(),
            ),
    {
        let ghost before = patches.deep_view();
        proof {
            assert(all.take(i + 1).drop_last() =~= all.take(i as int));
            assert(all.take(i + 1).last() == components@[i as int].deep_view());
        }
        match &components[i] {
            Component::Local(patch) => {
                let copy = (**patch).replicate();
                patches.push(copy);
                proof {
                    assert(patches.deep_view() =~= before.push(copy.deep_view()));
                }
            },
            Component::Missing { uid, version: _, patch_path } => {
                let mut message = concat3(
                    "patch file for component '",
                    uid.as_str(),
                    "' not found at ",
                );
                message.append(patch_path.as_str());
                message.append(" (resolving it from meta.prismlauncher.org is out of scope)");
                let error = Error::new(Cause::Other { message });
                proof {
                    first_gap_stays(all, i + 1, error.deep_view());
                }
                return Err(error);
            },
        }
    }
    proof {
        assert(all.take(components.len() as int) =~= all);
    }
    Ok(patches)
}

/// A gap on the way is the failure of the whole.
proof fn first_gap_stays(components: Seq<ComponentView>, n: int, error: ErrorView)
    requires
        0 <= n <= components.len(),
        complete_patches(components.take(n)) == Err::<Seq<PatchView>, ErrorView>(error),
    ensures
        complete_patches(components) == Err::<Seq<PatchView>, ErrorView>(error),
    decreases components.len() - n,
{
    if n == components.len() {
        assert(components.take(n) =~= components);
    } else {
        assert(components.take(n + 1).drop_last() =~= components.take(n));
        first_gap_stays(components, n + 1, error);
    }
}

// ---------------------------------------------------------------------------
// Laws
// ---------------------------------------------------------------------------

/// A complete instance loads as its patches in manifest order, one per component.
pub proof fn manifest_order_is_kept(components: Seq<ComponentView>)
    ensures
        complete_patches(components) matches Ok(patches) ==> patches.len() == components.len()
            && forall|i: int|
            0 <= i < components.len() ==> components[i] == ComponentView::Local(
                #[trigger] patches[i],
            ),
    decreases components.len(),
{
    if components.len() > 0 {
        manifest_order_is_kept(components.drop_last());
        if let Ok(patches) = complete_patches(components) {
            let before = complete_patches(components.drop_last())->Ok_0;
            assert forall|i: int| 0 <= i < components.len() implies components[i]
                == ComponentView::Local(#[trigger] patches[i]) by {
                if i < before.len() {
                    assert(patches[i] == before[i]);
                    assert(components.drop_last()[i] == components[i]);
                }
            }
        }
    }
}

/// A listed component is its patch where there is one, and else a gap with the uid and the
/// version that are listed and the file that would fill it.
pub proof fn listed_components_are_kept(
    listed: PackComponentView,
    instance_dir: Seq<char>,
    patch: PatchView,
)
    ensures
        component_of(listed, instance_dir, Some(patch)) == ComponentView::Local(patch),
        component_of(listed, instance_dir, None) == (ComponentView::Missing {
            uid: listed.uid,
            version: listed.version,
            patch_path: path_join(path_join(instance_dir, "patches"@), listed.uid + ".json"@),
        }),
{
}

/// An instance without a gap loads.
pub proof fn complete_instances_load(components: Seq<ComponentView>)
    requires
        forall|i: int| 0 <= i < components.len() ==> (#[trigger] components[i]) is Local,
    ensures
        complete_patches(components) is Ok,
    decreases components.len(),
{
    if components.len() > 0 {
        let before = components.drop_last();
        assert forall|i: int| 0 <= i < before.len() implies (#[trigger] before[i]) is Local by {
            assert(before[i] == components[i]);
        }
        complete_instances_load(before);
        assert(components[components.len() - 1] is Local);
    }
}

/// The first gap is the failure, which names the component and the file that would fill it.
pub proof fn first_gap_is_told(
    components: Seq<ComponentView>,
    i: int,
    uid: Seq<char>,
    version: Option<Seq<char>>,
    patch_path: Seq<char>,
)
    requires
        0 <= i < components.len(),
        components[i] == (ComponentView::Missing { uid, version, patch_path }),
        forall|j: int| 0 <= j < i ==> (#[trigger] components[j]) is Local,
    ensures
        complete_patches(components) matches Err(error) && error.cause == (CauseView::Other {
            message: "patch file for component '"@ + uid + "' not found at "@ + patch_path
                + " (resolving it from meta.prismlauncher.org is out of scope)"@,
        }),
{
    let head = components.take(i);
    assert forall|j: int| 0 <= j < head.len() implies (#[trigger] head[j]) is Local by {
        assert(head[j] == components[j]);
    }
    complete_instances_load(head);
    assert(components.take(i + 1).drop_last() =~= head);
    assert(components.take(i + 1).last() == components[i]);
    first_gap_stays(components, i + 1, patch_not_found(uid, patch_path));
}

} // verus!
