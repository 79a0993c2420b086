//! `mmc-pack.json` - the ordered list of components in an instance.
//!
//! The merge order is the order of this list, not the `order` field of a patch.

use vstd::prelude::*;

use crate::replicate::Replicate;

verus! {

/// The whole `mmc-pack.json` manifest.
#[derive(Debug, Default)]
pub struct Pack {
    /// Manifest format version; kept for completeness.
    pub format_version: Option<u32>,
    /// The components making up this instance, in declaration order.
    pub components: Vec<PackComponent>,
}

/// What a [`Pack`] holds.
#[verifier::ext_equal]
pub struct PackView {
    pub format_version: Option<u32>,
    pub components: Seq<PackComponentView>,
}

impl DeepView for Pack {
    type V = PackView;

    open spec fn deep_view(&self) -> PackView {
        PackView {
            format_version: self.format_version.deep_view(),
            components: self.components.deep_view(),
        }
    }
}

impl Replicate for Pack {
    fn replicate(&self) -> (copy: Self) {
        Pack {
            format_version: self.format_version.replicate(),
            components: self.components.replicate(),
        }
    }
}

impl Clone for Pack {
    fn clone(&self) -> (copy: Self)
        ensures
            copy.deep_view() == self.deep_view(),
    {
        self.replicate()
    }
}

/// One `components[]` entry: a reference to a patch file plus hints.
#[derive(Debug, Default)]
pub struct PackComponent {
    /// Component id -> `patches/<uid>.json`.
    pub uid: String,
    /// Pinned version of the component.
    pub version: Option<String>,
    /// Marks the important component; not read.
    pub important: Option<bool>,
    /// Pulled in only as a dependency of another component; not read.
    pub dependency_only: Option<bool>,
}

/// What a [`PackComponent`] holds.
#[verifier::ext_equal]
pub struct PackComponentView {
    pub uid: Seq<char>,
    pub version: Option<Seq<char>>,
    pub important: Option<bool>,
    pub dependency_only: Option<bool>,
}

impl DeepView for PackComponent {
    type V = PackComponentView;

    open spec fn deep_view(&self) -> PackComponentView {
        PackComponentView {
            uid: self.uid.deep_view(),
            version: self.version.deep_view(),
            important: self.important.deep_view(),
            dependency_only: self.dependency_only.deep_view(),
        }
    }
}

impl Replicate for PackComponent {
    fn replicate(&self) -> (copy: Self) {
        PackComponent {
            uid: self.uid.replicate(),
            version: self.version.replicate(),
            important: self.important.replicate(),
            dependency_only: self.dependency_only.replicate(),
        }
    }
}

impl Clone for PackComponent {
    fn clone(&self) -> (copy: Self)
        ensures
            copy.deep_view() == self.deep_view(),
    {
        self.replicate()
    }
}

} // verus!
