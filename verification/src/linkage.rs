//! Linkage of global definitions and how the allocation table reads it.

use vstd::prelude::*;

verus! {

/// The linkage attribute of a global variable or function.
#[derive(Clone, Copy, Debug, PartialEq, Eq, Structural, Hash)]
pub enum Linkage {
    Private,
    Internal,
    External,
    ExternalWeak,
    AvailableExternally,
    LinkOnceAny,
    LinkOnceODR,
    LinkOnceODRAutoHide,
    WeakAny,
    WeakODR,
    Common,
    Appending,
    DLLImport,
    DLLExport,
    GhostLinkage,
    LinkerPrivate,
    LinkerPrivateWeak,
}

/// What a linkage means for allocation: where the definition is visible
/// and whether it gives way to another definition of the same name.
#[derive(Clone, Copy, Debug, PartialEq, Eq, Structural)]
pub enum LinkageClass {
    /// Visible in the declaring module only; always a strong definition.
    ModulePrivate,
    /// Visible everywhere; a second strong definition of the name is a
    /// conflict.
    PublicStrong,
    /// Visible everywhere; gives way to any definition that is already
    /// there.
    PublicWeak,
    /// A linkage that the table does not allocate.
    Unsupported,
}

impl Linkage {
    /// The class of a linkage.
    pub open spec fn spec_class(self) -> LinkageClass {
        match self {
            Linkage::Private | Linkage::Internal => LinkageClass::ModulePrivate,
            Linkage::External => LinkageClass::PublicStrong,
            Linkage::AvailableExternally
            | Linkage::LinkOnceAny
            | Linkage::WeakAny
            | Linkage::Common
            | Linkage::ExternalWeak
            | Linkage::LinkOnceODR
            | Linkage::WeakODR => LinkageClass::PublicWeak,
            _ => LinkageClass::Unsupported,
        }
    }

    /// The class of a linkage.
    #[verifier::when_used_as_spec(spec_class)]
    pub fn class(self) -> (class: LinkageClass)
        ensures
            class == self.spec_class(),
    {
        match self {
            Linkage::Private | Linkage::Internal => LinkageClass::ModulePrivate,
            Linkage::External => LinkageClass::PublicStrong,
            Linkage::AvailableExternally
            | Linkage::LinkOnceAny
            | Linkage::WeakAny
            | Linkage::Common
            | Linkage::ExternalWeak
            | Linkage::LinkOnceODR
            | Linkage::WeakODR => LinkageClass::PublicWeak,
            _ => LinkageClass::Unsupported,
        }
    }
}

} // verus!
