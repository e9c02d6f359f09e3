//! Owned XML namespace names.

use vstd::prelude::*;

verus! {

/// An XML namespace name held by value: the bytes of its URI.
#[derive(Debug, Clone, Default, PartialEq, Eq, Hash)]
pub struct NamespaceOwned(pub Vec<u8>);

impl View for NamespaceOwned {
    type V = Seq<u8>;

    open spec fn view(&self) -> Seq<u8> {
        self.0@
    }
}

/// The view of an optional namespace.
pub open spec fn ns_view(ns: Option<NamespaceOwned>) -> Option<Seq<u8>> {
    match ns {
        Some(n) => Some(n@),
        None => None,
    }
}

impl NamespaceOwned {
    /// The namespace whose name is the UTF-8 encoding of `value`.
    pub fn from_text(value: &str) -> (res: NamespaceOwned)
        ensures
            res@ == vstd::utf8::encode_utf8(value@),
    {
        let bytes = value.as_bytes();
        NamespaceOwned(vstd::slice::slice_to_vec(bytes))
    }

    /// A copy of the namespace name.
    pub fn duplicate(&self) -> (res: NamespaceOwned)
        ensures
            res@ == self@,
    {
        NamespaceOwned(self.0.clone())
    }

    /// The bytes of the namespace name.
    pub fn as_bytes(&self) -> (res: &[u8])
        ensures
            res@ == self@,
    {
        self.0.as_slice()
    }
}

} // verus!
