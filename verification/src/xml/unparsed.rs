//! An element whose content is skipped: only its name is kept.

use crate::xml::namespace::NamespaceOwned;
use vstd::prelude::*;

verus! {

/// An element read without its content: its namespace, when bound, and its
/// local name.
#[derive(Debug, Clone, PartialEq, Eq, Hash)]
pub struct Unparsed(pub Option<NamespaceOwned>, pub String);

impl Unparsed {
    /// The namespace of the element, when it is bound to one.
    pub fn ns(&self) -> (res: Option<&NamespaceOwned>)
        ensures
            res == match self.0 {
                Some(ref n) => Some(n),
                None => None::<&NamespaceOwned>,
            },
    {
        match &self.0 {
            Some(n) => Some(n),
            None => None,
        }
    }

    /// The local name of the element.
    pub fn tag_name(&self) -> (res: &str)
        ensures
            res@ == self.1@,
    {
        self.1.as_str()
    }
}

} // verus!
