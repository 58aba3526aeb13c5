//! How the library names an image.
use vstd::prelude::*;

verus! {

/// An image of the library: a temporary one (no longer reachable after the
/// application closes), named by a uuid, or a file, named by its path.
#[derive(Clone, Debug)]
pub enum LibraryImageIdentifier {
    Temp(u32),
    Path(String),
}

/// What identifies an image: whether it is a file, its uuid (for a
/// temporary image) and its path (for a file).
pub type IdKey = (bool, u32, Seq<char>);

impl LibraryImageIdentifier {
    pub open spec fn spec_key(self) -> IdKey {
        match self {
            LibraryImageIdentifier::Temp(u) => (false, u, Seq::empty()),
            LibraryImageIdentifier::Path(p) => (true, 0u32, p@),
        }
    }

    /// Identifiers are equal when they are of one kind and name the same uuid or path.
    pub open spec fn spec_eq(self, other: LibraryImageIdentifier) -> bool {
        match (self, other) {
            (LibraryImageIdentifier::Temp(a), LibraryImageIdentifier::Temp(b)) => a == b,
            (LibraryImageIdentifier::Path(a), LibraryImageIdentifier::Path(b)) => a@ == b@,
            _ => false,
        }
    }

    /// `self == other`.
    pub fn equals(&self, other: &LibraryImageIdentifier) -> (r: bool)
        ensures
            r == self.spec_eq(*other),
    {
        match (self, other) {
            (LibraryImageIdentifier::Temp(a), LibraryImageIdentifier::Temp(b)) => *a == *b,
            (LibraryImageIdentifier::Path(a), LibraryImageIdentifier::Path(b)) => *a == *b,
            _ => false,
        }
    }

    /// A copy that names the same image.
    pub fn duplicate(&self) -> (r: LibraryImageIdentifier)
        ensures
            r == *self,
    {
        match self {
            LibraryImageIdentifier::Temp(a) => LibraryImageIdentifier::Temp(*a),
            LibraryImageIdentifier::Path(p) => LibraryImageIdentifier::Path(p.clone()),
        }
    }

    pub open spec fn spec_path(self) -> Option<Seq<char>> {
        match self {
            LibraryImageIdentifier::Path(p) => Some(p@),
            LibraryImageIdentifier::Temp(_) => None,
        }
    }

    /// The path of the image, for an image that is a file.
    pub fn get_path(&self) -> (r: Option<String>)
        ensures
            r is Some <==> self is Path,
            r matches Some(p) ==> Some(p@) == self.spec_path(),
    {
        match self {
            LibraryImageIdentifier::Path(p) => Some(p.clone()),
            _ => None,
        }
    }

    pub fn is_temp(&self) -> (r: bool)
        ensures
            r == self is Temp,
    {
        match self {
            LibraryImageIdentifier::Temp(_) => true,
            _ => false,
        }
    }
}

/// Two identifiers are equal exactly when their keys are.
pub proof fn lemma_identifier_eq_key(a: LibraryImageIdentifier, b: LibraryImageIdentifier)
    ensures
        a.spec_eq(b) <==> a.spec_key() == b.spec_key(),
{
}

/// Equality of identifiers is an equivalence.
pub proof fn lemma_identifier_eq_equivalence(a: LibraryImageIdentifier, b: LibraryImageIdentifier, c: LibraryImageIdentifier)
    ensures
        a.spec_eq(a),
        a.spec_eq(b) == b.spec_eq(a),
        a.spec_eq(b) && b.spec_eq(c) ==> a.spec_eq(c),
{
}

} // verus!
