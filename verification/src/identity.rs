use vstd::prelude::*;

verus! {

/// A validated party identity.
///
/// The host environment resolves raw address text into a canonical form and
/// vouches for its well-formedness; the ledger only ever compares identities
/// and hands their text back out. An `Identity` is therefore a plain wrapper
/// around the canonical text, viewed as its character sequence.
#[derive(Debug)]
pub struct Identity {
    pub text: String,
}

impl View for Identity {
    type V = Seq<char>;

    open spec fn view(&self) -> Seq<char> {
        self.text@
    }
}

impl Identity {
    /// Wraps canonical address text that the host validator has accepted.
    pub fn new(text: String) -> (r: Identity)
        ensures
            r@ == text@,
    {
        Identity { text }
    }

    /// A fresh identity with the same canonical text.
    pub fn duplicate(&self) -> (r: Identity)
        ensures
            r@ == self@,
    {
        Identity { text: self.text.clone() }
    }

    /// Whether two identities denote the same party.
    pub fn same_as(&self, other: &Identity) -> (r: bool)
        ensures
            r == (self@ == other@),
    {
        self.text == other.text
    }

    /// The canonical text form, for rendering in responses.
    pub fn to_text(&self) -> (r: String)
        ensures
            r@ == self@,
    {
        self.text.clone()
    }
}

} // verus!
