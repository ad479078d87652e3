use vstd::prelude::*;

verus! {

/// An account or contract reference, held as its textual key
/// (for example `account-hash-…`).
#[derive(Debug, Clone)]
pub struct Identity {
    pub key: String,
}

impl View for Identity {
    type V = Seq<char>;

    open spec fn view(&self) -> Seq<char> {
        self.key@
    }
}

impl Identity {
    pub fn new(key: &str) -> (r: Identity)
        ensures
            r@ == key@,
    {
        Identity { key: key.to_owned() }
    }

    /// A copy whose view is known to be the same.
    pub fn duplicate(&self) -> (r: Identity)
        ensures
            r@ == self@,
    {
        Identity { key: self.key.clone() }
    }
}

impl PartialEq for Identity {
    fn eq(&self, other: &Identity) -> (r: bool) {
        self.key == other.key
    }
}

impl vstd::std_specs::cmp::PartialEqSpecImpl for Identity {
    open spec fn obeys_eq_spec() -> bool {
        true
    }

    open spec fn eq_spec(&self, other: &Identity) -> bool {
        self@ == other@
    }
}

impl Eq for Identity {
}

} // verus!
