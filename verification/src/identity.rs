//! Identities of assets and account holders.
//!
//! An [`Identity`] is the canonical text of an address.  Two identities name
//! the same party exactly when their texts are equal, so every contract in
//! this crate speaks of an identity through its view, the sequence of its
//! characters.

use vstd::prelude::*;
use vstd::std_specs::cmp::PartialEqSpecImpl;

verus! {

/// The canonical address of the contract that stands for the native asset.
pub const NATIVE_ASSET_CONTRACT: &'static str =
    "CDLZFC3SYJYDZT7K67VZ75HPJVIEUVNIXF47ZG2FB2RMQQVU2HHGCYSC";

/// The short spelling of the native asset.
pub const NATIVE_ASSET_ALIAS: &'static str = "native";

/// The identity of an asset or of an account holder.
#[derive(Debug)]
pub struct Identity {
    text: String,
}

impl View for Identity {
    type V = Seq<char>;

    closed spec fn view(&self) -> Seq<char> {
        self.text@
    }
}

impl Identity {
    /// The identity with the given canonical text.
    pub fn new(text: String) -> (identity: Identity)
        ensures
            identity@ == text@,
    {
        Identity { text }
    }

    /// The identity with the given canonical text.
    pub fn from_str(text: &str) -> (identity: Identity)
        ensures
            identity@ == text@,
    {
        Identity { text: text.to_owned() }
    }

    /// The canonical text of this identity.
    pub fn as_str(&self) -> (text: &str)
        ensures
            text@ == self@,
    {
        self.text.as_str()
    }

    /// Whether both identities name the same party.
    pub fn same(&self, other: &Identity) -> (equal: bool)
        ensures
            equal == (self@ == other@),
    {
        self.text == other.text
    }
}

impl Clone for Identity {
    fn clone(&self) -> (copy: Identity)
        ensures
            copy@ == self@,
    {
        Identity { text: self.text.clone() }
    }
}

impl PartialEq for Identity {
    fn eq(&self, other: &Identity) -> (equal: bool) {
        self.text == other.text
    }
}

impl Eq for Identity {

}

impl PartialEqSpecImpl for Identity {
    open spec fn obeys_eq_spec() -> bool {
        true
    }

    open spec fn eq_spec(&self, other: &Identity) -> bool {
        self@ == other@
    }
}

/// Whether `text` is one of the two spellings of the native asset.
pub open spec fn is_native_text(text: Seq<char>) -> bool {
    text == NATIVE_ASSET_CONTRACT@ || text == NATIVE_ASSET_ALIAS@
}

/// Whether `identity` names the native asset, under either spelling.
pub fn is_native_xlm(identity: &Identity) -> (native: bool)
    ensures
        native == is_native_text(identity@),
{
    let contract = Identity::from_str(NATIVE_ASSET_CONTRACT);
    let alias = Identity::from_str(NATIVE_ASSET_ALIAS);
    identity.same(&contract) || identity.same(&alias)
}

} // verus!
