//! Account identifiers.

use vstd::prelude::*;

verus! {

/// The identity of an account, as the text under which the host knows it.
///
/// Two identifiers name the same account exactly when their texts are equal;
/// contracts speak of an account through its view, the sequence of characters.
#[derive(Debug, PartialEq, Eq, Hash)]
pub struct AccountId {
    name: String,
}

impl View for AccountId {
    type V = Seq<char>;

    closed spec fn view(&self) -> Seq<char> {
        self.name@
    }
}

impl AccountId {
    /// The account known under `name`.
    pub fn new(name: &str) -> (account: AccountId)
        ensures
            account@ == name@,
    {
        AccountId { name: name.to_owned() }
    }

    /// The text that identifies this account.
    pub fn as_str(&self) -> (name: &str)
        ensures
            name@ == self@,
    {
        self.name.as_str()
    }

    /// Whether `self` and `other` name the same account.
    pub fn same(&self, other: &AccountId) -> (equal: bool)
        ensures
            equal == (self@ == other@),
    {
        self.name == other.name
    }
}

impl Clone for AccountId {
    fn clone(&self) -> (copy: AccountId)
        ensures
            copy@ == self@,
    {
        AccountId { name: self.name.clone() }
    }
}

} // verus!
