use vstd::prelude::*;

verus! {

/// The one access token that all authenticated calls share.
///
/// Readers take a copy; only [`CredentialStore::replace`] changes the value,
/// and it changes it as a whole.
pub struct CredentialStore {
    token: String,
}

impl View for CredentialStore {
    type V = Seq<char>;

    closed spec fn view(&self) -> Seq<char> {
        self.token@
    }
}

impl CredentialStore {
    /// A store that holds `token`.
    pub fn new(token: String) -> (s: CredentialStore)
        ensures
            s@ == token@,
    {
        CredentialStore { token }
    }

    /// A snapshot of the current token.
    pub fn read(&self) -> (snapshot: String)
        ensures
            snapshot@ == self@,
    {
        self.token.clone()
    }

    /// Puts `new_token` in place of the current token.
    pub fn replace(&mut self, new_token: String)
        ensures
            final(self)@ == new_token@,
    {
        self.token = new_token;
    }
}

} // verus!
