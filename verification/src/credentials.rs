//! Credentials keyed by canonical repository key. A credential is applied
//! only to the network-facing copy of an address; the canonical key and
//! cache identity never see it.

use vstd::prelude::*;

use crate::canonical::with_credentials_seq;
use crate::scan::{find_sep, lemma_sep_from};

verus! {

/// A character sequence free of `/` and `@`, as both credential parts must
/// be (anything else would have to be percent-encoded before use in a URL).
pub open spec fn credential_part(s: Seq<char>) -> bool {
    forall|i: int| 0 <= i < s.len() ==> s[i] != '/' && s[i] != '@'
}

/// Checks a credential part for forbidden separator characters.
fn part_ok(s: &str) -> (r: bool)
    ensures
        r == credential_part(s@),
{
    let n = s.unicode_len();
    let mut i: usize = 0;
    while i < n
        invariant
            i <= n == s@.len(),
            forall|j: int| 0 <= j < i ==> s@[j] != '/' && s@[j] != '@',
        decreases n - i,
    {
        let c = s.get_char(i);
        if c == '/' || c == '@' {
            return false;
        }
        i = i + 1;
    }
    true
}

/// Authentication material for one repository.
pub struct Credential {
    username: String,
    password: String,
}

impl Credential {
    /// The username.
    pub closed spec fn spec_username(&self) -> Seq<char> {
        self.username@
    }

    /// The password.
    pub closed spec fn spec_password(&self) -> Seq<char> {
        self.password@
    }

    /// Both parts of every credential are free of separator characters.
    #[verifier::type_invariant]
    pub open spec fn type_inv(self) -> bool {
        credential_part(self.spec_username()) && credential_part(self.spec_password())
    }

    /// Builds a credential. Returns one exactly when neither part holds a
    /// `/` or `@`.
    pub fn new(username: String, password: String) -> (r: Option<Credential>)
        ensures
            match r {
                Option::Some(c) => {
                    &&& credential_part(username@)
                    &&& credential_part(password@)
                    &&& c.spec_username() == username@
                    &&& c.spec_password() == password@
                },
                Option::None => !(credential_part(username@) && credential_part(password@)),
            },
    {
        if !part_ok(username.as_str()) {
            return Option::None;
        }
        if !part_ok(password.as_str()) {
            return Option::None;
        }
        Option::Some(Credential { username, password })
    }

    /// Applies the credential to an address for network use: splices
    /// `user:pass@` in right after the scheme separator. By
    /// `lemma_canonical_ignores_credentials`, the canonical key of the
    /// result is that of the bare address.
    pub fn apply(&self, url: &str) -> (r: String)
        ensures
            r@ == with_credentials_seq(url@, self.spec_username(), self.spec_password()),
    {
        match find_sep(url) {
            Option::None => url.to_owned(),
            Option::Some(k) => {
                proof {
                    lemma_sep_from(url@, 0);
                }
                let n = url.unicode_len();
                let mut r = url.substring_char(0, k + 3).to_owned();
                r.append(self.username.as_str());
                r.append(":");
                r.append(self.password.as_str());
                r.append("@");
                r.append(url.substring_char(k + 3, n));
                proof {
                    reveal_strlit(":");
                    reveal_strlit("@");
                    assert(r@ =~= with_credentials_seq(
                        url@,
                        self.spec_username(),
                        self.spec_password(),
                    ));
                }
                r
            },
        }
    }
}

impl Clone for Credential {
    /// Clones the credential unchanged.
    fn clone(&self) -> (r: Self)
        ensures
            r == *self,
    {
        proof {
            use_type_invariant(self);
        }
        Credential { username: self.username.clone(), password: self.password.clone() }
    }
}

/// The first credential stored under a key, front to back.
pub open spec fn lookup_in(s: Seq<(String, Credential)>, key: Seq<char>) -> Option<Credential>
    decreases s.len(),
{
    if s.len() == 0 {
        Option::None
    } else if s[0].0@ == key {
        Option::Some(s[0].1)
    } else {
        lookup_in(s.drop_first(), key)
    }
}

/// A read-only lookup table from canonical keys to credentials, passed
/// explicitly into a fetch rather than held as ambient state.
pub struct CredentialStore {
    /// The stored entries; the first entry for a key wins.
    pub entries: Vec<(String, Credential)>,
}

impl CredentialStore {
    /// An empty store.
    pub fn new() -> (r: Self)
        ensures
            r.entries@.len() == 0,
    {
        CredentialStore { entries: Vec::new() }
    }

    /// Stores a credential under a canonical key.
    pub fn add(&mut self, key: String, credential: Credential)
        ensures
            final(self).entries@ == old(self).entries@.push((key, credential)),
    {
        self.entries.push((key, credential));
    }

    /// What a key resolves to.
    pub open spec fn spec_lookup(&self, key: Seq<char>) -> Option<Credential> {
        lookup_in(self.entries@, key)
    }

    /// Looks a canonical key up.
    pub fn lookup(&self, key: &String) -> (r: Option<&Credential>)
        ensures
            match r {
                Option::Some(c) => self.spec_lookup(key@) == Option::Some(*c),
                Option::None => self.spec_lookup(key@) is None,
            },
    {
        let n = self.entries.len();
        let mut i: usize = 0;
        proof {
            assert(self.entries@.skip(0) =~= self.entries@);
        }
        while i < n
            invariant
                i <= n == self.entries@.len(),
                lookup_in(self.entries@, key@) == lookup_in(self.entries@.skip(i as int), key@),
            decreases n - i,
        {
            proof {
                assert(self.entries@.skip(i as int)[0] == self.entries@[i as int]);
                assert(self.entries@.skip(i as int).drop_first() =~= self.entries@.skip(
                    i as int + 1,
                ));
            }
            let e = &self.entries[i];
            if e.0 == *key {
                return Option::Some(&e.1);
            }
            i = i + 1;
        }
        Option::None
    }
}

} // verus!
