//! The identity model: a resolved commit identifier, a symbolic reference,
//! and a repository address carrying both.

use vstd::prelude::*;

use crate::digest::is_lower_hex_char;

verus! {

/// A full commit identifier: exactly 40 lowercase hexadecimal characters.
pub open spec fn is_oid_seq(s: Seq<char>) -> bool {
    &&& s.len() == 40
    &&& forall|i: int| 0 <= i < s.len() ==> is_lower_hex_char(#[trigger] s[i])
}

/// A resolved commit identifier: a full 40-character hexadecimal hash.
/// Only the full identifier is authoritative for identity; short forms
/// exist solely to shorten filesystem paths.
pub struct GitOid {
    hex: String,
}

impl View for GitOid {
    type V = Seq<char>;

    closed spec fn view(&self) -> Seq<char> {
        self.hex@
    }
}

impl GitOid {
    /// Every value of the type is a full, well-formed identifier.
    #[verifier::type_invariant]
    pub open spec fn type_inv(self) -> bool {
        is_oid_seq(self.view())
    }

    /// Parses a string as a full commit hash. Returns the identifier
    /// exactly when the string is 40 lowercase hexadecimal characters;
    /// anything else is simply not a commit identifier.
    pub fn parse(s: &str) -> (r: Option<GitOid>)
        ensures
            match r {
                Option::Some(oid) => is_oid_seq(s@) && oid@ == s@,
                Option::None => !is_oid_seq(s@),
            },
    {
        let n = s.unicode_len();
        if n != 40 {
            return Option::None;
        }
        let mut i: usize = 0;
        while i < n
            invariant
                i <= n == s@.len(),
                n == 40,
                forall|j: int| 0 <= j < i ==> is_lower_hex_char(#[trigger] s@[j]),
            decreases n - i,
        {
            let c = s.get_char(i);
            if !(('0' <= c && c <= '9') || ('a' <= c && c <= 'f')) {
                return Option::None;
            }
            i = i + 1;
        }
        Option::Some(GitOid { hex: s.to_owned() })
    }

    /// Whether two identifiers name the same commit: equality of the
    /// full hexadecimal forms.
    pub fn same_as(&self, other: &GitOid) -> (r: bool)
        ensures
            r == (self@ == other@),
    {
        self.hex == other.hex
    }

    /// The full hexadecimal form.
    pub fn as_str(&self) -> (r: &str)
        ensures
            r@ == self@,
    {
        self.hex.as_str()
    }
}

impl Clone for GitOid {
    /// Clones the identifier unchanged.
    fn clone(&self) -> (r: Self)
        ensures
            r == *self,
    {
        proof {
            use_type_invariant(self);
        }
        GitOid { hex: self.hex.clone() }
    }
}

/// A symbolic reference into a repository. A reference does not by itself
/// pin one immutable snapshot.
pub enum GitReference {
    /// A named branch.
    Branch(String),
    /// A named tag.
    Tag(String),
    /// A string that may name a branch, a tag, or a full commit.
    BranchOrTagOrCommit(String),
    /// The remote's default branch.
    DefaultBranch,
}

/// The human-readable revision description of a reference: the name
/// itself, or `HEAD` for the default branch.
pub open spec fn rev_seq(r: GitReference) -> Seq<char> {
    match r {
        GitReference::Branch(s) => s@,
        GitReference::Tag(s) => s@,
        GitReference::BranchOrTagOrCommit(s) => s@,
        GitReference::DefaultBranch => seq!['H', 'E', 'A', 'D'],
    }
}

impl GitReference {
    /// The revision description handed to progress reporting.
    pub fn as_rev(&self) -> (r: &str)
        ensures
            r@ == rev_seq(*self),
    {
        match self {
            GitReference::Branch(s) => s.as_str(),
            GitReference::Tag(s) => s.as_str(),
            GitReference::BranchOrTagOrCommit(s) => s.as_str(),
            GitReference::DefaultBranch => {
                let h = "HEAD";
                proof {
                    reveal_strlit("HEAD");
                    assert(h@ =~= seq!['H', 'E', 'A', 'D']);
                }
                h
            },
        }
    }
}

impl Clone for GitReference {
    /// Clones the reference unchanged.
    fn clone(&self) -> (r: Self)
        ensures
            r == *self,
    {
        match self {
            GitReference::Branch(s) => GitReference::Branch(s.clone()),
            GitReference::Tag(s) => GitReference::Tag(s.clone()),
            GitReference::BranchOrTagOrCommit(s) => GitReference::BranchOrTagOrCommit(s.clone()),
            GitReference::DefaultBranch => GitReference::DefaultBranch,
        }
    }
}

/// A repository address together with the reference to fetch and, once a
/// fetch has pinned one, a precise commit.
pub struct GitUrl {
    /// The remote repository address.
    pub repository: String,
    /// The symbolic reference to fetch.
    pub reference: GitReference,
    /// The exact commit, once a fetch has pinned one.
    pub precise: Option<GitOid>,
}

impl GitUrl {
    /// A fresh address with no pinned commit.
    pub fn new(repository: String, reference: GitReference) -> (r: Self)
        ensures
            r.repository == repository,
            r.reference == reference,
            r.precise is None,
    {
        GitUrl { repository, reference, precise: Option::None }
    }

    /// The repository address.
    pub fn repository(&self) -> (r: &String)
        ensures
            *r == self.repository,
    {
        &self.repository
    }

    /// The reference.
    pub fn reference(&self) -> (r: &GitReference)
        ensures
            *r == self.reference,
    {
        &self.reference
    }

    /// The pinned commit, if any.
    pub fn precise(&self) -> (r: &Option<GitOid>)
        ensures
            *r == self.precise,
    {
        &self.precise
    }

    /// The same address pinned to an exact commit: a functional update,
    /// the original value is consumed, never mutated in place.
    pub fn with_precise(self, precise: GitOid) -> (r: Self)
        ensures
            r.repository == self.repository,
            r.reference == self.reference,
            r.precise == Option::Some(precise),
    {
        GitUrl { precise: Option::Some(precise), ..self }
    }
}

impl Clone for GitUrl {
    /// Clones the address unchanged.
    fn clone(&self) -> (r: Self)
        ensures
            r == *self,
    {
        GitUrl {
            repository: self.repository.clone(),
            reference: self.reference.clone(),
            precise: match &self.precise {
                Option::Some(oid) => Option::Some(oid.clone()),
                Option::None => Option::None,
            },
        }
    }
}

} // verus!
