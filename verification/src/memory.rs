//! In-memory doubles for the mirror, remote, and reporter capabilities:
//! fixture-backed implementations the orchestrator can be exercised
//! against without touching a filesystem or the network.

use vstd::prelude::*;

use crate::identity::{is_oid_seq, GitOid, GitReference};
use crate::source::{GitDatabase, GitRemote, GitSourceError, Reporter};

verus! {

/// The set of full identifiers held in a commit list.
pub open spec fn oid_set(s: Seq<GitOid>) -> Set<Seq<char>>
    decreases s.len(),
{
    if s.len() == 0 {
        Set::empty()
    } else {
        oid_set(s.drop_last()).insert(s.last()@)
    }
}

/// Membership in `oid_set` is membership at some index.
pub proof fn lemma_oid_set_contains(s: Seq<GitOid>, x: Seq<char>)
    ensures
        oid_set(s).contains(x) <==> exists|j: int| 0 <= j < s.len() && (#[trigger] s[j])@ == x,
    decreases s.len(),
{
    if s.len() > 0 {
        lemma_oid_set_contains(s.drop_last(), x);
        if s.last()@ == x {
            assert((s[s.len() - 1])@ == x);
        } else if oid_set(s.drop_last()).contains(x) {
            let j = choose|j: int| 0 <= j < s.drop_last().len() && (#[trigger] s.drop_last()[j])@
                == x;
            assert((s[j])@ == x);
        } else {
            assert forall|j: int| 0 <= j < s.len() implies (#[trigger] s[j])@ != x by {
                if j < s.len() - 1 {
                    assert(s.drop_last()[j] == s[j]);
                }
            }
        }
    }
}

/// The working trees written, destination path to commit, latest write
/// winning.
pub open spec fn write_map(s: Seq<(String, GitOid)>) -> Map<Seq<char>, Seq<char>>
    decreases s.len(),
{
    if s.len() == 0 {
        Map::empty()
    } else {
        write_map(s.drop_last()).insert(s.last().0@, s.last().1@)
    }
}

/// Materializing the same commit at the same destination twice leaves
/// exactly the state one materialization leaves.
pub proof fn lemma_checkout_idempotent(
    w: Map<Seq<char>, Seq<char>>,
    destination: Seq<char>,
    oid: Seq<char>,
)
    ensures
        w.insert(destination, oid).insert(destination, oid) == w.insert(destination, oid),
{
    assert(w.insert(destination, oid).insert(destination, oid) =~= w.insert(destination, oid));
}

/// An in-memory mirror of one repository.
pub struct InMemoryMirror {
    /// The commits the mirror holds.
    pub commit_list: Vec<GitOid>,
    /// The working trees written out: destination path and commit.
    pub written: Vec<(String, GitOid)>,
}

impl InMemoryMirror {
    /// An empty mirror.
    pub fn new() -> (r: Self)
        ensures
            r.commit_list@.len() == 0,
            r.written@.len() == 0,
    {
        InMemoryMirror { commit_list: Vec::new(), written: Vec::new() }
    }

    /// Records one more commit as held.
    pub fn add_commit(&mut self, oid: GitOid)
        ensures
            final(self).commit_list@ == old(self).commit_list@.push(oid),
            final(self).written == old(self).written,
            oid_set(final(self).commit_list@) == oid_set(old(self).commit_list@).insert(oid@),
    {
        self.commit_list.push(oid);
        proof {
            assert(self.commit_list@.drop_last() =~= old(self).commit_list@);
        }
    }
}

impl Clone for InMemoryMirror {
    /// Clones the mirror; the copy holds the same commits and writes.
    fn clone(&self) -> (r: Self)
        ensures
            r.commit_list@ == self.commit_list@,
            r.written@ == self.written@,
    {
        let n = self.commit_list.len();
        let mut commit_list: Vec<GitOid> = Vec::new();
        let mut i: usize = 0;
        while i < n
            invariant
                i <= n == self.commit_list@.len(),
                commit_list@ == self.commit_list@.take(i as int),
            decreases n - i,
        {
            let c = &self.commit_list[i];
            commit_list.push(c.clone());
            proof {
                assert(self.commit_list@.take(i + 1) =~= self.commit_list@.take(i as int).push(
                    self.commit_list@[i as int],
                ));
            }
            i = i + 1;
        }
        let m = self.written.len();
        let mut written: Vec<(String, GitOid)> = Vec::new();
        let mut j: usize = 0;
        while j < m
            invariant
                j <= m == self.written@.len(),
                written@ == self.written@.take(j as int),
            decreases m - j,
        {
            let e = &self.written[j];
            written.push((e.0.clone(), e.1.clone()));
            proof {
                assert(self.written@.take(j + 1) =~= self.written@.take(j as int).push(
                    self.written@[j as int],
                ));
            }
            j = j + 1;
        }
        proof {
            assert(self.commit_list@.take(n as int) =~= self.commit_list@);
            assert(self.written@.take(m as int) =~= self.written@);
        }
        InMemoryMirror { commit_list, written }
    }
}

impl GitDatabase for InMemoryMirror {
    open spec fn commits(&self) -> Set<Seq<char>> {
        oid_set(self.commit_list@)
    }

    open spec fn short_of(&self, oid: Seq<char>) -> Seq<char> {
        oid.take(16)
    }

    open spec fn writes(&self) -> Map<Seq<char>, Seq<char>> {
        write_map(self.written@)
    }

    fn contains(&self, oid: &GitOid) -> (r: bool) {
        let n = self.commit_list.len();
        let mut i: usize = 0;
        while i < n
            invariant
                i <= n == self.commit_list@.len(),
                forall|j: int| 0 <= j < i ==> (#[trigger] self.commit_list@[j])@ != oid@,
            decreases n - i,
        {
            let c = &self.commit_list[i];
            if c.same_as(oid) {
                proof {
                    lemma_oid_set_contains(self.commit_list@, oid@);
                    assert((self.commit_list@[i as int])@ == oid@);
                }
                return true;
            }
            i = i + 1;
        }
        proof {
            lemma_oid_set_contains(self.commit_list@, oid@);
        }
        false
    }

    fn to_short_id(&self, oid: &GitOid) -> (r: Result<String, GitSourceError>) {
        proof {
            use_type_invariant(oid);
        }
        let s = oid.as_str();
        let short = s.substring_char(0, 16);
        proof {
            assert(oid@.subrange(0, 16) =~= oid@.take(16));
        }
        Ok(short.to_owned())
    }

    fn copy_to(&mut self, oid: &GitOid, destination: &String) -> (r: Result<
        (),
        GitSourceError,
    >) {
        self.written.push((destination.clone(), oid.clone()));
        proof {
            assert(self.written@.drop_last() =~= old(self).written@);
        }
        Ok(())
    }
}

/// An in-memory remote for a single repository: it serves one mirror
/// directory and resolves references against a scripted set of tips.
pub struct InMemoryRemote {
    /// The one mirror this remote serves, with its path, once created.
    pub mirror: Option<(String, InMemoryMirror)>,
    /// Named branch and tag tips on the remote side.
    pub refs: Vec<(String, GitOid)>,
    /// The tip of the default branch.
    pub default_tip: GitOid,
    /// How many network updates were performed, observable by callers;
    /// saturates instead of overflowing.
    pub updates: usize,
    /// The same count as the specification tracks it.
    pub update_log: Ghost<nat>,
}

impl InMemoryRemote {
    /// A fresh remote whose default branch stands at `default_tip`.
    pub fn new(default_tip: GitOid) -> (r: Self)
        ensures
            r.mirror is None,
            r.refs@.len() == 0,
            r.default_tip == default_tip,
            r.updates == 0,
            r.update_log@ == 0,
    {
        InMemoryRemote {
            mirror: None,
            refs: Vec::new(),
            default_tip,
            updates: 0,
            update_log: Ghost(0),
        }
    }

    /// Scripts a named branch or tag tip on the remote side.
    pub fn add_ref(&mut self, name: String, oid: GitOid)
        ensures
            final(self).refs@ == old(self).refs@.push((name, oid)),
            final(self).mirror == old(self).mirror,
            final(self).default_tip == old(self).default_tip,
            final(self).updates == old(self).updates,
            final(self).update_log == old(self).update_log,
    {
        self.refs.push((name, oid));
    }

    /// Looks a named tip up.
    fn lookup_ref(&self, name: &String) -> (r: Result<GitOid, GitSourceError>)
        ensures
            r matches Ok(oid) ==> is_oid_seq(oid@),
    {
        let n = self.refs.len();
        let mut i: usize = 0;
        while i < n
            invariant
                i <= n == self.refs@.len(),
            decreases n - i,
        {
            let e = &self.refs[i];
            if e.0 == *name {
                proof {
                    use_type_invariant(&e.1);
                }
                return Ok(e.1.clone());
            }
            i = i + 1;
        }
        Err(GitSourceError::Resolution)
    }

    /// Resolves a reference against the scripted tips: a locked commit
    /// resolves to itself, the default branch to its tip, a name to its
    /// scripted tip, and a commit-ish string to the commit it spells.
    fn resolve(&self, reference: &GitReference, precise: &Option<GitOid>) -> (r: Result<
        GitOid,
        GitSourceError,
    >)
        ensures
            r matches Ok(oid) ==> is_oid_seq(oid@) && (precise matches Some(p) ==> oid@ == p@),
    {
        match precise {
            Some(p) => {
                proof {
                    use_type_invariant(p);
                }
                return Ok(p.clone());
            },
            None => {},
        }
        match reference {
            GitReference::DefaultBranch => {
                proof {
                    use_type_invariant(&self.default_tip);
                }
                Ok(self.default_tip.clone())
            },
            GitReference::Branch(name) => self.lookup_ref(name),
            GitReference::Tag(name) => self.lookup_ref(name),
            GitReference::BranchOrTagOrCommit(name) => {
                match self.lookup_ref(name) {
                    Ok(oid) => Ok(oid),
                    Err(_) => match GitOid::parse(name.as_str()) {
                        Some(oid) => Ok(oid),
                        None => Err(GitSourceError::Resolution),
                    },
                }
            },
        }
    }
}

/// The mirror map an in-memory remote serves: at most one entry.
pub open spec fn remote_dbs(r: InMemoryRemote) -> Map<Seq<char>, Set<Seq<char>>> {
    match r.mirror {
        Some(pair) => Map::empty().insert(pair.0@, oid_set(pair.1.commit_list@)),
        None => Map::empty(),
    }
}

impl<C> GitRemote<InMemoryMirror, C> for InMemoryRemote {
    open spec fn databases(&self) -> Map<Seq<char>, Set<Seq<char>>> {
        remote_dbs(*self)
    }

    open spec fn update_count(&self) -> nat {
        self.update_log@
    }

    fn db_at(&self, path: &String) -> (r: Option<InMemoryMirror>) {
        match &self.mirror {
            Some(pair) => {
                if pair.0 == *path {
                    Some(pair.1.clone())
                } else {
                    None
                }
            },
            None => None,
        }
    }

    fn checkout(
        &mut self,
        path: &String,
        _existing: Option<InMemoryMirror>,
        reference: &GitReference,
        precise: &Option<GitOid>,
        _client: &C,
        _disable_ssl: bool,
        offline: bool,
    ) -> (r: Result<(InMemoryMirror, GitOid), GitSourceError>) {
        if offline {
            return Err(GitSourceError::Offline);
        }
        self.update_log = Ghost(self.update_log@ + 1);
        if self.updates < usize::MAX {
            self.updates = self.updates + 1;
        }
        let resolved = match self.resolve(reference, precise) {
            Ok(oid) => oid,
            Err(e) => {
                return Err(e);
            },
        };
        let slot = self.mirror.take();
        match slot {
            Some(pair) => {
                if pair.0 == *path {
                    let (p, mut m) = pair;
                    m.add_commit(resolved.clone());
                    let handle = m.clone();
                    self.mirror = Some((p, m));
                    proof {
                        assert(remote_dbs(*self).remove(path@) =~= remote_dbs(*old(self)).remove(
                            path@,
                        ));
                        assert(oid_set(old(self).mirror.unwrap().1.commit_list@).subset_of(
                            oid_set(self.mirror.unwrap().1.commit_list@),
                        ));
                    }
                    Ok((handle, resolved))
                } else {
                    // this fixture serves a single mirror directory
                    self.mirror = Some(pair);
                    Err(GitSourceError::Filesystem)
                }
            },
            None => {
                let mut m = InMemoryMirror::new();
                m.add_commit(resolved.clone());
                let handle = m.clone();
                self.mirror = Some((path.clone(), m));
                proof {
                    assert(remote_dbs(*self).remove(path@) =~= remote_dbs(*old(self)).remove(
                        path@,
                    ));
                }
                Ok((handle, resolved))
            },
        }
    }
}

/// A sequence of recorded reporter events, as the specification sees it.
pub open spec fn event_seq(s: Seq<(String, String, usize)>) -> Seq<(Seq<char>, Seq<char>, int)> {
    Seq::new(s.len(), |i: int| (s[i].0@, s[i].1@, s[i].2 as int))
}

/// A reporter that records every callback, with the token handed out at
/// a start equal to the number of starts before it.
pub struct RecordingReporter {
    /// Start events: address, revision description, token handed out.
    pub start_log: Vec<(String, String, usize)>,
    /// Completion events: address, resolved commit, token handed back.
    pub complete_log: Vec<(String, String, usize)>,
}

impl RecordingReporter {
    /// A reporter with nothing recorded yet.
    pub fn new() -> (r: Self)
        ensures
            r.start_log@.len() == 0,
            r.complete_log@.len() == 0,
    {
        RecordingReporter { start_log: Vec::new(), complete_log: Vec::new() }
    }
}

impl Reporter for RecordingReporter {
    open spec fn starts(&self) -> Seq<(Seq<char>, Seq<char>, int)> {
        event_seq(self.start_log@)
    }

    open spec fn completes(&self) -> Seq<(Seq<char>, Seq<char>, int)> {
        event_seq(self.complete_log@)
    }

    fn on_checkout_start(&mut self, url: &String, rev: &str) -> (token: usize) {
        let token = self.start_log.len();
        self.start_log.push((url.clone(), rev.to_owned(), token));
        proof {
            assert(event_seq(self.start_log@) =~= event_seq(old(self).start_log@).push(
                (url@, rev@, token as int),
            ));
        }
        token
    }

    fn on_checkout_complete(&mut self, url: &String, rev: &str, index: usize) {
        self.complete_log.push((url.clone(), rev.to_owned(), index));
        proof {
            assert(event_seq(self.complete_log@) =~= event_seq(old(self).complete_log@).push(
                (url@, rev@, index as int),
            ));
        }
    }
}

} // verus!
