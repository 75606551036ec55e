//! The fetch orchestrator: resolves a repository address plus reference
//! into a pinned commit and a materialized checkout path, answering from
//! the local mirror when it already holds the needed commit and updating
//! it over the network only when it does not.

use vstd::prelude::*;

use crate::canonical::{canonical_key_seq, with_credentials_seq, RepositoryUrl};
use crate::credentials::CredentialStore;
use crate::digest::{cache_digest, ident_seq};
use crate::identity::{is_oid_seq, rev_seq, GitOid, GitReference, GitUrl};

verus! {

/// Why a fetch failed.
#[derive(Clone, Copy, PartialEq, Eq, Debug)]
pub enum GitSourceError {
    /// The slow path was reached while offline; no network operation was
    /// attempted.
    Offline,
    /// The reference could not be resolved to a commit after an update.
    Resolution,
    /// The network transport failed during the update.
    Transport,
    /// A mirror or checkout write failed.
    Filesystem,
}

/// The mirror directory of a repository identity under the cache root.
pub open spec fn db_dir(cache: Seq<char>, ident: Seq<char>) -> Seq<char> {
    cache + seq!['/', 'd', 'b', '/'] + ident
}

/// The directory below which every checkout of one repository identity
/// lives, ending in a separator.
pub open spec fn checkout_prefix(cache: Seq<char>, ident: Seq<char>) -> Seq<char> {
    cache + seq!['/', 'c', 'h', 'e', 'c', 'k', 'o', 'u', 't', 's', '/'] + ident + seq!['/']
}

/// The checkout directory of one resolved commit.
pub open spec fn checkout_dir(cache: Seq<char>, ident: Seq<char>, short: Seq<char>) -> Seq<char> {
    checkout_prefix(cache, ident) + short
}

/// A handle onto a local mirror of one repository: a bare historical
/// store that answers containment, derives short ids, and writes out
/// working trees, all without network access.
pub trait GitDatabase: Sized {
    /// The commits the mirror holds, by full identifier.
    spec fn commits(&self) -> Set<Seq<char>>;

    /// The short id the mirror derives for a commit: a function of the
    /// mirror state and the commit alone.
    spec fn short_of(&self, oid: Seq<char>) -> Seq<char>;

    /// The working trees written through this handle: destination path to
    /// the commit whose tree stands there.
    spec fn writes(&self) -> Map<Seq<char>, Seq<char>>;

    /// Whether the mirror holds a commit; a pure local query.
    fn contains(&self, oid: &GitOid) -> (r: bool)
        ensures
            r == self.commits().contains(oid@),
    ;

    /// Derives the short form of a commit identifier: deterministic for a
    /// given mirror state, a non-empty prefix of the full identifier, and
    /// used only to shorten filesystem paths, never to compare identity.
    fn to_short_id(&self, oid: &GitOid) -> (r: Result<String, GitSourceError>)
        requires
            self.commits().contains(oid@),
        ensures
            r matches Ok(s) ==> {
                &&& s@ == self.short_of(oid@)
                &&& 1 <= s@.len() <= oid@.len()
                &&& s@ == oid@.take(s@.len() as int)
            },
    ;

    /// Materializes the working tree of a commit at a destination path.
    /// On success the destination holds exactly that commit's tree; on
    /// failure no new destination is recorded, so a retry starts from an
    /// indistinguishable state. The mirror's history is never changed.
    fn copy_to(&mut self, oid: &GitOid, destination: &String) -> (r: Result<(), GitSourceError>)
        requires
            old(self).commits().contains(oid@),
        ensures
            final(self).commits() == old(self).commits(),
            forall|o: Seq<char>| final(self).short_of(o) == old(self).short_of(o),
            r matches Ok(_) ==> final(self).writes() == old(self).writes().insert(
                destination@,
                oid@,
            ),
            r matches Err(_) ==> final(self).writes() == old(self).writes(),
    ;
}

/// A handle onto the remote side of repositories: opens mirrors under the
/// cache and performs the network update that grows one.
pub trait GitRemote<M: GitDatabase, C>: Sized {
    /// The mirrors reachable through this remote, keyed by mirror path,
    /// each with the commits it holds.
    spec fn databases(&self) -> Map<Seq<char>, Set<Seq<char>>>;

    /// How many network updates this remote has performed.
    spec fn update_count(&self) -> nat;

    /// Opens the mirror at a path, if one exists; absence is not an
    /// error. No network access.
    fn db_at(&self, path: &String) -> (r: Option<M>)
        ensures
            r matches Some(db) ==> self.databases().contains_key(path@) && db.commits()
                == self.databases()[path@],
            r is None ==> !self.databases().contains_key(path@),
    ;

    /// Updates (or creates) the mirror at a path against a reference and
    /// optional locked commit. Refuses the network when offline, as
    /// defense in depth beside the orchestrator's own check. On success
    /// the mirror has grown to hold the resolved commit, and a locked
    /// commit resolves to exactly itself. On failure the mirrors stand as
    /// they were. Mirrors at other paths are never touched.
    fn checkout(
        &mut self,
        path: &String,
        existing: Option<M>,
        reference: &GitReference,
        precise: &Option<GitOid>,
        client: &C,
        disable_ssl: bool,
        offline: bool,
    ) -> (r: Result<(M, GitOid), GitSourceError>)
        ensures
            offline ==> {
                &&& r matches Err(GitSourceError::Offline)
                &&& final(self).databases() == old(self).databases()
                &&& final(self).update_count() == old(self).update_count()
            },
            !offline ==> final(self).update_count() == old(self).update_count() + 1,
            final(self).databases().remove(path@) == old(self).databases().remove(path@),
            r matches Ok(pair) ==> {
                &&& is_oid_seq(pair.1@)
                &&& final(self).databases().contains_key(path@)
                &&& pair.0.commits() == final(self).databases()[path@]
                &&& pair.0.commits().contains(pair.1@)
                &&& (old(self).databases().contains_key(path@) ==> old(
                    self,
                ).databases()[path@].subset_of(pair.0.commits()))
                &&& (precise matches Some(p) ==> pair.1@ == p@)
            },
            r matches Err(_) ==> final(self).databases() == old(self).databases(),
    ;
}

/// Progress callbacks around operations that required network access; a
/// reporter records one event per call, and the correlation token a start
/// returns is handed back to the matching completion.
pub trait Reporter: Sized {
    /// The recorded start events: network-facing address, revision
    /// description, correlation token.
    spec fn starts(&self) -> Seq<(Seq<char>, Seq<char>, int)>;

    /// The recorded completion events: network-facing address, resolved
    /// commit, correlation token.
    spec fn completes(&self) -> Seq<(Seq<char>, Seq<char>, int)>;

    /// Callback to invoke when a repository checkout begins.
    fn on_checkout_start(&mut self, url: &String, rev: &str) -> (token: usize)
        ensures
            final(self).starts() == old(self).starts().push((url@, rev@, token as int)),
            final(self).completes() == old(self).completes(),
    ;

    /// Callback to invoke when a repository checkout completes.
    fn on_checkout_complete(&mut self, url: &String, rev: &str, index: usize)
        ensures
            final(self).completes() == old(self).completes().push((url@, rev@, index as int)),
            final(self).starts() == old(self).starts(),
    ;
}

/// The second half of the fast-path decision: a commit-ish reference
/// string that is a full identifier the mirror holds is treated as
/// implicitly locked.
pub open spec fn commitish_cached(commits: Set<Seq<char>>, reference: GitReference) -> Option<
    Seq<char>,
> {
    match reference {
        GitReference::BranchOrTagOrCommit(s) => if is_oid_seq(s@) && commits.contains(s@) {
            Some(s@)
        } else {
            None
        },
        _ => None,
    }
}

/// The fast-path decision: a commit an existing mirror already answers
/// with. A locked commit the mirror holds wins; else a commit-ish
/// reference string the mirror holds; else an update is needed.
pub open spec fn cached_commit_spec(
    commits: Set<Seq<char>>,
    precise: Option<GitOid>,
    reference: GitReference,
) -> Option<Seq<char>> {
    match precise {
        Some(p) => if commits.contains(p@) {
            Some(p@)
        } else {
            commitish_cached(commits, reference)
        },
        None => commitish_cached(commits, reference),
    }
}

/// A locked commit already present in the mirror is answered from cache.
pub proof fn lemma_locked_commit_is_cached(
    commits: Set<Seq<char>>,
    p: GitOid,
    reference: GitReference,
)
    requires
        commits.contains(p@),
    ensures
        cached_commit_spec(commits, Some(p), reference) == Some(p@),
{
}

/// A commit-ish reference string that is a full commit identifier already
/// present in the mirror is treated exactly like a locked commit.
pub proof fn lemma_commitish_reference_is_cached(commits: Set<Seq<char>>, s: String)
    requires
        is_oid_seq(s@),
        commits.contains(s@),
    ensures
        cached_commit_spec(commits, None, GitReference::BranchOrTagOrCommit(s)) == Some(s@),
{
}

/// Decides the fast path against an open mirror.
fn cached_commit<M: GitDatabase>(
    db: &M,
    precise: &Option<GitOid>,
    reference: &GitReference,
) -> (r: Option<GitOid>)
    ensures
        match r {
            Some(oid) => cached_commit_spec(db.commits(), *precise, *reference) == Some(oid@),
            None => cached_commit_spec(db.commits(), *precise, *reference) is None,
        },
{
    match precise {
        Some(p) => {
            if db.contains(p) {
                return Some(p.clone());
            }
        },
        None => {},
    }
    match reference {
        GitReference::BranchOrTagOrCommit(s) => {
            match GitOid::parse(s.as_str()) {
                Some(oid) => {
                    if db.contains(&oid) {
                        return Some(oid);
                    }
                },
                None => {},
            }
        },
        _ => {},
    }
    None
}

/// Joins the cache root and an identity into a mirror path.
fn db_path_of(cache: &String, ident: &String) -> (r: String)
    ensures
        r@ == db_dir(cache@, ident@),
{
    let mut r = cache.clone();
    r.append("/db/");
    r.append(ident.as_str());
    proof {
        reveal_strlit("/db/");
        assert(r@ =~= db_dir(cache@, ident@));
    }
    r
}

/// Joins the cache root, an identity and a short id into a checkout path.
fn checkout_path_of(cache: &String, ident: &String, short: &str) -> (r: String)
    ensures
        r@ == checkout_dir(cache@, ident@, short@),
{
    let mut r = cache.clone();
    r.append("/checkouts/");
    r.append(ident.as_str());
    r.append("/");
    r.append(short);
    proof {
        reveal_strlit("/checkouts/");
        reveal_strlit("/");
        assert(r@ =~= checkout_dir(cache@, ident@, short@));
    }
    r
}

/// A remote Git source that can be checked out locally.
pub struct GitSource<C, Rep> {
    /// The Git reference to fetch.
    pub git: GitUrl,
    /// The network client handed through to the remote: opaque transport
    /// configuration to this crate.
    pub client: C,
    /// Whether to disable TLS certificate verification.
    pub disable_ssl: bool,
    /// Whether to operate without network connectivity.
    pub offline: bool,
    /// The cache root below which mirrors and checkouts live.
    pub cache: String,
    /// The reporter to notify around network operations.
    pub reporter: Option<Rep>,
}

impl<C, Rep: Reporter> GitSource<C, Rep> {
    /// Initialize a `GitSource` with the given Git URL, client, and cache
    /// root.
    pub fn new(git: GitUrl, client: C, cache: String, offline: bool) -> (r: Self)
        ensures
            r.git == git,
            r.client == client,
            r.cache == cache,
            r.offline == offline,
            !r.disable_ssl,
            r.reporter is None,
    {
        GitSource { git, disable_ssl: false, offline, client, cache, reporter: None }
    }

    /// Disable TLS certificate verification for this source.
    #[must_use]
    pub fn dangerous(self) -> (r: Self)
        ensures
            r.git == self.git,
            r.client == self.client,
            r.cache == self.cache,
            r.offline == self.offline,
            r.disable_ssl,
            r.reporter == self.reporter,
    {
        GitSource { disable_ssl: true, ..self }
    }

    /// Set the reporter to notify around network operations.
    #[must_use]
    pub fn with_reporter(self, reporter: Rep) -> (r: Self)
        ensures
            r.git == self.git,
            r.client == self.client,
            r.cache == self.cache,
            r.offline == self.offline,
            r.disable_ssl == self.disable_ssl,
            r.reporter == Some(reporter),
    {
        GitSource { reporter: Some(reporter), ..self }
    }

    /// The canonical key of the repository address.
    pub open spec fn spec_key(&self) -> Seq<char> {
        canonical_key_seq(self.git.repository@)
    }

    /// The cache identity naming the mirror directory.
    pub open spec fn spec_ident(&self) -> Seq<char> {
        ident_seq(self.spec_key())
    }

    /// The mirror path under the cache root.
    pub open spec fn spec_db_path(&self) -> Seq<char> {
        db_dir(self.cache@, self.spec_ident())
    }

    /// The network-facing address: the repository address with stored
    /// credentials applied when the store holds any for its canonical
    /// key; the cache key never sees them.
    pub open spec fn spec_remote_url(&self, store: CredentialStore) -> Seq<char> {
        match store.spec_lookup(self.spec_key()) {
            Some(c) => with_credentials_seq(
                self.git.repository@,
                c.spec_username(),
                c.spec_password(),
            ),
            None => self.git.repository@,
        }
    }

    /// The commit an existing mirror already answers with, if any.
    pub open spec fn spec_cached(&self, dbs: Map<Seq<char>, Set<Seq<char>>>) -> Option<Seq<char>> {
        if dbs.contains_key(self.spec_db_path()) {
            cached_commit_spec(dbs[self.spec_db_path()], self.git.precise, self.git.reference)
        } else {
            None
        }
    }

    /// Fetch the repository at its reference: canonicalize the address,
    /// answer from the mirror when it already holds the needed commit
    /// (no network, no reporter), otherwise update the mirror over the
    /// network, then materialize the checkout and pin the identity.
    pub fn fetch<M: GitDatabase, R: GitRemote<M, C>>(
        &mut self,
        remote: &mut R,
        store: &CredentialStore,
    ) -> (r: Result<Fetch, GitSourceError>)
        ensures
            final(self).git == old(self).git,
            final(self).client == old(self).client,
            final(self).cache == old(self).cache,
            final(self).offline == old(self).offline,
            final(self).disable_ssl == old(self).disable_ssl,
            // fast path: no network, no reporter event
            old(self).spec_cached(old(remote).databases()) matches Some(c) ==> {
                &&& final(remote).databases() == old(remote).databases()
                &&& final(remote).update_count() == old(remote).update_count()
                &&& final(self).reporter == old(self).reporter
                &&& (r matches Ok(f) ==> f.git.precise matches Some(p) && p@ == c)
            },
            // offline with nothing cached: refused before any mutation
            old(self).spec_cached(old(remote).databases()) is None && old(self).offline ==> {
                &&& r matches Err(GitSourceError::Offline)
                &&& final(remote).databases() == old(remote).databases()
                &&& final(remote).update_count() == old(remote).update_count()
                &&& final(self).reporter == old(self).reporter
            },
            // slow path: one update, reporter paired around it
            old(self).spec_cached(old(remote).databases()) is None && !old(self).offline ==> {
                &&& final(remote).update_count() == old(remote).update_count() + 1
                &&& final(remote).databases().remove(old(self).spec_db_path()) == old(
                    remote,
                ).databases().remove(old(self).spec_db_path())
                &&& (r matches Ok(f) ==> f.git.precise matches Some(p) && (old(
                    self,
                ).git.precise matches Some(q) ==> p@ == q@))
                &&& match (old(self).reporter, final(self).reporter) {
                    (Some(r0), Some(r1)) => {
                        &&& (r matches Ok(f) ==> f.git.precise matches Some(p) && ({
                            let t = r1.starts().last().2;
                            &&& r1.starts() == r0.starts().push(
                                (
                                    old(self).spec_remote_url(*store),
                                    rev_seq(old(self).git.reference),
                                    t,
                                ),
                            )
                            &&& r1.completes() == r0.completes().push(
                                (old(self).spec_remote_url(*store), p@, t),
                            )
                        }))
                        &&& (r is Err ==> r1.completes() == r0.completes() && r1.starts()
                            == r0.starts().push(
                            (
                                old(self).spec_remote_url(*store),
                                rev_seq(old(self).git.reference),
                                r1.starts().last().2,
                            ),
                        ))
                    },
                    (None, None) => true,
                    _ => false,
                }
            },
            // what a successful fetch hands back, on either path
            r matches Ok(f) ==> {
                &&& f.git.repository == old(self).git.repository
                &&& f.git.reference == old(self).git.reference
                &&& f.git.precise matches Some(p) && {
                    &&& is_oid_seq(p@)
                    &&& final(remote).databases().contains_key(old(self).spec_db_path())
                    &&& final(remote).databases()[old(self).spec_db_path()].contains(p@)
                    &&& ({
                        let pre = checkout_prefix(old(self).cache@, old(self).spec_ident());
                        let short = f.path@.skip(pre.len() as int);
                        &&& f.path@ == pre + short
                        &&& 1 <= short.len() <= p@.len()
                        &&& short == p@.take(short.len() as int)
                    })
                }
            },
    {
        let canonical = RepositoryUrl::new(self.git.repository.as_str());
        let ident = cache_digest(&canonical);
        let db_path = db_path_of(&self.cache, &ident);
        proof {
            assert(db_path@ == old(self).spec_db_path());
        }

        // Authenticate the network-facing address, if credentials are stored.
        let remote_url: String = match store.lookup(&canonical.key) {
            Some(credentials) => credentials.apply(self.git.repository.as_str()),
            None => self.git.repository.clone(),
        };
        proof {
            assert(remote_url@ == old(self).spec_remote_url(*store));
        }

        let maybe_db: Option<M> = remote.db_at(&db_path);
        let cached: Option<GitOid> = match &maybe_db {
            Some(db) => cached_commit(db, &self.git.precise, &self.git.reference),
            None => None,
        };
        let ghost decision = old(self).spec_cached(old(remote).databases());

        match cached {
            Some(actual) => {
                // Fast path: the mirror already holds the commit.
                proof {
                    assert(decision == Some(actual@));
                    use_type_invariant(&actual);
                }
                let mut db = maybe_db.unwrap();
                let short = match db.to_short_id(&actual) {
                    Ok(s) => s,
                    Err(e) => {
                        return Err(e);
                    },
                };
                let checkout_path = checkout_path_of(&self.cache, &ident, short.as_str());
                match db.copy_to(&actual, &checkout_path) {
                    Ok(_) => {},
                    Err(e) => {
                        return Err(e);
                    },
                }
                proof {
                    assert(checkout_path@.skip(
                        checkout_prefix(old(self).cache@, old(self).spec_ident()).len() as int,
                    ) =~= short@);
                }
                let g = self.git.clone();
                Ok(Fetch { git: g.with_precise(actual), path: checkout_path })
            },
            None => {
                proof {
                    assert(decision is None);
                }
                // Slow path: the mirror must be updated over the network.
                if self.offline {
                    return Err(GitSourceError::Offline);
                }
                let rev_desc = self.git.reference.as_rev().to_owned();
                let mut rep = self.reporter.take();
                let mut token: usize = 0;
                match &mut rep {
                    Some(r0) => {
                        token = r0.on_checkout_start(&remote_url, rev_desc.as_str());
                    },
                    None => {},
                }
                let upd = remote.checkout(
                    &db_path,
                    maybe_db,
                    &self.git.reference,
                    &self.git.precise,
                    &self.client,
                    self.disable_ssl,
                    self.offline,
                );
                match upd {
                    Err(e) => {
                        self.reporter = rep;
                        return Err(e);
                    },
                    Ok((db2, actual)) => {
                        let mut db2 = db2;
                        let short = match db2.to_short_id(&actual) {
                            Ok(s) => s,
                            Err(e) => {
                                self.reporter = rep;
                                return Err(e);
                            },
                        };
                        let checkout_path = checkout_path_of(&self.cache, &ident, short.as_str());
                        match db2.copy_to(&actual, &checkout_path) {
                            Ok(_) => {},
                            Err(e) => {
                                self.reporter = rep;
                                return Err(e);
                            },
                        }
                        match &mut rep {
                            Some(r1) => {
                                r1.on_checkout_complete(&remote_url, actual.as_str(), token);
                            },
                            None => {},
                        }
                        self.reporter = rep;
                        proof {
                            assert(checkout_path@.skip(
                                checkout_prefix(
                                    old(self).cache@,
                                    old(self).spec_ident(),
                                ).len() as int,
                            ) =~= short@);
                        }
                        let g = self.git.clone();
                        Ok(Fetch { git: g.with_precise(actual), path: checkout_path })
                    },
                }
            },
        }
    }
}

/// The result of a fetch: the identity with its precise commit pinned,
/// and the path of the materialized checkout.
pub struct Fetch {
    /// The address that was fetched, with `precise` set.
    pub git: GitUrl,
    /// The path of the checked out working tree.
    pub path: String,
}

impl Fetch {
    /// The fetched identity.
    pub fn git(&self) -> (r: &GitUrl)
        ensures
            *r == self.git,
    {
        &self.git
    }

    /// The checkout path.
    pub fn path(&self) -> (r: &String)
        ensures
            *r == self.path,
    {
        &self.path
    }

    /// The fetched identity, by value.
    pub fn into_git(self) -> (r: GitUrl)
        ensures
            r == self.git,
    {
        self.git
    }

    /// The checkout path, by value.
    pub fn into_path(self) -> (r: String)
        ensures
            r == self.path,
    {
        self.path
    }
}

/// Once a fetch has pinned an identity, resolving that identity again
/// against any remote whose mirror still holds the pinned commit — as a
/// successful fetch guarantees of its own remote — is answered from
/// cache: the fast path applies, so no network access is needed.
pub proof fn lemma_pinned_refetch_is_cached<C, Rep: Reporter>(
    next: GitSource<C, Rep>,
    dbs: Map<Seq<char>, Set<Seq<char>>>,
)
    requires
        next.git.precise matches Some(p),
        dbs.contains_key(next.spec_db_path()),
        dbs[next.spec_db_path()].contains(next.git.precise->0@),
    ensures
        next.spec_cached(dbs) == Some(next.git.precise->0@),
{
}

/// The cache identity and mirror path depend on the repository address
/// alone, never on the reference or a pinned commit: every reference to
/// one repository shares one mirror.
pub proof fn lemma_ident_independent_of_reference<C, Rep: Reporter>(
    a: GitSource<C, Rep>,
    b: GitSource<C, Rep>,
)
    requires
        a.git.repository@ == b.git.repository@,
        a.cache@ == b.cache@,
    ensures
        a.spec_ident() == b.spec_ident(),
        a.spec_db_path() == b.spec_db_path(),
{
}

} // verus!
