//! Canonicalization of repository addresses.
//!
//! A canonical key is the address with three superficial variations folded
//! away: embedded credentials (the userinfo between the scheme separator and
//! the host), trailing slashes, and a final `.git` suffix. Two addresses that
//! name the same repository in these styles share one canonical key, hence
//! one cache identity.

use vstd::prelude::*;

use crate::scan::{
    char_back, char_from, lemma_char_back, lemma_char_back_exact, lemma_char_back_none,
    lemma_char_from, lemma_char_from_exact, lemma_char_from_none, lemma_sep_from,
    lemma_sep_from_exact, lemma_sep_from_none, sep_at, sep_from, find_sep, find_char,
    find_char_back,
};

verus! {

/// The address with any userinfo removed: inside the authority (between the
/// scheme separator and the first `/` that follows it), everything up to and
/// including the last `@` is dropped. Without a scheme separator or without
/// an `@` in the authority, the address is returned unchanged.
pub open spec fn strip_credentials_seq(s: Seq<char>) -> Seq<char> {
    match sep_from(s, 0) {
        Option::None => s,
        Option::Some(k) => {
            let a = k + 3;
            let end = match char_from(s, a, '/') {
                Option::Some(e) => e,
                Option::None => s.len() as int,
            };
            match char_back(s, a, end, '@') {
                Option::None => s,
                Option::Some(at) => s.take(a) + s.subrange(at + 1, s.len() as int),
            }
        }
    }
}

/// The address with every trailing `/` removed.
pub open spec fn strip_slashes_seq(s: Seq<char>) -> Seq<char>
    decreases s.len(),
{
    if s.len() > 0 && s[s.len() - 1] == '/' {
        strip_slashes_seq(s.drop_last())
    } else {
        s
    }
}

/// The address ends with the four characters `.git`.
pub open spec fn ends_git(s: Seq<char>) -> bool {
    &&& s.len() >= 4
    &&& s[s.len() - 4] == '.'
    &&& s[s.len() - 3] == 'g'
    &&& s[s.len() - 2] == 'i'
    &&& s[s.len() - 1] == 't'
}

/// The address with one final `.git` suffix removed.
pub open spec fn strip_git_seq(s: Seq<char>) -> Seq<char> {
    if ends_git(s) {
        s.take(s.len() - 4)
    } else {
        s
    }
}

/// The canonical key: credentials, then trailing slashes, then a `.git`
/// suffix are folded away, in that order.
pub open spec fn canonical_key_seq(s: Seq<char>) -> Seq<char> {
    strip_git_seq(strip_slashes_seq(strip_credentials_seq(s)))
}

/// The address with `user:pass@` spliced in right after the scheme
/// separator; unchanged when the address has no scheme separator.
pub open spec fn with_credentials_seq(u: Seq<char>, user: Seq<char>, pass: Seq<char>) -> Seq<char> {
    match sep_from(u, 0) {
        Option::None => u,
        Option::Some(k) => u.take(k + 3) + user + seq![':'] + pass + seq!['@'] + u.subrange(
            k + 3,
            u.len() as int,
        ),
    }
}

/// Removes any userinfo from the address.
pub fn strip_credentials(s: &str) -> (r: String)
    ensures
        r@ == strip_credentials_seq(s@),
{
    let n = s.unicode_len();
    match find_sep(s) {
        Option::None => s.to_owned(),
        Option::Some(k) => {
            proof {
                lemma_sep_from(s@, 0);
            }
            let a = k + 3;
            let end = match find_char(s, a, '/') {
                Option::Some(e) => {
                    proof {
                        lemma_char_from(s@, a as int, '/');
                    }
                    e
                },
                Option::None => n,
            };
            match find_char_back(s, a, end, '@') {
                Option::None => s.to_owned(),
                Option::Some(at) => {
                    proof {
                        lemma_char_back(s@, a as int, end as int, '@');
                    }
                    let head = s.substring_char(0, a);
                    let tail = s.substring_char(at + 1, n);
                    let mut r = head.to_owned();
                    r.append(tail);
                    r
                },
            }
        },
    }
}

/// Removes every trailing `/` from the address.
pub fn strip_trailing_slashes(s: &str) -> (r: String)
    ensures
        r@ == strip_slashes_seq(s@),
{
    let n = s.unicode_len();
    let mut e: usize = n;
    proof {
        assert(s@.take(n as int) =~= s@);
    }
    while e > 0 && s.get_char(e - 1) == '/'
        invariant
            e <= n == s@.len(),
            strip_slashes_seq(s@) == strip_slashes_seq(s@.take(e as int)),
        decreases e,
    {
        proof {
            assert(s@.take(e as int).drop_last() =~= s@.take(e as int - 1));
        }
        e = e - 1;
    }
    let r = s.substring_char(0, e);
    proof {
        assert(s@.take(e as int) == s@.subrange(0, e as int));
    }
    r.to_owned()
}

/// Removes one final `.git` suffix from the address.
pub fn strip_git_suffix(s: &str) -> (r: String)
    ensures
        r@ == strip_git_seq(s@),
{
    let n = s.unicode_len();
    if n >= 4 && s.get_char(n - 4) == '.' && s.get_char(n - 3) == 'g' && s.get_char(n - 2) == 'i'
        && s.get_char(n - 1) == 't' {
        s.substring_char(0, n - 4).to_owned()
    } else {
        s.to_owned()
    }
}

/// A repository address reduced to its canonical, credential-free key.
pub struct RepositoryUrl {
    /// The canonical key itself.
    pub key: String,
}

impl RepositoryUrl {
    /// Canonicalizes a repository address.
    pub fn new(url: &str) -> (r: Self)
        ensures
            r.key@ == canonical_key_seq(url@),
    {
        let stripped = strip_credentials(url);
        let slashless = strip_trailing_slashes(stripped.as_str());
        let key = strip_git_suffix(slashless.as_str());
        RepositoryUrl { key }
    }

    /// The canonical key as a string slice.
    pub fn as_str(&self) -> (r: &str)
        ensures
            r@ == self.key@,
    {
        self.key.as_str()
    }
}

/// Appending characters that are none of `:`, `/`, `@` commutes with
/// credential stripping.
proof fn lemma_strip_credentials_append_clean(u: Seq<char>, x: Seq<char>)
    requires
        forall|i: int| 0 <= i < x.len() ==> x[i] != ':' && x[i] != '/' && x[i] != '@',
    ensures
        strip_credentials_seq(u + x) == strip_credentials_seq(u) + x,
{
    let t = u + x;
    let n = u.len() as int;
    let m = t.len() as int;
    lemma_sep_from(u, 0);
    match sep_from(u, 0) {
        Option::None => {
            assert forall|j: int| 0 <= j implies !sep_at(t, j) by {
                if j + 3 <= m {
                    if j + 3 <= n {
                        assert(!sep_at(u, j));
                        assert(t[j] == u[j]);
                        assert(t[j + 1] == u[j + 1]);
                        assert(t[j + 2] == u[j + 2]);
                    } else if j >= n {
                        assert(t[j] == x[j - n]);
                    } else if j + 1 >= n {
                        assert(t[j + 1] == x[j + 1 - n]);
                    } else {
                        assert(t[j + 2] == x[j + 2 - n]);
                    }
                }
            }
            lemma_sep_from_none(t, 0);
        },
        Option::Some(k) => {
            assert(sep_at(t, k)) by {
                assert(t[k] == u[k]);
                assert(t[k + 1] == u[k + 1]);
                assert(t[k + 2] == u[k + 2]);
            }
            assert forall|j: int| 0 <= j < k implies !sep_at(t, j) by {
                assert(!sep_at(u, j));
                assert(t[j] == u[j]);
                assert(t[j + 1] == u[j + 1]);
                assert(t[j + 2] == u[j + 2]);
            }
            lemma_sep_from_exact(t, 0, k);
            let a = k + 3;
            lemma_char_from(u, a, '/');
            match char_from(u, a, '/') {
                Option::Some(e) => {
                    assert(t[e] == u[e]);
                    assert forall|j: int| a <= j < e implies t[j] != '/' by {
                        assert(t[j] == u[j]);
                    }
                    lemma_char_from_exact(t, a, '/', e);
                    lemma_char_back(u, a, e, '@');
                    match char_back(u, a, e, '@') {
                        Option::Some(at) => {
                            assert(t[at] == u[at]);
                            assert forall|l: int| at < l < e implies t[l] != '@' by {
                                assert(t[l] == u[l]);
                            }
                            lemma_char_back_exact(t, a, e, '@', at);
                            assert(t.take(a) =~= u.take(a));
                            assert(t.subrange(at + 1, m) =~= u.subrange(at + 1, n) + x);
                            assert(u.take(a) + (u.subrange(at + 1, n) + x) =~= (u.take(a)
                                + u.subrange(at + 1, n)) + x);
                        },
                        Option::None => {
                            assert forall|l: int| a <= l < e implies t[l] != '@' by {
                                assert(t[l] == u[l]);
                            }
                            lemma_char_back_none(t, a, e, '@');
                        },
                    }
                },
                Option::None => {
                    assert forall|j: int| a <= j < m implies t[j] != '/' by {
                        if j < n {
                            assert(t[j] == u[j]);
                        } else {
                            assert(t[j] == x[j - n]);
                        }
                    }
                    lemma_char_from_none(t, a, '/');
                    lemma_char_back(u, a, n, '@');
                    match char_back(u, a, n, '@') {
                        Option::Some(at) => {
                            assert(t[at] == u[at]);
                            assert forall|l: int| at < l < m implies t[l] != '@' by {
                                if l < n {
                                    assert(t[l] == u[l]);
                                } else {
                                    assert(t[l] == x[l - n]);
                                }
                            }
                            lemma_char_back_exact(t, a, m, '@', at);
                            assert(t.take(a) =~= u.take(a));
                            assert(t.subrange(at + 1, m) =~= u.subrange(at + 1, n) + x);
                            assert(u.take(a) + (u.subrange(at + 1, n) + x) =~= (u.take(a)
                                + u.subrange(at + 1, n)) + x);
                        },
                        Option::None => {
                            assert forall|l: int| a <= l < m implies t[l] != '@' by {
                                if l < n {
                                    assert(t[l] == u[l]);
                                } else {
                                    assert(t[l] == x[l - n]);
                                }
                            }
                            lemma_char_back_none(t, a, m, '@');
                        },
                    }
                },
            }
        },
    }
}

/// Pushing one `/` onto the end commutes with credential stripping.
proof fn lemma_strip_credentials_push_slash(u: Seq<char>)
    ensures
        strip_credentials_seq(u.push('/')) == strip_credentials_seq(u).push('/'),
{
    let t = u.push('/');
    let n = u.len() as int;
    lemma_sep_from(u, 0);
    match sep_from(u, 0) {
        Option::None => {
            if n >= 2 && sep_at(t, n - 2) {
                assert forall|j: int| 0 <= j < n - 2 implies !sep_at(t, j) by {
                    assert(!sep_at(u, j));
                    assert(t[j] == u[j]);
                    assert(t[j + 1] == u[j + 1]);
                    assert(t[j + 2] == u[j + 2]);
                }
                lemma_sep_from_exact(t, 0, n - 2);
                lemma_char_from_none(t, n + 1, '/');
                assert(char_back(t, n + 1, n + 1, '@') is None);
                assert(strip_credentials_seq(t) == t);
            } else {
                assert forall|j: int| 0 <= j implies !sep_at(t, j) by {
                    if j + 3 <= n + 1 {
                        if j + 3 <= n {
                            assert(!sep_at(u, j));
                            assert(t[j] == u[j]);
                            assert(t[j + 1] == u[j + 1]);
                            assert(t[j + 2] == u[j + 2]);
                        } else {
                            assert(j == n - 2);
                        }
                    }
                }
                lemma_sep_from_none(t, 0);
            }
        },
        Option::Some(k) => {
            assert(sep_at(t, k)) by {
                assert(t[k] == u[k]);
                assert(t[k + 1] == u[k + 1]);
                assert(t[k + 2] == u[k + 2]);
            }
            assert forall|j: int| 0 <= j < k implies !sep_at(t, j) by {
                assert(!sep_at(u, j));
                assert(t[j] == u[j]);
                assert(t[j + 1] == u[j + 1]);
                assert(t[j + 2] == u[j + 2]);
            }
            lemma_sep_from_exact(t, 0, k);
            let a = k + 3;
            lemma_char_from(u, a, '/');
            match char_from(u, a, '/') {
                Option::Some(e) => {
                    assert(t[e] == u[e]);
                    assert forall|j: int| a <= j < e implies t[j] != '/' by {
                        assert(t[j] == u[j]);
                    }
                    lemma_char_from_exact(t, a, '/', e);
                    lemma_char_back(u, a, e, '@');
                    match char_back(u, a, e, '@') {
                        Option::Some(at) => {
                            assert(t[at] == u[at]);
                            assert forall|l: int| at < l < e implies t[l] != '@' by {
                                assert(t[l] == u[l]);
                            }
                            lemma_char_back_exact(t, a, e, '@', at);
                            assert(t.take(a) =~= u.take(a));
                            assert(t.subrange(at + 1, n + 1) =~= u.subrange(at + 1, n).push('/'));
                            assert(u.take(a) + u.subrange(at + 1, n).push('/') =~= (u.take(a)
                                + u.subrange(at + 1, n)).push('/'));
                        },
                        Option::None => {
                            assert forall|l: int| a <= l < e implies t[l] != '@' by {
                                assert(t[l] == u[l]);
                            }
                            lemma_char_back_none(t, a, e, '@');
                        },
                    }
                },
                Option::None => {
                    assert(t[n] == '/');
                    assert forall|j: int| a <= j < n implies t[j] != '/' by {
                        assert(t[j] == u[j]);
                    }
                    lemma_char_from_exact(t, a, '/', n);
                    lemma_char_back(u, a, n, '@');
                    match char_back(u, a, n, '@') {
                        Option::Some(at) => {
                            assert(t[at] == u[at]);
                            assert forall|l: int| at < l < n implies t[l] != '@' by {
                                assert(t[l] == u[l]);
                            }
                            lemma_char_back_exact(t, a, n, '@', at);
                            assert(t.take(a) =~= u.take(a));
                            assert(t.subrange(at + 1, n + 1) =~= u.subrange(at + 1, n).push('/'));
                            assert(u.take(a) + u.subrange(at + 1, n).push('/') =~= (u.take(a)
                                + u.subrange(at + 1, n)).push('/'));
                        },
                        Option::None => {
                            assert forall|l: int| a <= l < n implies t[l] != '@' by {
                                assert(t[l] == u[l]);
                            }
                            lemma_char_back_none(t, a, n, '@');
                        },
                    }
                },
            }
        },
    }
}

/// Stripping trailing slashes absorbs one pushed `/`.
proof fn lemma_strip_slashes_push(x: Seq<char>)
    ensures
        strip_slashes_seq(x.push('/')) == strip_slashes_seq(x),
{
    assert(x.push('/').drop_last() =~= x);
}

/// Trailing-slash stability: an address and the same address with one more
/// trailing `/` share a canonical key.
pub proof fn lemma_canonical_ignores_trailing_slash(u: Seq<char>)
    ensures
        canonical_key_seq(u.push('/')) == canonical_key_seq(u),
{
    lemma_strip_credentials_push_slash(u);
    lemma_strip_slashes_push(strip_credentials_seq(u));
}

/// `.git`-suffix stability: when the credential-stripped address neither
/// ends in a slash nor already ends in `.git`, appending `.git` leaves the
/// canonical key unchanged.
pub proof fn lemma_canonical_ignores_git_suffix(u: Seq<char>)
    requires
        strip_slashes_seq(strip_credentials_seq(u)) == strip_credentials_seq(u),
        !ends_git(strip_credentials_seq(u)),
    ensures
        canonical_key_seq(u + seq!['.', 'g', 'i', 't']) == canonical_key_seq(u),
{
    let x = seq!['.', 'g', 'i', 't'];
    assert forall|i: int| 0 <= i < x.len() implies x[i] != ':' && x[i] != '/' && x[i] != '@' by {
        if i == 0 {
            assert(x[i] == '.');
        } else if i == 1 {
            assert(x[i] == 'g');
        } else if i == 2 {
            assert(x[i] == 'i');
        } else {
            assert(x[i] == 't');
        }
    }
    lemma_strip_credentials_append_clean(u, x);
    let y = strip_credentials_seq(u);
    let z = y + x;
    assert(z[z.len() - 1] == 't');
    assert(z[z.len() - 4] == '.' && z[z.len() - 3] == 'g' && z[z.len() - 2] == 'i');
    assert(strip_git_seq(z) =~= y);
}

/// Credential stability: splicing credentials into a credential-free
/// address leaves the canonical key unchanged.
pub proof fn lemma_canonical_ignores_credentials(u: Seq<char>, user: Seq<char>, pass: Seq<char>)
    requires
        forall|i: int| 0 <= i < u.len() ==> u[i] != '@',
        forall|i: int| 0 <= i < user.len() ==> user[i] != '/' && user[i] != '@',
        forall|i: int| 0 <= i < pass.len() ==> pass[i] != '/' && pass[i] != '@',
    ensures
        canonical_key_seq(with_credentials_seq(u, user, pass)) == canonical_key_seq(u),
{
    lemma_sep_from(u, 0);
    match sep_from(u, 0) {
        Option::None => {},
        Option::Some(k) => {
            let a = k + 3;
            let n = u.len() as int;
            let ins = user + seq![':'] + pass + seq!['@'];
            let il = ins.len() as int;
            let t = with_credentials_seq(u, user, pass);
            let m = t.len() as int;
            assert(t =~= u.take(a) + ins + u.subrange(a, n));
            assert(m == n + il);
            assert forall|i: int| 0 <= i < a implies t[i] == u[i] by {}
            assert forall|i: int| a <= i < a + il implies t[i] == ins[i - a] by {}
            assert forall|i: int| a + il <= i < m implies t[i] == u[i - il] by {}
            assert forall|i: int| 0 <= i < il implies ins[i] != '/' by {
                if i < user.len() {
                    assert(ins[i] == user[i]);
                } else if i == user.len() {
                    assert(ins[i] == ':');
                } else if i < user.len() + 1 + pass.len() {
                    assert(ins[i] == pass[i - user.len() - 1]);
                } else {
                    assert(ins[i] == '@');
                }
            }
            assert(ins[il - 1] == '@');
            // the first separator carries over
            assert(sep_at(t, k));
            assert forall|j: int| 0 <= j < k implies !sep_at(t, j) by {
                assert(!sep_at(u, j));
            }
            lemma_sep_from_exact(t, 0, k);
            // the stripped region of `t` ends exactly at the spliced `@`
            let at0 = a + il - 1;
            let endt = match char_from(t, a, '/') {
                Option::Some(e) => e,
                Option::None => m,
            };
            lemma_char_from(t, a, '/');
            assert(at0 < endt) by {
                match char_from(t, a, '/') {
                    Option::Some(e) => {
                        if e <= at0 {
                            assert(t[e] == ins[e - a]);
                        }
                    },
                    Option::None => {},
                }
            }
            assert forall|l: int| at0 < l < endt implies t[l] != '@' by {
                assert(t[l] == u[l - il]);
            }
            lemma_char_back_exact(t, a, endt, '@', at0);
            assert(strip_credentials_seq(t) =~= u) by {
                assert(t.take(a) =~= u.take(a));
                assert(t.subrange(at0 + 1, m) =~= u.subrange(a, n));
                assert(u.take(a) + u.subrange(a, n) =~= u);
            }
            // the original address strips to itself
            let endu = match char_from(u, a, '/') {
                Option::Some(e) => e,
                Option::None => n,
            };
            lemma_char_from(u, a, '/');
            lemma_char_back_none(u, a, endu, '@');
        },
    }
}

} // verus!
