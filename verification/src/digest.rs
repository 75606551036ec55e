//! The cache identity: a deterministic, fixed-width digest of a canonical
//! key, used directly as a mirror directory name. The digest is a 64-bit
//! Fowler–Noll–Vo hash of the key's characters, written as 16 lowercase
//! hexadecimal digits, so it is filesystem-safe and independent of any
//! reference or resolved commit.

use vstd::prelude::*;

use crate::canonical::RepositoryUrl;

verus! {

/// The FNV-1a 64-bit offset basis.
pub const FNV_BASIS: u64 = 0xcbf29ce484222325;

/// The FNV-1a 64-bit prime.
pub const FNV_PRIME: u64 = 0x100000001b3;

/// One FNV-1a step: fold a character into the running hash.
pub open spec fn fnv_step(h: u64, c: char) -> u64 {
    (((h ^ (c as u64)) as nat * FNV_PRIME as nat) % 0x10000000000000000nat) as u64
}

/// The FNV-1a 64-bit hash of a character sequence.
pub open spec fn fnv64(s: Seq<char>) -> u64
    decreases s.len(),
{
    if s.len() == 0 {
        FNV_BASIS
    } else {
        fnv_step(fnv64(s.drop_last()), s[s.len() - 1])
    }
}

/// The lowercase hexadecimal digit for a value below 16.
pub open spec fn hex_char_of(n: int) -> char {
    if n == 0 {
        '0'
    } else if n == 1 {
        '1'
    } else if n == 2 {
        '2'
    } else if n == 3 {
        '3'
    } else if n == 4 {
        '4'
    } else if n == 5 {
        '5'
    } else if n == 6 {
        '6'
    } else if n == 7 {
        '7'
    } else if n == 8 {
        '8'
    } else if n == 9 {
        '9'
    } else if n == 10 {
        'a'
    } else if n == 11 {
        'b'
    } else if n == 12 {
        'c'
    } else if n == 13 {
        'd'
    } else if n == 14 {
        'e'
    } else {
        'f'
    }
}

/// The `i`-th hexadecimal digit of a hash, most significant first.
pub open spec fn nib_of(h: u64, i: int) -> u64 {
    (h >> ((60 - 4 * i) as u64)) & 0xf
}

/// The 16 hexadecimal digits of a hash, most significant first.
pub open spec fn hex16_seq(h: u64) -> Seq<char> {
    Seq::new(16, |i: int| hex_char_of(nib_of(h, i) as int))
}

/// The cache identity of a canonical key.
pub open spec fn ident_seq(key: Seq<char>) -> Seq<char> {
    hex16_seq(fnv64(key))
}

/// A character is a lowercase hexadecimal digit.
pub open spec fn is_lower_hex_char(c: char) -> bool {
    ('0' <= c && c <= '9') || ('a' <= c && c <= 'f')
}

/// A nibble is below 16.
proof fn lemma_nib_bound(h: u64, sh: u64)
    ensures
        ((h >> sh) & 0xf) < 16,
{
    assert(((h >> sh) & 0xf) < 16) by (bit_vector);
}

/// A cache identity is 16 characters long and made of lowercase
/// hexadecimal digits only, so it is safe as a directory name.
pub proof fn lemma_ident_filesystem_safe(key: Seq<char>)
    ensures
        ident_seq(key).len() == 16,
        forall|i: int| 0 <= i < 16 ==> is_lower_hex_char(#[trigger] ident_seq(key)[i]),
{
    assert forall|i: int| 0 <= i < 16 implies is_lower_hex_char(#[trigger] ident_seq(key)[i]) by {
        lemma_nib_bound(fnv64(key), (60 - 4 * i) as u64);
    }
}

/// The digit of one nibble, as a one-character string.
fn hex_digit_str(nib: u64) -> (r: &'static str)
    requires
        nib < 16,
    ensures
        r@ =~= seq![hex_char_of(nib as int)],
{
    proof {
        reveal_strlit("0");
        reveal_strlit("1");
        reveal_strlit("2");
        reveal_strlit("3");
        reveal_strlit("4");
        reveal_strlit("5");
        reveal_strlit("6");
        reveal_strlit("7");
        reveal_strlit("8");
        reveal_strlit("9");
        reveal_strlit("a");
        reveal_strlit("b");
        reveal_strlit("c");
        reveal_strlit("d");
        reveal_strlit("e");
        reveal_strlit("f");
    }
    match nib {
        0 => "0",
        1 => "1",
        2 => "2",
        3 => "3",
        4 => "4",
        5 => "5",
        6 => "6",
        7 => "7",
        8 => "8",
        9 => "9",
        10 => "a",
        11 => "b",
        12 => "c",
        13 => "d",
        14 => "e",
        _ => "f",
    }
}

/// The deterministic cache identity of a canonical repository key: the
/// mirror directory name under the cache root.
pub fn cache_digest(url: &RepositoryUrl) -> (r: String)
    ensures
        r@ == ident_seq(url.key@),
{
    let s = url.as_str();
    let n = s.unicode_len();
    let mut h: u64 = FNV_BASIS;
    let mut i: usize = 0;
    proof {
        assert(s@.take(0) =~= Seq::<char>::empty());
    }
    while i < n
        invariant
            i <= n == s@.len(),
            s@ == url.key@,
            h == fnv64(s@.take(i as int)),
        decreases n - i,
    {
        let c = s.get_char(i);
        h = (h ^ (c as u64)).wrapping_mul(FNV_PRIME);
        proof {
            assert(s@.take(i + 1).drop_last() =~= s@.take(i as int));
            assert(s@.take(i + 1)[i as int] == s@[i as int]);
        }
        i = i + 1;
    }
    proof {
        assert(s@.take(n as int) =~= s@);
    }
    let mut r = String::new();
    let mut k: usize = 0;
    proof {
        assert(r@ =~= hex16_seq(h).take(0));
    }
    while k < 16
        invariant
            k <= 16,
            h == fnv64(url.key@),
            r@ == hex16_seq(h).take(k as int),
        decreases 16 - k,
    {
        let sh: u64 = 60 - 4 * (k as u64);
        proof {
            lemma_nib_bound(h, sh);
        }
        let nib: u64 = (h >> sh) & 0xf;
        let d = hex_digit_str(nib);
        r.append(d);
        proof {
            assert(hex16_seq(h).take(k + 1) =~= hex16_seq(h).take(k as int).push(
                hex_char_of(nib_of(h, k as int) as int),
            ));
        }
        k = k + 1;
    }
    proof {
        assert(hex16_seq(h).take(16) =~= hex16_seq(h));
    }
    r
}

} // verus!
