//! Names of the files that user-picked images are copied to: named after a
//! hash of their content, so that storing the same picture twice lands on
//! the same file.
use std::hash::{Hash, Hasher};
use vstd::prelude::*;

use crate::text::{push_str, string_of};

verus! {

pub open spec fn hex_char(d: int) -> char {
    if d < 10 {
        ('0' as int + d) as char
    } else {
        ('a' as int + d - 10) as char
    }
}

/// The last `n` lowercase hexadecimal digits of `v`, most significant first.
pub open spec fn hex_digits(v: nat, n: nat) -> Seq<char>
    decreases n,
{
    if n == 0 {
        Seq::empty()
    } else {
        hex_digits(v / 16, (n - 1) as nat).push(hex_char((v % 16) as int))
    }
}

/// The file name an asset with content hash `hash` and extension `ext` is
/// stored under: the hash as 16 lowercase hex digits, then `.ext` if any.
pub open spec fn asset_name(hash: u64, ext: Option<Seq<char>>) -> Seq<char> {
    match ext {
        Some(e) => hex_digits(hash as nat, 16) + "."@ + e,
        None => hex_digits(hash as nat, 16),
    }
}

fn hex_digit_char(d: u64) -> (c: char)
    requires
        d < 16,
    ensures
        c == hex_char(d as int),
{
    let table: [char; 16] = ['0', '1', '2', '3', '4', '5', '6', '7', '8', '9', 'a', 'b', 'c', 'd', 'e', 'f'];
    assert(table@[d as int] == hex_char(d as int)) by {
        assert(table@[0] == '0' && table@[1] == '1' && table@[2] == '2' && table@[3] == '3');
        assert(table@[4] == '4' && table@[5] == '5' && table@[6] == '6' && table@[7] == '7');
        assert(table@[8] == '8' && table@[9] == '9' && table@[10] == 'a' && table@[11] == 'b');
        assert(table@[12] == 'c' && table@[13] == 'd' && table@[14] == 'e' && table@[15] == 'f');
    }
    table[d as usize]
}

fn push_hex_digits(v: &mut Vec<char>, value: u64, n: u64)
    ensures
        final(v)@ == old(v)@ + hex_digits(value as nat, n as nat),
    decreases n,
{
    if n == 0 {
        assert(old(v)@ + Seq::<char>::empty() =~= old(v)@);
    } else {
        push_hex_digits(v, value / 16, n - 1);
        v.push(hex_digit_char(value % 16));
        assert(old(v)@ + hex_digits((value / 16) as nat, (n - 1) as nat) + seq![hex_char((value % 16) as int)]
            =~= old(v)@ + hex_digits(value as nat, n as nat));
    }
}

/// The stored file name for content hash `hash` and extension `ext`.
pub fn hashed_file_name(hash: u64, ext: Option<&str>) -> (r: String)
    ensures
        r@ == asset_name(
            hash,
            match ext {
                Some(e) => Some(e@),
                None => None,
            },
        ),
{
    let mut v: Vec<char> = Vec::new();
    push_hex_digits(&mut v, hash, 16);
    assert(v@ =~= hex_digits(hash as nat, 16));
    match ext {
        Some(e) => {
            v.push('.');
            push_str(&mut v, e);
            proof {
                reveal_strlit(".");
            }
            assert(v@ =~= hex_digits(hash as nat, 16) + "."@ + e@);
        },
        None => {},
    }
    string_of(&v)
}

proof fn lemma_hex_char_injective(a: int, b: int)
    requires
        0 <= a < 16,
        0 <= b < 16,
        hex_char(a) == hex_char(b),
    ensures
        a == b,
{
}

/// Sixteen to the power `n`: how many values `n` hexadecimal digits can tell apart.
pub open spec fn hex_span(n: nat) -> nat
    decreases n,
{
    if n == 0 {
        1
    } else {
        16 * hex_span((n - 1) as nat)
    }
}

proof fn lemma_hex_digits_injective(a: nat, b: nat, n: nat)
    requires
        a < hex_span(n),
        b < hex_span(n),
        hex_digits(a, n) == hex_digits(b, n),
    ensures
        a == b,
    decreases n,
{
    if n > 0 {
        let da = hex_digits(a, n);
        let db = hex_digits(b, n);
        assert(da.last() == db.last());
        lemma_hex_char_injective((a % 16) as int, (b % 16) as int);
        assert(hex_digits(a / 16, (n - 1) as nat) =~= da.drop_last());
        assert(hex_digits(b / 16, (n - 1) as nat) =~= db.drop_last());
        let p = hex_span((n - 1) as nat);
        assert(a / 16 < p) by (nonlinear_arith)
            requires
                a < 16 * p,
        ;
        assert(b / 16 < p) by (nonlinear_arith)
            requires
                b < 16 * p,
        ;
        lemma_hex_digits_injective(a / 16, b / 16, (n - 1) as nat);
    }
}

/// Different content hashes are stored under different names, and equal
/// hashes with equal extensions under the same name.
pub proof fn lemma_asset_names_distinguish_hashes(h1: u64, h2: u64, ext: Option<Seq<char>>)
    ensures
        asset_name(h1, ext) == asset_name(h2, ext) <==> h1 == h2,
{
    if asset_name(h1, ext) == asset_name(h2, ext) {
        let d1 = hex_digits(h1 as nat, 16);
        let d2 = hex_digits(h2 as nat, 16);
        lemma_hex_digits_len(h1 as nat, 16);
        lemma_hex_digits_len(h2 as nat, 16);
        match ext {
            Some(e) => {
                assert(d1 =~= asset_name(h1, ext).take(16));
                assert(d2 =~= asset_name(h2, ext).take(16));
            },
            None => {},
        }
        assert(hex_span(16) == 0x1_0000_0000_0000_0000) by {
            reveal_with_fuel(hex_span, 17);
        }
        lemma_hex_digits_injective(h1 as nat, h2 as nat, 16);
    }
}

proof fn lemma_hex_digits_len(v: nat, n: nat)
    ensures
        hex_digits(v, n).len() == n,
    decreases n,
{
    if n > 0 {
        lemma_hex_digits_len(v / 16, (n - 1) as nat);
    }
}


/// What a `DefaultHasher::new()` that is fed the bytes `bytes` (as a byte
/// slice hashes itself: its length, then its bytes) finishes with.
pub uninterp spec fn content_hash_of(bytes: Seq<u8>) -> u64;

/// Hashes `bytes` with `std::collections::hash_map::DefaultHasher::new()`,
/// whose keys are fixed (not seeded per process); trusted to give
/// `content_hash_of` of the bytes.
#[verifier::external_body]
fn content_hash(bytes: &[u8]) -> (h: u64)
    ensures
        h == content_hash_of(bytes@),
{
    let mut hasher = std::collections::hash_map::DefaultHasher::new();
    bytes.hash(&mut hasher);
    hasher.finish()
}

/// The file name a picture with content `bytes` and extension `ext` is
/// stored under: named after the hash of its bytes.
pub fn asset_file_name(bytes: &[u8], ext: Option<&str>) -> (r: String)
    ensures
        r@ == asset_name(
            content_hash_of(bytes@),
            match ext {
                Some(e) => Some(e@),
                None => None,
            },
        ),
{
    let hash = content_hash(bytes);
    hashed_file_name(hash, ext)
}

/// Storing the same picture twice lands on the same file: the name
/// depends on the content and the extension alone.
pub proof fn lemma_same_content_same_file(a: Seq<u8>, b: Seq<u8>, ext: Option<Seq<char>>)
    requires
        a == b,
    ensures
        asset_name(content_hash_of(a), ext) == asset_name(content_hash_of(b), ext),
{
}

} // verus!
