//! At most one settings process per config file: the lock's name and the
//! decision taken on the outcome of locking it.

use std::collections::hash_map::DefaultHasher;
use std::hash::Hasher;

use vstd::prelude::*;
use vstd::std_specs::hash::DefaultHasherAdditionalSpecFns;

verus! {

/// Feeds the bytes `bytes` to `h` in one write.
fn hash_bytes(h: &mut DefaultHasher, bytes: &[u8])
    ensures
        final(h)@ == old(h)@.push(bytes@),
{
    h.write(bytes)
}

/// The `DefaultHasher` hash of one write of `bytes` into a fresh hasher.
pub open spec fn bytes_hash(bytes: Seq<u8>) -> u64 {
    DefaultHasher::spec_finish(seq![bytes])
}

/// The lower-case hexadecimal digit of `d` (below 16).
pub open spec fn hex_char(d: u64) -> char {
    if d < 10 {
        ((0x30 + d) as u8) as char
    } else {
        ((0x61 + d - 10) as u8) as char
    }
}

/// `format!("{:016x}", h)`: the sixteen hexadecimal digits of `h`, most
/// significant first.
pub open spec fn hex16(h: u64) -> Seq<char> {
    Seq::new(16, |i: int| hex_char(((h >> (4 * (15 - i)) as u64) & 0xf) as u64))
}

/// `h` as sixteen zero-padded lower-case hexadecimal digits.
pub fn format_hash(h: u64) -> (r: String)
    ensures
        r@ == hex16(h),
{
    let mut out = String::new();
    let mut i: u64 = 0;
    while i < 16
        invariant
            i <= 16,
            out@ == hex16(h).subrange(0, i as int),
        decreases 16 - i,
    {
        let shift: u64 = 4 * (15 - i);
        let d = (h >> shift) & 0xf;
        assert(d < 16) by (bit_vector)
            requires
                d == (h >> shift) & 0xf,
        ;
        let digits = "0123456789abcdef";
        proof {
            reveal_strlit("0123456789abcdef");
        }
        let piece = digits.substring_char(d as usize, (d + 1) as usize);
        assert(piece@ =~= seq![hex_char(d)]) by {
            assert(piece@[0] == digits@[d as int]);
        }
        out.append(piece);
        assert(out@ =~= hex16(h).subrange(0, i + 1));
        i = i + 1;
    }
    assert(out@ =~= hex16(h));
    out
}

/// The hash that names the lock of a config file, from the bytes of its
/// canonical path: sixteen hexadecimal digits of the path's `DefaultHasher`
/// hash.
pub fn path_hash(path_bytes: &[u8]) -> (r: String)
    ensures
        exists|h: u64| r@ == hex16(h),
        r@ == hex16(bytes_hash(path_bytes@)),
{
    let mut hasher = DefaultHasher::new();
    hash_bytes(&mut hasher, path_bytes);
    assert(hasher@ =~= seq![path_bytes@]);
    let h = hasher.finish();
    format_hash(h)
}

/// The name of the lock file for the config file whose path hash is `hash`.
pub fn lock_file_name(hash: &str) -> (r: String)
    ensures
        r@ == seq!['s', 'e', 't', 't', 'i', 'n', 'g', 's', '-'] + hash@ + seq!['.', 'l', 'o', 'c', 'k'],
{
    proof {
        reveal_strlit("settings-");
        reveal_strlit(".lock");
    }
    let mut out = String::from_str("settings-");
    out.append(hash);
    out.append(".lock");
    out
}

/// How an attempt to take the lock of a config file ended.
#[derive(Debug, Clone, Copy, PartialEq, Eq, Structural)]
pub enum LockAttempt {
    /// This process now holds the lock.
    Acquired,
    /// Another process holds it.
    HeldElsewhere,
    /// No lock could be set up here (the file could not be opened, the call
    /// failed for another reason, or the platform has no such lock).
    Unavailable,
}

/// Whether this process may go on as the settings window for the config
/// file: `false` exactly when another instance holds the lock. When no lock
/// can be had, the process goes on.
pub fn acquire(attempt: LockAttempt) -> (r: bool)
    ensures
        r == !(attempt is HeldElsewhere),
{
    match attempt {
        LockAttempt::Acquired => true,
        LockAttempt::HeldElsewhere => false,
        LockAttempt::Unavailable => true,
    }
}


proof fn lemma_hex_char_injective(x: u64, y: u64)
    requires
        x < 16,
        y < 16,
        hex_char(x) == hex_char(y),
    ensures
        x == y,
{
}

/// Different hashes give different lock names: `hex16` loses no digit.
pub proof fn law_lock_names_tell_hashes_apart(a: u64, b: u64)
    requires
        a != b,
    ensures
        hex16(a) != hex16(b),
{
    if hex16(a) == hex16(b) {
        {
            let x = ((a >> 60u64) & 0xf);
            let y = ((b >> 60u64) & 0xf);
            assert(x < 16) by (bit_vector)
                requires
                    x == ((a >> 60u64) & 0xf),
            ;
            assert(y < 16) by (bit_vector)
                requires
                    y == ((b >> 60u64) & 0xf),
            ;
            assert(hex16(a)[0] == hex_char(x));
            assert(hex16(b)[0] == hex_char(y));
            lemma_hex_char_injective(x, y);
        }
        {
            let x = ((a >> 56u64) & 0xf);
            let y = ((b >> 56u64) & 0xf);
            assert(x < 16) by (bit_vector)
                requires
                    x == ((a >> 56u64) & 0xf),
            ;
            assert(y < 16) by (bit_vector)
                requires
                    y == ((b >> 56u64) & 0xf),
            ;
            assert(hex16(a)[1] == hex_char(x));
            assert(hex16(b)[1] == hex_char(y));
            lemma_hex_char_injective(x, y);
        }
        {
            let x = ((a >> 52u64) & 0xf);
            let y = ((b >> 52u64) & 0xf);
            assert(x < 16) by (bit_vector)
                requires
                    x == ((a >> 52u64) & 0xf),
            ;
            assert(y < 16) by (bit_vector)
                requires
                    y == ((b >> 52u64) & 0xf),
            ;
            assert(hex16(a)[2] == hex_char(x));
            assert(hex16(b)[2] == hex_char(y));
            lemma_hex_char_injective(x, y);
        }
        {
            let x = ((a >> 48u64) & 0xf);
            let y = ((b >> 48u64) & 0xf);
            assert(x < 16) by (bit_vector)
                requires
                    x == ((a >> 48u64) & 0xf),
            ;
            assert(y < 16) by (bit_vector)
                requires
                    y == ((b >> 48u64) & 0xf),
            ;
            assert(hex16(a)[3] == hex_char(x));
            assert(hex16(b)[3] == hex_char(y));
            lemma_hex_char_injective(x, y);
        }
        {
            let x = ((a >> 44u64) & 0xf);
            let y = ((b >> 44u64) & 0xf);
            assert(x < 16) by (bit_vector)
                requires
                    x == ((a >> 44u64) & 0xf),
            ;
            assert(y < 16) by (bit_vector)
                requires
                    y == ((b >> 44u64) & 0xf),
            ;
            assert(hex16(a)[4] == hex_char(x));
            assert(hex16(b)[4] == hex_char(y));
            lemma_hex_char_injective(x, y);
        }
        {
            let x = ((a >> 40u64) & 0xf);
            let y = ((b >> 40u64) & 0xf);
            assert(x < 16) by (bit_vector)
                requires
                    x == ((a >> 40u64) & 0xf),
            ;
            assert(y < 16) by (bit_vector)
                requires
                    y == ((b >> 40u64) & 0xf),
            ;
            assert(hex16(a)[5] == hex_char(x));
            assert(hex16(b)[5] == hex_char(y));
            lemma_hex_char_injective(x, y);
        }
        {
            let x = ((a >> 36u64) & 0xf);
            let y = ((b >> 36u64) & 0xf);
            assert(x < 16) by (bit_vector)
                requires
                    x == ((a >> 36u64) & 0xf),
            ;
            assert(y < 16) by (bit_vector)
                requires
                    y == ((b >> 36u64) & 0xf),
            ;
            assert(hex16(a)[6] == hex_char(x));
            assert(hex16(b)[6] == hex_char(y));
            lemma_hex_char_injective(x, y);
        }
        {
            let x = ((a >> 32u64) & 0xf);
            let y = ((b >> 32u64) & 0xf);
            assert(x < 16) by (bit_vector)
                requires
                    x == ((a >> 32u64) & 0xf),
            ;
            assert(y < 16) by (bit_vector)
                requires
                    y == ((b >> 32u64) & 0xf),
            ;
            assert(hex16(a)[7] == hex_char(x));
            assert(hex16(b)[7] == hex_char(y));
            lemma_hex_char_injective(x, y);
        }
        {
            let x = ((a >> 28u64) & 0xf);
            let y = ((b >> 28u64) & 0xf);
            assert(x < 16) by (bit_vector)
                requires
                    x == ((a >> 28u64) & 0xf),
            ;
            assert(y < 16) by (bit_vector)
                requires
                    y == ((b >> 28u64) & 0xf),
            ;
            assert(hex16(a)[8] == hex_char(x));
            assert(hex16(b)[8] == hex_char(y));
            lemma_hex_char_injective(x, y);
        }
        {
            let x = ((a >> 24u64) & 0xf);
            let y = ((b >> 24u64) & 0xf);
            assert(x < 16) by (bit_vector)
                requires
                    x == ((a >> 24u64) & 0xf),
            ;
            assert(y < 16) by (bit_vector)
                requires
                    y == ((b >> 24u64) & 0xf),
            ;
            assert(hex16(a)[9] == hex_char(x));
            assert(hex16(b)[9] == hex_char(y));
            lemma_hex_char_injective(x, y);
        }
        {
            let x = ((a >> 20u64) & 0xf);
            let y = ((b >> 20u64) & 0xf);
            assert(x < 16) by (bit_vector)
                requires
                    x == ((a >> 20u64) & 0xf),
            ;
            assert(y < 16) by (bit_vector)
                requires
                    y == ((b >> 20u64) & 0xf),
            ;
            assert(hex16(a)[10] == hex_char(x));
            assert(hex16(b)[10] == hex_char(y));
            lemma_hex_char_injective(x, y);
        }
        {
            let x = ((a >> 16u64) & 0xf);
            let y = ((b >> 16u64) & 0xf);
            assert(x < 16) by (bit_vector)
                requires
                    x == ((a >> 16u64) & 0xf),
            ;
            assert(y < 16) by (bit_vector)
                requires
                    y == ((b >> 16u64) & 0xf),
            ;
            assert(hex16(a)[11] == hex_char(x));
            assert(hex16(b)[11] == hex_char(y));
            lemma_hex_char_injective(x, y);
        }
        {
            let x = ((a >> 12u64) & 0xf);
            let y = ((b >> 12u64) & 0xf);
            assert(x < 16) by (bit_vector)
                requires
                    x == ((a >> 12u64) & 0xf),
            ;
            assert(y < 16) by (bit_vector)
                requires
                    y == ((b >> 12u64) & 0xf),
            ;
            assert(hex16(a)[12] == hex_char(x));
            assert(hex16(b)[12] == hex_char(y));
            lemma_hex_char_injective(x, y);
        }
        {
            let x = ((a >> 8u64) & 0xf);
            let y = ((b >> 8u64) & 0xf);
            assert(x < 16) by (bit_vector)
                requires
                    x == ((a >> 8u64) & 0xf),
            ;
            assert(y < 16) by (bit_vector)
                requires
                    y == ((b >> 8u64) & 0xf),
            ;
            assert(hex16(a)[13] == hex_char(x));
            assert(hex16(b)[13] == hex_char(y));
            lemma_hex_char_injective(x, y);
        }
        {
            let x = ((a >> 4u64) & 0xf);
            let y = ((b >> 4u64) & 0xf);
            assert(x < 16) by (bit_vector)
                requires
                    x == ((a >> 4u64) & 0xf),
            ;
            assert(y < 16) by (bit_vector)
                requires
                    y == ((b >> 4u64) & 0xf),
            ;
            assert(hex16(a)[14] == hex_char(x));
            assert(hex16(b)[14] == hex_char(y));
            lemma_hex_char_injective(x, y);
        }
        {
            let x = ((a >> 0u64) & 0xf);
            let y = ((b >> 0u64) & 0xf);
            assert(x < 16) by (bit_vector)
                requires
                    x == ((a >> 0u64) & 0xf),
            ;
            assert(y < 16) by (bit_vector)
                requires
                    y == ((b >> 0u64) & 0xf),
            ;
            assert(hex16(a)[15] == hex_char(x));
            assert(hex16(b)[15] == hex_char(y));
            lemma_hex_char_injective(x, y);
        }
        assert(a == b) by (bit_vector)
            requires
                ((a >> 60u64) & 0xf) == ((b >> 60u64) & 0xf) && ((a >> 56u64) & 0xf) == ((b >> 56u64) & 0xf) && ((a >> 52u64) & 0xf) == ((b >> 52u64) & 0xf) && ((a >> 48u64) & 0xf) == ((b >> 48u64) & 0xf) && ((a >> 44u64) & 0xf) == ((b >> 44u64) & 0xf) && ((a >> 40u64) & 0xf) == ((b >> 40u64) & 0xf) && ((a >> 36u64) & 0xf) == ((b >> 36u64) & 0xf) && ((a >> 32u64) & 0xf) == ((b >> 32u64) & 0xf) && ((a >> 28u64) & 0xf) == ((b >> 28u64) & 0xf) && ((a >> 24u64) & 0xf) == ((b >> 24u64) & 0xf) && ((a >> 20u64) & 0xf) == ((b >> 20u64) & 0xf) && ((a >> 16u64) & 0xf) == ((b >> 16u64) & 0xf) && ((a >> 12u64) & 0xf) == ((b >> 12u64) & 0xf) && ((a >> 8u64) & 0xf) == ((b >> 8u64) & 0xf) && ((a >> 4u64) & 0xf) == ((b >> 4u64) & 0xf) && ((a >> 0u64) & 0xf) == ((b >> 0u64) & 0xf),
        ;
    }
}

} // verus!

