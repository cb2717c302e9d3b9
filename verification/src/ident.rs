//! Identifier construction. Every identifier the core hands out is
//! `<prefix><entropy>_<serial>`: a fixed-width random part for
//! readability, and a strictly increasing serial that makes identifiers
//! provably distinct whatever the random part does.
use vstd::prelude::*;

use crate::codec::{append_u64, dec_digits, lemma_dec_digits_injective};

verus! {

/// The characters of an identifier with the given prefix, entropy and serial.
pub open spec fn id_chars(prefix: Seq<char>, entropy: Seq<char>, serial: nat) -> Seq<char> {
    prefix + entropy + seq!['_'] + dec_digits(serial)
}

/// Identifiers that share a prefix and entropy width but carry different
/// serials are different strings.
pub proof fn lemma_id_serial_injective(
    prefix: Seq<char>,
    u1: Seq<char>,
    n1: nat,
    u2: Seq<char>,
    n2: nat,
)
    requires
        u1.len() == u2.len(),
        id_chars(prefix, u1, n1) == id_chars(prefix, u2, n2),
    ensures
        n1 == n2,
{
    let m = prefix.len() + u1.len() + 1;
    let a = id_chars(prefix, u1, n1);
    let b = id_chars(prefix, u2, n2);
    assert(a.skip(m as int) =~= dec_digits(n1));
    assert(b.skip(m as int) =~= dec_digits(n2));
    lemma_dec_digits_injective(n1, n2);
}

/// Builds `<prefix><entropy>_<serial>`.
pub fn make_id(prefix: &str, entropy: &str, serial: u64) -> (r: String)
    ensures
        r@ == id_chars(prefix@, entropy@, serial as nat),
{
    let mut s = prefix.to_owned();
    s.append(entropy);
    s.append("_");
    append_u64(&mut s, serial);
    proof {
        reveal_strlit("_");
        assert(s@ =~= id_chars(prefix@, entropy@, serial as nat));
    }
    s
}

/// Relies on uuid::Uuid::new_v4 rendered by the simple formatter: a fresh
/// random identifier as exactly 32 hexadecimal characters. The value is
/// random; nothing more is assumed of it.
#[verifier::external_body]
pub(crate) fn fresh_entropy() -> (r: String)
    ensures
        r@.len() == 32,
{
    uuid::Uuid::new_v4().simple().to_string()
}

} // verus!
