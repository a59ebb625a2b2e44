//! Fresh study keys.
//!
//! A study is re-submitted under a fresh key in the numeric form that the
//! DICOM identifier namespace reserves for UUID-derived identifiers: the
//! root `2.25.` followed by the decimal value of sixteen random bytes read
//! as one little-endian integer.  The sixteen bytes come from a UUID; the
//! arithmetic and the rendering are verified here.

use vstd::prelude::*;

verus! {

/// Relies on uuid::Uuid::new_v4 and Uuid::as_bytes: a fresh random 16-byte
/// identifier.  The value is random; nothing is assumed of it beyond its
/// length.
#[verifier::external_body]
fn random_uuid_bytes() -> (r: Vec<u8>)
    ensures
        r@.len() == 16,
{
    uuid::Uuid::new_v4().as_bytes().to_vec()
}

/// The value of a byte string read as one little-endian integer.
pub open spec fn le_value(bytes: Seq<u8>) -> nat
    decreases bytes.len(),
{
    if bytes.len() == 0 {
        0
    } else {
        bytes[0] as nat + 256 * le_value(bytes.subrange(1, bytes.len() as int))
    }
}

/// 256 to the `k`th power: the number of values of `k` bytes.
pub open spec fn pow256(k: nat) -> nat
    decreases k,
{
    if k == 0 {
        1
    } else {
        256 * pow256((k - 1) as nat)
    }
}

/// Powers of 256 are positive.
proof fn lemma_pow256_pos(k: nat)
    ensures
        pow256(k) >= 1,
    decreases k,
{
    if k > 0 {
        lemma_pow256_pos((k - 1) as nat);
    }
}

/// Powers of 256 grow with the exponent.
proof fn lemma_pow256_mono(a: nat, b: nat)
    requires
        a <= b,
    ensures
        pow256(a) <= pow256(b),
    decreases b,
{
    if a < b {
        lemma_pow256_mono(a, (b - 1) as nat);
        lemma_pow256_pos((b - 1) as nat);
    }
}

/// A byte string's value is below 256 to its length.
proof fn lemma_le_value_bound(bytes: Seq<u8>)
    ensures
        le_value(bytes) < pow256(bytes.len() as nat),
    decreases bytes.len(),
{
    if bytes.len() > 0 {
        let rest = bytes.subrange(1, bytes.len() as int);
        lemma_le_value_bound(rest);
    }
}

/// Reads sixteen bytes as one little-endian 128-bit integer.
pub fn le_u128(bytes: &Vec<u8>) -> (r: u128)
    requires
        bytes@.len() == 16,
    ensures
        r as nat == le_value(bytes@),
{
    proof {
        reveal_with_fuel(pow256, 17);
    }
    let mut acc: u128 = 0;
    let mut i: usize = 16;
    assert(bytes@.subrange(16, 16) =~= Seq::<u8>::empty());
    while i > 0
        invariant
            bytes@.len() == 16,
            0 <= i <= 16,
            acc as nat == le_value(bytes@.subrange(i as int, 16)),
            (acc as nat) < pow256((16 - i) as nat),
        decreases i,
    {
        i -= 1;
        proof {
            lemma_pow256_mono((16 - i - 1) as nat, 15);
            assert(pow256(15) * 256 == pow256(16)) by {
                reveal_with_fuel(pow256, 17);
            }
            assert(pow256(16) == 0x100000000000000000000000000000000) by {
                reveal_with_fuel(pow256, 17);
            }
        }
        let b = bytes[i];
        acc = acc * 256 + (b as u128);
        proof {
            let tail = bytes@.subrange(i + 1 as int, 16);
            let cur = bytes@.subrange(i as int, 16);
            assert(cur[0] == bytes@[i as int]);
            assert(cur.subrange(1, cur.len() as int) =~= tail);
        }
    }
    assert(bytes@.subrange(0, 16) =~= bytes@);
    acc
}

/// The decimal digit characters.
pub open spec fn digit_char(d: nat) -> char {
    if d == 0 {
        '0'
    } else if d == 1 {
        '1'
    } else if d == 2 {
        '2'
    } else if d == 3 {
        '3'
    } else if d == 4 {
        '4'
    } else if d == 5 {
        '5'
    } else if d == 6 {
        '6'
    } else if d == 7 {
        '7'
    } else if d == 8 {
        '8'
    } else {
        '9'
    }
}

/// The canonical decimal rendering of a number: no leading zero except for
/// the number zero itself.
pub open spec fn spec_decimal(n: nat) -> Seq<char>
    decreases n,
{
    if n < 10 {
        seq![digit_char(n)]
    } else {
        spec_decimal(n / 10).push(digit_char(n % 10))
    }
}

/// Appends one decimal digit.
fn push_digit(out: &mut String, d: u128)
    requires
        d < 10,
    ensures
        final(out)@ == old(out)@ + seq![digit_char(d as nat)],
{
    if d == 0 {
        out.append("0");
        proof {
            reveal_strlit("0");
            assert("0"@ =~= seq![digit_char(0)]);
        }
    } else if d == 1 {
        out.append("1");
        proof {
            reveal_strlit("1");
            assert("1"@ =~= seq![digit_char(1)]);
        }
    } else if d == 2 {
        out.append("2");
        proof {
            reveal_strlit("2");
            assert("2"@ =~= seq![digit_char(2)]);
        }
    } else if d == 3 {
        out.append("3");
        proof {
            reveal_strlit("3");
            assert("3"@ =~= seq![digit_char(3)]);
        }
    } else if d == 4 {
        out.append("4");
        proof {
            reveal_strlit("4");
            assert("4"@ =~= seq![digit_char(4)]);
        }
    } else if d == 5 {
        out.append("5");
        proof {
            reveal_strlit("5");
            assert("5"@ =~= seq![digit_char(5)]);
        }
    } else if d == 6 {
        out.append("6");
        proof {
            reveal_strlit("6");
            assert("6"@ =~= seq![digit_char(6)]);
        }
    } else if d == 7 {
        out.append("7");
        proof {
            reveal_strlit("7");
            assert("7"@ =~= seq![digit_char(7)]);
        }
    } else if d == 8 {
        out.append("8");
        proof {
            reveal_strlit("8");
            assert("8"@ =~= seq![digit_char(8)]);
        }
    } else {
        out.append("9");
        proof {
            reveal_strlit("9");
            assert("9"@ =~= seq![digit_char(9)]);
        }
    }
}

/// Appends the decimal rendering of `n`.
fn push_decimal(out: &mut String, n: u128)
    ensures
        final(out)@ == old(out)@ + spec_decimal(n as nat),
    decreases n,
{
    if n < 10 {
        push_digit(out, n);
    } else {
        assert(n / 10 < n) by (nonlinear_arith)
            requires
                n >= 10,
        ;
        push_decimal(out, n / 10);
        push_digit(out, n % 10);
        assert((old(out)@ + spec_decimal((n / 10) as nat)) + seq![digit_char((n % 10) as nat)]
            =~= old(out)@ + spec_decimal(n as nat));
    }
}

/// The identifier root reserved for UUID-derived keys.
pub open spec fn uid_prefix() -> Seq<char> {
    "2.25."@
}

/// The key derived from a 16-byte value: the root, then the value's decimal
/// rendering.
pub open spec fn spec_uid_of(n: nat) -> Seq<char> {
    uid_prefix() + spec_decimal(n)
}

/// Whether a string has the exact form of a generated key: the root, then
/// the decimal rendering of some sixteen-byte value.
pub open spec fn is_generated_uid(s: Seq<char>) -> bool {
    exists|n: nat| n < pow256(16) && s == #[trigger] spec_uid_of(n)
}

/// The study key derived from sixteen given bytes.
pub fn uid_from_bytes(bytes: &Vec<u8>) -> (r: String)
    requires
        bytes@.len() == 16,
    ensures
        r@ == spec_uid_of(le_value(bytes@)),
{
    let v = le_u128(bytes);
    let mut out = String::from_str("2.25.");
    push_decimal(&mut out, v);
    out
}

/// A fresh study key: the reserved root followed by the decimal value of
/// sixteen random bytes.
pub fn generate_dicom_uid() -> (r: String)
    ensures
        is_generated_uid(r@),
{
    let bytes = random_uuid_bytes();
    let r = uid_from_bytes(&bytes);
    proof {
        lemma_le_value_bound(bytes@);
        assert(le_value(bytes@) < pow256(16) && r@ == spec_uid_of(le_value(bytes@)));
    }
    r
}

} // verus!
