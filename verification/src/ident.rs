//! The identifier codec: a 128-bit identifier to and from its canonical
//! textual form, the lowercase hyphenated hexadecimal 8-4-4-4-12 grouping
//! (36 characters, hyphens after the 8th, 12th, 16th and 20th digit).
//!
//! Decoding accepts upper- as well as lowercase digits, as the grouped-hex
//! grammar does, and treats the value as an opaque 128-bit token: no
//! version or variant bits are inspected.  Encoding always yields the
//! canonical lowercase form.

use vstd::prelude::*;
use vstd::arithmetic::div_mod::*;
use vstd::arithmetic::power2::*;
use vstd::string::*;

use crate::error::Error;

verus! {

/// Relies on uuid::Uuid::new_v4 to mint a fresh random identifier, read out
/// as its 128-bit value.  Nothing is promised of the value.
#[verifier::external_body]
pub(crate) fn fresh_id() -> u128 {
    uuid::Uuid::new_v4().as_u128()
}

/// The lowercase hexadecimal digit for `n`.
pub open spec fn hex_char_of(n: int) -> char {
    if n == 0 { '0' } else if n == 1 { '1' } else if n == 2 { '2' } else if n == 3 { '3' }
    else if n == 4 { '4' } else if n == 5 { '5' } else if n == 6 { '6' } else if n == 7 { '7' }
    else if n == 8 { '8' } else if n == 9 { '9' } else if n == 10 { 'a' } else if n == 11 { 'b' }
    else if n == 12 { 'c' } else if n == 13 { 'd' } else if n == 14 { 'e' } else { 'f' }
}

/// The value of a hexadecimal digit, either case, or `-1` when `c` is no
/// such digit.
pub open spec fn hex_val_of(c: char) -> int {
    if c == '0' { 0 } else if c == '1' { 1 } else if c == '2' { 2 } else if c == '3' { 3 }
    else if c == '4' { 4 } else if c == '5' { 5 } else if c == '6' { 6 } else if c == '7' { 7 }
    else if c == '8' { 8 } else if c == '9' { 9 }
    else if c == 'a' || c == 'A' { 10 } else if c == 'b' || c == 'B' { 11 }
    else if c == 'c' || c == 'C' { 12 } else if c == 'd' || c == 'D' { 13 }
    else if c == 'e' || c == 'E' { 14 } else if c == 'f' || c == 'F' { 15 } else { -1 }
}

/// Whether position `p` of the 36-character form holds a hyphen.
pub open spec fn is_hyphen_pos(p: int) -> bool {
    p == 8 || p == 13 || p == 18 || p == 23
}

/// The position of hex digit `k` (most significant first, `0 <= k < 32`)
/// within the 36-character form.
pub open spec fn digit_pos(k: int) -> int {
    if k < 8 { k } else if k < 12 { k + 1 } else if k < 16 { k + 2 } else if k < 20 { k + 3 }
    else { k + 4 }
}

/// The digit index at a non-hyphen position `p` of the 36-character form.
pub open spec fn pos_digit(p: int) -> int {
    if p < 8 { p } else if p < 13 { p - 1 } else if p < 18 { p - 2 } else if p < 23 { p - 3 }
    else { p - 4 }
}

/// Hex digit `k` of `id`, most significant first.
pub open spec fn nibble_of(id: u128, k: int) -> int {
    ((id as int) / (pow2(((31 - k) * 4) as nat) as int)) % 16
}

/// The canonical textual form of `id`.
pub open spec fn spec_encode_id(id: u128) -> Seq<char> {
    Seq::new(
        36,
        |p: int|
            if is_hyphen_pos(p) {
                '-'
            } else {
                hex_char_of(nibble_of(id, pos_digit(p)))
            },
    )
}

/// The grouped-hex grammar: 36 characters, hyphens exactly at the group
/// boundaries, hexadecimal digits of either case everywhere else.
pub open spec fn is_valid_id_chars(s: Seq<char>) -> bool {
    &&& s.len() == 36
    &&& forall|p: int|
        0 <= p < 36 ==> (if is_hyphen_pos(p) {
            s[p] == '-'
        } else {
            hex_val_of(#[trigger] s[p]) >= 0
        })
}

/// The value of the first `k` hex digits of a 36-character grouped form.
pub open spec fn id_prefix_val(s: Seq<char>, k: int) -> int
    decreases k,
{
    if k <= 0 {
        0
    } else {
        16 * id_prefix_val(s, k - 1) + hex_val_of(s[digit_pos(k - 1)])
    }
}

/// The identifier a valid grouped-hex form stands for.
pub open spec fn spec_decode_id(s: Seq<char>) -> u128 {
    id_prefix_val(s, 32) as u128
}

/// Values of the powers of two this codec turns on.
proof fn lemma_id_pow2_facts()
    ensures
        pow2(0) == 1,
        pow2(4) == 16,
        pow2(124) == 0x10000000000000000000000000000000,
        pow2(128) == 0x100000000000000000000000000000000,
{
    lemma2_to64();
    lemma2_to64_rest();
    lemma_pow2_adds(64, 60);
    lemma_pow2_adds(64, 64);
}

/// The first `k` digits of a digit-wise valid form are worth less than
/// `16^k`.
proof fn lemma_id_prefix_val_bound(s: Seq<char>, k: int)
    requires
        0 <= k <= 32,
        forall|t: int| 0 <= t < k ==> hex_val_of(#[trigger] s[digit_pos(t)]) >= 0,
    ensures
        0 <= id_prefix_val(s, k) < pow2((4 * k) as nat),
    decreases k,
{
    if k == 0 {
        lemma_id_pow2_facts();
        assert(pow2(0) == 1);
    } else {
        lemma_id_prefix_val_bound(s, k - 1);
        lemma_pow2_adds((4 * (k - 1)) as nat, 4);
        lemma_id_pow2_facts();
        assert(hex_val_of(s[digit_pos(k - 1)]) < 16);
    }
}

/// Encoding then reading back a digit is the identity.
proof fn lemma_hex_round_trip(n: int)
    requires
        0 <= n < 16,
    ensures
        hex_val_of(hex_char_of(n)) == n,
{
}

/// The canonical form of every identifier meets the grouped-hex grammar.
pub proof fn lemma_encode_id_valid(id: u128)
    ensures
        is_valid_id_chars(spec_encode_id(id)),
{
    let s = spec_encode_id(id);
    assert forall|p: int| 0 <= p < 36 && !is_hyphen_pos(p) implies hex_val_of(s[p]) >= 0 by {
        let n = nibble_of(id, pos_digit(p));
        lemma_pow2_pos(((31 - pos_digit(p)) * 4) as nat);
        lemma_mod_bound((id as int) / (pow2(((31 - pos_digit(p)) * 4) as nat) as int), 16);
        lemma_div_pos_is_pos(id as int, pow2(((31 - pos_digit(p)) * 4) as nat) as int);
        lemma_hex_round_trip(n);
    }
}

/// The first `k` digits of the canonical form of `id` are worth the top
/// `k` nibbles of `id`.
proof fn lemma_id_prefix_of_encode(id: u128, k: int)
    requires
        0 <= k <= 32,
    ensures
        id_prefix_val(spec_encode_id(id), k) == (id as int) / (pow2(((32 - k) * 4) as nat) as int),
    decreases k,
{
    let s = spec_encode_id(id);
    lemma_id_pow2_facts();
    if k == 0 {
        lemma_basic_div(id as int, pow2(128) as int);
    } else {
        lemma_id_prefix_of_encode(id, k - 1);
        let c = pow2(((32 - k) * 4) as nat) as int;
        let y = (id as int) / c;
        // the digit written at position k-1 is nibble k-1 of id
        assert(s[digit_pos(k - 1)] == hex_char_of(nibble_of(id, k - 1)));
        lemma_pow2_pos(((32 - k) * 4) as nat);
        lemma_mod_bound(y, 16);
        lemma_div_pos_is_pos(id as int, c);
        lemma_hex_round_trip(nibble_of(id, k - 1));
        assert(hex_val_of(s[digit_pos(k - 1)]) == y % 16);
        // id / 16^(33-k) relates to id / 16^(32-k) by one more division by 16
        lemma_pow2_adds(((32 - k) * 4) as nat, 4);
        lemma_div_denominator(id as int, c, 16);
        assert((id as int) / (pow2(((32 - (k - 1)) * 4) as nat) as int) == y / 16);
        lemma_fundamental_div_mod(y, 16);
    }
}

/// Identifier round trip: the canonical form of every 128-bit value meets
/// the grammar and decodes back to that value.
pub proof fn lemma_id_round_trip(id: u128)
    ensures
        is_valid_id_chars(spec_encode_id(id)),
        spec_decode_id(spec_encode_id(id)) == id,
{
    lemma_encode_id_valid(id);
    lemma_id_prefix_of_encode(id, 32);
    lemma_id_pow2_facts();
}

/// The hexadecimal value of `c`, the executable counterpart of
/// [`hex_val_of`].
fn hex_val_exec(c: char) -> (r: Option<u8>)
    ensures
        r matches Some(d) ==> hex_val_of(c) == d as int,
        r is None ==> hex_val_of(c) < 0,
{
    match c {
        '0' => Some(0),
        '1' => Some(1),
        '2' => Some(2),
        '3' => Some(3),
        '4' => Some(4),
        '5' => Some(5),
        '6' => Some(6),
        '7' => Some(7),
        '8' => Some(8),
        '9' => Some(9),
        'a' | 'A' => Some(10),
        'b' | 'B' => Some(11),
        'c' | 'C' => Some(12),
        'd' | 'D' => Some(13),
        'e' | 'E' => Some(14),
        'f' | 'F' => Some(15),
        _ => None,
    }
}

/// The position of hex digit `k`, the executable counterpart of
/// [`digit_pos`].
fn digit_pos_exec(k: usize) -> (p: usize)
    requires
        k < 32,
    ensures
        p == digit_pos(k as int),
        p < 36,
        !is_hyphen_pos(p as int),
        pos_digit(p as int) == k as int,
{
    if k < 8 { k } else if k < 12 { k + 1 } else if k < 16 { k + 2 } else if k < 20 { k + 3 }
    else { k + 4 }
}

/// Encodes `id` in its canonical lowercase hyphenated hexadecimal form.
pub fn encode_id(id: u128) -> (r: String)
    ensures
        r@ == spec_encode_id(id),
{
    // nibbles of id, least significant first
    let mut nibs: Vec<u8> = Vec::new();
    let mut rest: u128 = id;
    let mut j: usize = 0;
    proof {
        lemma_id_pow2_facts();
        lemma_div_basics(id as int);
    }
    while j < 32
        invariant
            0 <= j <= 32,
            nibs@.len() == j,
            rest as int == (id as int) / (pow2((4 * j) as nat) as int),
            forall|t: int| 0 <= t < j ==> #[trigger] nibs@[t] as int == nibble_of(id, 31 - t),
            forall|t: int| 0 <= t < j ==> #[trigger] nibs@[t] < 16,
        decreases 32 - j,
    {
        proof {
            lemma_pow2_pos((4 * j) as nat);
            lemma_div_pos_is_pos(id as int, pow2((4 * j) as nat) as int);
            lemma_pow2_adds((4 * j) as nat, 4);
            lemma_div_denominator(id as int, pow2((4 * j) as nat) as int, 16);
            lemma_id_pow2_facts();
            assert(nibble_of(id, 31 - j) == (rest as int) % 16);
        }
        nibs.push((rest % 16) as u8);
        rest = rest / 16;
        j = j + 1;
    }
    let mut out = String::new();
    let mut p: usize = 0;
    while p < 36
        invariant
            0 <= p <= 36,
            out@.len() == p,
            nibs@.len() == 32,
            forall|t: int| 0 <= t < 32 ==> #[trigger] nibs@[t] as int == nibble_of(id, 31 - t),
            forall|t: int| 0 <= t < 32 ==> #[trigger] nibs@[t] < 16,
            forall|q: int| 0 <= q < p ==> out@[q] == spec_encode_id(id)[q],
        decreases 36 - p,
    {
        proof {
            reveal_strlit("-");
            reveal_strlit("0");
            reveal_strlit("1");
            reveal_strlit("2");
            reveal_strlit("3");
            reveal_strlit("4");
            reveal_strlit("5");
            reveal_strlit("6");
            reveal_strlit("7");
            reveal_strlit("8");
            reveal_strlit("9");
            reveal_strlit("a");
            reveal_strlit("b");
            reveal_strlit("c");
            reveal_strlit("d");
            reveal_strlit("e");
            reveal_strlit("f");
        }
        if p == 8 || p == 13 || p == 18 || p == 23 {
            out.append("-");
        } else {
            let k = if p < 8 { p } else if p < 13 { p - 1 } else if p < 18 { p - 2 }
            else if p < 23 { p - 3 } else { p - 4 };
            proof {
                assert(k == pos_digit(p as int));
                assert(k < 32);
                assert(nibs@[31 - k as int] as int == nibble_of(id, k as int));
            }
            let nib = nibs[31 - k];
            match nib {
                0 => out.append("0"),
                1 => out.append("1"),
                2 => out.append("2"),
                3 => out.append("3"),
                4 => out.append("4"),
                5 => out.append("5"),
                6 => out.append("6"),
                7 => out.append("7"),
                8 => out.append("8"),
                9 => out.append("9"),
                10 => out.append("a"),
                11 => out.append("b"),
                12 => out.append("c"),
                13 => out.append("d"),
                14 => out.append("e"),
                15 => out.append("f"),
                _ => {
                    proof {
                        assert(false);
                    }
                },
            }
        }
        p = p + 1;
    }
    proof {
        assert(out@ =~= spec_encode_id(id));
    }
    out
}

/// Decodes a grouped-hex identifier string, rejecting anything outside the
/// grammar with [`Error::MalformedIdentifier`].
pub fn decode_id(s: &str) -> (r: Result<u128, Error>)
    ensures
        is_valid_id_chars(s@) ==> r == Ok::<u128, Error>(spec_decode_id(s@)),
        !is_valid_id_chars(s@) ==> r == Err::<u128, Error>(Error::MalformedIdentifier),
{
    if s.unicode_len() != 36 {
        return Err(Error::MalformedIdentifier);
    }
    // the four group boundaries must hold hyphens
    if s.get_char(8) != '-' || s.get_char(13) != '-' || s.get_char(18) != '-' || s.get_char(23)
        != '-' {
        return Err(Error::MalformedIdentifier);
    }
    let mut acc: u128 = 0;
    let mut k: usize = 0;
    proof {
        lemma_id_pow2_facts();
    }
    while k < 32
        invariant
            0 <= k <= 32,
            s@.len() == 36,
            acc as int == id_prefix_val(s@, k as int),
            (acc as int) < pow2((4 * k) as nat),
            forall|t: int| 0 <= t < k ==> hex_val_of(#[trigger] s@[digit_pos(t)]) >= 0,
        decreases 32 - k,
    {
        let p = digit_pos_exec(k);
        let c = s.get_char(p);
        match hex_val_exec(c) {
            Some(d) => {
                proof {
                    lemma_id_pow2_facts();
                    lemma_pow2_adds((4 * k) as nat, 4);
                    if 4 * k < 124 {
                        lemma_pow2_strictly_increases((4 * k) as nat, 124);
                    }
                }
                acc = acc * 16 + (d as u128);
            },
            None => {
                proof {
                    assert(!is_valid_id_chars(s@)) by {
                        assert(!is_hyphen_pos(p as int) && hex_val_of(s@[p as int]) < 0);
                    }
                }
                return Err(Error::MalformedIdentifier);
            },
        }
        k = k + 1;
    }
    proof {
        assert(is_valid_id_chars(s@)) by {
            assert forall|p: int| 0 <= p < 36 && !is_hyphen_pos(p) implies hex_val_of(s@[p])
                >= 0 by {
                assert(hex_val_of(s@[digit_pos(pos_digit(p))]) >= 0);
            }
        }
        lemma_id_prefix_val_bound(s@, 32);
    }
    Ok(acc)
}

} // verus!
