//! Binary security identifiers (SIDs) decoded to their string form.
//!
//! Layout: revision (1 byte), sub-authority count `N` (1 byte, at most 15),
//! identifier authority (6 bytes, big-endian), then `N` little-endian 32-bit
//! sub-authorities. The string form is `S-<revision>-<N>-<sub1>-...-<subN>`:
//! the identifier authority is left out of it.
use vstd::prelude::*;
use crate::text::{dash_join, dec_str, decimal, is_numeral, lemma_dec_str_is_numeral};

verus! {

/// Bytes before the first sub-authority.
pub const SID_HEADER_LEN: usize = 8;

/// The largest number of sub-authorities a SID may hold.
pub const MAX_SUB_AUTHORITIES: u8 = 15;

/// Why a byte sequence is not a SID.
#[derive(Debug, Clone, Copy, PartialEq, Eq, Structural)]
pub enum SidError {
    /// The input is empty: not even a revision byte.
    MalformedSid,
    /// The input is shorter than the fixed header.
    SidTooShort { actual: usize },
    /// The sub-authority count byte exceeds the maximum.
    SidTooManySubAuthorities { count: u8 },
    /// The length disagrees with the sub-authority count.
    SidLengthMismatch { actual: usize, expected: usize },
}

/// The text that describes an error, with the lengths or count it concerns.
pub open spec fn sid_message(e: SidError) -> Seq<char> {
    match e {
        SidError::MalformedSid => "Couldn't get revision from SID"@,
        SidError::SidTooShort { actual } => "SID array doesn't meet the minimum size requirement of 8 bytes: its length is "@
            + dec_str(actual as nat) + " bytes"@,
        SidError::SidTooManySubAuthorities { count } => "SID has "@ + dec_str(count as nat)
            + " sub authorities, more than the maximum of 15"@,
        SidError::SidLengthMismatch { actual, expected } => "According to byte 1 of the SID its total length should be "@
            + dec_str(expected as nat) + " bytes, however its actual length is "@ + dec_str(
            actual as nat,
        ) + " bytes"@,
    }
}

impl SidError {
    /// A sentence that describes the error.
    pub fn message(&self) -> (r: String)
        ensures
            r@ == sid_message(*self),
    {
        match *self {
            SidError::MalformedSid => String::from_str("Couldn't get revision from SID"),
            SidError::SidTooShort { actual } => {
                let mut s = String::from_str(
                    "SID array doesn't meet the minimum size requirement of 8 bytes: its length is ",
                );
                s.append(decimal(actual as u64).as_str());
                s.append(" bytes");
                s
            },
            SidError::SidTooManySubAuthorities { count } => {
                let mut s = String::from_str("SID has ");
                s.append(decimal(count as u64).as_str());
                s.append(" sub authorities, more than the maximum of 15");
                s
            },
            SidError::SidLengthMismatch { actual, expected } => {
                let mut s = String::from_str(
                    "According to byte 1 of the SID its total length should be ",
                );
                s.append(decimal(expected as u64).as_str());
                s.append(" bytes, however its actual length is ");
                s.append(decimal(actual as u64).as_str());
                s.append(" bytes");
                s
            },
        }
    }
}

/// The little-endian 32-bit value of the four bytes at `off`.
pub open spec fn le_u32_at(b: Seq<u8>, off: int) -> nat {
    (b[off] as nat) + 256 * (b[off + 1] as nat) + 65536 * (b[off + 2] as nat) + 16777216 * (
    b[off + 3] as nat)
}

/// The sub-authority count a SID announces in its second byte.
pub open spec fn sub_count(b: Seq<u8>) -> nat {
    b[1] as nat
}

/// The length a SID with this count byte must have.
pub open spec fn required_len(b: Seq<u8>) -> int {
    8 + 4 * sub_count(b) as int
}

/// The sub-authorities, in order.
pub open spec fn sub_authorities(b: Seq<u8>) -> Seq<nat> {
    Seq::new(sub_count(b), |i: int| le_u32_at(b, 8 + 4 * i))
}

/// The numerals of a SID string: revision, count, then each sub-authority.
pub open spec fn sid_segments(b: Seq<u8>) -> Seq<Seq<char>> {
    seq![dec_str(b[0] as nat), dec_str(sub_count(b))] + sub_authorities(b).map_values(
        |v: nat| dec_str(v),
    )
}

/// The string form of a well-formed SID.
pub open spec fn sid_text(b: Seq<u8>) -> Seq<char> {
    seq!['S'] + dash_join(sid_segments(b))
}

/// The error a byte sequence is refused with, if any, checked in this order:
/// empty, too short to hold the count, too many sub-authorities, shorter than
/// the header, length other than the count demands.
pub open spec fn sid_error(b: Seq<u8>) -> Option<SidError> {
    if b.len() == 0 {
        Some(SidError::MalformedSid)
    } else if b.len() < 2 {
        Some(SidError::SidTooShort { actual: b.len() as usize })
    } else if b[1] > 15 {
        Some(SidError::SidTooManySubAuthorities { count: b[1] })
    } else if b.len() < 8 {
        Some(SidError::SidTooShort { actual: b.len() as usize })
    } else if b.len() != required_len(b) {
        Some(SidError::SidLengthMismatch { actual: b.len() as usize, expected: required_len(b) as usize })
    } else {
        None
    }
}

/// `s` has the shape `S-d-d(-d)*` with `n` numerals after the first two.
pub open spec fn sid_shaped(s: Seq<char>, n: nat) -> bool {
    exists|segs: Seq<Seq<char>>|
        #![trigger dash_join(segs)]
        segs.len() == n + 2 && (forall|i: int| 0 <= i < segs.len() ==> is_numeral(#[trigger] segs[i]))
            && s == seq!['S'] + dash_join(segs)
}

/// Reads the little-endian 32-bit integer at `off`.
fn read_le_u32(bytes: &[u8], off: usize) -> (r: u32)
    requires
        off + 4 <= bytes@.len(),
    ensures
        r as nat == le_u32_at(bytes@, off as int),
{
    let b0 = bytes[off] as u32;
    let b1 = bytes[off + 1] as u32;
    let b2 = bytes[off + 2] as u32;
    let b3 = bytes[off + 3] as u32;
    b0 + 256 * b1 + 65536 * b2 + 16777216 * b3
}

/// Decodes a binary SID into `S-<revision>-<count>-<sub1>-...`.
pub fn obj_sid_to_string(bytes: &[u8]) -> (r: Result<String, SidError>)
    ensures
        match r {
            Ok(s) => sid_error(bytes@).is_none() && s@ == sid_text(bytes@),
            Err(e) => sid_error(bytes@) == Some(e),
        },
{
    let len = bytes.len();
    if len == 0 {
        return Err(SidError::MalformedSid);
    }
    if len < 2 {
        return Err(SidError::SidTooShort { actual: len });
    }
    let revision = bytes[0];
    let count = bytes[1];
    if count > MAX_SUB_AUTHORITIES {
        return Err(SidError::SidTooManySubAuthorities { count });
    }
    if len < SID_HEADER_LEN {
        return Err(SidError::SidTooShort { actual: len });
    }
    let expected = SID_HEADER_LEN + 4 * (count as usize);
    if len != expected {
        return Err(SidError::SidLengthMismatch { actual: len, expected });
    }
    let ghost segs = sid_segments(bytes@);
    let mut s = String::from_str("S-");
    s.append(decimal(revision as u64).as_str());
    s.append("-");
    s.append(decimal(count as u64).as_str());
    proof {
        reveal_strlit("S-");
        reveal_strlit("-");
        assert(segs.take(1).drop_last() =~= Seq::<Seq<char>>::empty());
        assert(segs.take(2).drop_last() =~= segs.take(1));
        assert(segs[0] == dec_str(revision as nat));
        assert(segs[1] == dec_str(count as nat));
        assert(segs.take(1).last() == segs[0]);
        assert(segs.take(2).last() == segs[1]);
        assert(dash_join(segs.take(1).drop_last()) =~= Seq::<char>::empty());
        assert(dash_join(segs.take(1)) == dash_join(segs.take(1).drop_last()) + seq!['-']
            + segs[0]);
        assert(dash_join(segs.take(1)) =~= seq!['-'] + segs[0]);
        assert(dash_join(segs.take(2)) =~= seq!['-'] + segs[0] + seq!['-'] + segs[1]);
        assert(s@ =~= seq!['S'] + dash_join(segs.take(2)));
    }
    let n = count as usize;
    let mut i: usize = 0;
    while i < n
        invariant
            n == sub_count(bytes@),
            n <= 15,
            len == bytes@.len(),
            len == 8 + 4 * n,
            segs == sid_segments(bytes@),
            i <= n,
            s@ == seq!['S'] + dash_join(segs.take(2 + i)),
        decreases n - i,
    {
        let v = read_le_u32(bytes, SID_HEADER_LEN + 4 * i);
        s.append("-");
        s.append(decimal(v as u64).as_str());
        proof {
            reveal_strlit("-");
            assert(segs.take(3 + i).drop_last() =~= segs.take(2 + i));
            assert(segs.take(3 + i).last() == segs[2 + i]);
            assert(segs[2 + i] == dec_str(v as nat));
        }
        i = i + 1;
    }
    proof {
        assert(segs.take(2 + n) =~= segs);
    }
    Ok(s)
}

/// A well-formed SID decodes to a string of the shape `S-d-d(-d)*` with
/// exactly as many numerals after the first two as its count byte announces.
pub proof fn lemma_sid_shape(bytes: Seq<u8>)
    requires
        bytes.len() > 0,
        bytes[1] <= 15,
        bytes.len() == 8 + 4 * bytes[1],
    ensures
        sid_error(bytes).is_none(),
        sid_shaped(sid_text(bytes), bytes[1] as nat),
{
    let segs = sid_segments(bytes);
    assert forall|i: int| 0 <= i < segs.len() implies is_numeral(#[trigger] segs[i]) by {
        if i == 0 {
            lemma_dec_str_is_numeral(bytes[0] as nat);
        } else if i == 1 {
            lemma_dec_str_is_numeral(sub_count(bytes));
        } else {
            lemma_dec_str_is_numeral(sub_authorities(bytes)[i - 2]);
        }
    }
}

/// For a given count byte, every length other than `8 + 4 * count` is refused.
pub proof fn lemma_sid_length_strict(bytes: Seq<u8>)
    requires
        bytes.len() > 0,
        bytes.len() != 8 + 4 * bytes[1],
    ensures
        sid_error(bytes).is_some(),
{
}

} // verus!
