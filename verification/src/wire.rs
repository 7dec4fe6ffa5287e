//! The binary form of operators and values: a discriminant byte, then the
//! fields in order; integers low byte first; a byte string of no fixed
//! length behind its length in four bytes.

use vstd::prelude::*;
use crate::bytes::{
    array32_at, le_u128, lemma_append_both, le_u16, le_u32, le_u64, lemma_array32_at, lemma_array32_at_view,
    lemma_join_at, lemma_pattern_of_twos_complement, lemma_split_at, lemma_u128_bytes_of_read,
    lemma_u16_bytes_of_read, lemma_u32_bytes_of_read, lemma_u64_bytes_of_read, read_array32,
    read_u16, read_u64, lemma_twos_complement_of_pattern, lemma_u128_le_bytes_len,
    lemma_u128_round_trip, lemma_u16_round_trip, lemma_u32_le_bytes_len, lemma_u32_round_trip,
    lemma_u64_le_bytes_len, lemma_u64_round_trip, push_bytes, push_u128, push_u16, push_u32,
    push_u64, read_u32, u128_le_bytes, u16_le_bytes, u32_le_bytes, u64_le_bytes,
    unsigned_pattern,
};
use crate::error::EngineError;
use crate::operator::Operator;
use crate::solana::Pubkey;
use crate::value::{decode_spec, DataKind, DataValue, DataValueView};

verus! {

/// Whether `n` bytes stand at `pos` of `s`.
pub open spec fn in_range(s: Seq<u8>, pos: int, n: int) -> bool {
    0 <= pos && pos + n <= s.len()
}

/// The flag that the byte at `pos` holds: 0 for false, 1 for true, nothing
/// for any other byte.
pub open spec fn parse_bool(s: Seq<u8>, pos: int) -> Option<(bool, int)> {
    if in_range(s, pos, 1) && s[pos] == 0 {
        Some((false, pos + 1))
    } else if in_range(s, pos, 1) && s[pos] == 1 {
        Some((true, pos + 1))
    } else {
        None
    }
}

pub open spec fn bool_encoding(b: bool) -> Seq<u8> {
    seq![if b { 1u8 } else { 0u8 }]
}

/// Appends the byte of a flag.
pub fn serialize_bool(b: bool, out: &mut Vec<u8>)
    ensures
        final(out)@ == old(out)@ + bool_encoding(b),
{
    if b {
        out.push(1);
    } else {
        out.push(0);
    }
}

/// Reads the flag at `pos`.
pub fn deserialize_bool(bytes: &[u8], pos: usize) -> (r: Result<(bool, usize), EngineError>)
    ensures
        match r {
            Ok((b, end)) => parse_bool(bytes@, pos as int) == Some((b, end as int)),
            Err(e) => e == EngineError::MalformedEncoding && parse_bool(bytes@, pos as int)
                is None,
        },
        r matches Ok((_, end)) ==> pos < end <= bytes@.len(),
{
    if pos >= bytes.len() {
        return Err(EngineError::MalformedEncoding);
    }
    let b = bytes[pos];
    if b == 0 {
        Ok((false, pos + 1))
    } else if b == 1 {
        Ok((true, pos + 1))
    } else {
        Err(EngineError::MalformedEncoding)
    }
}

impl Operator {
    /// The operator's discriminant byte.
    pub open spec fn spec_tag(self) -> u8 {
        match self {
            Operator::Equal => 0,
            Operator::NotEqual => 1,
            Operator::GreaterThan => 2,
            Operator::LessThan => 3,
            Operator::GreaterThanOrEqual => 4,
            Operator::LessThanOrEqual => 5,
            Operator::AllBitsSet => 6,
            Operator::AnyBitsSet => 7,
            Operator::AllBitsClear => 8,
            Operator::DoesNotExist => 9,
        }
    }

    /// The operator of a discriminant byte, if it is one.
    pub open spec fn spec_from_tag(tag: u8) -> Option<Operator> {
        if tag == 0 {
            Some(Operator::Equal)
        } else if tag == 1 {
            Some(Operator::NotEqual)
        } else if tag == 2 {
            Some(Operator::GreaterThan)
        } else if tag == 3 {
            Some(Operator::LessThan)
        } else if tag == 4 {
            Some(Operator::GreaterThanOrEqual)
        } else if tag == 5 {
            Some(Operator::LessThanOrEqual)
        } else if tag == 6 {
            Some(Operator::AllBitsSet)
        } else if tag == 7 {
            Some(Operator::AnyBitsSet)
        } else if tag == 8 {
            Some(Operator::AllBitsClear)
        } else if tag == 9 {
            Some(Operator::DoesNotExist)
        } else {
            None
        }
    }

    pub open spec fn encoding(self) -> Seq<u8> {
        seq![self.spec_tag()]
    }

    /// The operator that stands at `pos` of `s`, and where it ends.
    pub open spec fn parse(s: Seq<u8>, pos: int) -> Option<(Operator, int)> {
        if in_range(s, pos, 1) {
            match Operator::spec_from_tag(s[pos]) {
                Some(operator) => Some((operator, pos + 1)),
                None => None,
            }
        } else {
            None
        }
    }

    pub fn tag(&self) -> (t: u8)
        ensures
            t == self.spec_tag(),
    {
        match self {
            Operator::Equal => 0,
            Operator::NotEqual => 1,
            Operator::GreaterThan => 2,
            Operator::LessThan => 3,
            Operator::GreaterThanOrEqual => 4,
            Operator::LessThanOrEqual => 5,
            Operator::AllBitsSet => 6,
            Operator::AnyBitsSet => 7,
            Operator::AllBitsClear => 8,
            Operator::DoesNotExist => 9,
        }
    }

    pub fn from_tag(tag: u8) -> (r: Option<Operator>)
        ensures
            r == Operator::spec_from_tag(tag),
    {
        if tag == 0 {
            Some(Operator::Equal)
        } else if tag == 1 {
            Some(Operator::NotEqual)
        } else if tag == 2 {
            Some(Operator::GreaterThan)
        } else if tag == 3 {
            Some(Operator::LessThan)
        } else if tag == 4 {
            Some(Operator::GreaterThanOrEqual)
        } else if tag == 5 {
            Some(Operator::LessThanOrEqual)
        } else if tag == 6 {
            Some(Operator::AllBitsSet)
        } else if tag == 7 {
            Some(Operator::AnyBitsSet)
        } else if tag == 8 {
            Some(Operator::AllBitsClear)
        } else if tag == 9 {
            Some(Operator::DoesNotExist)
        } else {
            None
        }
    }

    /// Appends the operator's byte.
    pub fn serialize(&self, out: &mut Vec<u8>)
        ensures
            final(out)@ == old(out)@ + self.encoding(),
    {
        out.push(self.tag());
    }

    /// Reads the operator at `pos`.
    pub fn deserialize(bytes: &[u8], pos: usize) -> (r: Result<(Operator, usize), EngineError>)
        ensures
            match r {
                Ok((v, end)) => Operator::parse(bytes@, pos as int) == Some((v, end as int)),
                Err(e) => e == EngineError::MalformedEncoding && Operator::parse(
                    bytes@,
                    pos as int,
                ) is None,
            },
            r matches Ok((_, end)) ==> pos < end <= bytes@.len(),
    {
        if pos >= bytes.len() {
            return Err(EngineError::MalformedEncoding);
        }
        match Operator::from_tag(bytes[pos]) {
            Some(operator) => Ok((operator, pos + 1)),
            None => Err(EngineError::MalformedEncoding),
        }
    }

    /// Reading back what `encoding` wrote gives the operator written.
    pub proof fn lemma_round_trip(self, s: Seq<u8>, pos: int)
        requires
            in_range(s, pos, 1),
            s.subrange(pos, pos + 1) == self.encoding(),
        ensures
            Operator::parse(s, pos) == Some((self, pos + 1)),
    {
        assert(s[pos] == s.subrange(pos, pos + 1)[0]);
    }
}

impl DataKind {
    /// The kind of a discriminant byte, for the kinds of fixed width but the
    /// flag.
    pub open spec fn spec_of_fixed_tag(tag: u8) -> Option<DataKind> {
        if tag == 0 {
            Some(DataKind::U8)
        } else if tag == 1 {
            Some(DataKind::U16)
        } else if tag == 2 {
            Some(DataKind::U32)
        } else if tag == 3 {
            Some(DataKind::U64)
        } else if tag == 4 {
            Some(DataKind::U128)
        } else if tag == 5 {
            Some(DataKind::I8)
        } else if tag == 6 {
            Some(DataKind::I16)
        } else if tag == 7 {
            Some(DataKind::I32)
        } else if tag == 8 {
            Some(DataKind::I64)
        } else if tag == 9 {
            Some(DataKind::I128)
        } else if tag == 11 {
            Some(DataKind::Bytes32)
        } else if tag == 12 {
            Some(DataKind::Pubkey)
        } else {
            None
        }
    }

    pub fn of_fixed_tag(tag: u8) -> (r: Option<DataKind>)
        ensures
            r == DataKind::spec_of_fixed_tag(tag),
    {
        if tag == 0 {
            Some(DataKind::U8)
        } else if tag == 1 {
            Some(DataKind::U16)
        } else if tag == 2 {
            Some(DataKind::U32)
        } else if tag == 3 {
            Some(DataKind::U64)
        } else if tag == 4 {
            Some(DataKind::U128)
        } else if tag == 5 {
            Some(DataKind::I8)
        } else if tag == 6 {
            Some(DataKind::I16)
        } else if tag == 7 {
            Some(DataKind::I32)
        } else if tag == 8 {
            Some(DataKind::I64)
        } else if tag == 9 {
            Some(DataKind::I128)
        } else if tag == 11 {
            Some(DataKind::Bytes32)
        } else if tag == 12 {
            Some(DataKind::Pubkey)
        } else {
            None
        }
    }
}

impl DataValueView {
    /// Whether the value can be written: an address and a string of
    /// thirty-two bytes have that many, and a byte string of no fixed length
    /// has a length that four bytes can hold.
    pub open spec fn wf(self) -> bool {
        match self {
            DataValueView::Bytes32(b) => b.len() == 32,
            DataValueView::Pubkey(b) => b.len() == 32,
            DataValueView::Bytes(b) => b.len() <= u32::MAX,
            _ => true,
        }
    }

    /// The bytes of the value: its discriminant, then its payload.
    pub open spec fn encoding(self) -> Seq<u8> {
        match self {
            DataValueView::U8(x) => seq![0u8, x],
            DataValueView::U16(x) => seq![1u8] + u16_le_bytes(x as int),
            DataValueView::U32(x) => seq![2u8] + u32_le_bytes(x as int),
            DataValueView::U64(x) => seq![3u8] + u64_le_bytes(x as int),
            DataValueView::U128(x) => seq![4u8] + u128_le_bytes(x as int),
            DataValueView::I8(x) => seq![5u8, unsigned_pattern(x as int, 0x100) as u8],
            DataValueView::I16(x) => seq![6u8] + u16_le_bytes(unsigned_pattern(x as int, 0x1_0000)),
            DataValueView::I32(x) => seq![7u8] + u32_le_bytes(
                unsigned_pattern(x as int, 0x1_0000_0000),
            ),
            DataValueView::I64(x) => seq![8u8] + u64_le_bytes(
                unsigned_pattern(x as int, 0x1_0000_0000_0000_0000),
            ),
            DataValueView::I128(x) => seq![9u8] + u128_le_bytes(
                unsigned_pattern(x as int, 0x1_0000_0000_0000_0000_0000_0000_0000_0000int),
            ),
            DataValueView::Bool(b) => seq![10u8] + bool_encoding(b),
            DataValueView::Bytes32(b) => seq![11u8] + b,
            DataValueView::Pubkey(b) => seq![12u8] + b,
            DataValueView::Bytes(b) => seq![13u8] + u32_le_bytes(b.len() as int) + b,
        }
    }

    /// The value that stands at `pos` of `s`, and where it ends: a
    /// discriminant byte, then, for a kind of fixed width, the value as it
    /// is read from a buffer; for a flag, a byte that is 0 or 1; for a byte
    /// string of no fixed length, its length in four bytes and its bytes.
    pub open spec fn parse(s: Seq<u8>, pos: int) -> Option<(DataValueView, int)> {
        if !in_range(s, pos, 1) {
            None
        } else if s[pos] == 10 {
            match parse_bool(s, pos + 1) {
                Some((b, end)) => Some((DataValueView::Bool(b), end)),
                None => None,
            }
        } else if s[pos] == 13 {
            if in_range(s, pos + 1, 4) && in_range(s, pos + 5, le_u32(s, pos + 1)) {
                Some(
                    (
                        DataValueView::Bytes(s.subrange(pos + 5, pos + 5 + le_u32(s, pos + 1))),
                        pos + 5 + le_u32(s, pos + 1),
                    ),
                )
            } else {
                None
            }
        } else {
            match DataKind::spec_of_fixed_tag(s[pos]) {
                Some(kind) => if in_range(s, pos + 1, kind.spec_width() as int) {
                    Some((decode_spec(s, pos + 1, kind), pos + 1 + kind.spec_width()))
                } else {
                    None
                },
                None => None,
            }
        }
    }

    /// Reading back what `encoding` wrote gives the value written.
    pub proof fn lemma_round_trip(self, s: Seq<u8>, pos: int)
        requires
            self.wf(),
            in_range(s, pos, self.encoding().len() as int),
            s.subrange(pos, pos + self.encoding().len()) == self.encoding(),
        ensures
            DataValueView::parse(s, pos) == Some((self, pos + self.encoding().len())),
    {
        match self {
            DataValueView::U8(_) => self.lemma_round_trip_unsigned(s, pos),
            DataValueView::U16(_) => self.lemma_round_trip_unsigned(s, pos),
            DataValueView::U32(_) => self.lemma_round_trip_unsigned(s, pos),
            DataValueView::U64(_) => self.lemma_round_trip_unsigned(s, pos),
            DataValueView::U128(_) => self.lemma_round_trip_unsigned(s, pos),
            DataValueView::I8(_) => self.lemma_round_trip_signed(s, pos),
            DataValueView::I16(_) => self.lemma_round_trip_signed(s, pos),
            DataValueView::I32(_) => self.lemma_round_trip_signed(s, pos),
            DataValueView::I64(_) => self.lemma_round_trip_signed(s, pos),
            DataValueView::I128(_) => self.lemma_round_trip_signed(s, pos),
            _ => self.lemma_round_trip_other(s, pos),
        }
    }

    proof fn lemma_round_trip_unsigned(self, s: Seq<u8>, pos: int)
        requires
            self.wf(),
            in_range(s, pos, self.encoding().len() as int),
            s.subrange(pos, pos + self.encoding().len()) == self.encoding(),
            self is U8 || self is U16 || self is U32 || self is U64 || self is U128,
        ensures
            DataValueView::parse(s, pos) == Some((self, pos + self.encoding().len())),
    {
        let enc = self.encoding();
        assert(s[pos] == s.subrange(pos, pos + enc.len())[0]);
        match self {
            DataValueView::U8(x) => {
                assert(s[pos + 1] == s.subrange(pos, pos + enc.len())[1]);
            },
            DataValueView::U16(x) => {
                lemma_split_at(s, pos, seq![1u8], u16_le_bytes(x as int));
                lemma_u16_round_trip(x as int, s, pos + 1);
            },
            DataValueView::U32(x) => {
                lemma_u32_le_bytes_len(x as int);
                lemma_split_at(s, pos, seq![2u8], u32_le_bytes(x as int));
                lemma_u32_round_trip(x as int, s, pos + 1);
            },
            DataValueView::U64(x) => {
                lemma_u64_le_bytes_len(x as int);
                lemma_split_at(s, pos, seq![3u8], u64_le_bytes(x as int));
                lemma_u64_round_trip(x as int, s, pos + 1);
            },
            DataValueView::U128(x) => {
                lemma_u128_le_bytes_len(x as int);
                lemma_split_at(s, pos, seq![4u8], u128_le_bytes(x as int));
                lemma_u128_round_trip(x as int, s, pos + 1);
            },
            _ => {},
        }
    }

    proof fn lemma_round_trip_signed(self, s: Seq<u8>, pos: int)
        requires
            self.wf(),
            in_range(s, pos, self.encoding().len() as int),
            s.subrange(pos, pos + self.encoding().len()) == self.encoding(),
            self is I8 || self is I16 || self is I32 || self is I64 || self is I128,
        ensures
            DataValueView::parse(s, pos) == Some((self, pos + self.encoding().len())),
    {
        let enc = self.encoding();
        assert(s[pos] == s.subrange(pos, pos + enc.len())[0]);
        match self {
            DataValueView::I8(x) => {
                assert(s[pos + 1] == s.subrange(pos, pos + enc.len())[1]);
                lemma_twos_complement_of_pattern(x as int, 0x100);
            },
            DataValueView::I16(x) => {
                let u = unsigned_pattern(x as int, 0x1_0000);
                lemma_twos_complement_of_pattern(x as int, 0x1_0000);
                lemma_split_at(s, pos, seq![6u8], u16_le_bytes(u));
                lemma_u16_round_trip(u, s, pos + 1);
            },
            DataValueView::I32(x) => {
                let u = unsigned_pattern(x as int, 0x1_0000_0000);
                lemma_twos_complement_of_pattern(x as int, 0x1_0000_0000);
                lemma_u32_le_bytes_len(u);
                lemma_split_at(s, pos, seq![7u8], u32_le_bytes(u));
                lemma_u32_round_trip(u, s, pos + 1);
            },
            DataValueView::I64(x) => {
                let u = unsigned_pattern(x as int, 0x1_0000_0000_0000_0000);
                lemma_twos_complement_of_pattern(x as int, 0x1_0000_0000_0000_0000);
                lemma_u64_le_bytes_len(u);
                lemma_split_at(s, pos, seq![8u8], u64_le_bytes(u));
                lemma_u64_round_trip(u, s, pos + 1);
            },
            DataValueView::I128(x) => {
                let m = 0x1_0000_0000_0000_0000_0000_0000_0000_0000int;
                let u = unsigned_pattern(x as int, m);
                lemma_twos_complement_of_pattern(x as int, m);
                lemma_u128_le_bytes_len(u);
                lemma_split_at(s, pos, seq![9u8], u128_le_bytes(u));
                lemma_u128_round_trip(u, s, pos + 1);
            },
            _ => {},
        }
    }

    proof fn lemma_round_trip_other(self, s: Seq<u8>, pos: int)
        requires
            self.wf(),
            in_range(s, pos, self.encoding().len() as int),
            s.subrange(pos, pos + self.encoding().len()) == self.encoding(),
            self is Bool || self is Bytes32 || self is Pubkey || self is Bytes,
        ensures
            DataValueView::parse(s, pos) == Some((self, pos + self.encoding().len())),
    {
        let enc = self.encoding();
        assert(s[pos] == s.subrange(pos, pos + enc.len())[0]);
        match self {
            DataValueView::Bool(b) => {
                assert(s[pos + 1] == s.subrange(pos, pos + enc.len())[1]);
            },
            DataValueView::Bytes32(b) => {
                lemma_split_at(s, pos, seq![11u8], b);
            },
            DataValueView::Pubkey(b) => {
                lemma_split_at(s, pos, seq![12u8], b);
            },
            DataValueView::Bytes(b) => {
                let n = b.len() as int;
                lemma_u32_le_bytes_len(n);
                let head = seq![13u8] + u32_le_bytes(n);
                assert(enc == head + b);
                lemma_split_at(s, pos, head, b);
                lemma_split_at(s, pos, seq![13u8], u32_le_bytes(n));
                lemma_u32_round_trip(n, s, pos + 1);
            },
            _ => {},
        }
    }
}

impl DataValue {
    /// Appends the value's bytes. The value must be one that can be
    /// written.
    pub fn serialize(&self, out: &mut Vec<u8>)
        requires
            self@.wf(),
        ensures
            final(out)@ == old(out)@ + self@.encoding(),
    {
        let ghost start = out@;
        match self {
            DataValue::U8(x) => {
                out.push(0);
                out.push(*x);
                assert(out@ =~= start + seq![0u8, *x]);
            },
            DataValue::U16(x) => {
                out.push(1);
                assert(out@ =~= start + seq![1u8]);
                push_u16(out, *x);
                proof {
                    lemma_append_both(start, seq![1u8], u16_le_bytes(*x as int));
                }
            },
            DataValue::U32(x) => {
                out.push(2);
                assert(out@ =~= start + seq![2u8]);
                push_u32(out, *x);
                proof {
                    lemma_append_both(start, seq![2u8], u32_le_bytes(*x as int));
                }
            },
            DataValue::U64(x) => {
                out.push(3);
                assert(out@ =~= start + seq![3u8]);
                push_u64(out, *x);
                proof {
                    lemma_append_both(start, seq![3u8], u64_le_bytes(*x as int));
                }
            },
            DataValue::U128(x) => {
                out.push(4);
                assert(out@ =~= start + seq![4u8]);
                push_u128(out, *x);
                proof {
                    lemma_append_both(start, seq![4u8], u128_le_bytes(*x as int));
                }
            },
            DataValue::I8(x) => {
                out.push(5);
                let pattern: u8 = if *x < 0 {
                    (*x - i8::MIN) as u8 + 0x80
                } else {
                    *x as u8
                };
                out.push(pattern);
                assert(out@ =~= start + seq![5u8, pattern]);
            },
            DataValue::I16(x) => {
                out.push(6);
                assert(out@ =~= start + seq![6u8]);
                let pattern: u16 = if *x < 0 {
                    (*x - i16::MIN) as u16 + 0x8000
                } else {
                    *x as u16
                };
                push_u16(out, pattern);
                proof {
                    lemma_append_both(start, seq![6u8], u16_le_bytes(pattern as int));
                }
            },
            DataValue::I32(x) => {
                out.push(7);
                assert(out@ =~= start + seq![7u8]);
                let pattern: u32 = if *x < 0 {
                    (*x - i32::MIN) as u32 + 0x8000_0000
                } else {
                    *x as u32
                };
                push_u32(out, pattern);
                proof {
                    lemma_append_both(start, seq![7u8], u32_le_bytes(pattern as int));
                }
            },
            DataValue::I64(x) => {
                out.push(8);
                assert(out@ =~= start + seq![8u8]);
                let pattern: u64 = if *x < 0 {
                    (*x - i64::MIN) as u64 + 0x8000_0000_0000_0000
                } else {
                    *x as u64
                };
                push_u64(out, pattern);
                proof {
                    lemma_append_both(start, seq![8u8], u64_le_bytes(pattern as int));
                }
            },
            DataValue::I128(x) => {
                out.push(9);
                assert(out@ =~= start + seq![9u8]);
                let pattern: u128 = if *x < 0 {
                    (*x - i128::MIN) as u128 + 0x8000_0000_0000_0000_0000_0000_0000_0000
                } else {
                    *x as u128
                };
                push_u128(out, pattern);
                proof {
                    lemma_append_both(start, seq![9u8], u128_le_bytes(pattern as int));
                }
            },
            DataValue::Bool(b) => {
                out.push(10);
                assert(out@ =~= start + seq![10u8]);
                serialize_bool(*b, out);
                proof {
                    lemma_append_both(start, seq![10u8], bool_encoding(*b));
                }
            },
            DataValue::Bytes32(b) => {
                out.push(11);
                assert(out@ =~= start + seq![11u8]);
                push_bytes(out, b.as_slice());
                proof {
                    lemma_append_both(start, seq![11u8], b@);
                }
            },
            DataValue::Pubkey(b) => {
                out.push(12);
                assert(out@ =~= start + seq![12u8]);
                push_bytes(out, b.as_slice());
                proof {
                    lemma_append_both(start, seq![12u8], b@);
                }
            },
            DataValue::Bytes(b) => {
                out.push(13);
                assert(out@ =~= start + seq![13u8]);
                push_u32(out, b.len() as u32);
                push_bytes(out, b.as_slice());
                proof {
                    let h2 = seq![13u8] + u32_le_bytes(b@.len() as int);
                    lemma_append_both(start, seq![13u8], u32_le_bytes(b@.len() as int));
                    lemma_append_both(start, h2, b@);
                }
            },
        }
    }

    /// Whether the value can be written.
    pub fn is_encodable(&self) -> (b: bool)
        ensures
            b == self@.wf(),
    {
        match self {
            DataValue::Bytes(b) => b.len() <= 0xffff_ffff,
            _ => true,
        }
    }

    /// Reads the value at `pos`.
    pub fn deserialize(bytes: &[u8], pos: usize) -> (r: Result<(DataValue, usize), EngineError>)
        ensures
            match r {
                Ok((v, end)) => DataValueView::parse(bytes@, pos as int) == Some(
                    (v@, end as int),
                ) && v@.wf(),
                Err(e) => e == EngineError::MalformedEncoding && DataValueView::parse(
                    bytes@,
                    pos as int,
                ) is None,
            },
            r matches Ok((_, end)) ==> pos < end <= bytes@.len(),
    {
        if pos >= bytes.len() {
            return Err(EngineError::MalformedEncoding);
        }
        let tag = bytes[pos];
        let at = pos + 1;
        if tag == 10 {
            match deserialize_bool(bytes, at) {
                Ok((b, end)) => Ok((DataValue::Bool(b), end)),
                Err(e) => Err(e),
            }
        } else if tag == 13 {
            if bytes.len() - at < 4 {
                return Err(EngineError::MalformedEncoding);
            }
            let n = read_u32(bytes, at);
            let start = at + 4;
            if n as u64 > (bytes.len() - start) as u64 {
                return Err(EngineError::MalformedEncoding);
            }
            match DataValue::decode(bytes, start, DataKind::Bytes(n as usize)) {
                Ok(v) => Ok((v, start + n as usize)),
                Err(_) => Err(EngineError::MalformedEncoding),
            }
        } else {
            match DataKind::of_fixed_tag(tag) {
                None => Err(EngineError::MalformedEncoding),
                Some(kind) => match DataValue::decode(bytes, at, kind) {
                    Ok(v) => Ok((v, at + kind.width())),
                    Err(_) => Err(EngineError::MalformedEncoding),
                },
            }
        }
    }
}

/// The byte that stands at `pos` of `s`.
pub open spec fn parse_u8(s: Seq<u8>, pos: int) -> Option<(u8, int)> {
    if in_range(s, pos, 1) {
        Some((s[pos], pos + 1))
    } else {
        None
    }
}

/// The 16-bit number that stands at `pos` of `s`.
pub open spec fn parse_u16(s: Seq<u8>, pos: int) -> Option<(u16, int)> {
    if in_range(s, pos, 2) {
        Some((le_u16(s, pos) as u16, pos + 2))
    } else {
        None
    }
}

/// The 64-bit number that stands at `pos` of `s`.
pub open spec fn parse_u64(s: Seq<u8>, pos: int) -> Option<(u64, int)> {
    if in_range(s, pos, 8) {
        Some((le_u64(s, pos) as u64, pos + 8))
    } else {
        None
    }
}

/// The address that stands at `pos` of `s`.
pub open spec fn parse_pubkey(s: Seq<u8>, pos: int) -> Option<(Pubkey, int)> {
    if in_range(s, pos, 32) {
        Some((array32_at(s, pos), pos + 32))
    } else {
        None
    }
}

/// The optional 16-bit number that stands at `pos` of `s`: a byte that is 0
/// for none, or 1 before the number.
pub open spec fn parse_option_u16(s: Seq<u8>, pos: int) -> Option<(Option<u16>, int)> {
    if in_range(s, pos, 1) && s[pos] == 0 {
        Some((None, pos + 1))
    } else if in_range(s, pos, 1) && s[pos] == 1 {
        match parse_u16(s, pos + 1) {
            Some((v, end)) => Some((Some(v), end)),
            None => None,
        }
    } else {
        None
    }
}

/// The optional 64-bit number that stands at `pos` of `s`.
pub open spec fn parse_option_u64(s: Seq<u8>, pos: int) -> Option<(Option<u64>, int)> {
    if in_range(s, pos, 1) && s[pos] == 0 {
        Some((None, pos + 1))
    } else if in_range(s, pos, 1) && s[pos] == 1 {
        match parse_u64(s, pos + 1) {
            Some((v, end)) => Some((Some(v), end)),
            None => None,
        }
    } else {
        None
    }
}

/// The optional address that stands at `pos` of `s`.
pub open spec fn parse_option_pubkey(s: Seq<u8>, pos: int) -> Option<(Option<Pubkey>, int)> {
    if in_range(s, pos, 1) && s[pos] == 0 {
        Some((None, pos + 1))
    } else if in_range(s, pos, 1) && s[pos] == 1 {
        match parse_pubkey(s, pos + 1) {
            Some((v, end)) => Some((Some(v), end)),
            None => None,
        }
    } else {
        None
    }
}

pub open spec fn option_u16_encoding(n: Option<u16>) -> Seq<u8> {
    match n {
        None => seq![0u8],
        Some(n) => seq![1u8] + u16_le_bytes(n as int),
    }
}

pub open spec fn option_u64_encoding(n: Option<u64>) -> Seq<u8> {
    match n {
        None => seq![0u8],
        Some(n) => seq![1u8] + u64_le_bytes(n as int),
    }
}

pub open spec fn option_pubkey_encoding(key: Option<Pubkey>) -> Seq<u8> {
    match key {
        None => seq![0u8],
        Some(k) => seq![1u8] + k@,
    }
}

/// Reading back a 16-bit number gives the number written.
pub proof fn lemma_u16_parse(n: u16, s: Seq<u8>, pos: int)
    requires
        in_range(s, pos, 2),
        s.subrange(pos, pos + 2) == u16_le_bytes(n as int),
    ensures
        parse_u16(s, pos) == Some((n, pos + 2)),
{
    lemma_u16_round_trip(n as int, s, pos);
}

/// Reading back a 64-bit number gives the number written.
pub proof fn lemma_u64_parse(n: u64, s: Seq<u8>, pos: int)
    requires
        in_range(s, pos, 8),
        s.subrange(pos, pos + 8) == u64_le_bytes(n as int),
    ensures
        parse_u64(s, pos) == Some((n, pos + 8)),
{
    lemma_u64_round_trip(n as int, s, pos);
}

/// Reading back an address gives the address written.
pub proof fn lemma_pubkey_parse(key: Pubkey, s: Seq<u8>, pos: int)
    requires
        in_range(s, pos, 32),
        s.subrange(pos, pos + 32) == key@,
    ensures
        parse_pubkey(s, pos) == Some((key, pos + 32)),
{
    lemma_array32_at(key, s, pos);
}

/// Reading back an optional 16-bit number gives what was written.
pub proof fn lemma_option_u16_parse(n: Option<u16>, s: Seq<u8>, pos: int)
    requires
        in_range(s, pos, option_u16_encoding(n).len() as int),
        s.subrange(pos, pos + option_u16_encoding(n).len()) == option_u16_encoding(n),
    ensures
        parse_option_u16(s, pos) == Some((n, pos + option_u16_encoding(n).len())),
{
    assert(s[pos] == s.subrange(pos, pos + option_u16_encoding(n).len())[0]);
    match n {
        None => {},
        Some(v) => {
            lemma_split_at(s, pos, seq![1u8], u16_le_bytes(v as int));
            lemma_u16_parse(v, s, pos + 1);
        },
    }
}

/// Reading back an optional 64-bit number gives what was written.
pub proof fn lemma_option_u64_parse(n: Option<u64>, s: Seq<u8>, pos: int)
    requires
        in_range(s, pos, option_u64_encoding(n).len() as int),
        s.subrange(pos, pos + option_u64_encoding(n).len()) == option_u64_encoding(n),
    ensures
        parse_option_u64(s, pos) == Some((n, pos + option_u64_encoding(n).len())),
{
    assert(s[pos] == s.subrange(pos, pos + option_u64_encoding(n).len())[0]);
    match n {
        None => {},
        Some(v) => {
            lemma_u64_le_bytes_len(v as int);
            lemma_split_at(s, pos, seq![1u8], u64_le_bytes(v as int));
            lemma_u64_parse(v, s, pos + 1);
        },
    }
}

/// Reading back an optional address gives what was written.
pub proof fn lemma_option_pubkey_parse(key: Option<Pubkey>, s: Seq<u8>, pos: int)
    requires
        in_range(s, pos, option_pubkey_encoding(key).len() as int),
        s.subrange(pos, pos + option_pubkey_encoding(key).len()) == option_pubkey_encoding(key),
    ensures
        parse_option_pubkey(s, pos) == Some((key, pos + option_pubkey_encoding(key).len())),
{
    assert(s[pos] == s.subrange(pos, pos + option_pubkey_encoding(key).len())[0]);
    match key {
        None => {},
        Some(k) => {
            lemma_split_at(s, pos, seq![1u8], k@);
            lemma_pubkey_parse(k, s, pos + 1);
        },
    }
}

/// Reads the byte at `pos`.
pub fn deserialize_u8(bytes: &[u8], pos: usize) -> (r: Result<(u8, usize), EngineError>)
    ensures
        match r {
            Ok((v, end)) => parse_u8(bytes@, pos as int) == Some((v, end as int)),
            Err(e) => e == EngineError::MalformedEncoding && parse_u8(bytes@, pos as int) is None,
        },
        r matches Ok((_, end)) ==> pos < end <= bytes@.len(),
{
    if pos >= bytes.len() {
        return Err(EngineError::MalformedEncoding);
    }
    Ok((bytes[pos], pos + 1))
}

/// Reads the 16-bit number at `pos`.
pub fn deserialize_u16(bytes: &[u8], pos: usize) -> (r: Result<(u16, usize), EngineError>)
    ensures
        match r {
            Ok((v, end)) => parse_u16(bytes@, pos as int) == Some((v, end as int)),
            Err(e) => e == EngineError::MalformedEncoding && parse_u16(bytes@, pos as int)
                is None,
        },
        r matches Ok((_, end)) ==> pos < end <= bytes@.len(),
{
    if pos > bytes.len() || bytes.len() - pos < 2 {
        return Err(EngineError::MalformedEncoding);
    }
    Ok((read_u16(bytes, pos), pos + 2))
}

/// Reads the 64-bit number at `pos`.
pub fn deserialize_u64(bytes: &[u8], pos: usize) -> (r: Result<(u64, usize), EngineError>)
    ensures
        match r {
            Ok((v, end)) => parse_u64(bytes@, pos as int) == Some((v, end as int)),
            Err(e) => e == EngineError::MalformedEncoding && parse_u64(bytes@, pos as int)
                is None,
        },
        r matches Ok((_, end)) ==> pos < end <= bytes@.len(),
{
    if pos > bytes.len() || bytes.len() - pos < 8 {
        return Err(EngineError::MalformedEncoding);
    }
    Ok((read_u64(bytes, pos), pos + 8))
}

/// Reads the address at `pos`.
pub fn deserialize_pubkey(bytes: &[u8], pos: usize) -> (r: Result<(Pubkey, usize), EngineError>)
    ensures
        match r {
            Ok((v, end)) => parse_pubkey(bytes@, pos as int) == Some((v, end as int)),
            Err(e) => e == EngineError::MalformedEncoding && parse_pubkey(bytes@, pos as int)
                is None,
        },
        r matches Ok((_, end)) ==> pos < end <= bytes@.len(),
{
    if pos > bytes.len() || bytes.len() - pos < 32 {
        return Err(EngineError::MalformedEncoding);
    }
    let key = read_array32(bytes, pos);
    proof {
        lemma_array32_at(key, bytes@, pos as int);
    }
    Ok((key, pos + 32))
}

/// Reads the optional 16-bit number at `pos`.
pub fn deserialize_option_u16(bytes: &[u8], pos: usize) -> (r: Result<
    (Option<u16>, usize),
    EngineError,
>)
    ensures
        match r {
            Ok((v, end)) => parse_option_u16(bytes@, pos as int) == Some((v, end as int)),
            Err(e) => e == EngineError::MalformedEncoding && parse_option_u16(
                bytes@,
                pos as int,
            ) is None,
        },
        r matches Ok((_, end)) ==> pos < end <= bytes@.len(),
{
    if pos >= bytes.len() {
        return Err(EngineError::MalformedEncoding);
    }
    let tag = bytes[pos];
    if tag == 0 {
        Ok((None, pos + 1))
    } else if tag == 1 {
        match deserialize_u16(bytes, pos + 1) {
            Ok((v, end)) => Ok((Some(v), end)),
            Err(e) => Err(e),
        }
    } else {
        Err(EngineError::MalformedEncoding)
    }
}

/// Reads the optional 64-bit number at `pos`.
pub fn deserialize_option_u64(bytes: &[u8], pos: usize) -> (r: Result<
    (Option<u64>, usize),
    EngineError,
>)
    ensures
        match r {
            Ok((v, end)) => parse_option_u64(bytes@, pos as int) == Some((v, end as int)),
            Err(e) => e == EngineError::MalformedEncoding && parse_option_u64(
                bytes@,
                pos as int,
            ) is None,
        },
        r matches Ok((_, end)) ==> pos < end <= bytes@.len(),
{
    if pos >= bytes.len() {
        return Err(EngineError::MalformedEncoding);
    }
    let tag = bytes[pos];
    if tag == 0 {
        Ok((None, pos + 1))
    } else if tag == 1 {
        match deserialize_u64(bytes, pos + 1) {
            Ok((v, end)) => Ok((Some(v), end)),
            Err(e) => Err(e),
        }
    } else {
        Err(EngineError::MalformedEncoding)
    }
}

/// Reads the optional address at `pos`.
pub fn deserialize_option_pubkey(bytes: &[u8], pos: usize) -> (r: Result<
    (Option<Pubkey>, usize),
    EngineError,
>)
    ensures
        match r {
            Ok((v, end)) => parse_option_pubkey(bytes@, pos as int) == Some((v, end as int)),
            Err(e) => e == EngineError::MalformedEncoding && parse_option_pubkey(
                bytes@,
                pos as int,
            ) is None,
        },
        r matches Ok((_, end)) ==> pos < end <= bytes@.len(),
{
    if pos >= bytes.len() {
        return Err(EngineError::MalformedEncoding);
    }
    let tag = bytes[pos];
    if tag == 0 {
        Ok((None, pos + 1))
    } else if tag == 1 {
        match deserialize_pubkey(bytes, pos + 1) {
            Ok((v, end)) => Ok((Some(v), end)),
            Err(e) => Err(e),
        }
    } else {
        Err(EngineError::MalformedEncoding)
    }
}

/// Appends an optional 16-bit number.
pub fn serialize_option_u16(n: &Option<u16>, out: &mut Vec<u8>)
    ensures
        final(out)@ == old(out)@ + option_u16_encoding(*n),
{
    match n {
        None => {
            out.push(0);
        },
        Some(v) => {
            out.push(1);
            push_u16(out, *v);
        },
    }
    assert(out@ =~= old(out)@ + option_u16_encoding(*n));
}

/// Appends an optional 64-bit number.
pub fn serialize_option_u64(n: &Option<u64>, out: &mut Vec<u8>)
    ensures
        final(out)@ == old(out)@ + option_u64_encoding(*n),
{
    match n {
        None => {
            out.push(0);
        },
        Some(v) => {
            out.push(1);
            push_u64(out, *v);
        },
    }
    assert(out@ =~= old(out)@ + option_u64_encoding(*n));
}

/// Appends an optional address.
pub fn serialize_option_pubkey(key: &Option<Pubkey>, out: &mut Vec<u8>)
    ensures
        final(out)@ == old(out)@ + option_pubkey_encoding(*key),
{
    match key {
        None => {
            out.push(0);
        },
        Some(k) => {
            out.push(1);
            push_bytes(out, k.as_slice());
        },
    }
    assert(out@ =~= old(out)@ + option_pubkey_encoding(*key));
}

/// Whether the bytes of `s` from `pos` to `end` are `encoding`.
pub open spec fn consumed(s: Seq<u8>, pos: int, end: int, encoding: Seq<u8>) -> bool {
    0 <= pos <= end <= s.len() && s.subrange(pos, end) == encoding
}

/// A flag that was read stands in the bytes as it would be written.
pub proof fn lemma_bool_encoding_of_parse(s: Seq<u8>, pos: int)
    requires
        parse_bool(s, pos) is Some,
    ensures
        consumed(s, pos, parse_bool(s, pos)->Some_0.1, bool_encoding(parse_bool(s, pos)->Some_0.0)),
{
    assert(s.subrange(pos, pos + 1) =~= seq![s[pos]]);
}

/// A 16-bit number that was read stands in the bytes as it would be
/// written.
pub proof fn lemma_u16_encoding_of_parse(s: Seq<u8>, pos: int)
    requires
        parse_u16(s, pos) is Some,
    ensures
        consumed(
            s,
            pos,
            parse_u16(s, pos)->Some_0.1,
            u16_le_bytes(parse_u16(s, pos)->Some_0.0 as int),
        ),
{
    lemma_u16_bytes_of_read(s, pos);
}

/// A 64-bit number that was read stands in the bytes as it would be
/// written.
pub proof fn lemma_u64_encoding_of_parse(s: Seq<u8>, pos: int)
    requires
        parse_u64(s, pos) is Some,
    ensures
        consumed(
            s,
            pos,
            parse_u64(s, pos)->Some_0.1,
            u64_le_bytes(parse_u64(s, pos)->Some_0.0 as int),
        ),
{
    lemma_u64_bytes_of_read(s, pos);
}

/// An address that was read stands in the bytes as it would be written.
pub proof fn lemma_pubkey_encoding_of_parse(s: Seq<u8>, pos: int)
    requires
        parse_pubkey(s, pos) is Some,
    ensures
        consumed(s, pos, parse_pubkey(s, pos)->Some_0.1, parse_pubkey(s, pos)->Some_0.0@),
{
    lemma_array32_at_view(s, pos);
}

/// An optional 16-bit number that was read stands in the bytes as it would
/// be written.
pub proof fn lemma_option_u16_encoding_of_parse(s: Seq<u8>, pos: int)
    requires
        parse_option_u16(s, pos) is Some,
    ensures
        consumed(
            s,
            pos,
            parse_option_u16(s, pos)->Some_0.1,
            option_u16_encoding(parse_option_u16(s, pos)->Some_0.0),
        ),
{
    assert(s.subrange(pos, pos + 1) =~= seq![s[pos]]);
    if s[pos] == 1 {
        lemma_u16_encoding_of_parse(s, pos + 1);
        lemma_join_at(
            s,
            pos,
            pos + 1,
            pos + 3,
            seq![1u8],
            u16_le_bytes(parse_u16(s, pos + 1)->Some_0.0 as int),
        );
    }
}

/// An optional 64-bit number that was read stands in the bytes as it would
/// be written.
pub proof fn lemma_option_u64_encoding_of_parse(s: Seq<u8>, pos: int)
    requires
        parse_option_u64(s, pos) is Some,
    ensures
        consumed(
            s,
            pos,
            parse_option_u64(s, pos)->Some_0.1,
            option_u64_encoding(parse_option_u64(s, pos)->Some_0.0),
        ),
{
    assert(s.subrange(pos, pos + 1) =~= seq![s[pos]]);
    if s[pos] == 1 {
        lemma_u64_encoding_of_parse(s, pos + 1);
        lemma_join_at(
            s,
            pos,
            pos + 1,
            pos + 9,
            seq![1u8],
            u64_le_bytes(parse_u64(s, pos + 1)->Some_0.0 as int),
        );
    }
}

/// An optional address that was read stands in the bytes as it would be
/// written.
pub proof fn lemma_option_pubkey_encoding_of_parse(s: Seq<u8>, pos: int)
    requires
        parse_option_pubkey(s, pos) is Some,
    ensures
        consumed(
            s,
            pos,
            parse_option_pubkey(s, pos)->Some_0.1,
            option_pubkey_encoding(parse_option_pubkey(s, pos)->Some_0.0),
        ),
{
    assert(s.subrange(pos, pos + 1) =~= seq![s[pos]]);
    if s[pos] == 1 {
        lemma_pubkey_encoding_of_parse(s, pos + 1);
        lemma_join_at(s, pos, pos + 1, pos + 33, seq![1u8], parse_pubkey(s, pos + 1)->Some_0.0@);
    }
}

impl Operator {
    /// An operator that was read stands in the bytes as it would be
    /// written.
    pub proof fn lemma_encoding_of_parse(s: Seq<u8>, pos: int)
        requires
            Operator::parse(s, pos) is Some,
        ensures
            consumed(
                s,
                pos,
                Operator::parse(s, pos)->Some_0.1,
                Operator::parse(s, pos)->Some_0.0.encoding(),
            ),
    {
        assert(s.subrange(pos, pos + 1) =~= seq![s[pos]]);
    }
}

impl DataValueView {
    /// A value that was read can be written, and stands in the bytes as it
    /// would be written.
    pub proof fn lemma_encoding_of_parse(s: Seq<u8>, pos: int)
        requires
            DataValueView::parse(s, pos) is Some,
        ensures
            DataValueView::parse(s, pos)->Some_0.0.wf(),
            consumed(
                s,
                pos,
                DataValueView::parse(s, pos)->Some_0.1,
                DataValueView::parse(s, pos)->Some_0.0.encoding(),
            ),
    {
        let tag = s[pos];
        if tag < 5 {
            DataValueView::lemma_encoding_of_parse_unsigned(s, pos);
        } else if tag < 10 {
            DataValueView::lemma_encoding_of_parse_signed(s, pos);
        } else {
            DataValueView::lemma_encoding_of_parse_other(s, pos);
        }
    }

    proof fn lemma_encoding_of_parse_unsigned(s: Seq<u8>, pos: int)
        requires
            DataValueView::parse(s, pos) is Some,
            s[pos] < 5,
        ensures
            DataValueView::parse(s, pos)->Some_0.0.wf(),
            consumed(
                s,
                pos,
                DataValueView::parse(s, pos)->Some_0.1,
                DataValueView::parse(s, pos)->Some_0.0.encoding(),
            ),
    {
        let (value, end) = DataValueView::parse(s, pos)->Some_0;
        let tag = s[pos];
        assert(s.subrange(pos, pos + 1) =~= seq![tag]);
        if tag == 0 {
            assert(s.subrange(pos, pos + 2) =~= seq![0u8, s[pos + 1]]);
        } else if tag == 1 {
            lemma_u16_bytes_of_read(s, pos + 1);
            lemma_join_at(s, pos, pos + 1, end, seq![1u8], u16_le_bytes(le_u16(s, pos + 1)));
        } else if tag == 2 {
            lemma_u32_bytes_of_read(s, pos + 1);
            lemma_join_at(s, pos, pos + 1, end, seq![2u8], u32_le_bytes(le_u32(s, pos + 1)));
        } else if tag == 3 {
            lemma_u64_bytes_of_read(s, pos + 1);
            lemma_join_at(s, pos, pos + 1, end, seq![3u8], u64_le_bytes(le_u64(s, pos + 1)));
        } else {
            lemma_u128_bytes_of_read(s, pos + 1);
            lemma_join_at(s, pos, pos + 1, end, seq![4u8], u128_le_bytes(le_u128(s, pos + 1)));
        }
    }

    proof fn lemma_encoding_of_parse_signed(s: Seq<u8>, pos: int)
        requires
            DataValueView::parse(s, pos) is Some,
            5 <= s[pos] < 10,
        ensures
            DataValueView::parse(s, pos)->Some_0.0.wf(),
            consumed(
                s,
                pos,
                DataValueView::parse(s, pos)->Some_0.1,
                DataValueView::parse(s, pos)->Some_0.0.encoding(),
            ),
    {
        let (value, end) = DataValueView::parse(s, pos)->Some_0;
        let tag = s[pos];
        assert(s.subrange(pos, pos + 1) =~= seq![tag]);
        if tag == 5 {
            lemma_pattern_of_twos_complement(s[pos + 1] as int, 0x100);
            assert(s.subrange(pos, pos + 2) =~= seq![5u8, s[pos + 1]]);
        } else if tag == 6 {
            lemma_u16_bytes_of_read(s, pos + 1);
            lemma_pattern_of_twos_complement(le_u16(s, pos + 1), 0x1_0000);
            lemma_join_at(s, pos, pos + 1, end, seq![6u8], u16_le_bytes(le_u16(s, pos + 1)));
        } else if tag == 7 {
            lemma_u32_bytes_of_read(s, pos + 1);
            lemma_pattern_of_twos_complement(le_u32(s, pos + 1), 0x1_0000_0000);
            lemma_join_at(s, pos, pos + 1, end, seq![7u8], u32_le_bytes(le_u32(s, pos + 1)));
        } else if tag == 8 {
            lemma_u64_bytes_of_read(s, pos + 1);
            lemma_pattern_of_twos_complement(le_u64(s, pos + 1), 0x1_0000_0000_0000_0000);
            lemma_join_at(s, pos, pos + 1, end, seq![8u8], u64_le_bytes(le_u64(s, pos + 1)));
        } else {
            lemma_u128_bytes_of_read(s, pos + 1);
            lemma_pattern_of_twos_complement(
                le_u128(s, pos + 1),
                0x1_0000_0000_0000_0000_0000_0000_0000_0000int,
            );
            lemma_join_at(s, pos, pos + 1, end, seq![9u8], u128_le_bytes(le_u128(s, pos + 1)));
        }
    }

    proof fn lemma_encoding_of_parse_other(s: Seq<u8>, pos: int)
        requires
            DataValueView::parse(s, pos) is Some,
            s[pos] >= 10,
        ensures
            DataValueView::parse(s, pos)->Some_0.0.wf(),
            consumed(
                s,
                pos,
                DataValueView::parse(s, pos)->Some_0.1,
                DataValueView::parse(s, pos)->Some_0.0.encoding(),
            ),
    {
        let (value, end) = DataValueView::parse(s, pos)->Some_0;
        let tag = s[pos];
        assert(s.subrange(pos, pos + 1) =~= seq![tag]);
        if tag == 10 {
            lemma_bool_encoding_of_parse(s, pos + 1);
            lemma_join_at(s, pos, pos + 1, end, seq![10u8], bool_encoding(value->Bool_0));
        } else if tag == 13 {
            let n = le_u32(s, pos + 1);
            lemma_u32_bytes_of_read(s, pos + 1);
            lemma_join_at(s, pos, pos + 1, pos + 5, seq![13u8], u32_le_bytes(n));
            lemma_join_at(
                s,
                pos,
                pos + 5,
                end,
                seq![13u8] + u32_le_bytes(n),
                s.subrange(pos + 5, pos + 5 + n),
            );
        } else if tag == 11 {
            lemma_join_at(s, pos, pos + 1, end, seq![11u8], s.subrange(pos + 1, pos + 33));
        } else {
            lemma_join_at(s, pos, pos + 1, end, seq![12u8], s.subrange(pos + 1, pos + 33));
        }
    }
}

} // verus!
