//! Assertions on the fields of a mint account, which are found at fixed
//! places of its buffer.

use core::ops::Range;
use vstd::prelude::*;
use crate::account::TargetAccount;
use crate::error::EngineError;
use crate::operator::{
    EquatableOperator, EvaluationResult, EvaluationResultView, IntegerOperator,
};
use crate::optional::{evaluate_optional_at, evaluate_optional_at_spec};
use crate::solana::Pubkey;
use crate::token_account::{optional_pubkey, optional_pubkey_view};
use crate::bytes::{lemma_split_at, lemma_u64_le_bytes_len, push_u64, u64_le_bytes};
use crate::value::{result_view, DataKind};
use crate::wire::{
    bool_encoding, deserialize_bool, deserialize_option_pubkey, deserialize_u64, deserialize_u8,
    in_range, lemma_option_pubkey_parse, lemma_u64_parse, option_pubkey_encoding, parse_bool,
    parse_option_pubkey, parse_u64, parse_u8, serialize_bool, serialize_option_pubkey,
};

verus! {

/// The number of bytes a mint account takes.
pub const MINT_ACCOUNT_LEN: usize = 82;

/// An optional address expected, and how to hold it against the one found.
#[derive(Clone, Copy, Debug, PartialEq, Eq)]
pub struct OptionalPubkey {
    pub value: Option<Pubkey>,
    pub operator: EquatableOperator,
}

/// A 64-bit number expected, and how to hold it against the one found.
#[derive(Clone, Copy, Debug, PartialEq, Eq)]
pub struct U64 {
    pub value: u64,
    pub operator: IntegerOperator,
}

/// An 8-bit number expected, and how to hold it against the one found.
#[derive(Clone, Copy, Debug, PartialEq, Eq)]
pub struct U8 {
    pub value: u8,
    pub operator: IntegerOperator,
}

/// A flag expected, and how to hold it against the one found.
#[derive(Clone, Copy, Debug, PartialEq, Eq)]
pub struct Bool {
    pub value: bool,
    pub operator: EquatableOperator,
}

/// One field of a mint account, with what is expected of it.
#[derive(Clone, Copy, Debug, PartialEq, Eq)]
pub enum MintAccountAssertion {
    MintAuthority(OptionalPubkey),
    Supply(U64),
    Decimals(U8),
    IsInitialized(Bool),
    FreezeAuthority(OptionalPubkey),
}

impl MintAccountAssertion {
    /// Where the field starts and where it ends in the buffer of a mint
    /// account.
    pub open spec fn spec_range_for_field(self) -> (nat, nat) {
        match self {
            MintAccountAssertion::MintAuthority(_) => (0, 36),
            MintAccountAssertion::Supply(_) => (36, 44),
            MintAccountAssertion::Decimals(_) => (44, 45),
            MintAccountAssertion::IsInitialized(_) => (45, 46),
            MintAccountAssertion::FreezeAuthority(_) => (46, 82),
        }
    }

    /// What evaluating the assertion comes to: a lock fault where the buffer
    /// could not be acquired; else a range fault where the buffer ends
    /// before the field does; else, for the two authorities, what comes of
    /// reading the optional address at the field's place and comparing it
    /// with the one expected; for every other field, the fault of a field
    /// that is not evaluated yet.
    pub open spec fn evaluate_spec(self, account: TargetAccount, include_output: bool) -> Result<
        EvaluationResultView,
        EngineError,
    > {
        let (start, end) = self.spec_range_for_field();
        match account.buffer() {
            None => Err(EngineError::LockFailure),
            Some(buffer) => if end > buffer.len() {
                Err(EngineError::OutOfRange)
            } else {
                match self {
                    MintAccountAssertion::MintAuthority(inner) => evaluate_optional_at_spec(
                        optional_pubkey_view(inner.value),
                        DataKind::Pubkey,
                        buffer,
                        start as int,
                        inner.operator.spec_to_operator(),
                        include_output,
                    ),
                    MintAccountAssertion::FreezeAuthority(inner) => evaluate_optional_at_spec(
                        optional_pubkey_view(inner.value),
                        DataKind::Pubkey,
                        buffer,
                        start as int,
                        inner.operator.spec_to_operator(),
                        include_output,
                    ),
                    _ => Err(EngineError::UnsupportedField),
                }
            },
        }
    }

}

/// Something whose field lies in a known range of an account's buffer and is
/// evaluated there.
pub trait Evaluator {
    /// Where the field starts and where it ends.
    spec fn range_model(&self) -> (nat, nat);

    /// What evaluating it against `account` comes to.
    spec fn evaluate2_model(&self, account: TargetAccount, include_output: bool) -> Result<
        EvaluationResultView,
        EngineError,
    >;

    fn get_range_for_field(&self) -> (r: Range<usize>)
        ensures
            r.start == self.range_model().0,
            r.end == self.range_model().1,
    ;

    fn evaluate2(&self, account: &TargetAccount, include_output: bool) -> (r: Result<
        EvaluationResult,
        EngineError,
    >)
        ensures
            result_view(r) == self.evaluate2_model(*account, include_output),
    ;
}

impl Evaluator for MintAccountAssertion {
    open spec fn range_model(&self) -> (nat, nat) {
        self.spec_range_for_field()
    }

    open spec fn evaluate2_model(&self, account: TargetAccount, include_output: bool) -> Result<
        EvaluationResultView,
        EngineError,
    > {
        self.evaluate_spec(account, include_output)
    }

    /// The field's range in the buffer of a mint account.
    fn get_range_for_field(&self) -> (r: Range<usize>)
        ensures
            r.start < r.end <= MINT_ACCOUNT_LEN,
    {
        match self {
            MintAccountAssertion::MintAuthority(_) => 0..36,
            MintAccountAssertion::Supply(_) => 36..44,
            MintAccountAssertion::Decimals(_) => 44..45,
            MintAccountAssertion::IsInitialized(_) => 45..46,
            MintAccountAssertion::FreezeAuthority(_) => 46..82,
        }
    }

    /// Reads the field at its place in the account's buffer and compares it
    /// with what is expected.
    fn evaluate2(&self, account: &TargetAccount, include_output: bool) -> (r: Result<
        EvaluationResult,
        EngineError,
    >) {
        let range = self.get_range_for_field();
        let data: &[u8] = match account.data {
            None => {
                return Err(EngineError::LockFailure);
            },
            Some(d) => d,
        };
        if range.end > data.len() {
            return Err(EngineError::OutOfRange);
        }
        match self {
            MintAccountAssertion::MintAuthority(inner) => evaluate_optional_at(
                &optional_pubkey(&inner.value),
                DataKind::Pubkey,
                data,
                range.start,
                &inner.operator.to_operator(),
                include_output,
            ),
            MintAccountAssertion::FreezeAuthority(inner) => evaluate_optional_at(
                &optional_pubkey(&inner.value),
                DataKind::Pubkey,
                data,
                range.start,
                &inner.operator.to_operator(),
                include_output,
            ),
            MintAccountAssertion::Supply(_) => Err(EngineError::UnsupportedField),
            MintAccountAssertion::Decimals(_) => Err(EngineError::UnsupportedField),
            MintAccountAssertion::IsInitialized(_) => Err(EngineError::UnsupportedField),
        }
    }
}

impl EquatableOperator {
    /// The operator's discriminant byte.
    pub open spec fn spec_tag(self) -> u8 {
        match self {
            EquatableOperator::Equal => 0,
            EquatableOperator::NotEqual => 1,
        }
    }

    /// The operator of a discriminant byte, if it is one.
    pub open spec fn spec_from_tag(tag: u8) -> Option<EquatableOperator> {
        if tag == 0 {
            Some(EquatableOperator::Equal)
        } else if tag == 1 {
            Some(EquatableOperator::NotEqual)
        } else {
            None
        }
    }

    pub open spec fn encoding(self) -> Seq<u8> {
        seq![self.spec_tag()]
    }

    /// The operator that stands at `pos` of `s`, and where it ends.
    pub open spec fn parse(s: Seq<u8>, pos: int) -> Option<(EquatableOperator, int)> {
        if in_range(s, pos, 1) {
            match EquatableOperator::spec_from_tag(s[pos]) {
                Some(operator) => Some((operator, pos + 1)),
                None => None,
            }
        } else {
            None
        }
    }

    pub fn tag(&self) -> (t: u8)
        ensures
            t == self.spec_tag(),
    {
        match self {
            EquatableOperator::Equal => 0,
            EquatableOperator::NotEqual => 1,
        }
    }

    pub fn from_tag(tag: u8) -> (r: Option<EquatableOperator>)
        ensures
            r == EquatableOperator::spec_from_tag(tag),
    {
        if tag == 0 {
            Some(EquatableOperator::Equal)
        } else if tag == 1 {
            Some(EquatableOperator::NotEqual)
        } else {
            None
        }
    }

    /// Appends the operator's byte.
    pub fn serialize(&self, out: &mut Vec<u8>)
        ensures
            final(out)@ == old(out)@ + self.encoding(),
    {
        out.push(self.tag());
    }

    /// Reads the operator at `pos`.
    pub fn deserialize(bytes: &[u8], pos: usize) -> (r: Result<(EquatableOperator, usize), EngineError>)
        ensures
            match r {
                Ok((v, end)) => EquatableOperator::parse(bytes@, pos as int) == Some((v, end as int)),
                Err(e) => e == EngineError::MalformedEncoding && EquatableOperator::parse(
                    bytes@,
                    pos as int,
                ) is None,
            },
            r matches Ok((_, end)) ==> pos < end <= bytes@.len(),
    {
        if pos >= bytes.len() {
            return Err(EngineError::MalformedEncoding);
        }
        match EquatableOperator::from_tag(bytes[pos]) {
            Some(operator) => Ok((operator, pos + 1)),
            None => Err(EngineError::MalformedEncoding),
        }
    }

    /// Reading back what `encoding` wrote gives the operator written.
    pub proof fn lemma_round_trip(self, s: Seq<u8>, pos: int)
        requires
            in_range(s, pos, 1),
            s.subrange(pos, pos + 1) == self.encoding(),
        ensures
            EquatableOperator::parse(s, pos) == Some((self, pos + 1)),
    {
        assert(s[pos] == s.subrange(pos, pos + 1)[0]);
    }
}

impl IntegerOperator {
    /// The operator's discriminant byte.
    pub open spec fn spec_tag(self) -> u8 {
        match self {
            IntegerOperator::Equal => 0,
            IntegerOperator::NotEqual => 1,
            IntegerOperator::GreaterThan => 2,
            IntegerOperator::LessThan => 3,
            IntegerOperator::GreaterThanOrEqual => 4,
            IntegerOperator::LessThanOrEqual => 5,
            IntegerOperator::AllBitsSet => 6,
            IntegerOperator::AnyBitsSet => 7,
            IntegerOperator::AllBitsClear => 8,
        }
    }

    /// The operator of a discriminant byte, if it is one.
    pub open spec fn spec_from_tag(tag: u8) -> Option<IntegerOperator> {
        if tag == 0 {
            Some(IntegerOperator::Equal)
        } else if tag == 1 {
            Some(IntegerOperator::NotEqual)
        } else if tag == 2 {
            Some(IntegerOperator::GreaterThan)
        } else if tag == 3 {
            Some(IntegerOperator::LessThan)
        } else if tag == 4 {
            Some(IntegerOperator::GreaterThanOrEqual)
        } else if tag == 5 {
            Some(IntegerOperator::LessThanOrEqual)
        } else if tag == 6 {
            Some(IntegerOperator::AllBitsSet)
        } else if tag == 7 {
            Some(IntegerOperator::AnyBitsSet)
        } else if tag == 8 {
            Some(IntegerOperator::AllBitsClear)
        } else {
            None
        }
    }

    pub open spec fn encoding(self) -> Seq<u8> {
        seq![self.spec_tag()]
    }

    /// The operator that stands at `pos` of `s`, and where it ends.
    pub open spec fn parse(s: Seq<u8>, pos: int) -> Option<(IntegerOperator, int)> {
        if in_range(s, pos, 1) {
            match IntegerOperator::spec_from_tag(s[pos]) {
                Some(operator) => Some((operator, pos + 1)),
                None => None,
            }
        } else {
            None
        }
    }

    pub fn tag(&self) -> (t: u8)
        ensures
            t == self.spec_tag(),
    {
        match self {
            IntegerOperator::Equal => 0,
            IntegerOperator::NotEqual => 1,
            IntegerOperator::GreaterThan => 2,
            IntegerOperator::LessThan => 3,
            IntegerOperator::GreaterThanOrEqual => 4,
            IntegerOperator::LessThanOrEqual => 5,
            IntegerOperator::AllBitsSet => 6,
            IntegerOperator::AnyBitsSet => 7,
            IntegerOperator::AllBitsClear => 8,
        }
    }

    pub fn from_tag(tag: u8) -> (r: Option<IntegerOperator>)
        ensures
            r == IntegerOperator::spec_from_tag(tag),
    {
        if tag == 0 {
            Some(IntegerOperator::Equal)
        } else if tag == 1 {
            Some(IntegerOperator::NotEqual)
        } else if tag == 2 {
            Some(IntegerOperator::GreaterThan)
        } else if tag == 3 {
            Some(IntegerOperator::LessThan)
        } else if tag == 4 {
            Some(IntegerOperator::GreaterThanOrEqual)
        } else if tag == 5 {
            Some(IntegerOperator::LessThanOrEqual)
        } else if tag == 6 {
            Some(IntegerOperator::AllBitsSet)
        } else if tag == 7 {
            Some(IntegerOperator::AnyBitsSet)
        } else if tag == 8 {
            Some(IntegerOperator::AllBitsClear)
        } else {
            None
        }
    }

    /// Appends the operator's byte.
    pub fn serialize(&self, out: &mut Vec<u8>)
        ensures
            final(out)@ == old(out)@ + self.encoding(),
    {
        out.push(self.tag());
    }

    /// Reads the operator at `pos`.
    pub fn deserialize(bytes: &[u8], pos: usize) -> (r: Result<(IntegerOperator, usize), EngineError>)
        ensures
            match r {
                Ok((v, end)) => IntegerOperator::parse(bytes@, pos as int) == Some((v, end as int)),
                Err(e) => e == EngineError::MalformedEncoding && IntegerOperator::parse(
                    bytes@,
                    pos as int,
                ) is None,
            },
            r matches Ok((_, end)) ==> pos < end <= bytes@.len(),
    {
        if pos >= bytes.len() {
            return Err(EngineError::MalformedEncoding);
        }
        match IntegerOperator::from_tag(bytes[pos]) {
            Some(operator) => Ok((operator, pos + 1)),
            None => Err(EngineError::MalformedEncoding),
        }
    }

    /// Reading back what `encoding` wrote gives the operator written.
    pub proof fn lemma_round_trip(self, s: Seq<u8>, pos: int)
        requires
            in_range(s, pos, 1),
            s.subrange(pos, pos + 1) == self.encoding(),
        ensures
            IntegerOperator::parse(s, pos) == Some((self, pos + 1)),
    {
        assert(s[pos] == s.subrange(pos, pos + 1)[0]);
    }
}

impl OptionalPubkey {
    /// The bytes of the two fields in order: the value, then the operator.
    pub open spec fn encoding(self) -> Seq<u8> {
        option_pubkey_encoding(self.value) + self.operator.encoding()
    }

    /// What stands at `pos` of `s`, and where it ends.
    pub open spec fn parse(s: Seq<u8>, pos: int) -> Option<(OptionalPubkey, int)> {
        match parse_option_pubkey(s, pos) {
            Some((value, e1)) => match EquatableOperator::parse(s, e1) {
                Some((operator, e2)) => Some((OptionalPubkey { value, operator }, e2)),
                None => None,
            },
            None => None,
        }
    }

    /// Appends the bytes of the two fields.
    pub fn serialize(&self, out: &mut Vec<u8>)
        ensures
            final(out)@ == old(out)@ + self.encoding(),
    {
        serialize_option_pubkey(&self.value, out);
        self.operator.serialize(out);
        assert(out@ =~= old(out)@ + self.encoding());
    }

    /// Reads the two fields at `pos`.
    pub fn deserialize(bytes: &[u8], pos: usize) -> (r: Result<(OptionalPubkey, usize), EngineError>)
        ensures
            match r {
                Ok((v, end)) => OptionalPubkey::parse(bytes@, pos as int) == Some((v, end as int)),
                Err(e) => e == EngineError::MalformedEncoding && OptionalPubkey::parse(
                    bytes@,
                    pos as int,
                ) is None,
            },
            r matches Ok((_, end)) ==> pos < end <= bytes@.len(),
    {
        let (value, e1) = match deserialize_option_pubkey(bytes, pos) {
            Ok(v) => v,
            Err(e) => {
                return Err(e);
            },
        };
        match EquatableOperator::deserialize(bytes, e1) {
            Ok((operator, e2)) => Ok((OptionalPubkey { value, operator }, e2)),
            Err(e) => Err(e),
        }
    }

    /// Reading back what `encoding` wrote gives what was written.
    pub proof fn lemma_round_trip(self, s: Seq<u8>, pos: int)
        requires
            in_range(s, pos, self.encoding().len() as int),
            s.subrange(pos, pos + self.encoding().len()) == self.encoding(),
        ensures
            OptionalPubkey::parse(s, pos) == Some((self, pos + self.encoding().len())),
    {
        let head = option_pubkey_encoding(self.value);
        lemma_split_at(s, pos, head, self.operator.encoding());
        lemma_option_pubkey_parse(self.value, s, pos);
        self.operator.lemma_round_trip(s, pos + head.len());
    }
}

impl U64 {
    /// The bytes of the two fields in order: the value, then the operator.
    pub open spec fn encoding(self) -> Seq<u8> {
        u64_le_bytes(self.value as int) + self.operator.encoding()
    }

    /// What stands at `pos` of `s`, and where it ends.
    pub open spec fn parse(s: Seq<u8>, pos: int) -> Option<(U64, int)> {
        match parse_u64(s, pos) {
            Some((value, e1)) => match IntegerOperator::parse(s, e1) {
                Some((operator, e2)) => Some((U64 { value, operator }, e2)),
                None => None,
            },
            None => None,
        }
    }

    /// Appends the bytes of the two fields.
    pub fn serialize(&self, out: &mut Vec<u8>)
        ensures
            final(out)@ == old(out)@ + self.encoding(),
    {
        push_u64(out, self.value);
        self.operator.serialize(out);
        assert(out@ =~= old(out)@ + self.encoding());
    }

    /// Reads the two fields at `pos`.
    pub fn deserialize(bytes: &[u8], pos: usize) -> (r: Result<(U64, usize), EngineError>)
        ensures
            match r {
                Ok((v, end)) => U64::parse(bytes@, pos as int) == Some((v, end as int)),
                Err(e) => e == EngineError::MalformedEncoding && U64::parse(
                    bytes@,
                    pos as int,
                ) is None,
            },
            r matches Ok((_, end)) ==> pos < end <= bytes@.len(),
    {
        let (value, e1) = match deserialize_u64(bytes, pos) {
            Ok(v) => v,
            Err(e) => {
                return Err(e);
            },
        };
        match IntegerOperator::deserialize(bytes, e1) {
            Ok((operator, e2)) => Ok((U64 { value, operator }, e2)),
            Err(e) => Err(e),
        }
    }

    /// Reading back what `encoding` wrote gives what was written.
    pub proof fn lemma_round_trip(self, s: Seq<u8>, pos: int)
        requires
            in_range(s, pos, self.encoding().len() as int),
            s.subrange(pos, pos + self.encoding().len()) == self.encoding(),
        ensures
            U64::parse(s, pos) == Some((self, pos + self.encoding().len())),
    {
        let head = u64_le_bytes(self.value as int);
        lemma_u64_le_bytes_len(self.value as int);
        lemma_split_at(s, pos, head, self.operator.encoding());
        lemma_u64_parse(self.value, s, pos);
        self.operator.lemma_round_trip(s, pos + head.len());
    }
}

impl U8 {
    /// The bytes of the two fields in order: the value, then the operator.
    pub open spec fn encoding(self) -> Seq<u8> {
        seq![self.value] + self.operator.encoding()
    }

    /// What stands at `pos` of `s`, and where it ends.
    pub open spec fn parse(s: Seq<u8>, pos: int) -> Option<(U8, int)> {
        match parse_u8(s, pos) {
            Some((value, e1)) => match IntegerOperator::parse(s, e1) {
                Some((operator, e2)) => Some((U8 { value, operator }, e2)),
                None => None,
            },
            None => None,
        }
    }

    /// Appends the bytes of the two fields.
    pub fn serialize(&self, out: &mut Vec<u8>)
        ensures
            final(out)@ == old(out)@ + self.encoding(),
    {
        out.push(self.value);
        self.operator.serialize(out);
        assert(out@ =~= old(out)@ + self.encoding());
    }

    /// Reads the two fields at `pos`.
    pub fn deserialize(bytes: &[u8], pos: usize) -> (r: Result<(U8, usize), EngineError>)
        ensures
            match r {
                Ok((v, end)) => U8::parse(bytes@, pos as int) == Some((v, end as int)),
                Err(e) => e == EngineError::MalformedEncoding && U8::parse(
                    bytes@,
                    pos as int,
                ) is None,
            },
            r matches Ok((_, end)) ==> pos < end <= bytes@.len(),
    {
        let (value, e1) = match deserialize_u8(bytes, pos) {
            Ok(v) => v,
            Err(e) => {
                return Err(e);
            },
        };
        match IntegerOperator::deserialize(bytes, e1) {
            Ok((operator, e2)) => Ok((U8 { value, operator }, e2)),
            Err(e) => Err(e),
        }
    }

    /// Reading back what `encoding` wrote gives what was written.
    pub proof fn lemma_round_trip(self, s: Seq<u8>, pos: int)
        requires
            in_range(s, pos, self.encoding().len() as int),
            s.subrange(pos, pos + self.encoding().len()) == self.encoding(),
        ensures
            U8::parse(s, pos) == Some((self, pos + self.encoding().len())),
    {
        let head = seq![self.value];
        lemma_split_at(s, pos, head, self.operator.encoding());
        assert(s[pos] == s.subrange(pos, pos + 1)[0]);
        self.operator.lemma_round_trip(s, pos + head.len());
    }
}

impl Bool {
    /// The bytes of the two fields in order: the value, then the operator.
    pub open spec fn encoding(self) -> Seq<u8> {
        bool_encoding(self.value) + self.operator.encoding()
    }

    /// What stands at `pos` of `s`, and where it ends.
    pub open spec fn parse(s: Seq<u8>, pos: int) -> Option<(Bool, int)> {
        match parse_bool(s, pos) {
            Some((value, e1)) => match EquatableOperator::parse(s, e1) {
                Some((operator, e2)) => Some((Bool { value, operator }, e2)),
                None => None,
            },
            None => None,
        }
    }

    /// Appends the bytes of the two fields.
    pub fn serialize(&self, out: &mut Vec<u8>)
        ensures
            final(out)@ == old(out)@ + self.encoding(),
    {
        serialize_bool(self.value, out);
        self.operator.serialize(out);
        assert(out@ =~= old(out)@ + self.encoding());
    }

    /// Reads the two fields at `pos`.
    pub fn deserialize(bytes: &[u8], pos: usize) -> (r: Result<(Bool, usize), EngineError>)
        ensures
            match r {
                Ok((v, end)) => Bool::parse(bytes@, pos as int) == Some((v, end as int)),
                Err(e) => e == EngineError::MalformedEncoding && Bool::parse(
                    bytes@,
                    pos as int,
                ) is None,
            },
            r matches Ok((_, end)) ==> pos < end <= bytes@.len(),
    {
        let (value, e1) = match deserialize_bool(bytes, pos) {
            Ok(v) => v,
            Err(e) => {
                return Err(e);
            },
        };
        match EquatableOperator::deserialize(bytes, e1) {
            Ok((operator, e2)) => Ok((Bool { value, operator }, e2)),
            Err(e) => Err(e),
        }
    }

    /// Reading back what `encoding` wrote gives what was written.
    pub proof fn lemma_round_trip(self, s: Seq<u8>, pos: int)
        requires
            in_range(s, pos, self.encoding().len() as int),
            s.subrange(pos, pos + self.encoding().len()) == self.encoding(),
        ensures
            Bool::parse(s, pos) == Some((self, pos + self.encoding().len())),
    {
        let head = bool_encoding(self.value);
        lemma_split_at(s, pos, head, self.operator.encoding());
        assert(s[pos] == s.subrange(pos, pos + 1)[0]);
        self.operator.lemma_round_trip(s, pos + head.len());
    }
}

impl MintAccountAssertion {
    /// The bytes of the assertion: its discriminant, then what is expected.
    pub open spec fn encoding(self) -> Seq<u8> {
        match self {
            MintAccountAssertion::MintAuthority(inner) => seq![0u8] + inner.encoding(),
            MintAccountAssertion::Supply(inner) => seq![1u8] + inner.encoding(),
            MintAccountAssertion::Decimals(inner) => seq![2u8] + inner.encoding(),
            MintAccountAssertion::IsInitialized(inner) => seq![3u8] + inner.encoding(),
            MintAccountAssertion::FreezeAuthority(inner) => seq![4u8] + inner.encoding(),
        }
    }

    /// The assertion that stands at `pos` of `s`, and where it ends.
    pub open spec fn parse(s: Seq<u8>, pos: int) -> Option<(MintAccountAssertion, int)> {
        if !in_range(s, pos, 1) {
            None
        } else if s[pos] == 0 {
            match OptionalPubkey::parse(s, pos + 1) {
                Some((inner, end)) => Some((MintAccountAssertion::MintAuthority(inner), end)),
                None => None,
            }
        } else if s[pos] == 1 {
            match U64::parse(s, pos + 1) {
                Some((inner, end)) => Some((MintAccountAssertion::Supply(inner), end)),
                None => None,
            }
        } else if s[pos] == 2 {
            match U8::parse(s, pos + 1) {
                Some((inner, end)) => Some((MintAccountAssertion::Decimals(inner), end)),
                None => None,
            }
        } else if s[pos] == 3 {
            match Bool::parse(s, pos + 1) {
                Some((inner, end)) => Some((MintAccountAssertion::IsInitialized(inner), end)),
                None => None,
            }
        } else if s[pos] == 4 {
            match OptionalPubkey::parse(s, pos + 1) {
                Some((inner, end)) => Some((MintAccountAssertion::FreezeAuthority(inner), end)),
                None => None,
            }
        } else {
            None
        }
    }

    /// Appends the assertion's bytes.
    pub fn serialize(&self, out: &mut Vec<u8>)
        ensures
            final(out)@ == old(out)@ + self.encoding(),
    {
        match self {
            MintAccountAssertion::MintAuthority(inner) => {
                out.push(0);
                inner.serialize(out);
            },
            MintAccountAssertion::Supply(inner) => {
                out.push(1);
                inner.serialize(out);
            },
            MintAccountAssertion::Decimals(inner) => {
                out.push(2);
                inner.serialize(out);
            },
            MintAccountAssertion::IsInitialized(inner) => {
                out.push(3);
                inner.serialize(out);
            },
            MintAccountAssertion::FreezeAuthority(inner) => {
                out.push(4);
                inner.serialize(out);
            },
        }
        assert(out@ =~= old(out)@ + self.encoding());
    }

    /// Reads the assertion at `pos`.
    pub fn deserialize(bytes: &[u8], pos: usize) -> (r: Result<
        (MintAccountAssertion, usize),
        EngineError,
    >)
        ensures
            match r {
                Ok((v, end)) => MintAccountAssertion::parse(bytes@, pos as int) == Some(
                    (v, end as int),
                ),
                Err(e) => e == EngineError::MalformedEncoding && MintAccountAssertion::parse(
                    bytes@,
                    pos as int,
                ) is None,
            },
            r matches Ok((_, end)) ==> pos < end <= bytes@.len(),
    {
        let (tag, at) = match deserialize_u8(bytes, pos) {
            Ok(v) => v,
            Err(e) => {
                return Err(e);
            },
        };
        if tag == 0 {
            match OptionalPubkey::deserialize(bytes, at) {
                Ok((inner, end)) => Ok((MintAccountAssertion::MintAuthority(inner), end)),
                Err(e) => Err(e),
            }
        } else if tag == 1 {
            match U64::deserialize(bytes, at) {
                Ok((inner, end)) => Ok((MintAccountAssertion::Supply(inner), end)),
                Err(e) => Err(e),
            }
        } else if tag == 2 {
            match U8::deserialize(bytes, at) {
                Ok((inner, end)) => Ok((MintAccountAssertion::Decimals(inner), end)),
                Err(e) => Err(e),
            }
        } else if tag == 3 {
            match Bool::deserialize(bytes, at) {
                Ok((inner, end)) => Ok((MintAccountAssertion::IsInitialized(inner), end)),
                Err(e) => Err(e),
            }
        } else if tag == 4 {
            match OptionalPubkey::deserialize(bytes, at) {
                Ok((inner, end)) => Ok((MintAccountAssertion::FreezeAuthority(inner), end)),
                Err(e) => Err(e),
            }
        } else {
            Err(EngineError::MalformedEncoding)
        }
    }

    /// Reading back what `encoding` wrote gives the assertion written.
    pub proof fn lemma_round_trip(self, s: Seq<u8>, pos: int)
        requires
            in_range(s, pos, self.encoding().len() as int),
            s.subrange(pos, pos + self.encoding().len()) == self.encoding(),
        ensures
            MintAccountAssertion::parse(s, pos) == Some((self, pos + self.encoding().len())),
    {
        assert(s[pos] == s.subrange(pos, pos + self.encoding().len())[0]);
        match self {
            MintAccountAssertion::MintAuthority(inner) => {
                lemma_split_at(s, pos, seq![0u8], inner.encoding());
                inner.lemma_round_trip(s, pos + 1);
            },
            MintAccountAssertion::Supply(inner) => {
                lemma_split_at(s, pos, seq![1u8], inner.encoding());
                inner.lemma_round_trip(s, pos + 1);
            },
            MintAccountAssertion::Decimals(inner) => {
                lemma_split_at(s, pos, seq![2u8], inner.encoding());
                inner.lemma_round_trip(s, pos + 1);
            },
            MintAccountAssertion::IsInitialized(inner) => {
                lemma_split_at(s, pos, seq![3u8], inner.encoding());
                inner.lemma_round_trip(s, pos + 1);
            },
            MintAccountAssertion::FreezeAuthority(inner) => {
                lemma_split_at(s, pos, seq![4u8], inner.encoding());
                inner.lemma_round_trip(s, pos + 1);
            },
        }
    }
}

/// An assertion on a mint account carries an operator of its field's own
/// family, so its evaluation is never a type fault.
pub proof fn lemma_mint_assertion_is_well_typed(
    assertion: MintAccountAssertion,
    account: TargetAccount,
    include_output: bool,
)
    ensures
        assertion.evaluate_spec(account, include_output) != Err::<
            EvaluationResultView,
            EngineError,
        >(EngineError::TypeMismatch),
{
}

} // verus!
