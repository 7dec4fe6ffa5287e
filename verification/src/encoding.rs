//! The binary form of fields, assertions and lists of assertions.

use vstd::prelude::*;
use crate::account::AccountInfoDataField;
use crate::assertion::{Assertion, AssertionView};
use crate::bytes::{
    lemma_append_both, lemma_join_at, lemma_split_at, lemma_u64_le_bytes_len, push_bytes, push_u16, push_u64, read_array32,
    u16_le_bytes, u64_le_bytes,
};
use crate::compact::{CompactAssertionArray, MAX_ASSERTIONS};
use crate::error::EngineError;
use crate::operator::Operator;
use crate::token_account::TokenAccountDataField;
use crate::value::{DataValue, DataValueView};
use crate::wire::{
    consumed, lemma_bool_encoding_of_parse, lemma_option_pubkey_encoding_of_parse,
    lemma_option_u16_encoding_of_parse, lemma_option_u64_encoding_of_parse,
    lemma_pubkey_encoding_of_parse, lemma_u16_encoding_of_parse, lemma_u64_encoding_of_parse,
};
use crate::wire::{
    bool_encoding, deserialize_bool, deserialize_option_pubkey, deserialize_option_u16,
    deserialize_option_u64, deserialize_pubkey, deserialize_u16, deserialize_u64,
    deserialize_u8, in_range, lemma_option_pubkey_parse, lemma_option_u16_parse,
    lemma_option_u64_parse, lemma_pubkey_parse, lemma_u16_parse, lemma_u64_parse,
    option_pubkey_encoding, option_u16_encoding, option_u64_encoding, parse_bool,
    parse_option_pubkey, parse_option_u16, parse_option_u64, parse_pubkey, parse_u16,
    parse_u64, parse_u8, serialize_bool, serialize_option_pubkey, serialize_option_u16,
    serialize_option_u64,
};

verus! {

impl AccountInfoDataField {
    /// The bytes of the field: its discriminant, then the value expected.
    pub open spec fn encoding(self) -> Seq<u8> {
        match self {
            AccountInfoDataField::Key(k) => seq![0u8] + k@,
            AccountInfoDataField::Owner(k) => seq![1u8] + k@,
            AccountInfoDataField::Lamports(n) => seq![2u8] + u64_le_bytes(n as int),
            AccountInfoDataField::DataLength(n) => seq![3u8] + u64_le_bytes(n as int),
            AccountInfoDataField::Executable(b) => seq![4u8] + bool_encoding(b),
            AccountInfoDataField::IsSigner(b) => seq![5u8] + bool_encoding(b),
            AccountInfoDataField::IsWritable(b) => seq![6u8] + bool_encoding(b),
            AccountInfoDataField::RentEpoch(n) => seq![7u8] + u64_le_bytes(n as int),
        }
    }

    /// The field that stands at `pos` of `s`, and where it ends.
    pub open spec fn parse(s: Seq<u8>, pos: int) -> Option<(AccountInfoDataField, int)> {
        if !in_range(s, pos, 1) {
            None
        } else if s[pos] == 0 {
            match parse_pubkey(s, pos + 1) {
                Some((k, end)) => Some((AccountInfoDataField::Key(k), end)),
                None => None,
            }
        } else if s[pos] == 1 {
            match parse_pubkey(s, pos + 1) {
                Some((k, end)) => Some((AccountInfoDataField::Owner(k), end)),
                None => None,
            }
        } else if s[pos] == 2 {
            match parse_u64(s, pos + 1) {
                Some((n, end)) => Some((AccountInfoDataField::Lamports(n), end)),
                None => None,
            }
        } else if s[pos] == 3 {
            match parse_u64(s, pos + 1) {
                Some((n, end)) => Some((AccountInfoDataField::DataLength(n), end)),
                None => None,
            }
        } else if s[pos] == 4 {
            match parse_bool(s, pos + 1) {
                Some((b, end)) => Some((AccountInfoDataField::Executable(b), end)),
                None => None,
            }
        } else if s[pos] == 5 {
            match parse_bool(s, pos + 1) {
                Some((b, end)) => Some((AccountInfoDataField::IsSigner(b), end)),
                None => None,
            }
        } else if s[pos] == 6 {
            match parse_bool(s, pos + 1) {
                Some((b, end)) => Some((AccountInfoDataField::IsWritable(b), end)),
                None => None,
            }
        } else if s[pos] == 7 {
            match parse_u64(s, pos + 1) {
                Some((n, end)) => Some((AccountInfoDataField::RentEpoch(n), end)),
                None => None,
            }
        } else {
            None
        }
    }

    /// Reading back what `encoding` wrote gives the field written.
    pub proof fn lemma_round_trip(self, s: Seq<u8>, pos: int)
        requires
            in_range(s, pos, self.encoding().len() as int),
            s.subrange(pos, pos + self.encoding().len()) == self.encoding(),
        ensures
            AccountInfoDataField::parse(s, pos) == Some((self, pos + self.encoding().len())),
    {
        let enc = self.encoding();
        assert(s[pos] == s.subrange(pos, pos + enc.len())[0]);
        match self {
            AccountInfoDataField::Key(k) => {
                lemma_split_at(s, pos, seq![0u8], k@);
                lemma_pubkey_parse(k, s, pos + 1);
            },
            AccountInfoDataField::Owner(k) => {
                lemma_split_at(s, pos, seq![1u8], k@);
                lemma_pubkey_parse(k, s, pos + 1);
            },
            AccountInfoDataField::Lamports(n) => {
                lemma_u64_le_bytes_len(n as int);
                lemma_split_at(s, pos, seq![2u8], u64_le_bytes(n as int));
                lemma_u64_parse(n, s, pos + 1);
            },
            AccountInfoDataField::DataLength(n) => {
                lemma_u64_le_bytes_len(n as int);
                lemma_split_at(s, pos, seq![3u8], u64_le_bytes(n as int));
                lemma_u64_parse(n, s, pos + 1);
            },
            AccountInfoDataField::Executable(b) => {
                assert(s[pos + 1] == s.subrange(pos, pos + enc.len())[1]);
            },
            AccountInfoDataField::IsSigner(b) => {
                assert(s[pos + 1] == s.subrange(pos, pos + enc.len())[1]);
            },
            AccountInfoDataField::IsWritable(b) => {
                assert(s[pos + 1] == s.subrange(pos, pos + enc.len())[1]);
            },
            AccountInfoDataField::RentEpoch(n) => {
                lemma_u64_le_bytes_len(n as int);
                lemma_split_at(s, pos, seq![7u8], u64_le_bytes(n as int));
                lemma_u64_parse(n, s, pos + 1);
            },
        }
    }

    /// Appends the field's bytes.
    pub fn serialize(&self, out: &mut Vec<u8>)
        ensures
            final(out)@ == old(out)@ + self.encoding(),
    {
        match self {
            AccountInfoDataField::Key(k) => {
                out.push(0);
                push_bytes(out, k.as_slice());
            },
            AccountInfoDataField::Owner(k) => {
                out.push(1);
                push_bytes(out, k.as_slice());
            },
            AccountInfoDataField::Lamports(n) => {
                out.push(2);
                push_u64(out, *n);
            },
            AccountInfoDataField::DataLength(n) => {
                out.push(3);
                push_u64(out, *n);
            },
            AccountInfoDataField::Executable(b) => {
                out.push(4);
                serialize_bool(*b, out);
            },
            AccountInfoDataField::IsSigner(b) => {
                out.push(5);
                serialize_bool(*b, out);
            },
            AccountInfoDataField::IsWritable(b) => {
                out.push(6);
                serialize_bool(*b, out);
            },
            AccountInfoDataField::RentEpoch(n) => {
                out.push(7);
                push_u64(out, *n);
            },
        }
        assert(out@ =~= old(out)@ + self.encoding());
    }

    /// Reads the field at `pos`.
    pub fn deserialize(bytes: &[u8], pos: usize) -> (r: Result<
        (AccountInfoDataField, usize),
        EngineError,
    >)
        ensures
            match r {
                Ok((v, end)) => AccountInfoDataField::parse(bytes@, pos as int) == Some(
                    (v, end as int),
                ),
                Err(e) => e == EngineError::MalformedEncoding && AccountInfoDataField::parse(
                    bytes@,
                    pos as int,
                ) is None,
            },
            r matches Ok((_, end)) ==> pos < end <= bytes@.len(),
    {
        let (tag, at) = match deserialize_u8(bytes, pos) {
            Ok(v) => v,
            Err(e) => {
                return Err(e);
            },
        };
        if tag == 0 {
            match deserialize_pubkey(bytes, at) {
                Ok((k, end)) => Ok((AccountInfoDataField::Key(k), end)),
                Err(e) => Err(e),
            }
        } else if tag == 1 {
            match deserialize_pubkey(bytes, at) {
                Ok((k, end)) => Ok((AccountInfoDataField::Owner(k), end)),
                Err(e) => Err(e),
            }
        } else if tag == 2 {
            match deserialize_u64(bytes, at) {
                Ok((n, end)) => Ok((AccountInfoDataField::Lamports(n), end)),
                Err(e) => Err(e),
            }
        } else if tag == 3 {
            match deserialize_u64(bytes, at) {
                Ok((n, end)) => Ok((AccountInfoDataField::DataLength(n), end)),
                Err(e) => Err(e),
            }
        } else if tag == 4 {
            match deserialize_bool(bytes, at) {
                Ok((b, end)) => Ok((AccountInfoDataField::Executable(b), end)),
                Err(e) => Err(e),
            }
        } else if tag == 5 {
            match deserialize_bool(bytes, at) {
                Ok((b, end)) => Ok((AccountInfoDataField::IsSigner(b), end)),
                Err(e) => Err(e),
            }
        } else if tag == 6 {
            match deserialize_bool(bytes, at) {
                Ok((b, end)) => Ok((AccountInfoDataField::IsWritable(b), end)),
                Err(e) => Err(e),
            }
        } else if tag == 7 {
            match deserialize_u64(bytes, at) {
                Ok((n, end)) => Ok((AccountInfoDataField::RentEpoch(n), end)),
                Err(e) => Err(e),
            }
        } else {
            Err(EngineError::MalformedEncoding)
        }
    }
}

impl TokenAccountDataField {
    /// The bytes of the field: its discriminant, then the value expected.
    pub open spec fn encoding(self) -> Seq<u8> {
        match self {
            TokenAccountDataField::Mint(k) => seq![0u8] + k@,
            TokenAccountDataField::Owner(k) => seq![1u8] + k@,
            TokenAccountDataField::Amount(n) => seq![2u8] + u64_le_bytes(n as int),
            TokenAccountDataField::Delegate(k) => seq![3u8] + option_pubkey_encoding(k),
            TokenAccountDataField::State(n) => seq![4u8, n],
            TokenAccountDataField::IsNative(n) => seq![5u8] + option_u64_encoding(n),
            TokenAccountDataField::DelegatedAmount(n) => seq![6u8] + u64_le_bytes(n as int),
            TokenAccountDataField::CloseAuthority(k) => seq![7u8] + option_pubkey_encoding(k),
        }
    }

    /// The field that stands at `pos` of `s`, and where it ends.
    pub open spec fn parse(s: Seq<u8>, pos: int) -> Option<(TokenAccountDataField, int)> {
        if !in_range(s, pos, 1) {
            None
        } else if s[pos] == 0 {
            match parse_pubkey(s, pos + 1) {
                Some((k, end)) => Some((TokenAccountDataField::Mint(k), end)),
                None => None,
            }
        } else if s[pos] == 1 {
            match parse_pubkey(s, pos + 1) {
                Some((k, end)) => Some((TokenAccountDataField::Owner(k), end)),
                None => None,
            }
        } else if s[pos] == 2 {
            match parse_u64(s, pos + 1) {
                Some((n, end)) => Some((TokenAccountDataField::Amount(n), end)),
                None => None,
            }
        } else if s[pos] == 3 {
            match parse_option_pubkey(s, pos + 1) {
                Some((k, end)) => Some((TokenAccountDataField::Delegate(k), end)),
                None => None,
            }
        } else if s[pos] == 4 {
            match parse_u8(s, pos + 1) {
                Some((n, end)) => Some((TokenAccountDataField::State(n), end)),
                None => None,
            }
        } else if s[pos] == 5 {
            match parse_option_u64(s, pos + 1) {
                Some((n, end)) => Some((TokenAccountDataField::IsNative(n), end)),
                None => None,
            }
        } else if s[pos] == 6 {
            match parse_u64(s, pos + 1) {
                Some((n, end)) => Some((TokenAccountDataField::DelegatedAmount(n), end)),
                None => None,
            }
        } else if s[pos] == 7 {
            match parse_option_pubkey(s, pos + 1) {
                Some((k, end)) => Some((TokenAccountDataField::CloseAuthority(k), end)),
                None => None,
            }
        } else {
            None
        }
    }

    /// Reading back what `encoding` wrote gives the field written.
    pub proof fn lemma_round_trip(self, s: Seq<u8>, pos: int)
        requires
            in_range(s, pos, self.encoding().len() as int),
            s.subrange(pos, pos + self.encoding().len()) == self.encoding(),
        ensures
            TokenAccountDataField::parse(s, pos) == Some((self, pos + self.encoding().len())),
    {
        let enc = self.encoding();
        assert(s[pos] == s.subrange(pos, pos + enc.len())[0]);
        match self {
            TokenAccountDataField::Mint(k) => {
                lemma_split_at(s, pos, seq![0u8], k@);
                lemma_pubkey_parse(k, s, pos + 1);
            },
            TokenAccountDataField::Owner(k) => {
                lemma_split_at(s, pos, seq![1u8], k@);
                lemma_pubkey_parse(k, s, pos + 1);
            },
            TokenAccountDataField::Amount(n) => {
                lemma_u64_le_bytes_len(n as int);
                lemma_split_at(s, pos, seq![2u8], u64_le_bytes(n as int));
                lemma_u64_parse(n, s, pos + 1);
            },
            TokenAccountDataField::Delegate(k) => {
                lemma_split_at(s, pos, seq![3u8], option_pubkey_encoding(k));
                lemma_option_pubkey_parse(k, s, pos + 1);
            },
            TokenAccountDataField::State(n) => {
                assert(s[pos + 1] == s.subrange(pos, pos + enc.len())[1]);
            },
            TokenAccountDataField::IsNative(n) => {
                lemma_split_at(s, pos, seq![5u8], option_u64_encoding(n));
                lemma_option_u64_parse(n, s, pos + 1);
            },
            TokenAccountDataField::DelegatedAmount(n) => {
                lemma_u64_le_bytes_len(n as int);
                lemma_split_at(s, pos, seq![6u8], u64_le_bytes(n as int));
                lemma_u64_parse(n, s, pos + 1);
            },
            TokenAccountDataField::CloseAuthority(k) => {
                lemma_split_at(s, pos, seq![7u8], option_pubkey_encoding(k));
                lemma_option_pubkey_parse(k, s, pos + 1);
            },
        }
    }

    /// Appends the field's bytes.
    pub fn serialize(&self, out: &mut Vec<u8>)
        ensures
            final(out)@ == old(out)@ + self.encoding(),
    {
        match self {
            TokenAccountDataField::Mint(k) => {
                out.push(0);
                push_bytes(out, k.as_slice());
            },
            TokenAccountDataField::Owner(k) => {
                out.push(1);
                push_bytes(out, k.as_slice());
            },
            TokenAccountDataField::Amount(n) => {
                out.push(2);
                push_u64(out, *n);
            },
            TokenAccountDataField::Delegate(k) => {
                out.push(3);
                serialize_option_pubkey(k, out);
            },
            TokenAccountDataField::State(n) => {
                out.push(4);
                out.push(*n);
            },
            TokenAccountDataField::IsNative(n) => {
                out.push(5);
                serialize_option_u64(n, out);
            },
            TokenAccountDataField::DelegatedAmount(n) => {
                out.push(6);
                push_u64(out, *n);
            },
            TokenAccountDataField::CloseAuthority(k) => {
                out.push(7);
                serialize_option_pubkey(k, out);
            },
        }
        assert(out@ =~= old(out)@ + self.encoding());
    }

    /// Reads the field at `pos`.
    pub fn deserialize(bytes: &[u8], pos: usize) -> (r: Result<
        (TokenAccountDataField, usize),
        EngineError,
    >)
        ensures
            match r {
                Ok((v, end)) => TokenAccountDataField::parse(bytes@, pos as int) == Some(
                    (v, end as int),
                ),
                Err(e) => e == EngineError::MalformedEncoding && TokenAccountDataField::parse(
                    bytes@,
                    pos as int,
                ) is None,
            },
            r matches Ok((_, end)) ==> pos < end <= bytes@.len(),
    {
        let (tag, at) = match deserialize_u8(bytes, pos) {
            Ok(v) => v,
            Err(e) => {
                return Err(e);
            },
        };
        if tag == 0 {
            match deserialize_pubkey(bytes, at) {
                Ok((k, end)) => Ok((TokenAccountDataField::Mint(k), end)),
                Err(e) => Err(e),
            }
        } else if tag == 1 {
            match deserialize_pubkey(bytes, at) {
                Ok((k, end)) => Ok((TokenAccountDataField::Owner(k), end)),
                Err(e) => Err(e),
            }
        } else if tag == 2 {
            match deserialize_u64(bytes, at) {
                Ok((n, end)) => Ok((TokenAccountDataField::Amount(n), end)),
                Err(e) => Err(e),
            }
        } else if tag == 3 {
            match deserialize_option_pubkey(bytes, at) {
                Ok((k, end)) => Ok((TokenAccountDataField::Delegate(k), end)),
                Err(e) => Err(e),
            }
        } else if tag == 4 {
            match deserialize_u8(bytes, at) {
                Ok((n, end)) => Ok((TokenAccountDataField::State(n), end)),
                Err(e) => Err(e),
            }
        } else if tag == 5 {
            match deserialize_option_u64(bytes, at) {
                Ok((n, end)) => Ok((TokenAccountDataField::IsNative(n), end)),
                Err(e) => Err(e),
            }
        } else if tag == 6 {
            match deserialize_u64(bytes, at) {
                Ok((n, end)) => Ok((TokenAccountDataField::DelegatedAmount(n), end)),
                Err(e) => Err(e),
            }
        } else if tag == 7 {
            match deserialize_option_pubkey(bytes, at) {
                Ok((k, end)) => Ok((TokenAccountDataField::CloseAuthority(k), end)),
                Err(e) => Err(e),
            }
        } else {
            Err(EngineError::MalformedEncoding)
        }
    }
}

impl AssertionView {
    /// Whether the assertion can be written: its literal can, and a digest
    /// has thirty-two bytes.
    pub open spec fn wf(self) -> bool {
        match self {
            AssertionView::AccountData(_, _, value) => value.wf(),
            AssertionView::AccountDataHash(hash, _, _, _) => hash.len() == 32,
            AssertionView::AcountDataOption(_, _, value) => value.wf(),
            _ => true,
        }
    }

    /// The bytes of the assertion: its discriminant, then its parts in
    /// order.
    pub open spec fn encoding(self) -> Seq<u8> {
        match self {
            AssertionView::AccountInfoField(field, operator) => seq![0u8] + field.encoding()
                + operator.encoding(),
            AssertionView::AccountData(offset, operator, value) => seq![1u8] + u16_le_bytes(
                offset as int,
            ) + operator.encoding() + value.encoding(),
            AssertionView::AccountDataHash(hash, operator, start, end) => seq![2u8] + hash
                + operator.encoding() + option_u16_encoding(start) + option_u16_encoding(end),
            AssertionView::AcountDataOption(offset, operator, value) => seq![3u8] + u64_le_bytes(
                offset as int,
            ) + operator.encoding() + value.encoding(),
            AssertionView::TokenAccountField(field, operator) => seq![4u8] + field.encoding()
                + operator.encoding(),
        }
    }

    /// The assertion that stands at `pos` of `s`, and where it ends.
    pub open spec fn parse(s: Seq<u8>, pos: int) -> Option<(AssertionView, int)> {
        if !in_range(s, pos, 1) {
            None
        } else if s[pos] == 0 {
            match AccountInfoDataField::parse(s, pos + 1) {
                Some((field, e1)) => match Operator::parse(s, e1) {
                    Some((operator, e2)) => Some(
                        (AssertionView::AccountInfoField(field, operator), e2),
                    ),
                    None => None,
                },
                None => None,
            }
        } else if s[pos] == 1 {
            match parse_u16(s, pos + 1) {
                Some((offset, e1)) => match Operator::parse(s, e1) {
                    Some((operator, e2)) => match DataValueView::parse(s, e2) {
                        Some((value, e3)) => Some(
                            (AssertionView::AccountData(offset, operator, value), e3),
                        ),
                        None => None,
                    },
                    None => None,
                },
                None => None,
            }
        } else if s[pos] == 2 {
            if in_range(s, pos + 1, 32) {
                match Operator::parse(s, pos + 33) {
                    Some((operator, e1)) => match parse_option_u16(s, e1) {
                        Some((start, e2)) => match parse_option_u16(s, e2) {
                            Some((end, e3)) => Some(
                                (
                                    AssertionView::AccountDataHash(
                                        s.subrange(pos + 1, pos + 33),
                                        operator,
                                        start,
                                        end,
                                    ),
                                    e3,
                                ),
                            ),
                            None => None,
                        },
                        None => None,
                    },
                    None => None,
                }
            } else {
                None
            }
        } else if s[pos] == 3 {
            match parse_u64(s, pos + 1) {
                Some((offset, e1)) => match Operator::parse(s, e1) {
                    Some((operator, e2)) => match DataValueView::parse(s, e2) {
                        Some((value, e3)) => Some(
                            (AssertionView::AcountDataOption(offset, operator, value), e3),
                        ),
                        None => None,
                    },
                    None => None,
                },
                None => None,
            }
        } else if s[pos] == 4 {
            match TokenAccountDataField::parse(s, pos + 1) {
                Some((field, e1)) => match Operator::parse(s, e1) {
                    Some((operator, e2)) => Some(
                        (AssertionView::TokenAccountField(field, operator), e2),
                    ),
                    None => None,
                },
                None => None,
            }
        } else {
            None
        }
    }

    /// Reading back what `encoding` wrote gives the assertion written.
    pub proof fn lemma_round_trip(self, s: Seq<u8>, pos: int)
        requires
            self.wf(),
            in_range(s, pos, self.encoding().len() as int),
            s.subrange(pos, pos + self.encoding().len()) == self.encoding(),
        ensures
            AssertionView::parse(s, pos) == Some((self, pos + self.encoding().len())),
    {
        match self {
            AssertionView::AccountInfoField(_, _) => self.lemma_round_trip_info(s, pos),
            AssertionView::AccountData(_, _, _) => self.lemma_round_trip_data(s, pos),
            AssertionView::AccountDataHash(_, _, _, _) => self.lemma_round_trip_hash(s, pos),
            AssertionView::AcountDataOption(_, _, _) => self.lemma_round_trip_option(s, pos),
            AssertionView::TokenAccountField(_, _) => self.lemma_round_trip_token(s, pos),
        }
    }

    proof fn lemma_round_trip_info(self, s: Seq<u8>, pos: int)
        requires
            self.wf(),
            in_range(s, pos, self.encoding().len() as int),
            s.subrange(pos, pos + self.encoding().len()) == self.encoding(),
            self is AccountInfoField,
        ensures
            AssertionView::parse(s, pos) == Some((self, pos + self.encoding().len())),
    {
        let enc = self.encoding();
        assert(s[pos] == s.subrange(pos, pos + enc.len())[0]);
        let field = self->AccountInfoField_0;
        let operator = self->AccountInfoField_1;
        let h2 = seq![0u8] + field.encoding();
        lemma_split_at(s, pos, h2, operator.encoding());
        lemma_split_at(s, pos, seq![0u8], field.encoding());
        field.lemma_round_trip(s, pos + 1);
        operator.lemma_round_trip(s, pos + h2.len());
    }

    proof fn lemma_round_trip_data(self, s: Seq<u8>, pos: int)
        requires
            self.wf(),
            in_range(s, pos, self.encoding().len() as int),
            s.subrange(pos, pos + self.encoding().len()) == self.encoding(),
            self is AccountData,
        ensures
            AssertionView::parse(s, pos) == Some((self, pos + self.encoding().len())),
    {
        let enc = self.encoding();
        assert(s[pos] == s.subrange(pos, pos + enc.len())[0]);
        let offset = self->AccountData_0;
        let operator = self->AccountData_1;
        let value = self->AccountData_2;
        let h2 = seq![1u8] + u16_le_bytes(offset as int);
        let h3 = h2 + operator.encoding();
        lemma_split_at(s, pos, h3, value.encoding());
        lemma_split_at(s, pos, h2, operator.encoding());
        lemma_split_at(s, pos, seq![1u8], u16_le_bytes(offset as int));
        lemma_u16_parse(offset, s, pos + 1);
        operator.lemma_round_trip(s, pos + 3);
        value.lemma_round_trip(s, pos + 4);
    }

    proof fn lemma_round_trip_hash(self, s: Seq<u8>, pos: int)
        requires
            self.wf(),
            in_range(s, pos, self.encoding().len() as int),
            s.subrange(pos, pos + self.encoding().len()) == self.encoding(),
            self is AccountDataHash,
        ensures
            AssertionView::parse(s, pos) == Some((self, pos + self.encoding().len())),
    {
        let enc = self.encoding();
        assert(s[pos] == s.subrange(pos, pos + enc.len())[0]);
        let hash = self->AccountDataHash_0;
        let operator = self->AccountDataHash_1;
        let start = self->AccountDataHash_2;
        let end = self->AccountDataHash_3;
        let h2 = seq![2u8] + hash;
        let h3 = h2 + operator.encoding();
        let h4 = h3 + option_u16_encoding(start);
        lemma_split_at(s, pos, h4, option_u16_encoding(end));
        lemma_split_at(s, pos, h3, option_u16_encoding(start));
        lemma_split_at(s, pos, h2, operator.encoding());
        lemma_split_at(s, pos, seq![2u8], hash);
        operator.lemma_round_trip(s, pos + 33);
        lemma_option_u16_parse(start, s, pos + 34);
        lemma_option_u16_parse(end, s, pos + h4.len());
    }

    proof fn lemma_round_trip_option(self, s: Seq<u8>, pos: int)
        requires
            self.wf(),
            in_range(s, pos, self.encoding().len() as int),
            s.subrange(pos, pos + self.encoding().len()) == self.encoding(),
            self is AcountDataOption,
        ensures
            AssertionView::parse(s, pos) == Some((self, pos + self.encoding().len())),
    {
        let enc = self.encoding();
        assert(s[pos] == s.subrange(pos, pos + enc.len())[0]);
        let offset = self->AcountDataOption_0;
        let operator = self->AcountDataOption_1;
        let value = self->AcountDataOption_2;
        lemma_u64_le_bytes_len(offset as int);
        let h2 = seq![3u8] + u64_le_bytes(offset as int);
        let h3 = h2 + operator.encoding();
        lemma_split_at(s, pos, h3, value.encoding());
        lemma_split_at(s, pos, h2, operator.encoding());
        lemma_split_at(s, pos, seq![3u8], u64_le_bytes(offset as int));
        lemma_u64_parse(offset, s, pos + 1);
        operator.lemma_round_trip(s, pos + 9);
        value.lemma_round_trip(s, pos + 10);
    }

    proof fn lemma_round_trip_token(self, s: Seq<u8>, pos: int)
        requires
            self.wf(),
            in_range(s, pos, self.encoding().len() as int),
            s.subrange(pos, pos + self.encoding().len()) == self.encoding(),
            self is TokenAccountField,
        ensures
            AssertionView::parse(s, pos) == Some((self, pos + self.encoding().len())),
    {
        let enc = self.encoding();
        assert(s[pos] == s.subrange(pos, pos + enc.len())[0]);
        let field = self->TokenAccountField_0;
        let operator = self->TokenAccountField_1;
        let h2 = seq![4u8] + field.encoding();
        lemma_split_at(s, pos, h2, operator.encoding());
        lemma_split_at(s, pos, seq![4u8], field.encoding());
        field.lemma_round_trip(s, pos + 1);
        operator.lemma_round_trip(s, pos + h2.len());
    }
}

impl Assertion {
    /// Whether the assertion can be written.
    pub fn is_encodable(&self) -> (b: bool)
        ensures
            b == self@.wf(),
    {
        match self {
            Assertion::AccountData(_, _, value) => value.is_encodable(),
            Assertion::AcountDataOption(_, _, value) => value.is_encodable(),
            _ => true,
        }
    }

    /// Appends the assertion's bytes. The assertion must be one that can be
    /// written.
    pub fn serialize(&self, out: &mut Vec<u8>)
        requires
            self@.wf(),
        ensures
            final(out)@ == old(out)@ + self@.encoding(),
    {
        let ghost start = out@;
        match self {
            Assertion::AccountInfoField(field, operator) => {
                out.push(0);
                assert(out@ =~= start + seq![0u8]);
                field.serialize(out);
                operator.serialize(out);
                proof {
                    let h2 = seq![0u8] + field.encoding();
                    lemma_append_both(start, seq![0u8], field.encoding());
                    lemma_append_both(start, h2, operator.encoding());
                }
            },
            Assertion::AccountData(offset, operator, value) => {
                out.push(1);
                assert(out@ =~= start + seq![1u8]);
                push_u16(out, *offset);
                operator.serialize(out);
                value.serialize(out);
                proof {
                    let h2 = seq![1u8] + u16_le_bytes(*offset as int);
                    let h3 = h2 + operator.encoding();
                    lemma_append_both(start, seq![1u8], u16_le_bytes(*offset as int));
                    lemma_append_both(start, h2, operator.encoding());
                    lemma_append_both(start, h3, value@.encoding());
                }
            },
            Assertion::AccountDataHash(hash, operator, start_at, end_at) => {
                out.push(2);
                assert(out@ =~= start + seq![2u8]);
                push_bytes(out, hash.as_slice());
                operator.serialize(out);
                serialize_option_u16(start_at, out);
                serialize_option_u16(end_at, out);
                proof {
                    let h2 = seq![2u8] + hash@;
                    let h3 = h2 + operator.encoding();
                    let h4 = h3 + option_u16_encoding(*start_at);
                    lemma_append_both(start, seq![2u8], hash@);
                    lemma_append_both(start, h2, operator.encoding());
                    lemma_append_both(start, h3, option_u16_encoding(*start_at));
                    lemma_append_both(start, h4, option_u16_encoding(*end_at));
                }
            },
            Assertion::AcountDataOption(offset, operator, value) => {
                out.push(3);
                assert(out@ =~= start + seq![3u8]);
                push_u64(out, *offset);
                operator.serialize(out);
                value.serialize(out);
                proof {
                    let h2 = seq![3u8] + u64_le_bytes(*offset as int);
                    let h3 = h2 + operator.encoding();
                    lemma_append_both(start, seq![3u8], u64_le_bytes(*offset as int));
                    lemma_append_both(start, h2, operator.encoding());
                    lemma_append_both(start, h3, value@.encoding());
                }
            },
            Assertion::TokenAccountField(field, operator) => {
                out.push(4);
                assert(out@ =~= start + seq![4u8]);
                field.serialize(out);
                operator.serialize(out);
                proof {
                    let h2 = seq![4u8] + field.encoding();
                    lemma_append_both(start, seq![4u8], field.encoding());
                    lemma_append_both(start, h2, operator.encoding());
                }
            },
        }
    }

    /// Reads the assertion at `pos`.
    pub fn deserialize(bytes: &[u8], pos: usize) -> (r: Result<(Assertion, usize), EngineError>)
        ensures
            match r {
                Ok((v, end)) => AssertionView::parse(bytes@, pos as int) == Some(
                    (v@, end as int),
                ),
                Err(e) => e == EngineError::MalformedEncoding && AssertionView::parse(
                    bytes@,
                    pos as int,
                ) is None,
            },
            r matches Ok((v, end)) ==> v@.wf(),
            r matches Ok((v, end)) ==> pos < end <= bytes@.len(),
    {
        let (tag, at) = match deserialize_u8(bytes, pos) {
            Ok(v) => v,
            Err(e) => {
                return Err(e);
            },
        };
        if tag == 0 {
            let (field, e1) = match AccountInfoDataField::deserialize(bytes, at) {
                Ok(v) => v,
                Err(e) => {
                    return Err(e);
                },
            };
            match Operator::deserialize(bytes, e1) {
                Ok((operator, e2)) => Ok((Assertion::AccountInfoField(field, operator), e2)),
                Err(e) => Err(e),
            }
        } else if tag == 1 {
            let (offset, e1) = match deserialize_u16(bytes, at) {
                Ok(v) => v,
                Err(e) => {
                    return Err(e);
                },
            };
            let (operator, e2) = match Operator::deserialize(bytes, e1) {
                Ok(v) => v,
                Err(e) => {
                    return Err(e);
                },
            };
            match DataValue::deserialize(bytes, e2) {
                Ok((value, e3)) => Ok((Assertion::AccountData(offset, operator, value), e3)),
                Err(e) => Err(e),
            }
        } else if tag == 2 {
            if bytes.len() - at < 32 {
                return Err(EngineError::MalformedEncoding);
            }
            let hash = read_array32(bytes, at);
            let (operator, e1) = match Operator::deserialize(bytes, at + 32) {
                Ok(v) => v,
                Err(e) => {
                    return Err(e);
                },
            };
            let (start, e2) = match deserialize_option_u16(bytes, e1) {
                Ok(v) => v,
                Err(e) => {
                    return Err(e);
                },
            };
            match deserialize_option_u16(bytes, e2) {
                Ok((end, e3)) => Ok((Assertion::AccountDataHash(hash, operator, start, end), e3)),
                Err(e) => Err(e),
            }
        } else if tag == 3 {
            let (offset, e1) = match deserialize_u64(bytes, at) {
                Ok(v) => v,
                Err(e) => {
                    return Err(e);
                },
            };
            let (operator, e2) = match Operator::deserialize(bytes, e1) {
                Ok(v) => v,
                Err(e) => {
                    return Err(e);
                },
            };
            match DataValue::deserialize(bytes, e2) {
                Ok((value, e3)) => Ok((Assertion::AcountDataOption(offset, operator, value), e3)),
                Err(e) => Err(e),
            }
        } else if tag == 4 {
            let (field, e1) = match TokenAccountDataField::deserialize(bytes, at) {
                Ok(v) => v,
                Err(e) => {
                    return Err(e);
                },
            };
            match Operator::deserialize(bytes, e1) {
                Ok((operator, e2)) => Ok((Assertion::TokenAccountField(field, operator), e2)),
                Err(e) => Err(e),
            }
        } else {
            Err(EngineError::MalformedEncoding)
        }
    }
}

/// The bytes of the first `count` assertions of `list`, back to back.
pub open spec fn list_encoding(list: Seq<AssertionView>, count: nat) -> Seq<u8>
    decreases count,
{
    if count == 0 {
        Seq::<u8>::empty()
    } else {
        list_encoding(list, (count - 1) as nat) + list[count - 1].encoding()
    }
}

/// The bytes of a list of one to sixteen assertions: one byte that holds
/// the list's length less one, then the assertions back to back, with no
/// length between them.
pub open spec fn compact_encoding(list: Seq<AssertionView>) -> Seq<u8> {
    seq![(list.len() - 1) as u8] + list_encoding(list, list.len())
}

/// The `count` assertions that stand back to back from `pos` of `s` on, and
/// where the last ends.
pub open spec fn parse_list(s: Seq<u8>, pos: int, count: nat) -> Option<
    (Seq<AssertionView>, int),
>
    decreases count,
{
    if count == 0 {
        if 0 <= pos <= s.len() {
            Some((Seq::<AssertionView>::empty(), pos))
        } else {
            None
        }
    } else {
        match parse_list(s, pos, (count - 1) as nat) {
            Some((init, e1)) => match AssertionView::parse(s, e1) {
                Some((last, e2)) => Some((init.push(last), e2)),
                None => None,
            },
            None => None,
        }
    }
}

/// The list of assertions that stands at `pos` of `s`, and where it ends.
pub open spec fn parse_compact(s: Seq<u8>, pos: int) -> Option<(Seq<AssertionView>, int)> {
    if in_range(s, pos, 1) && s[pos] < 16 {
        parse_list(s, pos + 1, (s[pos] + 1) as nat)
    } else {
        None
    }
}

/// Whether every assertion of a list can be written.
pub open spec fn all_wf(list: Seq<AssertionView>) -> bool {
    forall|i: int| 0 <= i < list.len() ==> (#[trigger] list[i]).wf()
}

/// Where no `count` assertions stand, no more than `count` stand either.
pub proof fn lemma_parse_list_none(s: Seq<u8>, pos: int, count: nat, more: nat)
    requires
        parse_list(s, pos, count) is None,
        count <= more,
    ensures
        parse_list(s, pos, more) is None,
    decreases more,
{
    if count < more {
        lemma_parse_list_none(s, pos, count, (more - 1) as nat);
    }
}

/// Reading back the first `count` assertions of a list gives them.
pub proof fn lemma_list_round_trip(list: Seq<AssertionView>, count: nat, s: Seq<u8>, pos: int)
    requires
        count <= list.len(),
        all_wf(list),
        in_range(s, pos, list_encoding(list, count).len() as int),
        s.subrange(pos, pos + list_encoding(list, count).len()) == list_encoding(list, count),
    ensures
        parse_list(s, pos, count) == Some(
            (list.take(count as int), pos + list_encoding(list, count).len()),
        ),
    decreases count,
{
    if count == 0 {
        assert(list.take(0) =~= Seq::<AssertionView>::empty());
    } else {
        let init = list_encoding(list, (count - 1) as nat);
        let last = list[count - 1];
        lemma_split_at(s, pos, init, last.encoding());
        lemma_list_round_trip(list, (count - 1) as nat, s, pos);
        assert(last.wf());
        last.lemma_round_trip(s, pos + init.len());
        assert(list.take(count - 1).push(last) =~= list.take(count as int));
    }
}

/// Writing a list of one to sixteen assertions and reading it back gives the
/// list written, and the reading ends where the writing did.
pub proof fn lemma_compact_round_trip(list: Seq<AssertionView>)
    requires
        1 <= list.len() <= 16,
        all_wf(list),
    ensures
        parse_compact(compact_encoding(list), 0) == Some(
            (list, compact_encoding(list).len() as int),
        ),
{
    let s = compact_encoding(list);
    let body = list_encoding(list, list.len());
    assert(s.subrange(1, 1 + body.len() as int) =~= body);
    lemma_list_round_trip(list, list.len(), s, 1);
    assert(list.take(list.len() as int) =~= list);
}

impl CompactAssertionArray {
    /// Whether every assertion of the list can be written.
    pub fn is_encodable(&self) -> (b: bool)
        ensures
            b == all_wf(self@),
    {
        let list = self.as_slice();
        let mut i: usize = 0;
        while i < list.len()
            invariant
                i <= list.len(),
                list@ == self.assertions(),
                forall|k: int| 0 <= k < i ==> (#[trigger] self@[k]).wf(),
            decreases list.len() - i,
        {
            assert(self@[i as int] == list@[i as int]@);
            if !list[i].is_encodable() {
                return false;
            }
            i = i + 1;
        }
        true
    }

    /// The bytes of the list; `None` exactly when one of its assertions
    /// cannot be written. What is written reads back as the list.
    pub fn try_to_vec(&self) -> (r: Option<Vec<u8>>)
        ensures
            r is Some <==> all_wf(self@),
            r matches Some(bytes) ==> bytes@ == compact_encoding(self@),
            r matches Some(bytes) ==> parse_compact(bytes@, 0) == Some(
                (self@, bytes@.len() as int),
            ),
    {
        if !self.is_encodable() {
            return None;
        }
        let list = self.as_slice();
        let mut out: Vec<u8> = Vec::new();
        out.push((list.len() - 1) as u8);
        let mut i: usize = 0;
        while i < list.len()
            invariant
                i <= list.len(),
                list@ == self.assertions(),
                1 <= list@.len() <= 16,
                all_wf(self@),
                out@ == seq![(list@.len() - 1) as u8] + list_encoding(self@, i as nat),
            decreases list.len() - i,
        {
            assert(self@[i as int] == list@[i as int]@);
            list[i].serialize(&mut out);
            i = i + 1;
        }
        proof {
            lemma_compact_round_trip(self@);
        }
        Some(out)
    }

    /// Reads the list at `pos`.
    pub fn deserialize(bytes: &[u8], pos: usize) -> (r: Result<
        (CompactAssertionArray, usize),
        EngineError,
    >)
        ensures
            match r {
                Ok((v, end)) => parse_compact(bytes@, pos as int) == Some((v@, end as int))
                    && all_wf(v@) && end <= bytes@.len(),
                Err(e) => e == EngineError::MalformedEncoding && parse_compact(
                    bytes@,
                    pos as int,
                ) is None,
            },
            r matches Ok((_, end)) ==> pos < end <= bytes@.len(),
    {
        let (tag, at) = match deserialize_u8(bytes, pos) {
            Ok(v) => v,
            Err(e) => {
                return Err(e);
            },
        };
        if tag >= 16 {
            return Err(EngineError::MalformedEncoding);
        }
        let count: usize = tag as usize + 1;
        let mut list: Vec<Assertion> = Vec::new();
        let mut cur: usize = at;
        let mut i: usize = 0;
        while i < count
            invariant
                i <= count <= 16,
                cur <= bytes@.len(),
                at == pos + 1,
                at <= cur,
                pos < bytes@.len(),
                count == bytes@[pos as int] + 1,
                list@.len() == i,
                parse_list(bytes@, at as int, i as nat) == Some(
                    (list@.map_values(|a: Assertion| a@), cur as int),
                ),
                all_wf(list@.map_values(|a: Assertion| a@)),
            decreases count - i,
        {
            match Assertion::deserialize(bytes, cur) {
                Err(e) => {
                    proof {
                        lemma_parse_list_none(bytes@, at as int, (i + 1) as nat, count as nat);
                    }
                    return Err(e);
                },
                Ok((assertion, end)) => {
                    let ghost before = list@.map_values(|a: Assertion| a@);
                    list.push(assertion);
                    assert(list@.map_values(|a: Assertion| a@) =~= before.push(assertion@));
                    cur = end;
                },
            }
            i = i + 1;
        }
        match CompactAssertionArray::from_vec(list) {
            Some(array) => Ok((array, cur)),
            None => Err(EngineError::MalformedEncoding),
        }
    }

    /// Reads a list from the whole of `bytes`: they must hold one list and
    /// nothing behind it. The list read is the one whose bytes they are.
    pub fn try_from_slice(bytes: &[u8]) -> (r: Result<CompactAssertionArray, EngineError>)
        ensures
            match r {
                Ok(v) => parse_compact(bytes@, 0) == Some((v@, bytes@.len() as int)) && all_wf(
                    v@,
                ) && bytes@ == compact_encoding(v@),
                Err(e) => e == EngineError::MalformedEncoding && !(parse_compact(bytes@, 0)
                    matches Some((_, end)) && end == bytes@.len()),
            },
    {
        match CompactAssertionArray::deserialize(bytes, 0) {
            Err(e) => Err(e),
            Ok((v, end)) => {
                if end == bytes.len() {
                    proof {
                        lemma_compact_encoding_of_parse(bytes@, 0);
                        assert(bytes@.subrange(0, bytes@.len() as int) =~= bytes@);
                    }
                    Ok(v)
                } else {
                    Err(EngineError::MalformedEncoding)
                }
            },
        }
    }
}

impl AccountInfoDataField {
    /// A field that was read stands in the bytes as it would be written.
    pub proof fn lemma_encoding_of_parse(s: Seq<u8>, pos: int)
        requires
            AccountInfoDataField::parse(s, pos) is Some,
        ensures
            consumed(
                s,
                pos,
                AccountInfoDataField::parse(s, pos)->Some_0.1,
                AccountInfoDataField::parse(s, pos)->Some_0.0.encoding(),
            ),
    {
        let end = AccountInfoDataField::parse(s, pos)->Some_0.1;
        assert(s.subrange(pos, pos + 1) =~= seq![s[pos]]);
        if s[pos] == 0 {
            lemma_pubkey_encoding_of_parse(s, pos + 1);
            lemma_join_at(s, pos, pos + 1, end, seq![0u8], parse_pubkey(s, pos + 1)->Some_0.0@);
        } else if s[pos] == 1 {
            lemma_pubkey_encoding_of_parse(s, pos + 1);
            lemma_join_at(s, pos, pos + 1, end, seq![1u8], parse_pubkey(s, pos + 1)->Some_0.0@);
        } else if s[pos] == 2 {
            lemma_u64_encoding_of_parse(s, pos + 1);
            lemma_join_at(
                s,
                pos,
                pos + 1,
                end,
                seq![2u8],
                u64_le_bytes(parse_u64(s, pos + 1)->Some_0.0 as int),
            );
        } else if s[pos] == 3 {
            lemma_u64_encoding_of_parse(s, pos + 1);
            lemma_join_at(
                s,
                pos,
                pos + 1,
                end,
                seq![3u8],
                u64_le_bytes(parse_u64(s, pos + 1)->Some_0.0 as int),
            );
        } else if s[pos] == 4 {
            lemma_bool_encoding_of_parse(s, pos + 1);
            lemma_join_at(
                s,
                pos,
                pos + 1,
                end,
                seq![4u8],
                bool_encoding(parse_bool(s, pos + 1)->Some_0.0),
            );
        } else if s[pos] == 5 {
            lemma_bool_encoding_of_parse(s, pos + 1);
            lemma_join_at(
                s,
                pos,
                pos + 1,
                end,
                seq![5u8],
                bool_encoding(parse_bool(s, pos + 1)->Some_0.0),
            );
        } else if s[pos] == 6 {
            lemma_bool_encoding_of_parse(s, pos + 1);
            lemma_join_at(
                s,
                pos,
                pos + 1,
                end,
                seq![6u8],
                bool_encoding(parse_bool(s, pos + 1)->Some_0.0),
            );
        } else if s[pos] == 7 {
            lemma_u64_encoding_of_parse(s, pos + 1);
            lemma_join_at(
                s,
                pos,
                pos + 1,
                end,
                seq![7u8],
                u64_le_bytes(parse_u64(s, pos + 1)->Some_0.0 as int),
            );
        }
    }
}

impl TokenAccountDataField {
    /// A field that was read stands in the bytes as it would be written.
    pub proof fn lemma_encoding_of_parse(s: Seq<u8>, pos: int)
        requires
            TokenAccountDataField::parse(s, pos) is Some,
        ensures
            consumed(
                s,
                pos,
                TokenAccountDataField::parse(s, pos)->Some_0.1,
                TokenAccountDataField::parse(s, pos)->Some_0.0.encoding(),
            ),
    {
        let end = TokenAccountDataField::parse(s, pos)->Some_0.1;
        assert(s.subrange(pos, pos + 1) =~= seq![s[pos]]);
        if s[pos] == 0 {
            lemma_pubkey_encoding_of_parse(s, pos + 1);
            lemma_join_at(s, pos, pos + 1, end, seq![0u8], parse_pubkey(s, pos + 1)->Some_0.0@);
        } else if s[pos] == 1 {
            lemma_pubkey_encoding_of_parse(s, pos + 1);
            lemma_join_at(s, pos, pos + 1, end, seq![1u8], parse_pubkey(s, pos + 1)->Some_0.0@);
        } else if s[pos] == 2 {
            lemma_u64_encoding_of_parse(s, pos + 1);
            lemma_join_at(
                s,
                pos,
                pos + 1,
                end,
                seq![2u8],
                u64_le_bytes(parse_u64(s, pos + 1)->Some_0.0 as int),
            );
        } else if s[pos] == 3 {
            lemma_option_pubkey_encoding_of_parse(s, pos + 1);
            lemma_join_at(
                s,
                pos,
                pos + 1,
                end,
                seq![3u8],
                option_pubkey_encoding(parse_option_pubkey(s, pos + 1)->Some_0.0),
            );
        } else if s[pos] == 4 {
            assert(s.subrange(pos, pos + 2) =~= seq![4u8, s[pos + 1]]);
        } else if s[pos] == 5 {
            lemma_option_u64_encoding_of_parse(s, pos + 1);
            lemma_join_at(
                s,
                pos,
                pos + 1,
                end,
                seq![5u8],
                option_u64_encoding(parse_option_u64(s, pos + 1)->Some_0.0),
            );
        } else if s[pos] == 6 {
            lemma_u64_encoding_of_parse(s, pos + 1);
            lemma_join_at(
                s,
                pos,
                pos + 1,
                end,
                seq![6u8],
                u64_le_bytes(parse_u64(s, pos + 1)->Some_0.0 as int),
            );
        } else if s[pos] == 7 {
            lemma_option_pubkey_encoding_of_parse(s, pos + 1);
            lemma_join_at(
                s,
                pos,
                pos + 1,
                end,
                seq![7u8],
                option_pubkey_encoding(parse_option_pubkey(s, pos + 1)->Some_0.0),
            );
        }
    }
}

impl AssertionView {
    /// An assertion that was read can be written, and stands in the bytes as
    /// it would be written.
    pub proof fn lemma_encoding_of_parse(s: Seq<u8>, pos: int)
        requires
            AssertionView::parse(s, pos) is Some,
        ensures
            AssertionView::parse(s, pos)->Some_0.0.wf(),
            consumed(
                s,
                pos,
                AssertionView::parse(s, pos)->Some_0.1,
                AssertionView::parse(s, pos)->Some_0.0.encoding(),
            ),
            pos < AssertionView::parse(s, pos)->Some_0.1,
    {
        if s[pos] == 0 {
            AssertionView::lemma_encoding_of_parse_info(s, pos);
        } else if s[pos] == 1 {
            AssertionView::lemma_encoding_of_parse_data(s, pos);
        } else if s[pos] == 2 {
            AssertionView::lemma_encoding_of_parse_hash(s, pos);
        } else if s[pos] == 3 {
            AssertionView::lemma_encoding_of_parse_option(s, pos);
        } else {
            AssertionView::lemma_encoding_of_parse_token(s, pos);
        }
    }

    proof fn lemma_encoding_of_parse_info(s: Seq<u8>, pos: int)
        requires
            AssertionView::parse(s, pos) is Some,
            s[pos] == 0,
        ensures
            AssertionView::parse(s, pos)->Some_0.0.wf(),
            consumed(
                s,
                pos,
                AssertionView::parse(s, pos)->Some_0.1,
                AssertionView::parse(s, pos)->Some_0.0.encoding(),
            ),
            pos < AssertionView::parse(s, pos)->Some_0.1,
    {
        assert(s.subrange(pos, pos + 1) =~= seq![s[pos]]);
        let (field, e1) = AccountInfoDataField::parse(s, pos + 1)->Some_0;
        let (operator, e2) = Operator::parse(s, e1)->Some_0;
        AccountInfoDataField::lemma_encoding_of_parse(s, pos + 1);
        Operator::lemma_encoding_of_parse(s, e1);
        lemma_join_at(s, pos, pos + 1, e1, seq![0u8], field.encoding());
        lemma_join_at(s, pos, e1, e2, seq![0u8] + field.encoding(), operator.encoding());
    }

    proof fn lemma_encoding_of_parse_data(s: Seq<u8>, pos: int)
        requires
            AssertionView::parse(s, pos) is Some,
            s[pos] == 1,
        ensures
            AssertionView::parse(s, pos)->Some_0.0.wf(),
            consumed(
                s,
                pos,
                AssertionView::parse(s, pos)->Some_0.1,
                AssertionView::parse(s, pos)->Some_0.0.encoding(),
            ),
            pos < AssertionView::parse(s, pos)->Some_0.1,
    {
        assert(s.subrange(pos, pos + 1) =~= seq![s[pos]]);
        let (offset, e1) = parse_u16(s, pos + 1)->Some_0;
        let (operator, e2) = Operator::parse(s, e1)->Some_0;
        let (value, e3) = DataValueView::parse(s, e2)->Some_0;
        lemma_u16_encoding_of_parse(s, pos + 1);
        Operator::lemma_encoding_of_parse(s, e1);
        DataValueView::lemma_encoding_of_parse(s, e2);
        let h2 = seq![1u8] + u16_le_bytes(offset as int);
        lemma_join_at(s, pos, pos + 1, e1, seq![1u8], u16_le_bytes(offset as int));
        lemma_join_at(s, pos, e1, e2, h2, operator.encoding());
        lemma_join_at(s, pos, e2, e3, h2 + operator.encoding(), value.encoding());
    }

    proof fn lemma_encoding_of_parse_hash(s: Seq<u8>, pos: int)
        requires
            AssertionView::parse(s, pos) is Some,
            s[pos] == 2,
        ensures
            AssertionView::parse(s, pos)->Some_0.0.wf(),
            consumed(
                s,
                pos,
                AssertionView::parse(s, pos)->Some_0.1,
                AssertionView::parse(s, pos)->Some_0.0.encoding(),
            ),
            pos < AssertionView::parse(s, pos)->Some_0.1,
    {
        assert(s.subrange(pos, pos + 1) =~= seq![s[pos]]);
        let hash = s.subrange(pos + 1, pos + 33);
        let (operator, e1) = Operator::parse(s, pos + 33)->Some_0;
        let (start, e2) = parse_option_u16(s, e1)->Some_0;
        let (stop, e3) = parse_option_u16(s, e2)->Some_0;
        Operator::lemma_encoding_of_parse(s, pos + 33);
        lemma_option_u16_encoding_of_parse(s, e1);
        lemma_option_u16_encoding_of_parse(s, e2);
        let h2 = seq![2u8] + hash;
        let h3 = h2 + operator.encoding();
        lemma_join_at(s, pos, pos + 1, pos + 33, seq![2u8], hash);
        lemma_join_at(s, pos, pos + 33, e1, h2, operator.encoding());
        lemma_join_at(s, pos, e1, e2, h3, option_u16_encoding(start));
        lemma_join_at(s, pos, e2, e3, h3 + option_u16_encoding(start), option_u16_encoding(stop));
    }

    proof fn lemma_encoding_of_parse_option(s: Seq<u8>, pos: int)
        requires
            AssertionView::parse(s, pos) is Some,
            s[pos] == 3,
        ensures
            AssertionView::parse(s, pos)->Some_0.0.wf(),
            consumed(
                s,
                pos,
                AssertionView::parse(s, pos)->Some_0.1,
                AssertionView::parse(s, pos)->Some_0.0.encoding(),
            ),
            pos < AssertionView::parse(s, pos)->Some_0.1,
    {
        assert(s.subrange(pos, pos + 1) =~= seq![s[pos]]);
        let (offset, e1) = parse_u64(s, pos + 1)->Some_0;
        let (operator, e2) = Operator::parse(s, e1)->Some_0;
        let (value, e3) = DataValueView::parse(s, e2)->Some_0;
        lemma_u64_encoding_of_parse(s, pos + 1);
        Operator::lemma_encoding_of_parse(s, e1);
        DataValueView::lemma_encoding_of_parse(s, e2);
        let h2 = seq![3u8] + u64_le_bytes(offset as int);
        lemma_join_at(s, pos, pos + 1, e1, seq![3u8], u64_le_bytes(offset as int));
        lemma_join_at(s, pos, e1, e2, h2, operator.encoding());
        lemma_join_at(s, pos, e2, e3, h2 + operator.encoding(), value.encoding());
    }

    proof fn lemma_encoding_of_parse_token(s: Seq<u8>, pos: int)
        requires
            AssertionView::parse(s, pos) is Some,
            s[pos] == 4,
        ensures
            AssertionView::parse(s, pos)->Some_0.0.wf(),
            consumed(
                s,
                pos,
                AssertionView::parse(s, pos)->Some_0.1,
                AssertionView::parse(s, pos)->Some_0.0.encoding(),
            ),
            pos < AssertionView::parse(s, pos)->Some_0.1,
    {
        assert(s.subrange(pos, pos + 1) =~= seq![s[pos]]);
        let (field, e1) = TokenAccountDataField::parse(s, pos + 1)->Some_0;
        let (operator, e2) = Operator::parse(s, e1)->Some_0;
        TokenAccountDataField::lemma_encoding_of_parse(s, pos + 1);
        Operator::lemma_encoding_of_parse(s, e1);
        lemma_join_at(s, pos, pos + 1, e1, seq![4u8], field.encoding());
        lemma_join_at(s, pos, e1, e2, seq![4u8] + field.encoding(), operator.encoding());
    }
}

/// Assertions that were read back to back can be written, and stand in the
/// bytes as they would be written.
pub proof fn lemma_list_encoding_of_parse(s: Seq<u8>, pos: int, count: nat)
    requires
        parse_list(s, pos, count) is Some,
    ensures
        parse_list(s, pos, count)->Some_0.0.len() == count,
        all_wf(parse_list(s, pos, count)->Some_0.0),
        consumed(
            s,
            pos,
            parse_list(s, pos, count)->Some_0.1,
            list_encoding(parse_list(s, pos, count)->Some_0.0, count),
        ),
    decreases count,
{
    let (list, end) = parse_list(s, pos, count)->Some_0;
    if count == 0 {
        assert(s.subrange(pos, pos) =~= Seq::<u8>::empty());
    } else {
        let (init, e1) = parse_list(s, pos, (count - 1) as nat)->Some_0;
        let (last, e2) = AssertionView::parse(s, e1)->Some_0;
        lemma_list_encoding_of_parse(s, pos, (count - 1) as nat);
        AssertionView::lemma_encoding_of_parse(s, e1);
        lemma_list_encoding_prefix(init, list, (count - 1) as nat);
        lemma_join_at(
            s,
            pos,
            e1,
            e2,
            list_encoding(list, (count - 1) as nat),
            last.encoding(),
        );
    }
}

/// The bytes of the first `count` assertions are those of the first `count`
/// assertions of any list that starts alike.
pub proof fn lemma_list_encoding_prefix(
    first: Seq<AssertionView>,
    second: Seq<AssertionView>,
    count: nat,
)
    requires
        count <= first.len(),
        count <= second.len(),
        forall|i: int| 0 <= i < count ==> first[i] == second[i],
    ensures
        list_encoding(first, count) == list_encoding(second, count),
    decreases count,
{
    if count > 0 {
        lemma_list_encoding_prefix(first, second, (count - 1) as nat);
    }
}

/// A list that was read has one to sixteen assertions that can be written,
/// and stands in the bytes as it would be written.
pub proof fn lemma_compact_encoding_of_parse(s: Seq<u8>, pos: int)
    requires
        parse_compact(s, pos) is Some,
    ensures
        1 <= parse_compact(s, pos)->Some_0.0.len() <= 16,
        all_wf(parse_compact(s, pos)->Some_0.0),
        consumed(
            s,
            pos,
            parse_compact(s, pos)->Some_0.1,
            compact_encoding(parse_compact(s, pos)->Some_0.0),
        ),
{
    let (list, end) = parse_compact(s, pos)->Some_0;
    lemma_list_encoding_of_parse(s, pos + 1, (s[pos] + 1) as nat);
    assert(s.subrange(pos, pos + 1) =~= seq![s[pos]]);
    lemma_join_at(s, pos, pos + 1, end, seq![s[pos]], list_encoding(list, list.len()));
}

} // verus!
