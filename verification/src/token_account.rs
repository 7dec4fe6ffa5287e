//! Assertions on the fields of a token account, which are found at fixed
//! places of its buffer.

use vstd::prelude::*;
use vstd::string::*;
use crate::account::TargetAccount;
use crate::error::EngineError;
use crate::operator::{EvaluationResult, EvaluationResultView, Operator};
use crate::optional::{evaluate_optional_at, evaluate_optional_at_spec, option_view};
use crate::solana::{
    base58_text, optional_base58_text, push_optional_pubkey, push_pubkey, Pubkey,
};
use crate::text::{decimal_text, optional_decimal_text, push_decimal, push_optional_decimal};
use crate::value::{evaluate_at_spec, result_view, DataKind, DataValue, DataValueView};

verus! {

/// The number of bytes a token account takes.
pub const TOKEN_ACCOUNT_LEN: usize = 165;

/// One field of a token account, with the value expected of it.
#[derive(Clone, Copy, Debug, PartialEq, Eq)]
pub enum TokenAccountDataField {
    Mint(Pubkey),
    Owner(Pubkey),
    Amount(u64),
    Delegate(Option<Pubkey>),
    State(u8),
    IsNative(Option<u64>),
    DelegatedAmount(u64),
    CloseAuthority(Option<Pubkey>),
}

pub open spec fn optional_pubkey_view(key: Option<Pubkey>) -> Option<DataValueView> {
    match key {
        Some(k) => Some(DataValueView::Pubkey(k@)),
        None => None,
    }
}

pub open spec fn optional_u64_view(n: Option<u64>) -> Option<DataValueView> {
    match n {
        Some(n) => Some(DataValueView::U64(n)),
        None => None,
    }
}

/// An optional address as a value to compare.
pub fn optional_pubkey(key: &Option<Pubkey>) -> (value: Option<DataValue>)
    ensures
        option_view(value) == optional_pubkey_view(*key),
{
    match key {
        Some(k) => Some(DataValue::Pubkey(*k)),
        None => None,
    }
}

/// An optional number as a value to compare.
pub fn optional_u64(n: &Option<u64>) -> (value: Option<DataValue>)
    ensures
        option_view(value) == optional_u64_view(*n),
{
    match n {
        Some(n) => Some(DataValue::U64(*n)),
        None => None,
    }
}

impl TokenAccountDataField {
    /// Where the field starts and where it ends in the buffer of a token
    /// account. An optional field takes four bytes more than its value.
    pub open spec fn spec_range(self) -> (nat, nat) {
        match self {
            TokenAccountDataField::Mint(_) => (0, 32),
            TokenAccountDataField::Owner(_) => (32, 64),
            TokenAccountDataField::Amount(_) => (64, 72),
            TokenAccountDataField::Delegate(_) => (72, 108),
            TokenAccountDataField::State(_) => (108, 109),
            TokenAccountDataField::IsNative(_) => (109, 121),
            TokenAccountDataField::DelegatedAmount(_) => (121, 129),
            TokenAccountDataField::CloseAuthority(_) => (129, 165),
        }
    }

    pub fn range(&self) -> (r: (usize, usize))
        ensures
            r.0 == self.spec_range().0,
            r.1 == self.spec_range().1,
            r.0 < r.1 <= TOKEN_ACCOUNT_LEN,
    {
        match self {
            TokenAccountDataField::Mint(_) => (0, 32),
            TokenAccountDataField::Owner(_) => (32, 64),
            TokenAccountDataField::Amount(_) => (64, 72),
            TokenAccountDataField::Delegate(_) => (72, 108),
            TokenAccountDataField::State(_) => (108, 109),
            TokenAccountDataField::IsNative(_) => (109, 121),
            TokenAccountDataField::DelegatedAmount(_) => (121, 129),
            TokenAccountDataField::CloseAuthority(_) => (129, 165),
        }
    }

    /// What evaluating the assertion comes to: a lock fault where the buffer
    /// could not be acquired; else what comes of reading the field at its
    /// place and comparing it with the value expected, as a plain value or
    /// as an optional one.
    pub open spec fn evaluate_spec(
        self,
        account: TargetAccount,
        operator: Operator,
        include_output: bool,
    ) -> Result<EvaluationResultView, EngineError> {
        let start = self.spec_range().0 as int;
        match account.buffer() {
            None => Err(EngineError::LockFailure),
            Some(buffer) => match self {
                TokenAccountDataField::Mint(k) => evaluate_at_spec(
                    DataValueView::Pubkey(k@),
                    buffer,
                    start,
                    operator,
                    include_output,
                ),
                TokenAccountDataField::Owner(k) => evaluate_at_spec(
                    DataValueView::Pubkey(k@),
                    buffer,
                    start,
                    operator,
                    include_output,
                ),
                TokenAccountDataField::Amount(n) => evaluate_at_spec(
                    DataValueView::U64(n),
                    buffer,
                    start,
                    operator,
                    include_output,
                ),
                TokenAccountDataField::Delegate(k) => evaluate_optional_at_spec(
                    optional_pubkey_view(k),
                    DataKind::Pubkey,
                    buffer,
                    start,
                    operator,
                    include_output,
                ),
                TokenAccountDataField::State(s) => evaluate_at_spec(
                    DataValueView::U8(s),
                    buffer,
                    start,
                    operator,
                    include_output,
                ),
                TokenAccountDataField::IsNative(n) => evaluate_optional_at_spec(
                    optional_u64_view(n),
                    DataKind::U64,
                    buffer,
                    start,
                    operator,
                    include_output,
                ),
                TokenAccountDataField::DelegatedAmount(n) => evaluate_at_spec(
                    DataValueView::U64(n),
                    buffer,
                    start,
                    operator,
                    include_output,
                ),
                TokenAccountDataField::CloseAuthority(k) => evaluate_optional_at_spec(
                    optional_pubkey_view(k),
                    DataKind::Pubkey,
                    buffer,
                    start,
                    operator,
                    include_output,
                ),
            },
        }
    }

    /// The field as it stands in diagnostics: its name and, in round
    /// brackets, the value expected.
    pub open spec fn text(self) -> Seq<char> {
        match self {
            TokenAccountDataField::Mint(k) => "Mint("@ + base58_text(k@) + ")"@,
            TokenAccountDataField::Owner(k) => "Owner("@ + base58_text(k@) + ")"@,
            TokenAccountDataField::Amount(n) => "Amount("@ + decimal_text(n as nat) + ")"@,
            TokenAccountDataField::Delegate(k) => "Delegate("@ + optional_base58_text(k) + ")"@,
            TokenAccountDataField::State(s) => "State("@ + decimal_text(s as nat) + ")"@,
            TokenAccountDataField::IsNative(n) => "IsNative("@ + optional_decimal_text(
                match n {
                    Some(n) => Some(n as nat),
                    None => None,
                },
            ) + ")"@,
            TokenAccountDataField::DelegatedAmount(n) => "DelegatedAmount("@ + decimal_text(
                n as nat,
            ) + ")"@,
            TokenAccountDataField::CloseAuthority(k) => "CloseAuthority("@ + optional_base58_text(
                k,
            ) + ")"@,
        }
    }

    /// Reads the field at its place in the account's buffer and compares it
    /// with the value expected.
    pub fn evaluate(&self, account: &TargetAccount, operator: &Operator, include_output: bool) -> (r:
        Result<EvaluationResult, EngineError>)
        ensures
            result_view(r) == self.evaluate_spec(*account, *operator, include_output),
    {
        let data: &[u8] = match account.data {
            None => {
                return Err(EngineError::LockFailure);
            },
            Some(d) => d,
        };
        let start = self.range().0;
        match self {
            TokenAccountDataField::Mint(k) => DataValue::Pubkey(*k).evaluate_from_data_slice(
                data,
                start,
                operator,
                include_output,
            ),
            TokenAccountDataField::Owner(k) => DataValue::Pubkey(*k).evaluate_from_data_slice(
                data,
                start,
                operator,
                include_output,
            ),
            TokenAccountDataField::Amount(n) => DataValue::U64(*n).evaluate_from_data_slice(
                data,
                start,
                operator,
                include_output,
            ),
            TokenAccountDataField::Delegate(k) => evaluate_optional_at(
                &optional_pubkey(k),
                DataKind::Pubkey,
                data,
                start,
                operator,
                include_output,
            ),
            TokenAccountDataField::State(s) => DataValue::U8(*s).evaluate_from_data_slice(
                data,
                start,
                operator,
                include_output,
            ),
            TokenAccountDataField::IsNative(n) => evaluate_optional_at(
                &optional_u64(n),
                DataKind::U64,
                data,
                start,
                operator,
                include_output,
            ),
            TokenAccountDataField::DelegatedAmount(n) => DataValue::U64(
                *n,
            ).evaluate_from_data_slice(data, start, operator, include_output),
            TokenAccountDataField::CloseAuthority(k) => evaluate_optional_at(
                &optional_pubkey(k),
                DataKind::Pubkey,
                data,
                start,
                operator,
                include_output,
            ),
        }
    }

    /// Appends the field's text to `out`.
    pub fn push_text(&self, out: &mut String)
        ensures
            final(out)@ == old(out)@ + self.text(),
    {
        match self {
            TokenAccountDataField::Mint(k) => {
                out.append("Mint(");
                push_pubkey(out, k);
            },
            TokenAccountDataField::Owner(k) => {
                out.append("Owner(");
                push_pubkey(out, k);
            },
            TokenAccountDataField::Amount(n) => {
                out.append("Amount(");
                push_decimal(out, *n as u128);
            },
            TokenAccountDataField::Delegate(k) => {
                out.append("Delegate(");
                push_optional_pubkey(out, k);
            },
            TokenAccountDataField::State(s) => {
                out.append("State(");
                push_decimal(out, *s as u128);
            },
            TokenAccountDataField::IsNative(n) => {
                out.append("IsNative(");
                push_optional_decimal(out, *n);
            },
            TokenAccountDataField::DelegatedAmount(n) => {
                out.append("DelegatedAmount(");
                push_decimal(out, *n as u128);
            },
            TokenAccountDataField::CloseAuthority(k) => {
                out.append("CloseAuthority(");
                push_optional_pubkey(out, k);
            },
        }
        out.append(")");
    }
}

} // verus!
