//! The account an assertion is held against, and the assertions on what is
//! known of it beside its buffer.

use vstd::prelude::*;
use vstd::string::*;
use crate::error::EngineError;
use crate::operator::{EvaluationResult, EvaluationResultView, Operator};
use crate::solana::{base58_text, push_pubkey, Pubkey};
use crate::text::{bool_text, decimal_text, push_bool, push_decimal};
use crate::value::{compare_spec, result_view, DataValue, DataValueView};

verus! {

/// An account as the engine sees it: its metadata and, where it could be
/// acquired for reading, its buffer. The engine only reads it.
#[derive(Clone, Copy, Debug)]
pub struct TargetAccount<'a> {
    pub key: Pubkey,
    pub owner: Pubkey,
    pub lamports: u64,
    /// The buffer, or `None` where it could not be acquired.
    pub data: Option<&'a [u8]>,
    pub executable: bool,
    pub is_signer: bool,
    pub is_writable: bool,
    pub rent_epoch: u64,
}

impl<'a> TargetAccount<'a> {
    /// The bytes of the buffer, where it was acquired.
    pub open spec fn buffer(self) -> Option<Seq<u8>> {
        match self.data {
            Some(d) => Some(d@),
            None => None,
        }
    }
}

/// One attribute of an account beside its buffer, with the value expected of
/// it.
#[derive(Clone, Copy, Debug, PartialEq, Eq)]
pub enum AccountInfoDataField {
    Key(Pubkey),
    Owner(Pubkey),
    Lamports(u64),
    DataLength(u64),
    Executable(bool),
    IsSigner(bool),
    IsWritable(bool),
    RentEpoch(u64),
}

impl AccountInfoDataField {
    /// The value the assertion expects.
    pub open spec fn expected_spec(self) -> DataValueView {
        match self {
            AccountInfoDataField::Key(k) => DataValueView::Pubkey(k@),
            AccountInfoDataField::Owner(k) => DataValueView::Pubkey(k@),
            AccountInfoDataField::Lamports(n) => DataValueView::U64(n),
            AccountInfoDataField::DataLength(n) => DataValueView::U64(n),
            AccountInfoDataField::Executable(b) => DataValueView::Bool(b),
            AccountInfoDataField::IsSigner(b) => DataValueView::Bool(b),
            AccountInfoDataField::IsWritable(b) => DataValueView::Bool(b),
            AccountInfoDataField::RentEpoch(n) => DataValueView::U64(n),
        }
    }

    /// The value the account has for the attribute. Only the buffer's length
    /// needs the buffer: where it could not be acquired, that is a lock
    /// fault.
    pub open spec fn actual_spec(self, account: TargetAccount) -> Result<
        DataValueView,
        EngineError,
    > {
        match self {
            AccountInfoDataField::Key(_) => Ok(DataValueView::Pubkey(account.key@)),
            AccountInfoDataField::Owner(_) => Ok(DataValueView::Pubkey(account.owner@)),
            AccountInfoDataField::Lamports(_) => Ok(DataValueView::U64(account.lamports)),
            AccountInfoDataField::DataLength(_) => match account.buffer() {
                Some(b) => Ok(DataValueView::U64(b.len() as u64)),
                None => Err(EngineError::LockFailure),
            },
            AccountInfoDataField::Executable(_) => Ok(DataValueView::Bool(account.executable)),
            AccountInfoDataField::IsSigner(_) => Ok(DataValueView::Bool(account.is_signer)),
            AccountInfoDataField::IsWritable(_) => Ok(DataValueView::Bool(account.is_writable)),
            AccountInfoDataField::RentEpoch(_) => Ok(DataValueView::U64(account.rent_epoch)),
        }
    }

    /// What evaluating the assertion comes to: the fault of reading the
    /// attribute if there is one, else a type fault if the operator is not
    /// defined for the attribute's kind, else the comparison of the
    /// attribute with the value expected.
    pub open spec fn evaluate_spec(
        self,
        account: TargetAccount,
        operator: Operator,
        include_output: bool,
    ) -> Result<EvaluationResultView, EngineError> {
        match self.actual_spec(account) {
            Err(e) => Err(e),
            Ok(actual) => if operator.spec_supports(actual.kind()) {
                Ok(compare_spec(actual, self.expected_spec(), operator, include_output))
            } else {
                Err(EngineError::TypeMismatch)
            },
        }
    }

    /// The field as it stands in diagnostics: the attribute's name and, in
    /// round brackets, the value expected.
    pub open spec fn text(self) -> Seq<char> {
        match self {
            AccountInfoDataField::Key(k) => "Key("@ + base58_text(k@) + ")"@,
            AccountInfoDataField::Owner(k) => "Owner("@ + base58_text(k@) + ")"@,
            AccountInfoDataField::Lamports(n) => "Lamports("@ + decimal_text(n as nat) + ")"@,
            AccountInfoDataField::DataLength(n) => "DataLength("@ + decimal_text(n as nat) + ")"@,
            AccountInfoDataField::Executable(b) => "Executable("@ + bool_text(b) + ")"@,
            AccountInfoDataField::IsSigner(b) => "IsSigner("@ + bool_text(b) + ")"@,
            AccountInfoDataField::IsWritable(b) => "IsWritable("@ + bool_text(b) + ")"@,
            AccountInfoDataField::RentEpoch(n) => "RentEpoch("@ + decimal_text(n as nat) + ")"@,
        }
    }

    /// The value the assertion expects.
    pub fn expected(&self) -> (value: DataValue)
        ensures
            value@ == self.expected_spec(),
    {
        match self {
            AccountInfoDataField::Key(k) => DataValue::Pubkey(*k),
            AccountInfoDataField::Owner(k) => DataValue::Pubkey(*k),
            AccountInfoDataField::Lamports(n) => DataValue::U64(*n),
            AccountInfoDataField::DataLength(n) => DataValue::U64(*n),
            AccountInfoDataField::Executable(b) => DataValue::Bool(*b),
            AccountInfoDataField::IsSigner(b) => DataValue::Bool(*b),
            AccountInfoDataField::IsWritable(b) => DataValue::Bool(*b),
            AccountInfoDataField::RentEpoch(n) => DataValue::U64(*n),
        }
    }

    /// The value the account has for the attribute.
    pub fn actual(&self, account: &TargetAccount) -> (r: Result<DataValue, EngineError>)
        ensures
            match r {
                Ok(v) => self.actual_spec(*account) == Ok::<DataValueView, EngineError>(v@),
                Err(e) => self.actual_spec(*account) == Err::<DataValueView, EngineError>(e),
            },
    {
        match self {
            AccountInfoDataField::Key(_) => Ok(DataValue::Pubkey(account.key)),
            AccountInfoDataField::Owner(_) => Ok(DataValue::Pubkey(account.owner)),
            AccountInfoDataField::Lamports(_) => Ok(DataValue::U64(account.lamports)),
            AccountInfoDataField::DataLength(_) => match account.data {
                Some(d) => Ok(DataValue::U64(d.len() as u64)),
                None => Err(EngineError::LockFailure),
            },
            AccountInfoDataField::Executable(_) => Ok(DataValue::Bool(account.executable)),
            AccountInfoDataField::IsSigner(_) => Ok(DataValue::Bool(account.is_signer)),
            AccountInfoDataField::IsWritable(_) => Ok(DataValue::Bool(account.is_writable)),
            AccountInfoDataField::RentEpoch(_) => Ok(DataValue::U64(account.rent_epoch)),
        }
    }

    /// Compares the account's attribute with the value expected.
    pub fn evaluate(&self, account: &TargetAccount, operator: &Operator, include_output: bool) -> (r:
        Result<EvaluationResult, EngineError>)
        ensures
            result_view(r) == self.evaluate_spec(*account, *operator, include_output),
    {
        match self.actual(account) {
            Err(e) => Err(e),
            Ok(actual) => {
                let expected = self.expected();
                operator.evaluate(&actual, &expected, include_output)
            },
        }
    }

    /// Appends the field's text to `out`.
    pub fn push_text(&self, out: &mut String)
        ensures
            final(out)@ == old(out)@ + self.text(),
    {
        match self {
            AccountInfoDataField::Key(k) => {
                out.append("Key(");
                push_pubkey(out, k);
            },
            AccountInfoDataField::Owner(k) => {
                out.append("Owner(");
                push_pubkey(out, k);
            },
            AccountInfoDataField::Lamports(n) => {
                out.append("Lamports(");
                push_decimal(out, *n as u128);
            },
            AccountInfoDataField::DataLength(n) => {
                out.append("DataLength(");
                push_decimal(out, *n as u128);
            },
            AccountInfoDataField::Executable(b) => {
                out.append("Executable(");
                push_bool(out, *b);
            },
            AccountInfoDataField::IsSigner(b) => {
                out.append("IsSigner(");
                push_bool(out, *b);
            },
            AccountInfoDataField::IsWritable(b) => {
                out.append("IsWritable(");
                push_bool(out, *b);
            },
            AccountInfoDataField::RentEpoch(n) => {
                out.append("RentEpoch(");
                push_decimal(out, *n as u128);
            },
        }
        out.append(")");
    }
}

} // verus!
