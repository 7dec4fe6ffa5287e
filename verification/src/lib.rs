//! State-assertion engine: decides whether a list of declarative assertions
//! holds of an account (a byte buffer plus metadata), stopping at the first
//! one that does not, and optionally tracing every comparison performed.

pub mod account;
pub mod assertion;
pub mod bytes;
pub mod compact;
pub mod encoding;
pub mod error;
pub mod memory_close;
pub mod mint_account;
pub mod operator;
pub mod optional;
pub mod processor;
pub mod solana;
pub mod text;
pub mod token_account;
pub mod value;
pub mod wire;

pub use account::{AccountInfoDataField, TargetAccount};
pub use assertion::Assertion;
pub use compact::{CompactAssertionArray, EvaluationOutcome};
pub use error::EngineError;
pub use memory_close::{
    AccountMeta, Instruction, MemoryClose, MemoryCloseBuilder, MemoryCloseInstructionArgs,
    MemoryCloseInstructionData, LIGHTHOUSE_ID,
};
pub use mint_account::{Bool, Evaluator, MintAccountAssertion, OptionalPubkey, U64, U8};
pub use operator::{EquatableOperator, EvaluationResult, IntegerOperator, Operator};
pub use processor::{assert_with_account, Assert, AssertReport, AssertionConfigV1};
pub use solana::Pubkey;
pub use token_account::TokenAccountDataField;
pub use value::{DataKind, DataValue};
