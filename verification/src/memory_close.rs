//! The instruction that closes a memory account, as a client builds it.

use vstd::prelude::*;
use crate::solana::Pubkey;

verus! {

/// The address of the Lighthouse program:
/// `L2TExMFKdjpN9kozasaurPirfHy9P8sbXoAN1qA3S95`.
pub const LIGHTHOUSE_ID: Pubkey = [
    4, 223, 173, 121, 98, 255, 177, 221, 146, 93, 10, 159, 181, 230, 208, 12, 230, 25, 91, 168,
    187, 58, 145, 253, 7, 239, 152, 96, 197, 233, 123, 184,
];

/// An account that an instruction names, and what the instruction may do
/// with it.
#[derive(Clone, Copy, Debug, PartialEq, Eq)]
pub struct AccountMeta {
    pub pubkey: Pubkey,
    pub is_signer: bool,
    pub is_writable: bool,
}

impl AccountMeta {
    /// An account that the instruction may write to.
    pub fn new(pubkey: Pubkey, is_signer: bool) -> (meta: AccountMeta)
        ensures
            meta == (AccountMeta { pubkey, is_signer, is_writable: true }),
    {
        AccountMeta { pubkey, is_signer, is_writable: true }
    }

    /// An account that the instruction only reads.
    pub fn new_readonly(pubkey: Pubkey, is_signer: bool) -> (meta: AccountMeta)
        ensures
            meta == (AccountMeta { pubkey, is_signer, is_writable: false }),
    {
        AccountMeta { pubkey, is_signer, is_writable: false }
    }
}

/// An instruction: the program to run, the accounts it names, and its data.
#[derive(Clone, Debug, PartialEq, Eq)]
pub struct Instruction {
    pub program_id: Pubkey,
    pub accounts: Vec<AccountMeta>,
    pub data: Vec<u8>,
}

/// The accounts of the instruction.
#[derive(Clone, Copy, Debug, PartialEq, Eq)]
pub struct MemoryClose {
    /// Lighthouse program
    pub program_id: Pubkey,
    /// Payer account
    pub payer: Pubkey,
    /// Memory account
    pub memory: Pubkey,
}

/// What stands first in the instruction's data and tells which instruction
/// it is.
#[derive(Clone, Copy, Debug, PartialEq, Eq)]
pub struct MemoryCloseInstructionData {
    pub discriminator: u8,
}

/// The arguments of the instruction.
#[derive(Clone, Copy, Debug, PartialEq, Eq)]
pub struct MemoryCloseInstructionArgs {
    pub memory_id: u8,
    pub memory_bump: u8,
}

impl MemoryCloseInstructionData {
    pub fn new() -> (data: MemoryCloseInstructionData)
        ensures
            data.discriminator == 1,
    {
        MemoryCloseInstructionData { discriminator: 1 }
    }

    pub open spec fn encoding(self) -> Seq<u8> {
        seq![self.discriminator]
    }

    /// Appends the discriminator.
    pub fn serialize(&self, out: &mut Vec<u8>)
        ensures
            final(out)@ == old(out)@ + self.encoding(),
    {
        out.push(self.discriminator);
    }
}

impl MemoryCloseInstructionArgs {
    pub open spec fn encoding(self) -> Seq<u8> {
        seq![self.memory_id, self.memory_bump]
    }

    /// Appends the two arguments.
    pub fn serialize(&self, out: &mut Vec<u8>)
        ensures
            final(out)@ == old(out)@ + self.encoding(),
    {
        out.push(self.memory_id);
        out.push(self.memory_bump);
        assert(out@ =~= old(out)@ + self.encoding());
    }

    /// The arguments that the two bytes at `pos` of `s` hold, and where they
    /// end.
    pub open spec fn parse(s: Seq<u8>, pos: int) -> Option<(MemoryCloseInstructionArgs, int)> {
        if 0 <= pos && pos + 2 <= s.len() {
            Some((MemoryCloseInstructionArgs { memory_id: s[pos], memory_bump: s[pos + 1] }, pos + 2))
        } else {
            None
        }
    }

    /// Reads the arguments at `pos`; `None` exactly where fewer than two
    /// bytes stand there.
    pub fn deserialize(bytes: &[u8], pos: usize) -> (r: Option<
        (MemoryCloseInstructionArgs, usize),
    >)
        ensures
            match r {
                Some((v, end)) => MemoryCloseInstructionArgs::parse(bytes@, pos as int) == Some(
                    (v, end as int),
                ),
                None => MemoryCloseInstructionArgs::parse(bytes@, pos as int) is None,
            },
    {
        if pos > bytes.len() || bytes.len() - pos < 2 {
            return None;
        }
        Some(
            (
                MemoryCloseInstructionArgs { memory_id: bytes[pos], memory_bump: bytes[pos + 1] },
                pos + 2,
            ),
        )
    }

    /// Reading back what `encoding` wrote gives the arguments written.
    pub proof fn lemma_round_trip(self, s: Seq<u8>, pos: int)
        requires
            0 <= pos,
            pos + 2 <= s.len(),
            s.subrange(pos, pos + 2) == self.encoding(),
        ensures
            MemoryCloseInstructionArgs::parse(s, pos) == Some((self, pos + 2)),
    {
        let t = s.subrange(pos, pos + 2);
        assert(t[0] == s[pos] && t[1] == s[pos + 1]);
    }
}

/// The accounts that the instruction names before any further ones: the
/// program, read only; the payer, who signs and is written to; the memory
/// account, which is written to.
pub open spec fn memory_close_accounts(accounts: MemoryClose) -> Seq<AccountMeta> {
    seq![
        AccountMeta { pubkey: accounts.program_id, is_signer: false, is_writable: false },
        AccountMeta { pubkey: accounts.payer, is_signer: true, is_writable: true },
        AccountMeta { pubkey: accounts.memory, is_signer: false, is_writable: true },
    ]
}

/// The data of the instruction: the discriminator 1, then the arguments.
pub open spec fn memory_close_data(args: MemoryCloseInstructionArgs) -> Seq<u8> {
    seq![1u8, args.memory_id, args.memory_bump]
}

impl MemoryClose {
    /// The instruction with no further accounts.
    pub fn instruction(&self, args: MemoryCloseInstructionArgs) -> (ix: Instruction)
        ensures
            ix.program_id == LIGHTHOUSE_ID,
            ix.accounts@ == memory_close_accounts(*self),
            ix.data@ == memory_close_data(args),
    {
        let none: [AccountMeta; 0] = [];
        self.instruction_with_remaining_accounts(args, none.as_slice())
    }

    /// The instruction for the Lighthouse program: the three accounts, then
    /// the further ones in order; the discriminator, then the arguments.
    pub fn instruction_with_remaining_accounts(
        &self,
        args: MemoryCloseInstructionArgs,
        remaining_accounts: &[AccountMeta],
    ) -> (ix: Instruction)
        ensures
            ix.program_id == LIGHTHOUSE_ID,
            ix.accounts@ == memory_close_accounts(*self) + remaining_accounts@,
            ix.data@ == memory_close_data(args),
    {
        let mut accounts: Vec<AccountMeta> = Vec::new();
        accounts.push(AccountMeta::new_readonly(self.program_id, false));
        accounts.push(AccountMeta::new(self.payer, true));
        accounts.push(AccountMeta::new(self.memory, false));
        let mut i: usize = 0;
        while i < remaining_accounts.len()
            invariant
                i <= remaining_accounts.len(),
                accounts@ == memory_close_accounts(*self) + remaining_accounts@.subrange(
                    0,
                    i as int,
                ),
            decreases remaining_accounts.len() - i,
        {
            accounts.push(remaining_accounts[i]);
            i = i + 1;
        }
        assert(remaining_accounts@.subrange(0, i as int) == remaining_accounts@);
        let mut data: Vec<u8> = Vec::new();
        MemoryCloseInstructionData::new().serialize(&mut data);
        args.serialize(&mut data);
        assert(data@ =~= memory_close_data(args));
        Instruction { program_id: LIGHTHOUSE_ID, accounts, data }
    }
}

/// Instruction builder for `MemoryClose`.
///
/// ### Accounts:
///
///   0. `[]` program_id
///   1. `[writable, signer]` payer
///   2. `[writable]` memory
#[derive(Clone, Debug)]
pub struct MemoryCloseBuilder {
    program_id: Option<Pubkey>,
    payer: Option<Pubkey>,
    memory: Option<Pubkey>,
    memory_id: Option<u8>,
    memory_bump: Option<u8>,
    remaining_accounts: Vec<AccountMeta>,
}

/// What a builder has been told so far.
pub struct MemoryCloseBuilderView {
    pub program_id: Option<Pubkey>,
    pub payer: Option<Pubkey>,
    pub memory: Option<Pubkey>,
    pub memory_id: Option<u8>,
    pub memory_bump: Option<u8>,
    pub remaining_accounts: Seq<AccountMeta>,
}

impl View for MemoryCloseBuilder {
    type V = MemoryCloseBuilderView;

    closed spec fn view(&self) -> MemoryCloseBuilderView {
        MemoryCloseBuilderView {
            program_id: self.program_id,
            payer: self.payer,
            memory: self.memory,
            memory_id: self.memory_id,
            memory_bump: self.memory_bump,
            remaining_accounts: self.remaining_accounts@,
        }
    }
}

impl MemoryCloseBuilderView {
    /// Whether the three accounts and the two arguments have been set.
    pub open spec fn is_complete(self) -> bool {
        self.program_id is Some && self.payer is Some && self.memory is Some && self.memory_id
            is Some && self.memory_bump is Some
    }
}

impl MemoryCloseBuilder {
    /// A builder that has been told nothing.
    pub fn new() -> (builder: MemoryCloseBuilder)
        ensures
            builder@ == (MemoryCloseBuilderView {
                program_id: None,
                payer: None,
                memory: None,
                memory_id: None,
                memory_bump: None,
                remaining_accounts: Seq::empty(),
            }),
    {
        MemoryCloseBuilder {
            program_id: None,
            payer: None,
            memory: None,
            memory_id: None,
            memory_bump: None,
            remaining_accounts: Vec::new(),
        }
    }

    /// Lighthouse program
    pub fn program_id(&mut self, program_id: Pubkey) -> (builder: &mut Self)
        ensures
            builder@ == (MemoryCloseBuilderView { program_id: Some(program_id), ..old(self)@ }),
            *final(self) == *final(builder),
    {
        self.program_id = Some(program_id);
        self
    }

    /// Payer account
    pub fn payer(&mut self, payer: Pubkey) -> (builder: &mut Self)
        ensures
            builder@ == (MemoryCloseBuilderView { payer: Some(payer), ..old(self)@ }),
            *final(self) == *final(builder),
    {
        self.payer = Some(payer);
        self
    }

    /// Memory account
    pub fn memory(&mut self, memory: Pubkey) -> (builder: &mut Self)
        ensures
            builder@ == (MemoryCloseBuilderView { memory: Some(memory), ..old(self)@ }),
            *final(self) == *final(builder),
    {
        self.memory = Some(memory);
        self
    }

    pub fn memory_id(&mut self, memory_id: u8) -> (builder: &mut Self)
        ensures
            builder@ == (MemoryCloseBuilderView { memory_id: Some(memory_id), ..old(self)@ }),
            *final(self) == *final(builder),
    {
        self.memory_id = Some(memory_id);
        self
    }

    pub fn memory_bump(&mut self, memory_bump: u8) -> (builder: &mut Self)
        ensures
            builder@ == (MemoryCloseBuilderView {
                memory_bump: Some(memory_bump),
                ..old(self)@
            }),
            *final(self) == *final(builder),
    {
        self.memory_bump = Some(memory_bump);
        self
    }

    /// Add an additional account to the instruction.
    pub fn add_remaining_account(&mut self, account: AccountMeta) -> (builder: &mut Self)
        ensures
            builder@ == (MemoryCloseBuilderView {
                remaining_accounts: old(self)@.remaining_accounts.push(account),
                ..old(self)@
            }),
            *final(self) == *final(builder),
    {
        self.remaining_accounts.push(account);
        self
    }

    /// Add additional accounts to the instruction.
    pub fn add_remaining_accounts(&mut self, accounts: &[AccountMeta]) -> (builder: &mut Self)
        ensures
            builder@ == (MemoryCloseBuilderView {
                remaining_accounts: old(self)@.remaining_accounts + accounts@,
                ..old(self)@
            }),
            *final(self) == *final(builder),
    {
        let mut i: usize = 0;
        while i < accounts.len()
            invariant
                i <= accounts.len(),
                self@ == (MemoryCloseBuilderView {
                    remaining_accounts: old(self)@.remaining_accounts + accounts@.subrange(
                        0,
                        i as int,
                    ),
                    ..old(self)@
                }),
            decreases accounts.len() - i,
        {
            self.remaining_accounts.push(accounts[i]);
            assert(old(self)@.remaining_accounts + accounts@.subrange(0, i + 1) =~= (old(
                self,
            )@.remaining_accounts + accounts@.subrange(0, i as int)).push(accounts@[i as int]));
            i = i + 1;
        }
        assert(accounts@.subrange(0, i as int) == accounts@);
        self
    }

    /// The instruction that the builder was told of. The three accounts and
    /// the two arguments must have been set.
    pub fn instruction(&self) -> (ix: Instruction)
        requires
            self@.is_complete(),
        ensures
            ix.program_id == LIGHTHOUSE_ID,
            ix.accounts@ == memory_close_accounts(
                MemoryClose {
                    program_id: self@.program_id->Some_0,
                    payer: self@.payer->Some_0,
                    memory: self@.memory->Some_0,
                },
            ) + self@.remaining_accounts,
            ix.data@ == memory_close_data(
                MemoryCloseInstructionArgs {
                    memory_id: self@.memory_id->Some_0,
                    memory_bump: self@.memory_bump->Some_0,
                },
            ),
    {
        let accounts = MemoryClose {
            program_id: self.program_id.unwrap(),
            payer: self.payer.unwrap(),
            memory: self.memory.unwrap(),
        };
        let args = MemoryCloseInstructionArgs {
            memory_id: self.memory_id.unwrap(),
            memory_bump: self.memory_bump.unwrap(),
        };
        accounts.instruction_with_remaining_accounts(args, self.remaining_accounts.as_slice())
    }

    /// Whether the three accounts and the two arguments have been set.
    pub fn is_complete(&self) -> (b: bool)
        ensures
            b == self@.is_complete(),
    {
        self.program_id.is_some() && self.payer.is_some() && self.memory.is_some()
            && self.memory_id.is_some() && self.memory_bump.is_some()
    }
}

} // verus!
