use anchor_lang::prelude::Pubkey;
use anchor_lang::solana_program::instruction::Instruction;
use anchor_lang::solana_program::system_instruction;
use vstd::prelude::*;

verus! {

/// `Instruction` of `solana_program`: an instruction to a program of the
/// ledger, as the host submits it. Declared so that a transfer can be handed
/// over as one; the engine never looks inside it.
#[verifier::external_type_specification]
#[verifier::external_body]
pub struct ExInstruction(Instruction);

/// A movement of stake that the host has to carry out for an accepted vote.
#[derive(Clone, Copy, Debug, PartialEq, Eq)]
pub struct Transfer {
    /// Who pays: the voter.
    pub from: Pubkey,
    /// Who receives.
    pub to: Pubkey,
    /// How much moves.
    pub amount: u64,
}

/// What `system_instruction::transfer` returns for a payer, a receiver and an
/// amount: the system program's instruction that moves the amount.
pub uninterp spec fn transfer_instruction(from: Pubkey, to: Pubkey, lamports: u64) -> Instruction;

/// Calls `system_instruction::transfer`. Trusted: the instruction is built
/// from the two addresses and the amount and from nothing else, with the
/// payer as a writable signer and the receiver as writable; the contract
/// says only that it is a function of the three.
#[verifier::external_body]
fn system_transfer(from: &Pubkey, to: &Pubkey, lamports: u64) -> (ix: Instruction)
    ensures
        ix == transfer_instruction(*from, *to, lamports),
{
    system_instruction::transfer(from, to, lamports)
}

impl Transfer {
    /// The instruction that carries this transfer out, for the host to invoke
    /// with the payer's authority.
    pub fn instruction(&self) -> (ix: Instruction)
        ensures
            ix == transfer_instruction(self.from, self.to, self.amount),
    {
        system_transfer(&self.from, &self.to, self.amount)
    }
}

} // verus!
