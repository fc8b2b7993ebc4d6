use vstd::prelude::*;

verus! {

/// A decoded instruction: a tagged union, decoded once per invocation and
/// discarded after dispatch. Text fields are raw bytes; their maximum
/// lengths are enforced by the dispatcher, not by the codec.
#[derive(Debug, Clone, PartialEq, Eq)]
pub enum GreetingInstruction {
    /// Create a new greeting record at its derived address.
    ///
    /// Accounts expected, in order:
    /// 0. payer (signer, writable): funds the new record and becomes its
    ///    authority; its key seeds the derived address.
    /// 1. record slot (writable): must sit exactly at the derived address
    ///    and be empty.
    /// 2. the system allocator collaborator.
    CreateGreeting { name: Vec<u8>, message: Vec<u8> },
    /// Replace the message of an existing greeting record.
    ///
    /// Accounts expected, in order:
    /// 0. authority (signer): must equal the record's stored authority.
    /// 1. record slot (writable): must already hold a record.
    SetGreeting { message: Vec<u8> },
}

/// The mathematical model of an instruction.
pub ghost enum InstructionModel {
    CreateGreeting { name: Seq<u8>, message: Seq<u8> },
    SetGreeting { message: Seq<u8> },
}

impl View for GreetingInstruction {
    type V = InstructionModel;

    open spec fn view(&self) -> InstructionModel {
        match self {
            GreetingInstruction::CreateGreeting { name, message } => {
                InstructionModel::CreateGreeting { name: name@, message: message@ }
            },
            GreetingInstruction::SetGreeting { message } => {
                InstructionModel::SetGreeting { message: message@ }
            },
        }
    }
}

/// An instruction whose field lengths fit the 32-bit length prefixes of the
/// wire encoding.
pub open spec fn wf_instruction(i: InstructionModel) -> bool {
    match i {
        InstructionModel::CreateGreeting { name, message } => {
            name.len() < 0x1_0000_0000 && message.len() < 0x1_0000_0000
        },
        InstructionModel::SetGreeting { message } => message.len() < 0x1_0000_0000,
    }
}

} // verus!
