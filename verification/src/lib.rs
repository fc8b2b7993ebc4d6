//! A minimal on-ledger greeting program: it decodes opaque instruction
//! bytes, validates the supplied accounts and their authorization, and
//! produces the single write that creates or updates a small persisted
//! greeting record bound to a deterministically derived address.

use vstd::prelude::*;

pub mod address;
pub mod codec;
pub mod error;
pub mod instruction;
pub mod processor;
pub mod state;

pub use error::{DecodeError, GreetingError};
pub use instruction::GreetingInstruction;
pub use processor::{process_instruction, Account, Effect};
pub use state::GreetingAccountState;

verus! {

/// The view of a `Result` whose success value has a mathematical model:
/// the same outcome, with the success value replaced by its model.
pub open spec fn result_view<T: View, E>(r: Result<T, E>) -> Result<T::V, E> {
    match r {
        Ok(t) => Ok(t@),
        Err(e) => Err(e),
    }
}

} // verus!
