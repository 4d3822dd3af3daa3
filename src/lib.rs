//! An on-chain ledger of investment fund pools: the fixed binary layouts of
//! its account records, the decoding of its instructions, and the checks and
//! state changes each instruction makes.
use vstd::prelude::*;

pub mod codec;
pub mod counter;
pub mod error;
pub mod instruction;
pub mod investor;
pub mod key;
pub mod pool;
pub mod processor;
pub mod registry;

pub use codec::{pack_bool, unpack_bool};
pub use counter::Counter;
pub use error::{PoolError, ProcessError};
pub use instruction::PoolInstruction;
pub use investor::Investor;
pub use key::Key;
pub use pool::{FundPool, FundPoolInvestor};
pub use processor::{process_instruction, Account, Action, UpdateOutcome};
pub use registry::{Market, UserPool};

verus! {

} // verus!
