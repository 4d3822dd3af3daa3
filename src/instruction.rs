//! Decoding of instruction bytes: a module byte, an action byte, then a
//! fixed-width argument block.
use vstd::prelude::*;
use crate::codec::{bool_at, bool_valid, key_at, read_bool, read_key, read_u16, read_u64, u16_at, u64_at};
use crate::error::PoolError;
use crate::key::Key;

verus! {

pub const MODULE_FUND_POOL: u8 = 1;

pub const MODULE_INVESTOR: u8 = 2;

pub const MODULE_MARKET: u8 = 3;

pub const ACTION_CREATE: u8 = 1;

pub const ACTION_UPDATE: u8 = 2;

pub const ACTION_REGISTER: u8 = 3;

pub const ACTION_DELETE: u8 = 44;

/// Argument bytes of a fund-pool create or update.
pub const FUND_POOL_ARGS_LEN: usize = 123;

/// Argument bytes of an investment.
pub const INVESTOR_ARGS_LEN: usize = 144;

/// A decoded instruction. The date of an investment is not on the wire: the
/// host clock supplies it when the instruction is processed.
#[derive(Clone, Copy, Debug)]
pub enum PoolInstruction {
    CreateFundPool {
        manager: Key,
        address: Key,
        token_address: Key,
        lamports: u64,
        token_count: u64,
        token_to_lamport_ratio: u64,
        is_finalized: bool,
        icon: u16,
    },
    UpdateFundPool {
        manager: Key,
        address: Key,
        token_address: Key,
        lamports: u64,
        token_count: u64,
        token_to_lamport_ratio: u64,
        is_finalized: bool,
        icon: u16,
    },
    DeleteFundPool,
    AddInvestor {
        investor: Key,
        pool_address: Key,
        address: Key,
        amount: u64,
        token_address: Key,
        token_count: u64,
    },
    CreateMarket { creator: Key },
    RegisterToMarket { fund_pool: Key },
    DeleteFromMarket { fund_pool: Key },
}

/// The arguments of a fund-pool create or update, keys as byte sequences.
pub struct FundPoolArgsView {
    pub manager: Seq<u8>,
    pub address: Seq<u8>,
    pub token_address: Seq<u8>,
    pub lamports: u64,
    pub token_count: u64,
    pub token_to_lamport_ratio: u64,
    pub is_finalized: bool,
    pub icon: u16,
}

pub enum PoolInstructionView {
    CreateFundPool(FundPoolArgsView),
    UpdateFundPool(FundPoolArgsView),
    DeleteFundPool,
    AddInvestor {
        investor: Seq<u8>,
        pool_address: Seq<u8>,
        address: Seq<u8>,
        amount: u64,
        token_address: Seq<u8>,
        token_count: u64,
    },
    CreateMarket { creator: Seq<u8> },
    RegisterToMarket { fund_pool: Seq<u8> },
    DeleteFromMarket { fund_pool: Seq<u8> },
}

impl View for PoolInstruction {
    type V = PoolInstructionView;

    open spec fn view(&self) -> PoolInstructionView {
        match *self {
            PoolInstruction::CreateFundPool {
                manager,
                address,
                token_address,
                lamports,
                token_count,
                token_to_lamport_ratio,
                is_finalized,
                icon,
            } => PoolInstructionView::CreateFundPool(
                FundPoolArgsView {
                    manager: manager@,
                    address: address@,
                    token_address: token_address@,
                    lamports,
                    token_count,
                    token_to_lamport_ratio,
                    is_finalized,
                    icon,
                },
            ),
            PoolInstruction::UpdateFundPool {
                manager,
                address,
                token_address,
                lamports,
                token_count,
                token_to_lamport_ratio,
                is_finalized,
                icon,
            } => PoolInstructionView::UpdateFundPool(
                FundPoolArgsView {
                    manager: manager@,
                    address: address@,
                    token_address: token_address@,
                    lamports,
                    token_count,
                    token_to_lamport_ratio,
                    is_finalized,
                    icon,
                },
            ),
            PoolInstruction::DeleteFundPool => PoolInstructionView::DeleteFundPool,
            PoolInstruction::AddInvestor {
                investor,
                pool_address,
                address,
                amount,
                token_address,
                token_count,
            } => PoolInstructionView::AddInvestor {
                investor: investor@,
                pool_address: pool_address@,
                address: address@,
                amount,
                token_address: token_address@,
                token_count,
            },
            PoolInstruction::CreateMarket { creator } => PoolInstructionView::CreateMarket {
                creator: creator@,
            },
            PoolInstruction::RegisterToMarket { fund_pool } => PoolInstructionView::RegisterToMarket {
                fund_pool: fund_pool@,
            },
            PoolInstruction::DeleteFromMarket { fund_pool } => PoolInstructionView::DeleteFromMarket {
                fund_pool: fund_pool@,
            },
        }
    }
}

/// The fund-pool argument block at the start of `a`.
pub open spec fn fund_pool_args(a: Seq<u8>) -> Result<FundPoolArgsView, PoolError> {
    if a.len() < FUND_POOL_ARGS_LEN || !bool_valid(a, 120) {
        Err(PoolError::InvalidInstruction)
    } else {
        Ok(
            FundPoolArgsView {
                manager: key_at(a, 0),
                address: key_at(a, 32),
                token_address: key_at(a, 64),
                lamports: u64_at(a, 96),
                token_count: u64_at(a, 104),
                token_to_lamport_ratio: u64_at(a, 112),
                is_finalized: bool_at(a, 120),
                icon: u16_at(a, 121),
            },
        )
    }
}

/// What an instruction byte string means; `s[0]` picks the module, `s[1]`
/// the action, and the arguments start at `s[2]`.
pub open spec fn decode_instruction(s: Seq<u8>) -> Result<PoolInstructionView, PoolError> {
    if s.len() == 0 {
        Err(PoolError::InvalidModule)
    } else if s[0] != MODULE_FUND_POOL && s[0] != MODULE_INVESTOR && s[0] != MODULE_MARKET {
        Err(PoolError::InvalidModule)
    } else if s.len() < 2 {
        Err(PoolError::InvalidInstruction)
    } else {
        let a = s.subrange(2, s.len() as int);
        if s[0] == MODULE_FUND_POOL {
            if s[1] == ACTION_CREATE {
                match fund_pool_args(a) {
                    Ok(f) => Ok(PoolInstructionView::CreateFundPool(f)),
                    Err(e) => Err(e),
                }
            } else if s[1] == ACTION_UPDATE {
                match fund_pool_args(a) {
                    Ok(f) => Ok(PoolInstructionView::UpdateFundPool(f)),
                    Err(e) => Err(e),
                }
            } else if s[1] == ACTION_DELETE {
                Ok(PoolInstructionView::DeleteFundPool)
            } else {
                Err(PoolError::InvalidAction)
            }
        } else if s[0] == MODULE_INVESTOR {
            if s[1] != ACTION_CREATE {
                Err(PoolError::InvalidAction)
            } else if a.len() < INVESTOR_ARGS_LEN {
                Err(PoolError::InvalidInstruction)
            } else {
                Ok(
                    PoolInstructionView::AddInvestor {
                        investor: key_at(a, 0),
                        pool_address: key_at(a, 32),
                        address: key_at(a, 64),
                        token_address: key_at(a, 96),
                        amount: u64_at(a, 128),
                        token_count: u64_at(a, 136),
                    },
                )
            }
        } else {
            if s[1] != ACTION_CREATE && s[1] != ACTION_REGISTER && s[1] != ACTION_DELETE {
                Err(PoolError::InvalidAction)
            } else if a.len() < 32 {
                Err(PoolError::InvalidInstruction)
            } else if s[1] == ACTION_CREATE {
                Ok(PoolInstructionView::CreateMarket { creator: key_at(a, 0) })
            } else if s[1] == ACTION_REGISTER {
                Ok(PoolInstructionView::RegisterToMarket { fund_pool: key_at(a, 0) })
            } else {
                Ok(PoolInstructionView::DeleteFromMarket { fund_pool: key_at(a, 0) })
            }
        }
    }
}

proof fn lemma_args_shift(s: Seq<u8>, off: int)
    requires
        2 <= s.len(),
        0 <= off,
    ensures
        off + 32 <= s.len() - 2 ==> key_at(s.subrange(2, s.len() as int), off) == key_at(s, off + 2),
        off + 8 <= s.len() - 2 ==> u64_at(s.subrange(2, s.len() as int), off) == u64_at(s, off + 2),
        off + 2 <= s.len() - 2 ==> u16_at(s.subrange(2, s.len() as int), off) == u16_at(s, off + 2),
        off < s.len() - 2 ==> s.subrange(2, s.len() as int)[off] == s[off + 2],
{
    let a = s.subrange(2, s.len() as int);
    if off + 32 <= s.len() - 2 {
        assert(key_at(a, off) =~= key_at(s, off + 2));
    }
    if off + 8 <= s.len() - 2 {
        assert(a.subrange(off, off + 8) =~= s.subrange(off + 2, off + 10));
    }
    if off + 2 <= s.len() - 2 {
        assert(a.subrange(off, off + 2) =~= s.subrange(off + 2, off + 4));
    }
}

/// Reads a create/update argument block that starts at `src[2]`.
fn unpack_fund_pool_data(src: &[u8]) -> (r: Result<FundPoolArgs, PoolError>)
    requires
        src@.len() >= 2,
    ensures
        match r {
            Ok(f) => fund_pool_args(src@.subrange(2, src@.len() as int)) == Ok::<
                FundPoolArgsView,
                PoolError,
            >(f.view()),
            Err(e) => fund_pool_args(src@.subrange(2, src@.len() as int)) == Err::<
                FundPoolArgsView,
                PoolError,
            >(e),
        },
{
    if src.len() < 2 + FUND_POOL_ARGS_LEN {
        return Err(PoolError::InvalidInstruction);
    }
    proof {
        lemma_args_shift(src@, 0);
        lemma_args_shift(src@, 32);
        lemma_args_shift(src@, 64);
        lemma_args_shift(src@, 96);
        lemma_args_shift(src@, 104);
        lemma_args_shift(src@, 112);
        lemma_args_shift(src@, 120);
        lemma_args_shift(src@, 121);
    }
    let is_finalized = match read_bool(src, 122) {
        Ok(b) => b,
        Err(_) => return Err(PoolError::InvalidInstruction),
    };
    Ok(
        FundPoolArgs {
            manager: read_key(src, 2),
            address: read_key(src, 34),
            token_address: read_key(src, 66),
            lamports: read_u64(src, 98),
            token_count: read_u64(src, 106),
            token_to_lamport_ratio: read_u64(src, 114),
            is_finalized,
            icon: read_u16(src, 123),
        },
    )
}

/// The fields shared by a fund-pool create and update.
#[derive(Clone, Copy, Debug)]
pub struct FundPoolArgs {
    pub manager: Key,
    pub address: Key,
    pub token_address: Key,
    pub lamports: u64,
    pub token_count: u64,
    pub token_to_lamport_ratio: u64,
    pub is_finalized: bool,
    pub icon: u16,
}

impl FundPoolArgs {
    pub open spec fn view(&self) -> FundPoolArgsView {
        FundPoolArgsView {
            manager: self.manager@,
            address: self.address@,
            token_address: self.token_address@,
            lamports: self.lamports,
            token_count: self.token_count,
            token_to_lamport_ratio: self.token_to_lamport_ratio,
            is_finalized: self.is_finalized,
            icon: self.icon,
        }
    }
}

impl PoolInstruction {
    /// Decodes an instruction byte string.
    pub fn unpack(input: &[u8]) -> (r: Result<PoolInstruction, PoolError>)
        ensures
            match r {
                Ok(i) => decode_instruction(input@) == Ok::<PoolInstructionView, PoolError>(i@),
                Err(e) => decode_instruction(input@) == Err::<PoolInstructionView, PoolError>(e),
            },
    {
        if input.len() == 0 {
            return Err(PoolError::InvalidModule);
        }
        let module = input[0];
        if module == MODULE_FUND_POOL {
            Self::unpack_fund_pool(input)
        } else if module == MODULE_INVESTOR {
            Self::unpack_investor(input)
        } else if module == MODULE_MARKET {
            Self::unpack_market(input)
        } else {
            Err(PoolError::InvalidModule)
        }
    }

    fn unpack_fund_pool(input: &[u8]) -> (r: Result<PoolInstruction, PoolError>)
        requires
            input@.len() >= 1,
            input@[0] == MODULE_FUND_POOL,
        ensures
            match r {
                Ok(i) => decode_instruction(input@) == Ok::<PoolInstructionView, PoolError>(i@),
                Err(e) => decode_instruction(input@) == Err::<PoolInstructionView, PoolError>(e),
            },
    {
        if input.len() < 2 {
            return Err(PoolError::InvalidInstruction);
        }
        let action = input[1];
        if action == ACTION_CREATE {
            match unpack_fund_pool_data(input) {
                Ok(f) => Ok(
                    PoolInstruction::CreateFundPool {
                        manager: f.manager,
                        address: f.address,
                        token_address: f.token_address,
                        lamports: f.lamports,
                        token_count: f.token_count,
                        token_to_lamport_ratio: f.token_to_lamport_ratio,
                        is_finalized: f.is_finalized,
                        icon: f.icon,
                    },
                ),
                Err(e) => Err(e),
            }
        } else if action == ACTION_UPDATE {
            match unpack_fund_pool_data(input) {
                Ok(f) => Ok(
                    PoolInstruction::UpdateFundPool {
                        manager: f.manager,
                        address: f.address,
                        token_address: f.token_address,
                        lamports: f.lamports,
                        token_count: f.token_count,
                        token_to_lamport_ratio: f.token_to_lamport_ratio,
                        is_finalized: f.is_finalized,
                        icon: f.icon,
                    },
                ),
                Err(e) => Err(e),
            }
        } else if action == ACTION_DELETE {
            Ok(PoolInstruction::DeleteFundPool)
        } else {
            Err(PoolError::InvalidAction)
        }
    }

    fn unpack_investor(input: &[u8]) -> (r: Result<PoolInstruction, PoolError>)
        requires
            input@.len() >= 1,
            input@[0] == MODULE_INVESTOR,
        ensures
            match r {
                Ok(i) => decode_instruction(input@) == Ok::<PoolInstructionView, PoolError>(i@),
                Err(e) => decode_instruction(input@) == Err::<PoolInstructionView, PoolError>(e),
            },
    {
        if input.len() < 2 {
            return Err(PoolError::InvalidInstruction);
        }
        if input[1] != ACTION_CREATE {
            return Err(PoolError::InvalidAction);
        }
        if input.len() < 2 + INVESTOR_ARGS_LEN {
            return Err(PoolError::InvalidInstruction);
        }
        proof {
            lemma_args_shift(input@, 0);
            lemma_args_shift(input@, 32);
            lemma_args_shift(input@, 64);
            lemma_args_shift(input@, 96);
            lemma_args_shift(input@, 128);
            lemma_args_shift(input@, 136);
        }
        Ok(
            PoolInstruction::AddInvestor {
                investor: read_key(input, 2),
                pool_address: read_key(input, 34),
                address: read_key(input, 66),
                token_address: read_key(input, 98),
                amount: read_u64(input, 130),
                token_count: read_u64(input, 138),
            },
        )
    }

    fn unpack_market(input: &[u8]) -> (r: Result<PoolInstruction, PoolError>)
        requires
            input@.len() >= 1,
            input@[0] == MODULE_MARKET,
        ensures
            match r {
                Ok(i) => decode_instruction(input@) == Ok::<PoolInstructionView, PoolError>(i@),
                Err(e) => decode_instruction(input@) == Err::<PoolInstructionView, PoolError>(e),
            },
    {
        if input.len() < 2 {
            return Err(PoolError::InvalidInstruction);
        }
        let action = input[1];
        if action != ACTION_CREATE && action != ACTION_REGISTER && action != ACTION_DELETE {
            return Err(PoolError::InvalidAction);
        }
        if input.len() < 34 {
            return Err(PoolError::InvalidInstruction);
        }
        proof {
            lemma_args_shift(input@, 0);
        }
        let k = read_key(input, 2);
        if action == ACTION_CREATE {
            Ok(PoolInstruction::CreateMarket { creator: k })
        } else if action == ACTION_REGISTER {
            Ok(PoolInstruction::RegisterToMarket { fund_pool: k })
        } else {
            Ok(PoolInstruction::DeleteFromMarket { fund_pool: k })
        }
    }
}

} // verus!
