//! The price-oracle cache refresh.
//!
//! `ping` schedules two independent calls against the pool — one for the
//! current share price, one for the current reward fee — each chained to its
//! own callback. The two chains settle in either order, or not at all; each
//! callback installs its value only on a decodable success, and a failed
//! fetch leaves the previously cached value untouched. The cache is read-only
//! state, so no rollback and no guard are needed.

use vstd::prelude::*;

use crate::json::{parse_bare_u16, parse_quoted_u128, spec_bare_u16, spec_quoted_u128};
use crate::staking::{PoolRequest, PromiseOutcome};
use crate::utils::TGAS;
use crate::{Balance, StakingContract, ONE_NEAR};

verus! {

// On promises, the host adds a few TGAS on each call.
pub const GET_FUNCTION_GAS: u64 = 8 * TGAS;

pub const AFTER_GET_FUNCTION_GAS: u64 = 4 * TGAS;

/// The callback interface this contract registers with the host for the two
/// quote fetches.
pub trait ThisContract {
    fn after_get_st_near_price(&mut self, st_near_price: Balance);

    fn after_get_reward_fee_bp(&mut self, bp: u16);
}

impl StakingContract {
    /// Gathers fresh quotes from the pool: hands back the two view calls the
    /// host must issue, each chained to its callback. The contract state is
    /// untouched until a callback installs a value.
    pub fn ping(&mut self) -> (r: (PoolRequest, PoolRequest))
        ensures
            *final(self) == *old(self),
            r.0 == PoolRequest::GetStNearPrice,
            r.1 == PoolRequest::GetRewardFeeBp,
    {
        (PoolRequest::GetStNearPrice, PoolRequest::GetRewardFeeBp)
    }

    /// Installs a freshly quoted share price. A failure, an undecodable
    /// payload, or a quote below one NEAR per share — which the pool can
    /// never produce, and which would poison the currency-to-share
    /// conversion — leaves the cached value untouched.
    pub fn after_get_st_near_price(&mut self, outcome: &PromiseOutcome)
        requires
            old(self).wf(),
        ensures
            final(self).wf(),
            match outcome {
                PromiseOutcome::Successful(payload) => match spec_quoted_u128(payload@) {
                    Some(price) => if ONE_NEAR <= price {
                        *final(self) == (StakingContract { share_near_price: price, ..*old(self) })
                    } else {
                        *final(self) == *old(self)
                    },
                    None => *final(self) == *old(self),
                },
                PromiseOutcome::Failed => *final(self) == *old(self),
            },
    {
        match outcome {
            PromiseOutcome::Successful(payload) => {
                match parse_quoted_u128(payload) {
                    Some(price) => {
                        if price >= ONE_NEAR {
                            self.share_near_price = price;
                        }
                    },
                    None => {},
                }
            },
            PromiseOutcome::Failed => {},
        }
    }

    /// Installs a freshly quoted reward fee. A failure or an undecodable
    /// payload leaves the cached value untouched.
    pub fn after_get_reward_fee_bp(&mut self, outcome: &PromiseOutcome)
        requires
            old(self).wf(),
        ensures
            final(self).wf(),
            match outcome {
                PromiseOutcome::Successful(payload) => match spec_bare_u16(payload@) {
                    Some(bp) => *final(self) == (StakingContract {
                        meta_pool_fee_bp: bp,
                        ..*old(self)
                    }),
                    None => *final(self) == *old(self),
                },
                PromiseOutcome::Failed => *final(self) == *old(self),
            },
    {
        match outcome {
            PromiseOutcome::Successful(payload) => {
                match parse_bare_u16(payload) {
                    Some(bp) => {
                        self.meta_pool_fee_bp = bp;
                    },
                    None => {},
                }
            },
            PromiseOutcome::Failed => {},
        }
    }
}

} // verus!
