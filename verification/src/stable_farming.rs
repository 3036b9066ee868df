//! Calls that put the contract's idle liquidity to work on the Hatom money
//! market.

use vstd::prelude::*;
use crate::errors::FactoringError;
use crate::amount::Amount;
use crate::events::{Effect, EffectView, HatomCallView, HatomProxyModule};
use crate::storage::{FactoringState, Storage};
use crate::types::{Address, Payment, PaymentView, TokenId};

verus! {

/// Builds the calls to the Hatom money market and controller.
pub trait StableFarmingModule: Storage {
    /// Supplies `amount` of `token` to the money market at `mm_sc_address`
    /// and enters the market.
    fn mint_enter(&self, token_identifier: TokenId, amount: Amount, mm_sc_address: Address) -> (r: Effect)
        ensures
            r@ == EffectView::AsyncCall(
                HatomCallView::MintAndEnterMarket {
                    money_market: mm_sc_address,
                    payment: PaymentView { token: token_identifier, amount: amount@ },
                },
            ),
    ;

    /// Claims the supply and borrow rewards from the controller.
    fn claim_rewards(&self) -> (r: Result<Effect, FactoringError>)
        ensures
            match self.model().hatom_controller_address {
                Some(controller) => r matches Ok(e) && e@ == EffectView::AsyncCall(
                    HatomCallView::ClaimRewards { controller, boost: false, supply: true, borrow: true },
                ),
                None => r matches Err(e) && e == FactoringError::HatomControllerNotSet,
            },
    ;

    /// Exits the money market at `mm_sc_address` for `amount` tokens,
    /// through the controller.
    fn exit_market(&self, mm_sc_address: Address, amount: Amount) -> (r: Result<Effect, FactoringError>)
        ensures
            match self.model().hatom_controller_address {
                Some(controller) => r matches Ok(e) && e@ == EffectView::AsyncCall(
                    HatomCallView::ExitMarket { controller, money_market: mm_sc_address, tokens: amount@ },
                ),
                None => r matches Err(e) && e == FactoringError::HatomControllerNotSet,
            },
    ;

    /// Redeems `amount` of `token` from the money market at `mm_sc_address`.
    fn redeem_liquidity(&self, token_identifier: TokenId, amount: Amount, mm_sc_address: Address) -> (r: Effect)
        ensures
            r@ == EffectView::AsyncCall(
                HatomCallView::Redeem {
                    money_market: mm_sc_address,
                    payment: PaymentView { token: token_identifier, amount: amount@ },
                },
            ),
    ;
}

impl StableFarmingModule for FactoringState {
    fn mint_enter(&self, token_identifier: TokenId, amount: Amount, mm_sc_address: Address) -> (r: Effect) {
        let payment = Payment { token: token_identifier, amount };
        Effect::AsyncCall(HatomProxyModule::MintAndEnterMarket { money_market: mm_sc_address, payment })
    }

    fn claim_rewards(&self) -> (r: Result<Effect, FactoringError>) {
        match self.hatom_controller_address {
            Some(controller) => Ok(
                Effect::AsyncCall(
                    HatomProxyModule::ClaimRewards { controller, boost: false, supply: true, borrow: true },
                ),
            ),
            None => Err(FactoringError::HatomControllerNotSet),
        }
    }

    fn exit_market(&self, mm_sc_address: Address, amount: Amount) -> (r: Result<Effect, FactoringError>) {
        match self.hatom_controller_address {
            Some(controller) => Ok(
                Effect::AsyncCall(
                    HatomProxyModule::ExitMarket { controller, money_market: mm_sc_address, tokens: amount },
                ),
            ),
            None => Err(FactoringError::HatomControllerNotSet),
        }
    }

    fn redeem_liquidity(&self, token_identifier: TokenId, amount: Amount, mm_sc_address: Address) -> (r: Effect) {
        let payment = Payment { token: token_identifier, amount };
        Effect::AsyncCall(HatomProxyModule::Redeem { money_market: mm_sc_address, payment })
    }
}

} // verus!
