//! Administrative endpoints: the admin list, allowed tokens, the Euribor
//! rate, the protocol's own funds and its liquidity on the Hatom market.

use vstd::prelude::*;
use crate::errors::FactoringError;
use crate::amount::Amount;
use crate::events::{effects_view, Effect, EffectView, EventView, EventsModule, HatomCallView};
use crate::stable_farming::StableFarmingModule;
use crate::storage::{
    amount_in, balance_of, caller_is_admin, insert_address, insert_token, remove_address,
    remove_token, set_balance, transition, with_amount, FactoringState, FactoringView, Storage,
};
use crate::types::{Address, CallContext, Payment, PaymentView, TokenId};

verus! {

/// Why adding to the protocol's funds fails, if it does.
pub open spec fn add_protocol_funds_error(m: FactoringView, ctx: CallContext, payment: PaymentView) -> Option<FactoringError> {
    if !caller_is_admin(m, ctx) {
        Some(FactoringError::ItemNotWhitelisted)
    } else if !m.allowed_tokens.contains(payment.token) {
        Some(FactoringError::ItemNotWhitelisted)
    } else {
        None
    }
}

/// Why taking from the protocol's funds fails, if it does.
pub open spec fn remove_protocol_funds_error(m: FactoringView, ctx: CallContext, token: TokenId, amount: nat) -> Option<FactoringError> {
    if !caller_is_admin(m, ctx) {
        Some(FactoringError::ItemNotWhitelisted)
    } else if !m.allowed_tokens.contains(token) {
        Some(FactoringError::ItemNotWhitelisted)
    } else if amount_in(m.protocol_funds, token) < amount {
        Some(FactoringError::NotEnoughFunds)
    } else {
        None
    }
}

/// The storage with the protocol's funds in a token set to `amount`.
pub open spec fn with_protocol_amount(m: FactoringView, token: TokenId, amount: nat) -> FactoringView {
    FactoringView { protocol_funds: with_amount(m.protocol_funds, token, amount), ..m }
}

/// Why moving the contract's balance to the money market fails, if it does.
pub open spec fn liquidity_error(m: FactoringView, ctx: CallContext, amount: nat, sc_balance: nat) -> Option<FactoringError> {
    if !caller_is_admin(m, ctx) {
        Some(FactoringError::ItemNotWhitelisted)
    } else if sc_balance < amount {
        Some(FactoringError::NotEnoughFunds)
    } else {
        None
    }
}

/// Why a call through the Hatom controller fails, if it does.
pub open spec fn controller_error(m: FactoringView, ctx: CallContext) -> Option<FactoringError> {
    if !caller_is_admin(m, ctx) {
        Some(FactoringError::ItemNotWhitelisted)
    } else if m.hatom_controller_address is None {
        Some(FactoringError::HatomControllerNotSet)
    } else {
        None
    }
}

/// Why an endpoint open to administrators only fails, if it does.
pub open spec fn admin_error(m: FactoringView, ctx: CallContext) -> Option<FactoringError> {
    if !caller_is_admin(m, ctx) {
        Some(FactoringError::ItemNotWhitelisted)
    } else {
        None
    }
}

/// Why recording a Euribor rate fails, if it does.
pub open spec fn add_euribor_rate_error(m: FactoringView, ctx: CallContext, timestamp: u64) -> Option<FactoringError> {
    if !caller_is_admin(m, ctx) {
        Some(FactoringError::ItemNotWhitelisted)
    } else if m.euribor_rate matches Some((_, old_timestamp)) && timestamp <= old_timestamp {
        Some(FactoringError::TimestampMustBeHigher)
    } else {
        None
    }
}

/// Endpoints reserved to the owner and the admin list.
pub trait AdminConfigModule: StableFarmingModule + Storage {
    /// Adds the payment to the protocol's funds in its token.
    fn add_protocol_funds(&mut self, ctx: &CallContext, payment: Payment) -> (r: Result<Vec<Effect>, FactoringError>)
        requires
            old(self).wf(),
        ensures
            final(self).wf(),
            transition(
                r,
                old(self).model(),
                final(self).model(),
                add_protocol_funds_error(old(self).model(), *ctx, payment@),
                with_protocol_amount(
                    old(self).model(),
                    payment.token,
                    amount_in(old(self).model().protocol_funds, payment.token) + payment.amount@,
                ),
                seq![EffectView::Log(EventView::ScAddFunds)],
            ),
    ;

    /// Records the address of the Hatom controller.
    fn set_hatom_controller_address(&mut self, ctx: &CallContext, sc_address: Address) -> (r: Result<Vec<Effect>, FactoringError>)
        requires
            old(self).wf(),
        ensures
            final(self).wf(),
            transition(
                r,
                old(self).model(),
                final(self).model(),
                admin_error(old(self).model(), *ctx),
                FactoringView { hatom_controller_address: Some(sc_address), ..old(self).model() },
                Seq::<EffectView>::empty(),
            ),
    ;

    /// Takes `amount` of `token` out of the protocol's funds.
    fn remove_protocol_funds(&mut self, ctx: &CallContext, token_identifier: TokenId, amount: Amount) -> (r: Result<Vec<Effect>, FactoringError>)
        requires
            old(self).wf(),
        ensures
            final(self).wf(),
            transition(
                r,
                old(self).model(),
                final(self).model(),
                remove_protocol_funds_error(old(self).model(), *ctx, token_identifier, amount@),
                with_protocol_amount(
                    old(self).model(),
                    token_identifier,
                    (amount_in(old(self).model().protocol_funds, token_identifier) - amount@) as nat,
                ),
                seq![EffectView::Log(EventView::ScAddFunds)],
            ),
    ;

    /// Supplies `amount` of `token` from the contract's balance (`sc_balance`
    /// of that token) to the money market at `mm_sc_address`.
    fn mint_with_unused_liquidity(
        &mut self,
        ctx: &CallContext,
        token_identifier: TokenId,
        amount: Amount,
        mm_sc_address: Address,
        sc_balance: Amount,
    ) -> (r: Result<Vec<Effect>, FactoringError>)
        requires
            old(self).wf(),
        ensures
            final(self).wf(),
            transition(
                r,
                old(self).model(),
                final(self).model(),
                liquidity_error(old(self).model(), *ctx, amount@, sc_balance@),
                old(self).model(),
                seq![
                    EffectView::AsyncCall(
                        HatomCallView::MintAndEnterMarket {
                            money_market: mm_sc_address,
                            payment: PaymentView { token: token_identifier, amount: amount@ },
                        },
                    ),
                ],
            ),
    ;

    /// Exits the money market at `mm_sc_address` for `amount` tokens.
    fn exit_market_farm(&mut self, ctx: &CallContext, mm_sc_address: Address, amount: Amount) -> (r: Result<Vec<Effect>, FactoringError>)
        requires
            old(self).wf(),
        ensures
            final(self).wf(),
            transition(
                r,
                old(self).model(),
                final(self).model(),
                controller_error(old(self).model(), *ctx),
                old(self).model(),
                seq![
                    EffectView::AsyncCall(
                        HatomCallView::ExitMarket {
                            controller: old(self).model().hatom_controller_address->0,
                            money_market: mm_sc_address,
                            tokens: amount@,
                        },
                    ),
                ],
            ),
    ;

    /// Redeems `amount` of `token` from the money market at `mm_sc_address`,
    /// provided the contract holds `sc_balance >= amount` of that token.
    fn withdraw_liquidity(
        &mut self,
        ctx: &CallContext,
        token_identifier: TokenId,
        amount: Amount,
        mm_sc_address: Address,
        sc_balance: Amount,
    ) -> (r: Result<Vec<Effect>, FactoringError>)
        requires
            old(self).wf(),
        ensures
            final(self).wf(),
            transition(
                r,
                old(self).model(),
                final(self).model(),
                liquidity_error(old(self).model(), *ctx, amount@, sc_balance@),
                old(self).model(),
                seq![
                    EffectView::AsyncCall(
                        HatomCallView::Redeem {
                            money_market: mm_sc_address,
                            payment: PaymentView { token: token_identifier, amount: amount@ },
                        },
                    ),
                ],
            ),
    ;

    /// Claims the farming rewards from the Hatom controller.
    fn claim_farming_rewards(&mut self, ctx: &CallContext) -> (r: Result<Vec<Effect>, FactoringError>)
        requires
            old(self).wf(),
        ensures
            final(self).wf(),
            transition(
                r,
                old(self).model(),
                final(self).model(),
                controller_error(old(self).model(), *ctx),
                old(self).model(),
                seq![
                    EffectView::AsyncCall(
                        HatomCallView::ClaimRewards {
                            controller: old(self).model().hatom_controller_address->0,
                            boost: false,
                            supply: true,
                            borrow: true,
                        },
                    ),
                ],
            ),
    ;

    /// Puts an address on the admin list.
    fn add_user_to_admin_list(&mut self, ctx: &CallContext, address: Address) -> (r: Result<Vec<Effect>, FactoringError>)
        requires
            old(self).wf(),
        ensures
            final(self).wf(),
            transition(
                r,
                old(self).model(),
                final(self).model(),
                admin_error(old(self).model(), *ctx),
                FactoringView { admins: old(self).model().admins.insert(address), ..old(self).model() },
                seq![EffectView::Log(EventView::ScAddAdmin { address })],
            ),
    ;

    /// Takes an address off the admin list.
    fn remove_user_from_admin_list(&mut self, ctx: &CallContext, address: Address) -> (r: Result<Vec<Effect>, FactoringError>)
        requires
            old(self).wf(),
        ensures
            final(self).wf(),
            transition(
                r,
                old(self).model(),
                final(self).model(),
                admin_error(old(self).model(), *ctx),
                FactoringView { admins: old(self).model().admins.remove(address), ..old(self).model() },
                seq![EffectView::Log(EventView::ScRemoveAdmin { address })],
            ),
    ;

    /// Records a new Euribor rate, which must be later than the current one.
    fn add_euribor_rate(&mut self, ctx: &CallContext, timestamp: u64, rate: u32) -> (r: Result<Vec<Effect>, FactoringError>)
        requires
            old(self).wf(),
        ensures
            final(self).wf(),
            transition(
                r,
                old(self).model(),
                final(self).model(),
                add_euribor_rate_error(old(self).model(), *ctx, timestamp),
                FactoringView { euribor_rate: Some((rate, timestamp)), ..old(self).model() },
                Seq::<EffectView>::empty(),
            ),
    ;

    /// Allows a token for invoices and deposits.
    fn add_allowed_tokens(&mut self, ctx: &CallContext, token: TokenId) -> (r: Result<Vec<Effect>, FactoringError>)
        requires
            old(self).wf(),
        ensures
            final(self).wf(),
            transition(
                r,
                old(self).model(),
                final(self).model(),
                admin_error(old(self).model(), *ctx),
                FactoringView { allowed_tokens: old(self).model().allowed_tokens.insert(token), ..old(self).model() },
                seq![EffectView::Log(EventView::ScAddToken { token })],
            ),
    ;

    /// Disallows a token.
    fn remove_allowed_tokens(&mut self, ctx: &CallContext, token: TokenId) -> (r: Result<Vec<Effect>, FactoringError>)
        requires
            old(self).wf(),
        ensures
            final(self).wf(),
            transition(
                r,
                old(self).model(),
                final(self).model(),
                admin_error(old(self).model(), *ctx),
                FactoringView { allowed_tokens: old(self).model().allowed_tokens.remove(token), ..old(self).model() },
                seq![EffectView::Log(EventView::ScRemoveToken { token })],
            ),
    ;

    /// Fails unless the caller is the owner or on the admin list.
    fn require_caller_is_admin(&self, ctx: &CallContext) -> (r: Result<(), FactoringError>)
        requires
            self.wf(),
        ensures
            r is Ok <==> caller_is_admin(self.model(), *ctx),
            r matches Err(e) ==> e == FactoringError::ItemNotWhitelisted,
    ;
}

impl AdminConfigModule for FactoringState {
    fn add_protocol_funds(&mut self, ctx: &CallContext, payment: Payment) -> (r: Result<Vec<Effect>, FactoringError>) {
        self.require_caller_is_admin(ctx)?;
        if crate::storage::find_token(&self.allowed_tokens, payment.token).is_none() {
            return Err(FactoringError::ItemNotWhitelisted);
        }
        let available = balance_of(&self.protocol_funds, payment.token);
        let total = available.add(&payment.amount);
        set_balance(&mut self.protocol_funds, payment.token, total);
        let mut effects = Vec::new();
        effects.push(Effect::Log(EventsModule::ScAddFunds));
        assert(effects_view(effects@) =~= seq![EffectView::Log(EventView::ScAddFunds)]);
        Ok(effects)
    }

    fn set_hatom_controller_address(&mut self, ctx: &CallContext, sc_address: Address) -> (r: Result<Vec<Effect>, FactoringError>) {
        self.require_caller_is_admin(ctx)?;
        self.hatom_controller_address = Some(sc_address);
        let effects = Vec::new();
        assert(effects_view(effects@) =~= Seq::<EffectView>::empty());
        Ok(effects)
    }

    fn remove_protocol_funds(&mut self, ctx: &CallContext, token_identifier: TokenId, amount: Amount) -> (r: Result<Vec<Effect>, FactoringError>) {
        self.require_caller_is_admin(ctx)?;
        if crate::storage::find_token(&self.allowed_tokens, token_identifier).is_none() {
            return Err(FactoringError::ItemNotWhitelisted);
        }
        let available_funds = balance_of(&self.protocol_funds, token_identifier);
        let rest = match available_funds.checked_sub(&amount) {
            Some(rest) => rest,
            None => {
                return Err(FactoringError::NotEnoughFunds);
            },
        };
        set_balance(&mut self.protocol_funds, token_identifier, rest);
        let mut effects = Vec::new();
        effects.push(Effect::Log(EventsModule::ScAddFunds));
        assert(effects_view(effects@) =~= seq![EffectView::Log(EventView::ScAddFunds)]);
        Ok(effects)
    }

    fn mint_with_unused_liquidity(
        &mut self,
        ctx: &CallContext,
        token_identifier: TokenId,
        amount: Amount,
        mm_sc_address: Address,
        sc_balance: Amount,
    ) -> (r: Result<Vec<Effect>, FactoringError>) {
        self.require_caller_is_admin(ctx)?;
        if !sc_balance.ge(&amount) {
            return Err(FactoringError::NotEnoughFunds);
        }
        let mut effects = Vec::new();
        let ghost a = amount@;
        effects.push(self.mint_enter(token_identifier, amount, mm_sc_address));
        assert(effects_view(effects@) =~= seq![
            EffectView::AsyncCall(
                HatomCallView::MintAndEnterMarket {
                    money_market: mm_sc_address,
                    payment: PaymentView { token: token_identifier, amount: a },
                },
            ),
        ]);
        Ok(effects)
    }

    fn exit_market_farm(&mut self, ctx: &CallContext, mm_sc_address: Address, amount: Amount) -> (r: Result<Vec<Effect>, FactoringError>) {
        self.require_caller_is_admin(ctx)?;
        let ghost a = amount@;
        let call = self.exit_market(mm_sc_address, amount)?;
        let mut effects = Vec::new();
        effects.push(call);
        assert(effects_view(effects@) =~= seq![
            EffectView::AsyncCall(
                HatomCallView::ExitMarket {
                    controller: self.model().hatom_controller_address->0,
                    money_market: mm_sc_address,
                    tokens: a,
                },
            ),
        ]);
        Ok(effects)
    }

    fn withdraw_liquidity(
        &mut self,
        ctx: &CallContext,
        token_identifier: TokenId,
        amount: Amount,
        mm_sc_address: Address,
        sc_balance: Amount,
    ) -> (r: Result<Vec<Effect>, FactoringError>) {
        self.require_caller_is_admin(ctx)?;
        if !sc_balance.ge(&amount) {
            return Err(FactoringError::NotEnoughFunds);
        }
        let mut effects = Vec::new();
        let ghost a = amount@;
        effects.push(self.redeem_liquidity(token_identifier, amount, mm_sc_address));
        assert(effects_view(effects@) =~= seq![
            EffectView::AsyncCall(
                HatomCallView::Redeem {
                    money_market: mm_sc_address,
                    payment: PaymentView { token: token_identifier, amount: a },
                },
            ),
        ]);
        Ok(effects)
    }

    fn claim_farming_rewards(&mut self, ctx: &CallContext) -> (r: Result<Vec<Effect>, FactoringError>) {
        self.require_caller_is_admin(ctx)?;
        let call = self.claim_rewards()?;
        let mut effects = Vec::new();
        effects.push(call);
        assert(effects_view(effects@) =~= seq![
            EffectView::AsyncCall(
                HatomCallView::ClaimRewards {
                    controller: self.model().hatom_controller_address->0,
                    boost: false,
                    supply: true,
                    borrow: true,
                },
            ),
        ]);
        Ok(effects)
    }

    fn add_user_to_admin_list(&mut self, ctx: &CallContext, address: Address) -> (r: Result<Vec<Effect>, FactoringError>) {
        self.require_caller_is_admin(ctx)?;
        insert_address(&mut self.admin_whitelist, address);
        let mut effects = Vec::new();
        effects.push(Effect::Log(EventsModule::ScAddAdmin { address }));
        assert(effects_view(effects@) =~= seq![EffectView::Log(EventView::ScAddAdmin { address })]);
        Ok(effects)
    }

    fn remove_user_from_admin_list(&mut self, ctx: &CallContext, address: Address) -> (r: Result<Vec<Effect>, FactoringError>) {
        self.require_caller_is_admin(ctx)?;
        remove_address(&mut self.admin_whitelist, address);
        let mut effects = Vec::new();
        effects.push(Effect::Log(EventsModule::ScRemoveAdmin { address }));
        assert(effects_view(effects@) =~= seq![EffectView::Log(EventView::ScRemoveAdmin { address })]);
        Ok(effects)
    }

    fn add_euribor_rate(&mut self, ctx: &CallContext, timestamp: u64, rate: u32) -> (r: Result<Vec<Effect>, FactoringError>) {
        self.require_caller_is_admin(ctx)?;
        match self.euribor_rate {
            None => {
                self.euribor_rate = Some((rate, timestamp));
            },
            Some((_, old_timestamp)) => {
                if timestamp <= old_timestamp {
                    return Err(FactoringError::TimestampMustBeHigher);
                }
                self.euribor_rate = Some((rate, timestamp));
            },
        }
        let effects = Vec::new();
        assert(effects_view(effects@) =~= Seq::<EffectView>::empty());
        Ok(effects)
    }

    fn add_allowed_tokens(&mut self, ctx: &CallContext, token: TokenId) -> (r: Result<Vec<Effect>, FactoringError>) {
        self.require_caller_is_admin(ctx)?;
        insert_token(&mut self.allowed_tokens, token);
        let mut effects = Vec::new();
        effects.push(Effect::Log(EventsModule::ScAddToken { token }));
        assert(effects_view(effects@) =~= seq![EffectView::Log(EventView::ScAddToken { token })]);
        Ok(effects)
    }

    fn remove_allowed_tokens(&mut self, ctx: &CallContext, token: TokenId) -> (r: Result<Vec<Effect>, FactoringError>) {
        self.require_caller_is_admin(ctx)?;
        remove_token(&mut self.allowed_tokens, token);
        let mut effects = Vec::new();
        effects.push(Effect::Log(EventsModule::ScRemoveToken { token }));
        assert(effects_view(effects@) =~= seq![EffectView::Log(EventView::ScRemoveToken { token })]);
        Ok(effects)
    }

    fn require_caller_is_admin(&self, ctx: &CallContext) -> (r: Result<(), FactoringError>) {
        if ctx.caller == ctx.owner {
            return Ok(());
        }
        match crate::storage::find_address(&self.admin_whitelist, ctx.caller) {
            Some(_) => Ok(()),
            None => Err(FactoringError::ItemNotWhitelisted),
        }
    }
}

} // verus!
