//! Share-based liquidity pool: proportional deposit and withdrawal,
//! locked-liquidity bookkeeping for funded loans, and the 85/10/5 interest
//! split between liquidity providers, the protocol treasury and the
//! merchant incentive fund.
//!
//! The pool is driven with plain values: account ids, token amounts and the
//! caller's claimed identity. Proving control of that identity, moving the
//! tokens and emitting events belong to the host shell; each operation here
//! states exactly on which inputs it succeeds, which error it returns
//! otherwise, and how the accounting state changes.

use vstd::prelude::*;

verus! {

use crate::math::{
    lemma_div_bounds, lemma_fee_split_bounds, lemma_payout_bounds, trunc_div,
};
use crate::shares::{lemma_bal_le_total, ShareLedger};

/// Basis points of each interest portion; the four constants are on the
/// 10000 = 100% scale and the three fee portions sum to the whole.
pub const LP_FEE_BPS: i128 = 8500;

pub const PROTOCOL_FEE_BPS: i128 = 1000;

pub const MERCHANT_FEE_BPS: i128 = 500;

pub const TOTAL_BPS: i128 = 10000;

#[derive(Clone, Copy, Debug, PartialEq, Eq, Structural)]
pub enum LiquidityPoolError {
    NotAdmin,
    AlreadyInitialized,
    NotInitialized,
    InvalidAmount,
    InsufficientShares,
    InsufficientLiquidity,
    Overflow,
    Underflow,
    NotCreditLine,
    ZeroTotalShares,
}

/// Pool statistics as one snapshot.
#[derive(Clone, Copy, Debug, PartialEq, Eq, Structural)]
pub struct PoolStats {
    pub total_liquidity: i128,
    pub locked_liquidity: i128,
    pub available_liquidity: i128,
    pub total_shares: i128,
    /// Share price in basis points (10000 = 1.00).
    pub share_price: i128,
}

/// How one distributed interest amount is divided. The liquidity-provider
/// portion stays in the pool; the other two are owed to the treasury and
/// the merchant fund when those are configured.
#[derive(Clone, Copy, Debug, PartialEq, Eq, Structural)]
pub struct InterestSplit {
    pub lp_amount: i128,
    pub protocol_amount: i128,
    pub merchant_amount: i128,
}

/// Shares issued for a deposit of `amount` into a pool with `ts` shares
/// outstanding and `tl` total liquidity: one share per token into an empty
/// pool, otherwise proportional, rounded down.
pub open spec fn shares_for_deposit(amount: int, ts: int, tl: int) -> int {
    if ts == 0 || tl == 0 {
        amount
    } else {
        (amount * ts) / tl
    }
}

/// Tokens paid out for burning `shares` of `ts` outstanding shares in a
/// pool of `tl` total liquidity, rounded down.
pub open spec fn payout_for_shares(shares: int, tl: int, ts: int) -> int {
    (shares * tl) / ts
}

/// Liquidity-provider portion of an interest amount (85%, rounded down).
pub open spec fn lp_cut(interest: int) -> int {
    (interest * LP_FEE_BPS) / (TOTAL_BPS as int)
}

/// Protocol-treasury portion of an interest amount (10%, rounded down).
pub open spec fn protocol_cut(interest: int) -> int {
    (interest * PROTOCOL_FEE_BPS) / (TOTAL_BPS as int)
}

/// Merchant-fund portion: the remainder, so the three portions sum to the
/// interest exactly.
pub open spec fn merchant_cut(interest: int) -> int {
    interest - lp_cut(interest) - protocol_cut(interest)
}

/// The error `deposit` returns on the given state, or `None` when the
/// deposit succeeds, with the checks in the order the operation makes them.
pub open spec fn deposit_check(ts: int, tl: int, bal: int, amount: int) -> Option<
    LiquidityPoolError,
> {
    if amount <= 0 {
        Some(LiquidityPoolError::InvalidAmount)
    } else if ts != 0 && tl != 0 && amount * ts > i128::MAX {
        Some(LiquidityPoolError::Overflow)
    } else if shares_for_deposit(amount, ts, tl) <= 0 {
        Some(LiquidityPoolError::InvalidAmount)
    } else if bal + shares_for_deposit(amount, ts, tl) > i128::MAX || ts + shares_for_deposit(
        amount,
        ts,
        tl,
    ) > i128::MAX || tl + amount > i128::MAX {
        Some(LiquidityPoolError::Overflow)
    } else {
        None
    }
}

/// The error `withdraw` returns on the given state, or `None` when the
/// withdrawal succeeds, with the checks in the order the operation makes
/// them.
pub open spec fn withdraw_check(ts: int, tl: int, locked: int, bal: int, shares: int) -> Option<
    LiquidityPoolError,
> {
    if shares <= 0 {
        Some(LiquidityPoolError::InvalidAmount)
    } else if bal < shares {
        Some(LiquidityPoolError::InsufficientShares)
    } else if ts == 0 {
        Some(LiquidityPoolError::ZeroTotalShares)
    } else if shares * tl > i128::MAX {
        Some(LiquidityPoolError::Overflow)
    } else if payout_for_shares(shares, tl, ts) > tl - locked {
        Some(LiquidityPoolError::InsufficientLiquidity)
    } else {
        None
    }
}

/// Tokens `calculate_withdrawal` quotes for `shares`: zero for an empty
/// pool and on arithmetic failure, otherwise the proportional amount with
/// `i128`'s round-toward-zero division.
pub open spec fn quoted_withdrawal(shares: int, tl: int, ts: int) -> int {
    if ts == 0 {
        0
    } else if shares * tl > i128::MAX || shares * tl < i128::MIN {
        0
    } else {
        trunc_div(shares * tl, ts)
    }
}

/// The liquidity pool contract's stored state.
pub struct LiquidityPoolContract {
    pub admin: Option<u64>,
    pub token: Option<u64>,
    pub creditline: Option<u64>,
    pub treasury: Option<u64>,
    pub merchant_fund: Option<u64>,
    pub total_shares: i128,
    pub total_liquidity: i128,
    pub locked_liquidity: i128,
    pub shares: ShareLedger,
}

impl LiquidityPoolContract {
    /// Share conservation and the locked-liquidity bound: the outstanding
    /// share total is exactly the sum of all providers' balances, and the
    /// locked portion never exceeds the pool's total value.
    pub open spec fn wf(self) -> bool {
        &&& self.shares.wf()
        &&& self.total_shares == self.shares.total()
        &&& self.total_shares >= 0
        &&& 0 <= self.locked_liquidity <= self.total_liquidity
    }

    /// Liquidity not locked in active loans, the most a withdrawal may
    /// take out.
    pub open spec fn available(self) -> int {
        self.total_liquidity - self.locked_liquidity
    }

    /// The configuration fields an accounting operation never touches.
    pub open spec fn same_config(self, other: Self) -> bool {
        &&& self.admin == other.admin
        &&& self.token == other.token
        &&& self.creditline == other.creditline
        &&& self.treasury == other.treasury
        &&& self.merchant_fund == other.merchant_fund
    }

    /// A fresh, uninitialized, empty pool.
    pub fn new() -> (r: Self)
        ensures
            r.wf(),
            r.admin is None,
            r.token is None,
            r.creditline is None,
            r.treasury is None,
            r.merchant_fund is None,
            r.total_shares == 0,
            r.total_liquidity == 0,
            r.locked_liquidity == 0,
            forall|a: u64| r.shares.bal(a) == 0,
    {
        LiquidityPoolContract {
            admin: None,
            token: None,
            creditline: None,
            treasury: None,
            merchant_fund: None,
            total_shares: 0,
            total_liquidity: 0,
            locked_liquidity: 0,
            shares: ShareLedger::new(),
        }
    }

    /// One-shot setup of the four configured addresses. The host must have
    /// authenticated `admin` before calling.
    pub fn initialize(&mut self, admin: u64, token: u64, treasury: u64, merchant_fund: u64) -> (r:
        Result<(), LiquidityPoolError>)
        ensures
            old(self).admin is Some ==> r == Err::<(), _>(LiquidityPoolError::AlreadyInitialized)
                && *final(self) == *old(self),
            old(self).admin is None ==> {
                &&& r is Ok
                &&& final(self).admin == Some(admin)
                &&& final(self).token == Some(token)
                &&& final(self).treasury == Some(treasury)
                &&& final(self).merchant_fund == Some(merchant_fund)
                &&& final(self).creditline == old(self).creditline
                &&& final(self).total_shares == old(self).total_shares
                &&& final(self).total_liquidity == old(self).total_liquidity
                &&& final(self).locked_liquidity == old(self).locked_liquidity
                &&& final(self).shares == old(self).shares
            },
            old(self).wf() ==> final(self).wf(),
    {
        if self.admin.is_some() {
            return Err(LiquidityPoolError::AlreadyInitialized);
        }
        self.admin = Some(admin);
        self.token = Some(token);
        self.treasury = Some(treasury);
        self.merchant_fund = Some(merchant_fund);
        Ok(())
    }

    /// The stored admin, or `NotInitialized` before `initialize`.
    pub fn get_admin(&self) -> (r: Result<u64, LiquidityPoolError>)
        ensures
            self.admin is Some ==> r == Ok::<_, LiquidityPoolError>(self.admin->0),
            self.admin is None ==> r == Err::<u64, _>(LiquidityPoolError::NotInitialized),
    {
        match self.admin {
            Some(a) => Ok(a),
            None => Err(LiquidityPoolError::NotInitialized),
        }
    }

    /// `Ok` exactly when `caller` is the stored admin.
    fn require_admin(&self, caller: u64) -> (r: Result<(), LiquidityPoolError>)
        ensures
            self.admin is None ==> r == Err::<(), _>(LiquidityPoolError::NotInitialized),
            self.admin is Some && self.admin->0 != caller ==> r == Err::<(), _>(
                LiquidityPoolError::NotAdmin,
            ),
            self.admin == Some(caller) ==> r is Ok,
    {
        match self.admin {
            None => Err(LiquidityPoolError::NotInitialized),
            Some(a) => if a == caller {
                Ok(())
            } else {
                Err(LiquidityPoolError::NotAdmin)
            },
        }
    }

    /// `Ok` exactly when `caller` is the registered credit-line contract.
    fn require_creditline(&self, caller: u64) -> (r: Result<(), LiquidityPoolError>)
        ensures
            r is Ok <==> self.creditline == Some(caller),
            r is Err ==> r == Err::<(), _>(LiquidityPoolError::NotCreditLine),
    {
        match self.creditline {
            Some(c) => if c == caller {
                Ok(())
            } else {
                Err(LiquidityPoolError::NotCreditLine)
            },
            None => Err(LiquidityPoolError::NotCreditLine),
        }
    }

    /// Register the credit-line contract allowed to drive loan operations;
    /// admin only.
    pub fn set_creditline(&mut self, caller: u64, creditline: u64) -> (r: Result<
        (),
        LiquidityPoolError,
    >)
        ensures
            old(self).admin is None ==> r == Err::<(), _>(LiquidityPoolError::NotInitialized),
            old(self).admin is Some && old(self).admin->0 != caller ==> r == Err::<(), _>(
                LiquidityPoolError::NotAdmin,
            ),
            old(self).admin == Some(caller) ==> r is Ok && final(self).creditline == Some(
                creditline,
            ),
            r is Err ==> *final(self) == *old(self),
            r is Ok ==> *final(self) == (LiquidityPoolContract {
                creditline: Some(creditline),
                ..*old(self)
            }),
            old(self).wf() ==> final(self).wf(),
    {
        self.require_admin(caller)?;
        self.creditline = Some(creditline);
        Ok(())
    }

    /// Update the protocol-fee recipient; admin only.
    pub fn set_treasury(&mut self, caller: u64, treasury: u64) -> (r: Result<
        (),
        LiquidityPoolError,
    >)
        ensures
            old(self).admin is None ==> r == Err::<(), _>(LiquidityPoolError::NotInitialized),
            old(self).admin is Some && old(self).admin->0 != caller ==> r == Err::<(), _>(
                LiquidityPoolError::NotAdmin,
            ),
            old(self).admin == Some(caller) ==> r is Ok,
            r is Err ==> *final(self) == *old(self),
            r is Ok ==> *final(self) == (LiquidityPoolContract {
                treasury: Some(treasury),
                ..*old(self)
            }),
            old(self).wf() ==> final(self).wf(),
    {
        self.require_admin(caller)?;
        self.treasury = Some(treasury);
        Ok(())
    }

    /// Update the merchant-incentive recipient; admin only.
    pub fn set_merchant_fund(&mut self, caller: u64, merchant_fund: u64) -> (r: Result<
        (),
        LiquidityPoolError,
    >)
        ensures
            old(self).admin is None ==> r == Err::<(), _>(LiquidityPoolError::NotInitialized),
            old(self).admin is Some && old(self).admin->0 != caller ==> r == Err::<(), _>(
                LiquidityPoolError::NotAdmin,
            ),
            old(self).admin == Some(caller) ==> r is Ok,
            r is Err ==> *final(self) == *old(self),
            r is Ok ==> *final(self) == (LiquidityPoolContract {
                merchant_fund: Some(merchant_fund),
                ..*old(self)
            }),
            old(self).wf() ==> final(self).wf(),
    {
        self.require_admin(caller)?;
        self.merchant_fund = Some(merchant_fund);
        Ok(())
    }

    /// Hand the admin role to `new_admin`. The host must have authenticated
    /// the current admin before calling.
    pub fn set_admin(&mut self, new_admin: u64) -> (r: Result<(), LiquidityPoolError>)
        ensures
            old(self).admin is None ==> r == Err::<(), _>(LiquidityPoolError::NotInitialized)
                && *final(self) == *old(self),
            old(self).admin is Some ==> r is Ok && *final(self) == (LiquidityPoolContract {
                admin: Some(new_admin),
                ..*old(self)
            }),
            old(self).wf() ==> final(self).wf(),
    {
        if self.admin.is_none() {
            return Err(LiquidityPoolError::NotInitialized);
        }
        self.admin = Some(new_admin);
        Ok(())
    }

    /// Deposit `amount` tokens for `provider` and issue shares: one per
    /// token into an empty pool, otherwise `floor(amount * total_shares /
    /// total_liquidity)`. The host transfers the tokens from the provider
    /// to the pool exactly when this returns `Ok`.
    pub fn deposit(&mut self, provider: u64, amount: i128) -> (r: Result<
        i128,
        LiquidityPoolError,
    >)
        requires
            old(self).wf(),
        ensures
            final(self).wf(),
            r is Ok <==> deposit_check(
                old(self).total_shares as int,
                old(self).total_liquidity as int,
                old(self).shares.bal(provider),
                amount as int,
            ) is None,
            r matches Err(e) ==> Some(e) == deposit_check(
                old(self).total_shares as int,
                old(self).total_liquidity as int,
                old(self).shares.bal(provider),
                amount as int,
            ) && *final(self) == *old(self),
            r matches Ok(sh) ==> {
                &&& sh == shares_for_deposit(
                    amount as int,
                    old(self).total_shares as int,
                    old(self).total_liquidity as int,
                )
                &&& sh > 0
                &&& final(self).total_shares == old(self).total_shares + sh
                &&& final(self).total_liquidity == old(self).total_liquidity + amount
                &&& final(self).locked_liquidity == old(self).locked_liquidity
                &&& final(self).shares.bal(provider) == old(self).shares.bal(provider) + sh
                &&& forall|b: u64|
                    b != provider ==> final(self).shares.bal(b) == old(self).shares.bal(b)
                &&& final(self).same_config(*old(self))
            },
    {
        if amount <= 0 {
            return Err(LiquidityPoolError::InvalidAmount);
        }
        let ts = self.total_shares;
        let tl = self.total_liquidity;
        let shares_issued: i128 = if ts == 0 || tl == 0 {
            amount
        } else {
            let p = match amount.checked_mul(ts) {
                Some(p) => p,
                None => {
                    proof {
                        assert(amount as int * ts as int > 0) by (nonlinear_arith)
                            requires
                                amount > 0,
                                ts > 0,
                        ;
                    }
                    return Err(LiquidityPoolError::Overflow);
                },
            };
            proof {
                assert(p >= 0) by (nonlinear_arith)
                    requires
                        amount > 0,
                        ts > 0,
                        p == amount as int * ts as int,
                ;
                lemma_div_bounds(p as int, tl as int);
            }
            p.checked_div(tl).unwrap()
        };
        if shares_issued <= 0 {
            return Err(LiquidityPoolError::InvalidAmount);
        }
        proof {
            lemma_bal_le_total(self.shares, provider);
        }
        let bal = self.shares.get(provider);
        let new_bal = match bal.checked_add(shares_issued) {
            Some(v) => v,
            None => { return Err(LiquidityPoolError::Overflow) },
        };
        let new_ts = match ts.checked_add(shares_issued) {
            Some(v) => v,
            None => { return Err(LiquidityPoolError::Overflow) },
        };
        let new_tl = match tl.checked_add(amount) {
            Some(v) => v,
            None => { return Err(LiquidityPoolError::Overflow) },
        };
        self.shares.set(provider, new_bal);
        self.total_shares = new_ts;
        self.total_liquidity = new_tl;
        Ok(shares_issued)
    }

    /// Burn `shares` of `provider`'s balance and pay out the proportional
    /// amount, `floor(shares * total_liquidity / total_shares)`, but only
    /// when that amount is covered by the unlocked liquidity. The host
    /// transfers the returned amount to the provider exactly when this
    /// returns `Ok`.
    pub fn withdraw(&mut self, provider: u64, shares: i128) -> (r: Result<
        i128,
        LiquidityPoolError,
    >)
        requires
            old(self).wf(),
        ensures
            final(self).wf(),
            r is Ok <==> withdraw_check(
                old(self).total_shares as int,
                old(self).total_liquidity as int,
                old(self).locked_liquidity as int,
                old(self).shares.bal(provider),
                shares as int,
            ) is None,
            r matches Err(e) ==> Some(e) == withdraw_check(
                old(self).total_shares as int,
                old(self).total_liquidity as int,
                old(self).locked_liquidity as int,
                old(self).shares.bal(provider),
                shares as int,
            ) && *final(self) == *old(self),
            r matches Ok(amount) ==> {
                &&& amount == payout_for_shares(
                    shares as int,
                    old(self).total_liquidity as int,
                    old(self).total_shares as int,
                )
                &&& 0 <= amount <= old(self).available()
                &&& final(self).total_shares == old(self).total_shares - shares
                &&& final(self).total_liquidity == old(self).total_liquidity - amount
                &&& final(self).locked_liquidity == old(self).locked_liquidity
                &&& final(self).shares.bal(provider) == old(self).shares.bal(provider) - shares
                &&& forall|b: u64|
                    b != provider ==> final(self).shares.bal(b) == old(self).shares.bal(b)
                &&& final(self).same_config(*old(self))
            },
    {
        if shares <= 0 {
            return Err(LiquidityPoolError::InvalidAmount);
        }
        let bal = self.shares.get(provider);
        if bal < shares {
            return Err(LiquidityPoolError::InsufficientShares);
        }
        let ts = self.total_shares;
        if ts == 0 {
            return Err(LiquidityPoolError::ZeroTotalShares);
        }
        let tl = self.total_liquidity;
        let locked = self.locked_liquidity;
        let available = tl - locked;
        proof {
            lemma_bal_le_total(self.shares, provider);
        }
        let p = match shares.checked_mul(tl) {
            Some(p) => p,
            None => {
                proof {
                    assert(shares as int * tl as int >= 0) by (nonlinear_arith)
                        requires
                            shares > 0,
                            tl >= 0,
                    ;
                }
                return Err(LiquidityPoolError::Overflow);
            },
        };
        proof {
            lemma_payout_bounds(shares as int, tl as int, ts as int);
        }
        let amount_returned = p.checked_div(ts).unwrap();
        if amount_returned > available {
            return Err(LiquidityPoolError::InsufficientLiquidity);
        }
        self.shares.set(provider, bal - shares);
        self.total_shares = ts - shares;
        self.total_liquidity = tl - amount_returned;
        Ok(amount_returned)
    }

    /// Mark `amount` of the pool's liquidity as disbursed into a loan. Only
    /// the registered credit-line contract may fund loans; the pool's total
    /// value is unchanged, only the locked portion grows. The host
    /// transfers the tokens to `merchant` exactly when this returns `Ok`.
    #[allow(unused_variables)]
    pub fn fund_loan(&mut self, caller: u64, merchant: u64, amount: i128) -> (r: Result<
        (),
        LiquidityPoolError,
    >)
        requires
            old(self).wf(),
        ensures
            final(self).wf(),
            old(self).creditline != Some(caller) ==> r == Err::<(), _>(
                LiquidityPoolError::NotCreditLine,
            ),
            old(self).creditline == Some(caller) && amount <= 0 ==> r == Err::<(), _>(
                LiquidityPoolError::InvalidAmount,
            ),
            old(self).creditline == Some(caller) && amount > 0 && amount > old(self).available()
                ==> r == Err::<(), _>(LiquidityPoolError::InsufficientLiquidity),
            r is Ok <==> old(self).creditline == Some(caller) && 0 < amount <= old(
                self,
            ).available(),
            r is Err ==> *final(self) == *old(self),
            r is Ok ==> *final(self) == (LiquidityPoolContract {
                locked_liquidity: (old(self).locked_liquidity + amount) as i128,
                ..*old(self)
            }),
    {
        self.require_creditline(caller)?;
        if amount <= 0 {
            return Err(LiquidityPoolError::InvalidAmount);
        }
        let available = self.total_liquidity - self.locked_liquidity;
        if amount > available {
            return Err(LiquidityPoolError::InsufficientLiquidity);
        }
        self.locked_liquidity = self.locked_liquidity + amount;
        Ok(())
    }

    /// Receive a repayment of `principal` plus `interest` from the
    /// credit-line contract: the principal unlocks and returns to the
    /// pool's value, the interest is split 85/10/5. The host transfers
    /// `principal + interest` in, pays the returned treasury and
    /// merchant-fund portions out, exactly when this returns `Ok`.
    pub fn receive_repayment(&mut self, caller: u64, principal: i128, interest: i128) -> (r:
        Result<InterestSplit, LiquidityPoolError>)
        requires
            old(self).wf(),
        ensures
            final(self).wf(),
            r is Err ==> *final(self) == *old(self),
            old(self).creditline != Some(caller) ==> r == Err::<InterestSplit, _>(
                LiquidityPoolError::NotCreditLine,
            ),
            old(self).creditline == Some(caller) ==> {
                if principal < 0 || interest < 0 {
                    r == Err::<InterestSplit, _>(LiquidityPoolError::InvalidAmount)
                } else if principal + interest > i128::MAX {
                    r == Err::<InterestSplit, _>(LiquidityPoolError::Overflow)
                } else if principal + interest <= 0 {
                    r == Err::<InterestSplit, _>(LiquidityPoolError::InvalidAmount)
                } else if principal > old(self).locked_liquidity {
                    r == Err::<InterestSplit, _>(LiquidityPoolError::Underflow)
                } else if old(self).total_liquidity + principal > i128::MAX {
                    r == Err::<InterestSplit, _>(LiquidityPoolError::Overflow)
                } else if interest > 0 && interest * LP_FEE_BPS > i128::MAX {
                    r == Err::<InterestSplit, _>(LiquidityPoolError::Overflow)
                } else if old(self).total_liquidity + principal + (if interest > 0 {
                    lp_cut(interest as int)
                } else {
                    0
                }) > i128::MAX {
                    r == Err::<InterestSplit, _>(LiquidityPoolError::Overflow)
                } else {
                    r matches Ok(split) && {
                        &&& split.lp_amount == if interest > 0 {
                            lp_cut(interest as int)
                        } else {
                            0
                        }
                        &&& split.protocol_amount == if interest > 0 {
                            protocol_cut(interest as int)
                        } else {
                            0
                        }
                        &&& split.merchant_amount == if interest > 0 {
                            merchant_cut(interest as int)
                        } else {
                            0
                        }
                        &&& final(self).locked_liquidity == old(self).locked_liquidity - principal
                        &&& final(self).total_liquidity == old(self).total_liquidity + principal
                            + split.lp_amount
                        &&& final(self).total_shares == old(self).total_shares
                        &&& final(self).shares == old(self).shares
                        &&& final(self).same_config(*old(self))
                    }
                }
            },
    {
        self.require_creditline(caller)?;
        if principal < 0 || interest < 0 {
            return Err(LiquidityPoolError::InvalidAmount);
        }
        let total = match principal.checked_add(interest) {
            Some(t) => t,
            None => { return Err(LiquidityPoolError::Overflow) },
        };
        if total <= 0 {
            return Err(LiquidityPoolError::InvalidAmount);
        }
        let locked = self.locked_liquidity;
        if principal > locked {
            return Err(LiquidityPoolError::Underflow);
        }
        let tl = self.total_liquidity;
        let after_principal = match tl.checked_add(principal) {
            Some(v) => v,
            None => { return Err(LiquidityPoolError::Overflow) },
        };
        let split = if interest > 0 {
            match self.split_interest(interest) {
                Ok(s) => s,
                Err(e) => { return Err(e) },
            }
        } else {
            InterestSplit { lp_amount: 0, protocol_amount: 0, merchant_amount: 0 }
        };
        let new_tl = match after_principal.checked_add(split.lp_amount) {
            Some(v) => v,
            None => { return Err(LiquidityPoolError::Overflow) },
        };
        self.locked_liquidity = locked - principal;
        self.total_liquidity = new_tl;
        Ok(split)
    }

    /// Receive a forfeited guarantee after a default. At most the currently
    /// locked amount is recovered into the pool's value; locked liquidity
    /// shrinks by the same recovered amount. The host transfers `amount` in
    /// exactly when this returns `Ok`.
    pub fn receive_guarantee(&mut self, caller: u64, amount: i128) -> (r: Result<
        (),
        LiquidityPoolError,
    >)
        requires
            old(self).wf(),
        ensures
            final(self).wf(),
            r is Err ==> *final(self) == *old(self),
            old(self).creditline != Some(caller) ==> r == Err::<(), _>(
                LiquidityPoolError::NotCreditLine,
            ),
            old(self).creditline == Some(caller) ==> {
                let recovered: int = if amount <= old(self).locked_liquidity {
                    amount as int
                } else {
                    old(self).locked_liquidity as int
                };
                if amount <= 0 {
                    r == Err::<(), _>(LiquidityPoolError::InvalidAmount)
                } else if old(self).total_liquidity + recovered > i128::MAX {
                    r == Err::<(), _>(LiquidityPoolError::Overflow)
                } else {
                    r is Ok && {
                        &&& final(self).locked_liquidity == old(self).locked_liquidity - recovered
                        &&& final(self).total_liquidity == old(self).total_liquidity + recovered
                        &&& final(self).total_shares == old(self).total_shares
                        &&& final(self).shares == old(self).shares
                        &&& final(self).same_config(*old(self))
                    }
                }
            },
    {
        self.require_creditline(caller)?;
        if amount <= 0 {
            return Err(LiquidityPoolError::InvalidAmount);
        }
        let locked = self.locked_liquidity;
        let recovered = if amount <= locked {
            amount
        } else {
            locked
        };
        let new_total = match self.total_liquidity.checked_add(recovered) {
            Some(v) => v,
            None => { return Err(LiquidityPoolError::Overflow) },
        };
        self.locked_liquidity = locked - recovered;
        self.total_liquidity = new_total;
        Ok(())
    }

    /// Compute the 85/10/5 split of a positive interest amount; pure, no
    /// state change.
    fn split_interest(&self, interest_amount: i128) -> (r: Result<
        InterestSplit,
        LiquidityPoolError,
    >)
        requires
            interest_amount > 0,
        ensures
            interest_amount * LP_FEE_BPS > i128::MAX ==> r == Err::<InterestSplit, _>(
                LiquidityPoolError::Overflow,
            ),
            interest_amount * LP_FEE_BPS <= i128::MAX ==> (r matches Ok(split) && {
                &&& split.lp_amount == lp_cut(interest_amount as int)
                &&& split.protocol_amount == protocol_cut(interest_amount as int)
                &&& split.merchant_amount == merchant_cut(interest_amount as int)
                &&& 0 <= split.lp_amount
                &&& 0 <= split.protocol_amount
                &&& 0 <= split.merchant_amount
                &&& split.lp_amount + split.protocol_amount + split.merchant_amount
                    == interest_amount
            }),
    {
        proof {
            lemma_fee_split_bounds(interest_amount as int);
            assert(interest_amount as int * PROTOCOL_FEE_BPS <= interest_amount as int
                * LP_FEE_BPS) by (nonlinear_arith)
                requires
                    interest_amount > 0,
            ;
        }
        let lp_scaled = match interest_amount.checked_mul(LP_FEE_BPS) {
            Some(v) => v,
            None => { return Err(LiquidityPoolError::Overflow) },
        };
        proof {
            lemma_div_bounds(lp_scaled as int, TOTAL_BPS as int);
            lemma_div_bounds(interest_amount as int * PROTOCOL_FEE_BPS, TOTAL_BPS as int);
        }
        let lp_amount = lp_scaled.checked_div(TOTAL_BPS).unwrap();
        let protocol_scaled = interest_amount.checked_mul(PROTOCOL_FEE_BPS).unwrap();
        let protocol_amount = protocol_scaled.checked_div(TOTAL_BPS).unwrap();
        let merchant_amount = interest_amount - lp_amount - protocol_amount;
        Ok(InterestSplit { lp_amount, protocol_amount, merchant_amount })
    }

    /// Split a positive interest amount 85/10/5 and add the
    /// liquidity-provider portion to the pool's value, raising the share
    /// price. The treasury and merchant-fund portions in the returned split
    /// are owed to those recipients when configured; the host pays them
    /// out. Callable directly as well as through `receive_repayment`.
    pub fn distribute_interest(&mut self, interest_amount: i128) -> (r: Result<
        InterestSplit,
        LiquidityPoolError,
    >)
        requires
            old(self).wf(),
        ensures
            final(self).wf(),
            r is Err ==> *final(self) == *old(self),
            interest_amount <= 0 ==> r == Err::<InterestSplit, _>(LiquidityPoolError::InvalidAmount),
            interest_amount > 0 && interest_amount * LP_FEE_BPS > i128::MAX ==> r == Err::<
                InterestSplit,
                _,
            >(LiquidityPoolError::Overflow),
            interest_amount > 0 && interest_amount * LP_FEE_BPS <= i128::MAX && old(
                self,
            ).total_liquidity + lp_cut(interest_amount as int) > i128::MAX ==> r == Err::<
                InterestSplit,
                _,
            >(LiquidityPoolError::Overflow),
            interest_amount > 0 && interest_amount * LP_FEE_BPS <= i128::MAX && old(
                self,
            ).total_liquidity + lp_cut(interest_amount as int) <= i128::MAX ==> (r matches Ok(split)
                && {
                &&& split.lp_amount == lp_cut(interest_amount as int)
                &&& split.protocol_amount == protocol_cut(interest_amount as int)
                &&& split.merchant_amount == merchant_cut(interest_amount as int)
                &&& split.lp_amount + split.protocol_amount + split.merchant_amount
                    == interest_amount
                &&& 0 <= split.lp_amount && 0 <= split.protocol_amount && 0 <= split.merchant_amount
                &&& *final(self) == (LiquidityPoolContract {
                    total_liquidity: (old(self).total_liquidity + split.lp_amount) as i128,
                    ..*old(self)
                })
            }),
    {
        if interest_amount <= 0 {
            return Err(LiquidityPoolError::InvalidAmount);
        }
        let split = match self.split_interest(interest_amount) {
            Ok(s) => s,
            Err(e) => { return Err(e) },
        };
        let new_total = match self.total_liquidity.checked_add(split.lp_amount) {
            Some(v) => v,
            None => { return Err(LiquidityPoolError::Overflow) },
        };
        self.total_liquidity = new_total;
        Ok(split)
    }

    /// Snapshot of the pool: totals, the locked/available division, and the
    /// share price in basis points (10000 while no shares are outstanding
    /// or when the price computation overflows).
    pub fn get_pool_stats(&self) -> (stats: PoolStats)
        requires
            self.wf(),
        ensures
            stats.total_liquidity == self.total_liquidity,
            stats.locked_liquidity == self.locked_liquidity,
            stats.available_liquidity == self.available(),
            stats.total_shares == self.total_shares,
            stats.share_price == if self.total_shares == 0 || self.total_liquidity * TOTAL_BPS
                > i128::MAX {
                TOTAL_BPS as int
            } else {
                (self.total_liquidity * TOTAL_BPS) / self.total_shares as int
            },
    {
        let total_liquidity = self.total_liquidity;
        let locked_liquidity = self.locked_liquidity;
        let available_liquidity = total_liquidity - locked_liquidity;
        let total_shares = self.total_shares;
        let share_price: i128 = if total_shares == 0 {
            TOTAL_BPS
        } else {
            match total_liquidity.checked_mul(TOTAL_BPS) {
                None => {
                    proof {
                        assert(total_liquidity as int * TOTAL_BPS >= 0) by (nonlinear_arith)
                            requires
                                total_liquidity >= 0,
                        ;
                    }
                    TOTAL_BPS
                },
                Some(scaled) => {
                    proof {
                        lemma_div_bounds(scaled as int, total_shares as int);
                    }
                    scaled.checked_div(total_shares).unwrap()
                },
            }
        };
        PoolStats {
            total_liquidity,
            locked_liquidity,
            available_liquidity,
            total_shares,
            share_price,
        }
    }

    /// The share balance of one provider (zero for an unknown address).
    pub fn get_lp_shares(&self, provider: u64) -> (r: i128)
        ensures
            r == self.shares.bal(provider),
    {
        self.shares.get(provider)
    }

    /// Quote how many tokens `shares` are worth at the current share
    /// price: zero for an empty pool, and zero instead of an error when the
    /// multiplication overflows.
    pub fn calculate_withdrawal(&self, shares: i128) -> (r: i128)
        requires
            self.wf(),
        ensures
            r == quoted_withdrawal(
                shares as int,
                self.total_liquidity as int,
                self.total_shares as int,
            ),
    {
        let ts = self.total_shares;
        if ts == 0 {
            return 0;
        }
        let tl = self.total_liquidity;
        match shares.checked_mul(tl) {
            None => 0,
            Some(p) => {
                proof {
                    if p >= 0 {
                        lemma_div_bounds(p as int, ts as int);
                    } else {
                        lemma_div_bounds(-(p as int), ts as int);
                    }
                }
                p.checked_div(ts).unwrap()
            },
        }
    }
}

/// Share conservation: in every well-formed pool state the outstanding
/// share total equals the sum of all providers' balances, and the locked
/// portion is within the pool's total value. Every operation of
/// `LiquidityPoolContract` requires and re-establishes well-formedness, and
/// `deposit` and `withdraw` change `total_liquidity` by exactly the tokens
/// moved, so along any sequence of deposits and withdrawals with no
/// interest the pool's value is exactly the net of what was paid in.
pub proof fn lemma_share_conservation(p: LiquidityPoolContract)
    requires
        p.wf(),
    ensures
        p.total_shares == p.shares.total(),
        0 <= p.locked_liquidity <= p.total_liquidity,
        forall|a: u64| 0 <= #[trigger] p.shares.bal(a) <= p.total_shares,
{
    assert forall|a: u64| 0 <= #[trigger] p.shares.bal(a) <= p.total_shares by {
        lemma_bal_le_total(p.shares, a);
    }
}

} // verus!
