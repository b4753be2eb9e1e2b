//! Credit-line loan lifecycle: creation gated on the borrower's reputation
//! score and a minimum guarantee, and the transition of an overdue loan to
//! `Defaulted`.
//!
//! The reputation oracle is an external collaborator: the caller queries it
//! and passes the score into `create_loan`; `mark_defaulted` returns the
//! borrower whose score the caller must then slash. Ledger storage, event
//! emission and authentication stay with the host shell.

use vstd::prelude::*;

verus! {

/// Minimum reputation score a borrower needs for a new loan.
pub const MIN_REPUTATION_SCORE: u32 = 50;

/// Error codes of the credit line. `MerchantNotActive`,
/// `InsufficientLiquidity` and `NotBorrower` are reserved for the
/// repayment flow and the registry and pool integrations, whose entry
/// points are specified but not yet part of the contract surface.
#[derive(Clone, Copy, Debug, PartialEq, Eq, Structural)]
pub enum CreditLineError {
    NotAdmin,
    InsufficientGuarantee,
    MerchantNotActive,
    InsufficientReputation,
    InsufficientLiquidity,
    LoanNotFound,
    LoanNotActive,
    NotBorrower,
    InvalidAmount,
    LoanNotOverdue,
    AlreadyInitialized,
    NotInitialized,
}

/// Lifecycle of a loan: `Active` until it is either fully repaid (`Paid`)
/// or marked overdue (`Defaulted`); both are terminal.
#[derive(Clone, Copy, Debug, PartialEq, Eq, Structural)]
pub enum LoanStatus {
    Active,
    Paid,
    Defaulted,
}

/// One installment of a repayment schedule.
#[derive(Clone, Copy, Debug, PartialEq, Eq, Structural)]
pub struct RepaymentInstallment {
    pub amount: i128,
    pub due_date: u64,
}

/// A stored loan record. All fields but `remaining_balance` and `status`
/// are immutable after creation.
#[derive(Debug)]
pub struct Loan {
    pub loan_id: u64,
    pub borrower: u64,
    pub merchant: u64,
    pub total_amount: i128,
    pub guarantee_amount: i128,
    pub remaining_balance: i128,
    pub repayment_schedule: Vec<RepaymentInstallment>,
    pub status: LoanStatus,
    pub created_at: u64,
}

/// The guarantee must be at least 20% of the loan amount.
pub open spec fn guarantee_sufficient(total: int, guarantee: int) -> bool {
    guarantee * 100 >= total * 20
}

/// A loan's overall maturity: the due date of the last installment.
pub open spec fn maturity(l: Loan) -> int
    recommends
        l.repayment_schedule@.len() >= 1,
{
    l.repayment_schedule@.last().due_date as int
}

/// What every stored loan satisfies: positive amounts, a sufficient
/// guarantee, and a schedule with at least one installment.
pub open spec fn loan_valid(l: Loan) -> bool {
    &&& l.total_amount > 0
    &&& l.guarantee_amount > 0
    &&& guarantee_sufficient(l.total_amount as int, l.guarantee_amount as int)
    &&& l.repayment_schedule@.len() >= 1
}

/// The error `create_loan` returns for the given inputs, or `None` when
/// the loan is created, with the validations in the order they are made:
/// amounts, guarantee threshold, reputation, schedule.
pub open spec fn create_loan_check(
    total: int,
    guarantee: int,
    score: u32,
    schedule_len: int,
) -> Option<CreditLineError> {
    if total <= 0 || guarantee <= 0 {
        Some(CreditLineError::InvalidAmount)
    } else if !guarantee_sufficient(total, guarantee) {
        Some(CreditLineError::InsufficientGuarantee)
    } else if score < MIN_REPUTATION_SCORE {
        Some(CreditLineError::InsufficientReputation)
    } else if schedule_len == 0 {
        Some(CreditLineError::InvalidAmount)
    } else {
        None
    }
}

/// The credit-line contract's stored state: configuration plus the loan
/// book. Loan ids are the 1-based positions in the book, so they are
/// unique, dense and never reused.
pub struct CreditLineContract {
    pub admin: Option<u64>,
    pub reputation_contract: Option<u64>,
    pub merchant_registry: Option<u64>,
    pub liquidity_pool: Option<u64>,
    pub loans: Vec<Loan>,
}

impl CreditLineContract {
    /// Every stored loan is valid and carries the id of its 1-based
    /// position, which makes ids unique and strictly increasing.
    pub open spec fn wf(self) -> bool {
        forall|i: int|
            0 <= i < self.loans@.len() ==> (#[trigger] self.loans@[i]).loan_id == i + 1
                && loan_valid(self.loans@[i])
    }

    /// The configuration fields a loan operation never touches.
    pub open spec fn same_config(self, other: Self) -> bool {
        &&& self.admin == other.admin
        &&& self.reputation_contract == other.reputation_contract
        &&& self.merchant_registry == other.merchant_registry
        &&& self.liquidity_pool == other.liquidity_pool
    }

    /// A fresh, uninitialized contract with an empty loan book.
    pub fn new() -> (r: Self)
        ensures
            r.wf(),
            r.admin is None,
            r.loans@.len() == 0,
    {
        CreditLineContract {
            admin: None,
            reputation_contract: None,
            merchant_registry: None,
            liquidity_pool: None,
            loans: Vec::new(),
        }
    }

    /// One-shot setup of the admin and the three collaborator contract
    /// addresses.
    pub fn initialize(
        &mut self,
        admin: u64,
        reputation_contract: u64,
        merchant_registry: u64,
        liquidity_pool: u64,
    ) -> (r: Result<(), CreditLineError>)
        ensures
            old(self).admin is Some ==> r == Err::<(), _>(CreditLineError::AlreadyInitialized)
                && *final(self) == *old(self),
            old(self).admin is None ==> r is Ok && *final(self) == (CreditLineContract {
                admin: Some(admin),
                reputation_contract: Some(reputation_contract),
                merchant_registry: Some(merchant_registry),
                liquidity_pool: Some(liquidity_pool),
                ..*old(self)
            }),
            old(self).wf() ==> final(self).wf(),
    {
        if self.admin.is_some() {
            return Err(CreditLineError::AlreadyInitialized);
        }
        self.admin = Some(admin);
        self.reputation_contract = Some(reputation_contract);
        self.merchant_registry = Some(merchant_registry);
        self.liquidity_pool = Some(liquidity_pool);
        Ok(())
    }

    /// The stored admin, or `NotInitialized` before `initialize`.
    pub fn get_admin(&self) -> (r: Result<u64, CreditLineError>)
        ensures
            self.admin is Some ==> r == Ok::<_, CreditLineError>(self.admin->0),
            self.admin is None ==> r == Err::<u64, _>(CreditLineError::NotInitialized),
    {
        match self.admin {
            Some(a) => Ok(a),
            None => Err(CreditLineError::NotInitialized),
        }
    }

    /// Hand the admin role to `new_admin`. The host must have
    /// authenticated the current admin before calling.
    pub fn set_admin(&mut self, new_admin: u64) -> (r: Result<(), CreditLineError>)
        ensures
            old(self).admin is None ==> r == Err::<(), _>(CreditLineError::NotInitialized)
                && *final(self) == *old(self),
            old(self).admin is Some ==> r is Ok && *final(self) == (CreditLineContract {
                admin: Some(new_admin),
                ..*old(self)
            }),
            old(self).wf() ==> final(self).wf(),
    {
        if self.admin.is_none() {
            return Err(CreditLineError::NotInitialized);
        }
        self.admin = Some(new_admin);
        Ok(())
    }

    /// `Ok` exactly when `caller` is the stored admin.
    fn require_admin(&self, caller: u64) -> (r: Result<(), CreditLineError>)
        ensures
            self.admin is None ==> r == Err::<(), _>(CreditLineError::NotInitialized),
            self.admin is Some && self.admin->0 != caller ==> r == Err::<(), _>(
                CreditLineError::NotAdmin,
            ),
            self.admin == Some(caller) ==> r is Ok,
    {
        match self.admin {
            None => Err(CreditLineError::NotInitialized),
            Some(a) => if a == caller {
                Ok(())
            } else {
                Err(CreditLineError::NotAdmin)
            },
        }
    }

    /// Point the contract at another reputation oracle; admin only.
    pub fn set_reputation_contract(&mut self, caller: u64, reputation_contract: u64) -> (r: Result<
        (),
        CreditLineError,
    >)
        ensures
            old(self).admin is None ==> r == Err::<(), _>(CreditLineError::NotInitialized),
            old(self).admin is Some && old(self).admin->0 != caller ==> r == Err::<(), _>(
                CreditLineError::NotAdmin,
            ),
            old(self).admin == Some(caller) ==> r is Ok,
            r is Err ==> *final(self) == *old(self),
            r is Ok ==> *final(self) == (CreditLineContract {
                reputation_contract: Some(reputation_contract),
                ..*old(self)
            }),
            old(self).wf() ==> final(self).wf(),
    {
        self.require_admin(caller)?;
        self.reputation_contract = Some(reputation_contract);
        Ok(())
    }

    /// Point the contract at another merchant registry; admin only.
    pub fn set_merchant_registry(&mut self, caller: u64, merchant_registry: u64) -> (r: Result<
        (),
        CreditLineError,
    >)
        ensures
            old(self).admin is None ==> r == Err::<(), _>(CreditLineError::NotInitialized),
            old(self).admin is Some && old(self).admin->0 != caller ==> r == Err::<(), _>(
                CreditLineError::NotAdmin,
            ),
            old(self).admin == Some(caller) ==> r is Ok,
            r is Err ==> *final(self) == *old(self),
            r is Ok ==> *final(self) == (CreditLineContract {
                merchant_registry: Some(merchant_registry),
                ..*old(self)
            }),
            old(self).wf() ==> final(self).wf(),
    {
        self.require_admin(caller)?;
        self.merchant_registry = Some(merchant_registry);
        Ok(())
    }

    /// Point the contract at another liquidity pool; admin only.
    pub fn set_liquidity_pool(&mut self, caller: u64, liquidity_pool: u64) -> (r: Result<
        (),
        CreditLineError,
    >)
        ensures
            old(self).admin is None ==> r == Err::<(), _>(CreditLineError::NotInitialized),
            old(self).admin is Some && old(self).admin->0 != caller ==> r == Err::<(), _>(
                CreditLineError::NotAdmin,
            ),
            old(self).admin == Some(caller) ==> r is Ok,
            r is Err ==> *final(self) == *old(self),
            r is Ok ==> *final(self) == (CreditLineContract {
                liquidity_pool: Some(liquidity_pool),
                ..*old(self)
            }),
            old(self).wf() ==> final(self).wf(),
    {
        self.require_admin(caller)?;
        self.liquidity_pool = Some(liquidity_pool);
        Ok(())
    }

    /// Create a loan for `borrower`, validating the amounts, the 20%
    /// guarantee threshold, the borrower's reputation score (queried from
    /// the oracle by the caller) and the schedule, in that order. On
    /// success the loan is stored `Active` with the next sequential id,
    /// which is returned; a failed call leaves the loan book unchanged, so
    /// failures never consume an id.
    pub fn create_loan(
        &mut self,
        borrower: u64,
        merchant: u64,
        total_amount: i128,
        guarantee_amount: i128,
        repayment_schedule: Vec<RepaymentInstallment>,
        borrower_score: u32,
        now: u64,
    ) -> (r: Result<u64, CreditLineError>)
        requires
            old(self).wf(),
            old(self).loans@.len() < u64::MAX,
        ensures
            final(self).wf(),
            r is Ok <==> create_loan_check(
                total_amount as int,
                guarantee_amount as int,
                borrower_score,
                repayment_schedule@.len() as int,
            ) is None,
            r matches Err(e) ==> Some(e) == create_loan_check(
                total_amount as int,
                guarantee_amount as int,
                borrower_score,
                repayment_schedule@.len() as int,
            ) && *final(self) == *old(self),
            r matches Ok(id) ==> {
                &&& id == old(self).loans@.len() + 1
                &&& final(self).loans@ == old(self).loans@.push(
                    Loan {
                        loan_id: id,
                        borrower,
                        merchant,
                        total_amount,
                        guarantee_amount,
                        remaining_balance: total_amount,
                        repayment_schedule,
                        status: LoanStatus::Active,
                        created_at: now,
                    },
                )
                &&& final(self).same_config(*old(self))
            },
    {
        if total_amount <= 0 || guarantee_amount <= 0 {
            return Err(CreditLineError::InvalidAmount);
        }
        proof {
            crate::math::lemma_guarantee_threshold(
                guarantee_amount as int,
                total_amount as int,
            );
            crate::math::lemma_div_bounds(total_amount as int, 5);
        }
        let fifth = total_amount.checked_div(5).unwrap();
        let rem = total_amount.checked_rem(5).unwrap();
        let min_guarantee = if rem == 0 {
            fifth
        } else {
            fifth + 1
        };
        if guarantee_amount < min_guarantee {
            return Err(CreditLineError::InsufficientGuarantee);
        }
        if borrower_score < MIN_REPUTATION_SCORE {
            return Err(CreditLineError::InsufficientReputation);
        }
        if repayment_schedule.len() == 0 {
            return Err(CreditLineError::InvalidAmount);
        }
        let loan_id = (self.loans.len() as u64) + 1;
        let loan = Loan {
            loan_id,
            borrower,
            merchant,
            total_amount,
            guarantee_amount,
            remaining_balance: total_amount,
            repayment_schedule,
            status: LoanStatus::Active,
            created_at: now,
        };
        self.loans.push(loan);
        Ok(loan_id)
    }

    /// Look up a loan by id.
    pub fn get_loan(&self, loan_id: u64) -> (r: Result<&Loan, CreditLineError>)
        ensures
            r is Ok <==> 1 <= loan_id <= self.loans@.len(),
            r matches Ok(l) ==> *l == self.loans@[loan_id as int - 1],
            r is Err ==> r == Err::<&Loan, _>(CreditLineError::LoanNotFound),
    {
        if loan_id >= 1 && loan_id <= self.loans.len() as u64 {
            Ok(&self.loans[(loan_id - 1) as usize])
        } else {
            Err(CreditLineError::LoanNotFound)
        }
    }

    /// Transition an overdue loan from `Active` to `Defaulted`. Overdue
    /// means strictly past the last installment's due date: at `now` equal
    /// to the due date the loan is not yet overdue. Returns the borrower,
    /// whose reputation the caller must slash. Only the defaulted loan's
    /// status changes; every other field and loan is untouched.
    pub fn mark_defaulted(&mut self, loan_id: u64, now: u64) -> (r: Result<u64, CreditLineError>)
        requires
            old(self).wf(),
        ensures
            final(self).wf(),
            r is Err ==> *final(self) == *old(self),
            !(1 <= loan_id <= old(self).loans@.len()) ==> r == Err::<u64, _>(
                CreditLineError::LoanNotFound,
            ),
            1 <= loan_id <= old(self).loans@.len() && !(old(self).loans@[loan_id as int - 1].status
                is Active) ==> r == Err::<u64, _>(CreditLineError::LoanNotActive),
            1 <= loan_id <= old(self).loans@.len() && old(self).loans@[loan_id as int - 1].status
                is Active && now <= maturity(old(self).loans@[loan_id as int - 1]) ==> r == Err::<
                u64,
                _,
            >(CreditLineError::LoanNotOverdue),
            1 <= loan_id <= old(self).loans@.len() && old(self).loans@[loan_id as int - 1].status
                is Active && now > maturity(old(self).loans@[loan_id as int - 1]) ==> {
                let i = loan_id as int - 1;
                let before = old(self).loans@[i];
                let after = final(self).loans@[i];
                &&& r == Ok::<_, CreditLineError>(before.borrower)
                &&& final(self).loans@.len() == old(self).loans@.len()
                &&& after.status is Defaulted
                &&& after.loan_id == before.loan_id
                &&& after.borrower == before.borrower
                &&& after.merchant == before.merchant
                &&& after.total_amount == before.total_amount
                &&& after.guarantee_amount == before.guarantee_amount
                &&& after.remaining_balance == before.remaining_balance
                &&& after.repayment_schedule == before.repayment_schedule
                &&& after.created_at == before.created_at
                &&& forall|j: int|
                    0 <= j < old(self).loans@.len() && j != i ==> final(self).loans@[j] == old(
                        self,
                    ).loans@[j]
                &&& final(self).same_config(*old(self))
            },
    {
        if loan_id < 1 || loan_id > self.loans.len() as u64 {
            return Err(CreditLineError::LoanNotFound);
        }
        let idx = (loan_id - 1) as usize;
        let overdue: bool;
        let borrower: u64;
        {
            let l = &self.loans[idx];
            match l.status {
                LoanStatus::Active => {},
                _ => { return Err(CreditLineError::LoanNotActive) },
            }
            let last = l.repayment_schedule[l.repayment_schedule.len() - 1];
            overdue = now > last.due_date;
            borrower = l.borrower;
        }
        if !overdue {
            return Err(CreditLineError::LoanNotOverdue);
        }
        let ghost before = self.loans@;
        let mut loan = self.loans.remove(idx);
        loan.status = LoanStatus::Defaulted;
        self.loans.insert(idx, loan);
        proof {
            assert(self.loans@ =~= before.update(
                idx as int,
                Loan { status: LoanStatus::Defaulted, ..before[idx as int] },
            ));
        }
        Ok(borrower)
    }

    /// The contract's build tag.
    pub fn get_version() -> (r: &'static str)
        ensures
            r@ == "v1_0_0"@,
    {
        "v1_0_0"
    }
}

/// Loan ids are handed out as 1, 2, 3, … in creation order: in any
/// well-formed loan book the ids are strictly increasing with position,
/// hence unique. Together with `create_loan`'s contract — a failed call
/// leaves the book unchanged and a successful one appends id
/// `len + 1` — successive successful creations return consecutive ids.
pub proof fn lemma_loan_ids_sequential(c: CreditLineContract, i: int, j: int)
    requires
        c.wf(),
        0 <= i < j < c.loans@.len(),
    ensures
        c.loans@[i].loan_id < c.loans@[j].loan_id,
        c.loans@[i].loan_id == i + 1,
{
}

} // verus!
