//! The bonding ledger: per-account positions and time-locked unbonding
//! claim queues, and the bond/unbond/claim operations over them.
//!
//! Each account's claim queue is kept sorted by maturity time, ties in
//! creation order, so claims are always consumed strictly first-in
//! first-out. Every operation's contract states the exact queue
//! transformation and the exact step it takes in the aggregate accounting
//! machine of [`crate::conservation`].

use vstd::prelude::*;
use crate::dec::{Dec, SCALE, RATE_UNITS_CAP, mul_floor_units, div_floor_units, amount_div_rate, amount_mul_rate};
use crate::error::ContractError;
use crate::conservation::{Accounting, Action, apply_action, empty_accounting};

verus! {

/// Mandatory waiting period, in seconds, between an unbond request and the
/// claim becoming releasable.
pub const UNBOND_DURATION_SECS: u64 = 1_814_400;

/// A time-locked redemption created by an unbond: the base-asset amount
/// owed, fixed at enqueue time, and the time from which it may be claimed.
/// The amount never changes after creation; later rate movements do not
/// reprice it.
#[derive(Clone, Copy, Debug, PartialEq, Eq, Structural)]
pub struct UnbondClaim {
    /// Base-asset amount owed; always positive.
    pub amount: u64,
    /// Enqueue time plus the unbonding duration.
    pub maturity_time: u64,
}

/// Sum of the claim amounts of a queue.
pub open spec fn claims_amount(s: Seq<UnbondClaim>) -> int
    decreases s.len(),
{
    if s.len() == 0 {
        0
    } else {
        s[0].amount + claims_amount(s.drop_first())
    }
}

/// A well-formed claim queue: sorted by maturity time, all amounts
/// positive.
pub open spec fn claims_wf(s: Seq<UnbondClaim>) -> bool {
    &&& forall|i: int, j: int|
        0 <= i <= j < s.len() ==> s[i].maturity_time <= s[j].maturity_time
    &&& forall|i: int| 0 <= i < s.len() ==> s[i].amount > 0
}

/// Number of leading claims with maturity at or before `t`. In a sorted
/// queue these are exactly the matured claims; it is also the insertion
/// point that keeps ties in creation order.
pub open spec fn matured_count(s: Seq<UnbondClaim>, t: u64) -> int
    decreases s.len(),
{
    if s.len() == 0 {
        0
    } else if s[0].maturity_time <= t {
        1 + matured_count(s.drop_first(), t)
    } else {
        0
    }
}

/// Total amount of the matured claims at time `t`.
pub open spec fn matured_amount(s: Seq<UnbondClaim>, t: u64) -> int {
    claims_amount(s.take(matured_count(s, t)))
}

/// The queue with a new claim inserted after every claim of equal or
/// earlier maturity.
pub open spec fn enqueue_claim(s: Seq<UnbondClaim>, c: UnbondClaim) -> Seq<UnbondClaim> {
    s.insert(matured_count(s, c.maturity_time), c)
}

/// The queue after releasing `t` of value strictly from the front: whole
/// leading claims are removed while they fit, then the first remaining
/// claim is reduced by the rest.
pub open spec fn consume_claims(s: Seq<UnbondClaim>, t: int) -> Seq<UnbondClaim>
    decreases s.len(),
{
    if t <= 0 || s.len() == 0 {
        s
    } else if s[0].amount <= t {
        consume_claims(s.drop_first(), t - s[0].amount)
    } else {
        s.update(0, UnbondClaim { amount: (s[0].amount - t) as u64, maturity_time: s[0].maturity_time })
    }
}

pub proof fn lemma_claims_amount_nonneg(s: Seq<UnbondClaim>)
    ensures
        0 <= claims_amount(s),
    decreases s.len(),
{
    if s.len() != 0 {
        lemma_claims_amount_nonneg(s.drop_first());
    }
}

/// Extending a prefix by one element adds that element's amount.
pub proof fn lemma_claims_amount_take_succ(s: Seq<UnbondClaim>, i: int)
    requires
        0 <= i < s.len(),
    ensures
        claims_amount(s.take(i + 1)) == claims_amount(s.take(i)) + s[i].amount,
    decreases s.len(),
{
    if i == 0 {
        assert(s.take(1).drop_first() =~= s.take(0));
    } else {
        assert(s.take(i + 1).drop_first() =~= s.drop_first().take(i));
        assert(s.take(i).drop_first() =~= s.drop_first().take(i - 1));
        lemma_claims_amount_take_succ(s.drop_first(), i - 1);
    }
}

/// A queue's total is the total of any prefix plus the total of the rest.
pub proof fn lemma_claims_amount_split(s: Seq<UnbondClaim>, k: int)
    requires
        0 <= k <= s.len(),
    ensures
        claims_amount(s) == claims_amount(s.take(k)) + claims_amount(s.skip(k)),
    decreases k,
{
    if k == 0 {
        assert(s.skip(0) =~= s);
    } else {
        lemma_claims_amount_take_succ(s, k - 1);
        lemma_claims_amount_split(s, k - 1);
        assert(s.skip(k - 1).drop_first() =~= s.skip(k));
        if s.len() > 0 {
            assert(claims_amount(s.skip(k - 1)) == s[k - 1].amount + claims_amount(s.skip(k)));
        }
    }
}

/// Inserting a claim adds its amount to the total.
pub proof fn lemma_claims_amount_insert(s: Seq<UnbondClaim>, i: int, c: UnbondClaim)
    requires
        0 <= i <= s.len(),
    ensures
        claims_amount(s.insert(i, c)) == claims_amount(s) + c.amount,
    decreases s.len(),
{
    if i == 0 {
        assert(s.insert(0, c).drop_first() =~= s);
    } else {
        assert(s.insert(i, c).drop_first() =~= s.drop_first().insert(i - 1, c));
        lemma_claims_amount_insert(s.drop_first(), i - 1, c);
    }
}

/// Where the matured prefix ends in a sorted queue.
pub proof fn lemma_matured_count_props(s: Seq<UnbondClaim>, t: u64)
    requires
        claims_wf(s),
    ensures
        0 <= matured_count(s, t) <= s.len(),
        forall|j: int| 0 <= j < matured_count(s, t) ==> s[j].maturity_time <= t,
        matured_count(s, t) < s.len() ==> s[matured_count(s, t)].maturity_time > t,
    decreases s.len(),
{
    if s.len() != 0 && s[0].maturity_time <= t {
        assert(claims_wf(s.drop_first()));
        lemma_matured_count_props(s.drop_first(), t);
        assert forall|j: int| 0 <= j < matured_count(s, t) implies s[j].maturity_time <= t by {
            if j > 0 {
                assert(s.drop_first()[j - 1] == s[j]);
            }
        }
    }
}

/// Enqueueing a positive claim keeps the queue well-formed.
pub proof fn lemma_enqueue_wf(s: Seq<UnbondClaim>, c: UnbondClaim)
    requires
        claims_wf(s),
        c.amount > 0,
    ensures
        claims_wf(enqueue_claim(s, c)),
{
    let p = matured_count(s, c.maturity_time);
    lemma_matured_count_props(s, c.maturity_time);
    let s2 = s.insert(p, c);
    assert forall|i: int, j: int|
        0 <= i <= j < s2.len() implies s2[i].maturity_time <= s2[j].maturity_time by {
        if i < p && j > p {
            assert(s2[i] == s[i] && s2[j] == s[j - 1]);
        }
    }
}

/// Releasing `t` removes exactly `t` from the queue's total.
pub proof fn lemma_consume_amount(s: Seq<UnbondClaim>, t: int)
    requires
        0 <= t <= claims_amount(s),
    ensures
        claims_amount(consume_claims(s, t)) == claims_amount(s) - t,
    decreases s.len(),
{
    lemma_claims_amount_nonneg(s);
    if t <= 0 || s.len() == 0 {
    } else if s[0].amount <= t {
        lemma_claims_amount_nonneg(s.drop_first());
        lemma_consume_amount(s.drop_first(), t - s[0].amount);
    } else {
        let s2 = s.update(0, UnbondClaim { amount: (s[0].amount - t) as u64, maturity_time: s[0].maturity_time });
        assert(s2.drop_first() =~= s.drop_first());
    }
}

/// Releasing keeps the queue well-formed.
pub proof fn lemma_consume_wf(s: Seq<UnbondClaim>, t: int)
    requires
        claims_wf(s),
        0 <= t <= claims_amount(s),
    ensures
        claims_wf(consume_claims(s, t)),
    decreases s.len(),
{
    lemma_claims_amount_nonneg(s);
    if t <= 0 || s.len() == 0 {
    } else if s[0].amount <= t {
        assert(claims_wf(s.drop_first()));
        lemma_claims_amount_nonneg(s.drop_first());
        lemma_consume_wf(s.drop_first(), t - s[0].amount);
    } else {
        let s2 = s.update(0, UnbondClaim { amount: (s[0].amount - t) as u64, maturity_time: s[0].maturity_time });
        assert(claims_wf(s2));
    }
}

/// Law: first-in first-out claim ordering. For any three claims with
/// strictly increasing maturities of which at least the first two have
/// matured, releasing an amount that spans the first claim and part of the
/// second consumes all of the first, reduces the second by the rest, and
/// leaves the third untouched.
pub proof fn lemma_claim_fifo(c1: UnbondClaim, c2: UnbondClaim, c3: UnbondClaim, amt: int, now: u64)
    requires
        claims_wf(seq![c1, c2, c3]),
        c1.maturity_time < c2.maturity_time < c3.maturity_time,
        c2.maturity_time <= now,
        c1.amount <= amt < c1.amount + c2.amount,
    ensures
        amt <= matured_amount(seq![c1, c2, c3], now),
        consume_claims(seq![c1, c2, c3], amt) =~= seq![
            UnbondClaim { amount: (c1.amount + c2.amount - amt) as u64, maturity_time: c2.maturity_time },
            c3,
        ],
{
    let s = seq![c1, c2, c3];
    assert(s.drop_first() =~= seq![c2, c3]);
    assert(seq![c2, c3].drop_first() =~= seq![c3]);
    assert(seq![c3].drop_first() =~= Seq::<UnbondClaim>::empty());
    lemma_matured_count_props(s, now);
    assert(matured_count(s, now) == 1 + matured_count(seq![c2, c3], now));
    assert(matured_count(seq![c2, c3], now) == 1 + matured_count(seq![c3], now));
    assert(matured_count(seq![c3], now) >= 0);
    let mc = matured_count(s, now);
    assert(2 <= mc <= 3);
    assert(s.take(mc).take(2) =~= seq![c1, c2]);
    lemma_claims_amount_split(s.take(mc), 2);
    lemma_claims_amount_nonneg(s.take(mc).skip(2));
    assert(seq![c1, c2].drop_first() =~= seq![c2]);
    assert(seq![c2].drop_first() =~= Seq::<UnbondClaim>::empty());
    assert(claims_amount(Seq::<UnbondClaim>::empty()) == 0);
    assert(claims_amount(seq![c2]) == c2.amount + claims_amount(Seq::<UnbondClaim>::empty()));
    assert(claims_amount(seq![c1, c2]) == c1.amount + claims_amount(seq![c2]));
    assert(consume_claims(s, amt) == consume_claims(seq![c2, c3], amt - c1.amount));
    if amt == c1.amount {
        assert(consume_claims(seq![c2, c3], 0) == seq![c2, c3]);
        assert(seq![c2, c3] =~= seq![
            UnbondClaim { amount: (c1.amount + c2.amount - amt) as u64, maturity_time: c2.maturity_time },
            c3,
        ]);
    } else {
        let rest = amt - c1.amount;
        assert(consume_claims(seq![c2, c3], rest) == seq![c2, c3].update(
            0,
            UnbondClaim { amount: (c2.amount - rest) as u64, maturity_time: c2.maturity_time },
        ));
        assert(seq![c2, c3].update(
            0,
            UnbondClaim { amount: (c2.amount - rest) as u64, maturity_time: c2.maturity_time },
        ) =~= seq![
            UnbondClaim { amount: (c1.amount + c2.amount - amt) as u64, maturity_time: c2.maturity_time },
            c3,
        ]);
    }
}

/// Length of the matured prefix of a sorted queue.
fn matured_prefix_len(q: &Vec<UnbondClaim>, now: u64) -> (k: usize)
    requires
        claims_wf(q@),
    ensures
        k as int == matured_count(q@, now),
{
    proof {
        lemma_matured_count_props(q@, now);
    }
    let mut i: usize = 0;
    while i < q.len() && q[i].maturity_time <= now
        invariant
            claims_wf(q@),
            i <= q@.len(),
            forall|j: int| 0 <= j < i ==> q@[j].maturity_time <= now,
        decreases q@.len() - i,
    {
        i = i + 1;
    }
    proof {
        let mc = matured_count(q@, now);
        if (i as int) < mc {
            assert(q@[i as int].maturity_time <= now);
        }
        if mc < i as int {
            assert(q@[mc].maturity_time <= now);
        }
    }
    i
}

/// Sum of the first `k` claim amounts.
fn sum_prefix(q: &Vec<UnbondClaim>, k: usize) -> (s: u64)
    requires
        k <= q@.len(),
        claims_amount(q@.take(k as int)) <= u64::MAX,
    ensures
        s as int == claims_amount(q@.take(k as int)),
{
    let mut acc: u64 = 0;
    let mut i: usize = 0;
    while i < k
        invariant
            i <= k <= q@.len(),
            acc as int == claims_amount(q@.take(i as int)),
            claims_amount(q@.take(k as int)) <= u64::MAX,
        decreases k - i,
    {
        proof {
            lemma_claims_amount_take_succ(q@, i as int);
            assert(q@.take(k as int).take(i + 1) =~= q@.take(i + 1));
            lemma_claims_amount_split(q@.take(k as int), i + 1);
            lemma_claims_amount_nonneg(q@.take(k as int).skip(i + 1));
        }
        acc = acc + q[i].amount;
        i = i + 1;
    }
    acc
}

/// Inserts a claim after every claim of equal or earlier maturity, keeping
/// the queue sorted and ties in creation order.
fn insert_claim(q: &mut Vec<UnbondClaim>, c: UnbondClaim)
    requires
        claims_wf(old(q)@),
        c.amount > 0,
    ensures
        final(q)@ == enqueue_claim(old(q)@, c),
        claims_wf(final(q)@),
        claims_amount(final(q)@) == claims_amount(old(q)@) + c.amount,
{
    proof {
        lemma_matured_count_props(q@, c.maturity_time);
        lemma_enqueue_wf(q@, c);
        lemma_claims_amount_insert(q@, matured_count(q@, c.maturity_time), c);
    }
    let pos = matured_prefix_len(q, c.maturity_time);
    q.insert(pos, c);
}

/// Releases `t` of value from the front of the queue: removes whole leading
/// claims while they fit and reduces the first remaining claim by the rest.
fn consume_from_queue(q: &mut Vec<UnbondClaim>, t: u64)
    requires
        claims_wf(old(q)@),
        t as int <= claims_amount(old(q)@),
    ensures
        final(q)@ == consume_claims(old(q)@, t as int),
        claims_wf(final(q)@),
        claims_amount(final(q)@) == claims_amount(old(q)@) - t,
{
    proof {
        lemma_consume_amount(q@, t as int);
        lemma_consume_wf(q@, t as int);
    }
    let mut rem: u64 = t;
    while rem > 0
        invariant
            claims_wf(q@),
            rem as int <= claims_amount(q@),
            consume_claims(old(q)@, t as int) == consume_claims(q@, rem as int),
        decreases rem,
    {
        proof {
            if q@.len() == 0 {
                assert(claims_amount(q@) == 0);
            }
            lemma_claims_amount_nonneg(q@.drop_first());
        }
        let ghost q_prev = q@;
        let ghost rem_prev = rem;
        let c0 = q[0];
        if c0.amount <= rem {
            q.remove(0);
            proof {
                assert(q@ =~= q_prev.drop_first());
                assert(claims_wf(q@));
            }
            rem = rem - c0.amount;
        } else {
            let c = UnbondClaim { amount: c0.amount - rem, maturity_time: c0.maturity_time };
            q.remove(0);
            q.insert(0, c);
            proof {
                assert(q@ =~= q_prev.update(0, c));
                assert(claims_wf(q@));
                assert(q@.drop_first() =~= q_prev.drop_first());
                assert(consume_claims(q_prev, rem_prev as int) == q@);
                assert(consume_claims(q@, 0) == q@);
            }
            rem = 0;
        }
    }
}

/// Per-account position: the account identifier, the aggregate principal
/// ever contributed, the derivative token balance, and the account's claim
/// queue.
pub struct AccountRecord {
    /// Opaque account identifier resolved by the host environment.
    pub account: u64,
    /// Aggregate base-asset principal contributed by this account.
    pub principal: u64,
    /// Derivative token units held.
    pub vtoken_balance: u64,
    /// Outstanding unbonding claims, sorted by maturity.
    pub claims: Vec<UnbondClaim>,
}

/// Sum of all derivative token balances.
pub open spec fn balances_total(s: Seq<AccountRecord>) -> int
    decreases s.len(),
{
    if s.len() == 0 {
        0
    } else {
        s[0].vtoken_balance + balances_total(s.drop_first())
    }
}

/// Sum of all outstanding claim amounts across accounts.
pub open spec fn ledger_claims_total(s: Seq<AccountRecord>) -> int
    decreases s.len(),
{
    if s.len() == 0 {
        0
    } else {
        claims_amount(s[0].claims@) + ledger_claims_total(s.drop_first())
    }
}

/// No two records share an account identifier.
pub open spec fn distinct_accounts(s: Seq<AccountRecord>) -> bool {
    forall|i: int, j: int| 0 <= i < j < s.len() ==> s[i].account != s[j].account
}

/// Index of the first record of `account`, or -1 when there is none.
pub open spec fn account_index(s: Seq<AccountRecord>, account: u64) -> int
    decreases s.len(),
{
    if s.len() == 0 {
        -1
    } else if s[0].account == account {
        0
    } else {
        let r = account_index(s.drop_first(), account);
        if r < 0 {
            -1
        } else {
            1 + r
        }
    }
}

pub proof fn lemma_totals_nonneg(s: Seq<AccountRecord>)
    ensures
        0 <= balances_total(s),
        0 <= ledger_claims_total(s),
    decreases s.len(),
{
    if s.len() != 0 {
        lemma_claims_amount_nonneg(s[0].claims@);
        lemma_totals_nonneg(s.drop_first());
    }
}

/// Replacing one record adjusts both sums by the difference.
pub proof fn lemma_totals_update(s: Seq<AccountRecord>, i: int, r: AccountRecord)
    requires
        0 <= i < s.len(),
    ensures
        balances_total(s.update(i, r)) == balances_total(s) - s[i].vtoken_balance
            + r.vtoken_balance,
        ledger_claims_total(s.update(i, r)) == ledger_claims_total(s)
            - claims_amount(s[i].claims@) + claims_amount(r.claims@),
    decreases s.len(),
{
    if i == 0 {
        assert(s.update(0, r).drop_first() =~= s.drop_first());
    } else {
        assert(s.update(i, r).drop_first() =~= s.drop_first().update(i - 1, r));
        lemma_totals_update(s.drop_first(), i - 1, r);
    }
}

/// Appending a record adds its contributions to both sums.
pub proof fn lemma_totals_push(s: Seq<AccountRecord>, r: AccountRecord)
    ensures
        balances_total(s.push(r)) == balances_total(s) + r.vtoken_balance,
        ledger_claims_total(s.push(r)) == ledger_claims_total(s) + claims_amount(r.claims@),
    decreases s.len(),
{
    if s.len() == 0 {
        assert(s.push(r).drop_first() =~= Seq::<AccountRecord>::empty());
        assert(s.push(r)[0] == r);
        assert(balances_total(Seq::<AccountRecord>::empty()) == 0);
        assert(ledger_claims_total(Seq::<AccountRecord>::empty()) == 0);
    } else {
        assert(s.push(r).drop_first() =~= s.drop_first().push(r));
        assert(s.push(r)[0] == s[0]);
        lemma_totals_push(s.drop_first(), r);
    }
}

/// Removing a record subtracts its contributions from both sums.
pub proof fn lemma_totals_remove(s: Seq<AccountRecord>, i: int)
    requires
        0 <= i < s.len(),
    ensures
        balances_total(s.remove(i)) == balances_total(s) - s[i].vtoken_balance,
        ledger_claims_total(s.remove(i)) == ledger_claims_total(s)
            - claims_amount(s[i].claims@),
    decreases s.len(),
{
    if i == 0 {
        assert(s.remove(0) =~= s.drop_first());
    } else {
        assert(s.remove(i).drop_first() =~= s.drop_first().remove(i - 1));
        lemma_totals_remove(s.drop_first(), i - 1);
    }
}

/// One record's contribution never exceeds the sum.
pub proof fn lemma_record_le_totals(s: Seq<AccountRecord>, i: int)
    requires
        0 <= i < s.len(),
    ensures
        s[i].vtoken_balance <= balances_total(s),
        claims_amount(s[i].claims@) <= ledger_claims_total(s),
    decreases s.len(),
{
    if i == 0 {
        lemma_totals_nonneg(s.drop_first());
        lemma_claims_amount_nonneg(s[0].claims@);
    } else {
        lemma_record_le_totals(s.drop_first(), i - 1);
        lemma_claims_amount_nonneg(s[0].claims@);
    }
}

/// `account_index` finds the first record of the account, if any.
pub proof fn lemma_account_index_props(s: Seq<AccountRecord>, account: u64)
    ensures
        -1 <= account_index(s, account) < s.len(),
        account_index(s, account) >= 0 ==> s[account_index(s, account)].account == account,
        account_index(s, account) == -1 ==> forall|i: int|
            0 <= i < s.len() ==> s[i].account != account,
        forall|i: int| 0 <= i < account_index(s, account) ==> s[i].account != account,
    decreases s.len(),
{
    if s.len() != 0 && s[0].account != account {
        lemma_account_index_props(s.drop_first(), account);
        assert forall|i: int| 0 <= i < account_index(s, account) implies s[i].account != account by {
            if i > 0 {
                assert(s.drop_first()[i - 1] == s[i]);
            }
        }
        if account_index(s.drop_first(), account) < 0 {
            assert forall|i: int| 0 <= i < s.len() implies s[i].account != account by {
                if i > 0 {
                    assert(s.drop_first()[i - 1] == s[i]);
                }
            }
        }
    }
}

/// Finds the record of `account` in the ledger.
pub(crate) fn find_account(accounts: &Vec<AccountRecord>, account: u64) -> (r: Option<usize>)
    ensures
        match r {
            Some(i) => i as int == account_index(accounts@, account) && i < accounts@.len()
                && accounts@[i as int].account == account,
            None => account_index(accounts@, account) == -1,
        },
{
    proof {
        lemma_account_index_props(accounts@, account);
    }
    let mut i: usize = 0;
    while i < accounts.len() && accounts[i].account != account
        invariant
            i <= accounts@.len(),
            forall|j: int| 0 <= j < i ==> accounts@[j].account != account,
        decreases accounts@.len() - i,
    {
        i = i + 1;
    }
    if i < accounts.len() {
        proof {
            let idx = account_index(accounts@, account);
            if idx < i as int {
                assert(accounts@[idx].account != account);
            }
        }
        Some(i)
    } else {
        None
    }
}

/// The bonding ledger: every account's position and claim queue, with the
/// aggregate counters the conservation accounting speaks of.
pub struct BondingLedger {
    /// One record per account that holds a position or pending claims.
    pub accounts: Vec<AccountRecord>,
    /// Derivative token units outstanding; the sum of all balances.
    pub vtoken_supply: u64,
    /// Base asset currently held: deposits not yet released.
    pub working_capital: u64,
    /// Total base-asset principal ever bonded.
    pub total_deposited: u64,
    /// Total base asset ever released by claims.
    pub total_released: u64,
    /// Sum of all outstanding claim amounts.
    pub claims_total: u64,
    /// Scaled value retained by floor rounding, in fractional units.
    pub rounding_dust: u128,
}

/// An existing record after bonding `principal` for `minted` new units.
pub open spec fn bonded_record(rec: AccountRecord, principal: u64, minted: u64) -> AccountRecord {
    AccountRecord {
        account: rec.account,
        principal: (rec.principal + principal) as u64,
        vtoken_balance: (rec.vtoken_balance + minted) as u64,
        claims: rec.claims,
    }
}

/// How a bond reshapes the account records: the account's record gains the
/// principal and the minted units, or a fresh record is appended for a new
/// account.
pub open spec fn bond_accounts_shape(
    pre: Seq<AccountRecord>,
    post: Seq<AccountRecord>,
    account: u64,
    principal: u64,
    minted: u64,
) -> bool {
    let idx = account_index(pre, account);
    if idx >= 0 {
        post == pre.update(idx, bonded_record(pre[idx], principal, minted))
    } else {
        &&& post.len() == pre.len() + 1
        &&& (forall|j: int| 0 <= j < pre.len() ==> post[j] == pre[j])
        &&& post[pre.len() as int].account == account
        &&& post[pre.len() as int].principal == principal
        &&& post[pre.len() as int].vtoken_balance == minted
        &&& post[pre.len() as int].claims@ == Seq::<UnbondClaim>::empty()
    }
}

impl BondingLedger {
    /// Internal consistency: distinct accounts, sorted positive claim
    /// queues, counters equal to the sums they stand for, and deposits
    /// splitting exactly into releases and held capital.
    pub open spec fn wf(self) -> bool {
        &&& distinct_accounts(self.accounts@)
        &&& (forall|i: int|
            0 <= i < self.accounts@.len() ==> claims_wf(#[trigger] self.accounts@[i].claims@))
        &&& self.vtoken_supply as int == balances_total(self.accounts@)
        &&& self.claims_total as int == ledger_claims_total(self.accounts@)
        &&& self.total_deposited as int == self.total_released as int
            + self.working_capital as int
    }

    /// This ledger's aggregate accounting.
    pub open spec fn totals(self) -> Accounting {
        Accounting {
            deposited: self.total_deposited as int,
            released: self.total_released as int,
            working_capital: self.working_capital as int,
            vtoken_supply: self.vtoken_supply as int,
            claims_outstanding: self.claims_total as int,
            rounding_dust: self.rounding_dust as int,
        }
    }

    /// An empty ledger.
    pub fn new() -> (r: BondingLedger)
        ensures
            r.wf(),
            r.totals() == empty_accounting(),
            r.accounts@.len() == 0,
    {
        BondingLedger {
            accounts: Vec::new(),
            vtoken_supply: 0,
            working_capital: 0,
            total_deposited: 0,
            total_released: 0,
            claims_total: 0,
            rounding_dust: 0,
        }
    }

    /// Exactly when and why a bond fails: a zero principal, a premium rate
    /// under the gross-rate floor, or a quantity that overflows the machine
    /// representation.
    pub open spec fn bond_error(
        self,
        account: u64,
        principal: u64,
        rate: Dec,
        min_gross: Dec,
    ) -> Option<ContractError> {
        let minted = div_floor_units(principal as int, rate.units as int);
        let dust_add = (principal as int) * (SCALE as int) - minted * (rate.units as int);
        let idx = account_index(self.accounts@, account);
        if principal == 0 {
            Some(ContractError::InvalidAmount)
        } else if rate.units < min_gross.units {
            Some(ContractError::RateTooLow)
        } else if minted > u64::MAX {
            Some(ContractError::InvalidAmount)
        } else if self.total_deposited + principal > u64::MAX {
            Some(ContractError::InvalidAmount)
        } else if self.vtoken_supply + minted > u64::MAX {
            Some(ContractError::InvalidAmount)
        } else if idx >= 0 && self.accounts@[idx].principal + principal > u64::MAX {
            Some(ContractError::InvalidAmount)
        } else if self.rounding_dust + dust_add > u128::MAX {
            Some(ContractError::InvalidAmount)
        } else {
            None
        }
    }

    /// Locks `principal` of the base asset at the current premium rate and
    /// mints `principal / rate` derivative units, rounded down, to the
    /// account. Fails with `RateTooLow` whenever the rate is below the
    /// gross-rate floor; a failure leaves the ledger unchanged.
    pub fn bond(
        &mut self,
        account: u64,
        principal: u64,
        rate: Dec,
        min_gross: Dec,
    ) -> (r: Result<u64, ContractError>)
        requires
            old(self).wf(),
            0 < min_gross.units,
            rate.units <= RATE_UNITS_CAP,
        ensures
            final(self).wf(),
            match r {
                Ok(minted) => {
                    &&& old(self).bond_error(account, principal, rate, min_gross) is None
                    &&& minted as int == div_floor_units(principal as int, rate.units as int)
                    &&& (apply_action(
                        old(self).totals(),
                        rate.units as int,
                        Action::Bond { principal: principal as int },
                    ) == Some(final(self).totals()))
                    &&& bond_accounts_shape(
                        old(self).accounts@,
                        final(self).accounts@,
                        account,
                        principal,
                        minted,
                    )
                },
                Err(e) => {
                    &&& old(self).bond_error(account, principal, rate, min_gross) == Some(e)
                    &&& *final(self) == *old(self)
                },
            },
    {
        proof {
            lemma_account_index_props(self.accounts@, account);
        }
        if principal == 0 {
            return Err(ContractError::InvalidAmount);
        }
        if rate.units < min_gross.units {
            return Err(ContractError::RateTooLow);
        }
        let minted = match amount_div_rate(principal, rate) {
            None => {
                return Err(ContractError::InvalidAmount);
            },
            Some(m) => m,
        };
        if self.total_deposited > u64::MAX - principal {
            return Err(ContractError::InvalidAmount);
        }
        if self.vtoken_supply > u64::MAX - minted {
            return Err(ContractError::InvalidAmount);
        }
        let idx_opt = find_account(&self.accounts, account);
        match idx_opt {
            Some(i) => {
                if self.accounts[i].principal > u64::MAX - principal {
                    return Err(ContractError::InvalidAmount);
                }
            },
            None => {},
        }
        proof {
            lemma_mul_inequality_for_bond(principal);
        }
        let numerator: u128 = (principal as u128) * SCALE;
        let dust_add: u128 = numerator % rate.units;
        proof {
            vstd::arithmetic::div_mod::lemma_fundamental_div_mod(
                numerator as int,
                rate.units as int,
            );
        }
        if self.rounding_dust > u128::MAX - dust_add {
            return Err(ContractError::InvalidAmount);
        }

        let ghost pre = self.accounts@;
        match idx_opt {
            Some(i) => {
                proof {
                    lemma_record_le_totals(pre, i as int);
                }
                let mut rec = self.accounts.remove(i);
                rec.principal = rec.principal + principal;
                rec.vtoken_balance = rec.vtoken_balance + minted;
                self.accounts.insert(i, rec);
                proof {
                    let rec2 = bonded_record(pre[i as int], principal, minted);
                    assert(self.accounts@ =~= pre.update(i as int, rec2));
                    lemma_totals_update(pre, i as int, rec2);
                    assert(distinct_accounts(self.accounts@));
                }
            },
            None => {
                let rec = AccountRecord {
                    account,
                    principal,
                    vtoken_balance: minted,
                    claims: Vec::new(),
                };
                self.accounts.push(rec);
                proof {
                    lemma_totals_push(pre, self.accounts@.last());
                    assert(claims_wf(Seq::<UnbondClaim>::empty()));
                    assert(distinct_accounts(self.accounts@));
                }
            },
        }
        self.total_deposited = self.total_deposited + principal;
        self.working_capital = self.working_capital + principal;
        self.vtoken_supply = self.vtoken_supply + minted;
        self.rounding_dust = self.rounding_dust + dust_add;
        Ok(minted)
    }
}

/// The scaled principal of a bond fits in 128 bits.
proof fn lemma_mul_inequality_for_bond(principal: u64)
    ensures
        (principal as int) * (SCALE as int) <= (u64::MAX as int) * (SCALE as int),
{
    vstd::arithmetic::mul::lemma_mul_inequality(principal as int, u64::MAX as int, SCALE as int);
}

/// Law: floor enforcement. For every ledger state and every positive
/// principal, bonding fails with `RateTooLow` whenever the premium rate is
/// below the gross-rate floor; by [`BondingLedger::bond`]'s contract the
/// call then returns exactly that error and changes nothing.
pub proof fn lemma_bond_floor_enforced(
    l: BondingLedger,
    account: u64,
    principal: u64,
    rate: Dec,
    min_gross: Dec,
)
    requires
        principal > 0,
        rate.units < min_gross.units,
    ensures
        l.bond_error(account, principal, rate, min_gross) == Some(ContractError::RateTooLow),
{
}

/// How an unbond reshapes the account records: the account's balance drops
/// by the burnt units and the new claim is enqueued in maturity order;
/// everything else is untouched.
pub open spec fn unbond_accounts_shape(
    pre: Seq<AccountRecord>,
    post: Seq<AccountRecord>,
    idx: int,
    vtokens: u64,
    c: UnbondClaim,
) -> bool {
    &&& post.len() == pre.len()
    &&& (forall|j: int| 0 <= j < pre.len() && j != idx ==> post[j] == pre[j])
    &&& post[idx].account == pre[idx].account
    &&& post[idx].principal == pre[idx].principal
    &&& post[idx].vtoken_balance == pre[idx].vtoken_balance - vtokens
    &&& post[idx].claims@ == enqueue_claim(pre[idx].claims@, c)
}

/// How a claim reshapes the account records: the released value is consumed
/// from the front of the account's queue; a record left with no balance and
/// no claims is removed.
pub open spec fn claim_accounts_shape(
    pre: Seq<AccountRecord>,
    post: Seq<AccountRecord>,
    idx: int,
    released: u64,
) -> bool {
    let q2 = consume_claims(pre[idx].claims@, released as int);
    if pre[idx].vtoken_balance == 0 && q2.len() == 0 {
        post == pre.remove(idx)
    } else {
        &&& post.len() == pre.len()
        &&& (forall|j: int| 0 <= j < pre.len() && j != idx ==> post[j] == pre[j])
        &&& post[idx].account == pre[idx].account
        &&& post[idx].principal == pre[idx].principal
        &&& post[idx].vtoken_balance == pre[idx].vtoken_balance
        &&& post[idx].claims@ == q2
    }
}

impl BondingLedger {
    /// Exactly when and why an unbond fails: a quantity outside the range
    /// from one to the account's balance (`InsufficientBalance`), a claim
    /// that would round down to nothing, or a quantity that overflows the
    /// machine representation.
    pub open spec fn unbond_error(
        self,
        account: u64,
        vtokens: u64,
        rate: Dec,
        now: u64,
    ) -> Option<ContractError> {
        let idx = account_index(self.accounts@, account);
        let owed = mul_floor_units(vtokens as int, rate.units as int);
        let dust_add = (vtokens as int) * (rate.units as int) - owed * (SCALE as int);
        if vtokens == 0 {
            Some(ContractError::InsufficientBalance)
        } else if idx < 0 {
            Some(ContractError::InsufficientBalance)
        } else if self.accounts@[idx].vtoken_balance < vtokens {
            Some(ContractError::InsufficientBalance)
        } else if owed == 0 {
            Some(ContractError::InvalidAmount)
        } else if owed > u64::MAX {
            Some(ContractError::InvalidAmount)
        } else if self.claims_total + owed > u64::MAX {
            Some(ContractError::InvalidAmount)
        } else if now + UNBOND_DURATION_SECS > u64::MAX {
            Some(ContractError::InvalidAmount)
        } else if self.rounding_dust + dust_add > u128::MAX {
            Some(ContractError::InvalidAmount)
        } else {
            None
        }
    }

    /// Burns `vtokens` of the account's balance immediately and enqueues a
    /// time-locked claim for their value at the current premium rate,
    /// rounded down, maturing after the unbonding delay. The owed amount is
    /// fixed now; later rate movements do not reprice it. A failure leaves
    /// the ledger unchanged.
    pub fn unbond(
        &mut self,
        account: u64,
        vtokens: u64,
        rate: Dec,
        now: u64,
    ) -> (r: Result<UnbondClaim, ContractError>)
        requires
            old(self).wf(),
            rate.units <= RATE_UNITS_CAP,
        ensures
            final(self).wf(),
            match r {
                Ok(c) => {
                    &&& old(self).unbond_error(account, vtokens, rate, now) is None
                    &&& c.amount as int == mul_floor_units(vtokens as int, rate.units as int)
                    &&& c.maturity_time == now + UNBOND_DURATION_SECS
                    &&& (apply_action(
                        old(self).totals(),
                        rate.units as int,
                        Action::Unbond { vtokens: vtokens as int },
                    ) == Some(final(self).totals()))
                    &&& unbond_accounts_shape(
                        old(self).accounts@,
                        final(self).accounts@,
                        account_index(old(self).accounts@, account),
                        vtokens,
                        c,
                    )
                },
                Err(e) => {
                    &&& old(self).unbond_error(account, vtokens, rate, now) == Some(e)
                    &&& *final(self) == *old(self)
                },
            },
    {
        if vtokens == 0 {
            return Err(ContractError::InsufficientBalance);
        }
        let i = match find_account(&self.accounts, account) {
            None => {
                return Err(ContractError::InsufficientBalance);
            },
            Some(i) => i,
        };
        if self.accounts[i].vtoken_balance < vtokens {
            return Err(ContractError::InsufficientBalance);
        }
        let owed = match amount_mul_rate(vtokens, rate) {
            None => {
                return Err(ContractError::InvalidAmount);
            },
            Some(o) => o,
        };
        if owed == 0 {
            return Err(ContractError::InvalidAmount);
        }
        if self.claims_total > u64::MAX - owed {
            return Err(ContractError::InvalidAmount);
        }
        if now > u64::MAX - UNBOND_DURATION_SECS {
            return Err(ContractError::InvalidAmount);
        }
        proof {
            vstd::arithmetic::mul::lemma_mul_upper_bound(
                vtokens as int,
                u64::MAX as int,
                rate.units as int,
                RATE_UNITS_CAP as int,
            );
        }
        let numerator: u128 = (vtokens as u128) * rate.units;
        let dust_add: u128 = numerator % SCALE;
        proof {
            vstd::arithmetic::div_mod::lemma_fundamental_div_mod(numerator as int, SCALE as int);
        }
        if self.rounding_dust > u128::MAX - dust_add {
            return Err(ContractError::InvalidAmount);
        }

        let c = UnbondClaim { amount: owed, maturity_time: now + UNBOND_DURATION_SECS };
        let ghost pre = self.accounts@;
        proof {
            lemma_record_le_totals(pre, i as int);
        }
        let mut rec = self.accounts.remove(i);
        rec.vtoken_balance = rec.vtoken_balance - vtokens;
        insert_claim(&mut rec.claims, c);
        self.accounts.insert(i, rec);
        proof {
            assert(self.accounts@ =~= pre.update(i as int, self.accounts@[i as int]));
            lemma_totals_update(pre, i as int, self.accounts@[i as int]);
            assert(distinct_accounts(self.accounts@));
            assert forall|j: int|
                0 <= j < self.accounts@.len() implies claims_wf(
                #[trigger] self.accounts@[j].claims@,
            ) by {
                if j != i as int {
                    assert(self.accounts@[j] == pre[j]);
                }
            }
        }
        self.vtoken_supply = self.vtoken_supply - vtokens;
        self.claims_total = self.claims_total + owed;
        self.rounding_dust = self.rounding_dust + dust_add;
        Ok(c)
    }

    /// Exactly when and why a claim fails: no record, an explicit zero
    /// amount, nothing matured, an amount beyond the matured sum, or
    /// capital short of the release (the host transfer would fail, so the
    /// queue is left untouched).
    pub open spec fn claim_error(
        self,
        account: u64,
        amount: Option<u64>,
        now: u64,
    ) -> Option<ContractError> {
        let idx = account_index(self.accounts@, account);
        if idx < 0 {
            Some(ContractError::NothingToClaim)
        } else {
            let q = self.accounts@[idx].claims@;
            let m = matured_amount(q, now);
            let target: int = match amount {
                None => m,
                Some(a) => a as int,
            };
            if amount matches Some(a) && a == 0 {
                Some(ContractError::InvalidAmount)
            } else if m == 0 {
                Some(ContractError::NothingToClaim)
            } else if target > m {
                Some(ContractError::ClaimExceedsMatured)
            } else if target > self.working_capital {
                Some(ContractError::InsufficientBalance)
            } else {
                None
            }
        }
    }

    /// Releases matured claims of the account, oldest first: the requested
    /// amount, or everything matured when no amount is given. Whole leading
    /// claims are consumed and at most one claim is partially reduced;
    /// claims that have not matured are never touched. A failure leaves the
    /// ledger unchanged.
    pub fn claim(
        &mut self,
        account: u64,
        amount: Option<u64>,
        now: u64,
    ) -> (r: Result<u64, ContractError>)
        requires
            old(self).wf(),
        ensures
            final(self).wf(),
            match r {
                Ok(released) => {
                    &&& old(self).claim_error(account, amount, now) is None
                    &&& (match amount {
                        None => released as int == matured_amount(
                            old(self).accounts@[account_index(old(self).accounts@, account)].claims@,
                            now,
                        ),
                        Some(a) => released == a,
                    })
                    &&& released as int <= matured_amount(
                        old(self).accounts@[account_index(old(self).accounts@, account)].claims@,
                        now,
                    )
                    &&& (apply_action(
                        old(self).totals(),
                        1,
                        Action::Claim { amount: released as int },
                    ) == Some(final(self).totals()))
                    &&& claim_accounts_shape(
                        old(self).accounts@,
                        final(self).accounts@,
                        account_index(old(self).accounts@, account),
                        released,
                    )
                },
                Err(e) => {
                    &&& old(self).claim_error(account, amount, now) == Some(e)
                    &&& *final(self) == *old(self)
                },
            },
    {
        let i = match find_account(&self.accounts, account) {
            None => {
                return Err(ContractError::NothingToClaim);
            },
            Some(i) => i,
        };
        proof {
            lemma_record_le_totals(self.accounts@, i as int);
        }
        let k = matured_prefix_len(&self.accounts[i].claims, now);
        proof {
            let q = self.accounts@[i as int].claims@;
            lemma_matured_count_props(q, now);
            lemma_claims_amount_split(q, k as int);
            lemma_claims_amount_nonneg(q.skip(k as int));
            lemma_claims_amount_nonneg(q.take(k as int));
        }
        let m_total = sum_prefix(&self.accounts[i].claims, k);
        let target = match amount {
            None => m_total,
            Some(a) => {
                if a == 0 {
                    return Err(ContractError::InvalidAmount);
                }
                a
            },
        };
        if m_total == 0 {
            return Err(ContractError::NothingToClaim);
        }
        if target > m_total {
            return Err(ContractError::ClaimExceedsMatured);
        }
        if target > self.working_capital {
            return Err(ContractError::InsufficientBalance);
        }

        let ghost pre = self.accounts@;
        let mut rec = self.accounts.remove(i);
        consume_from_queue(&mut rec.claims, target);
        let keep = rec.vtoken_balance > 0 || rec.claims.len() > 0;
        if keep {
            self.accounts.insert(i, rec);
            proof {
                assert(self.accounts@ =~= pre.update(i as int, self.accounts@[i as int]));
                lemma_totals_update(pre, i as int, self.accounts@[i as int]);
                assert(distinct_accounts(self.accounts@));
                assert forall|j: int|
                    0 <= j < self.accounts@.len() implies claims_wf(
                    #[trigger] self.accounts@[j].claims@,
                ) by {
                    if j != i as int {
                        assert(self.accounts@[j] == pre[j]);
                    }
                }
            }
        } else {
            proof {
                lemma_totals_remove(pre, i as int);
                assert(self.accounts@ =~= pre.remove(i as int));
                assert forall|j: int, l: int|
                    0 <= j < l < self.accounts@.len() implies self.accounts@[j].account
                    != self.accounts@[l].account by {
                    if l < i as int {
                        assert(self.accounts@[j] == pre[j] && self.accounts@[l] == pre[l]);
                    } else if j < i as int {
                        assert(self.accounts@[j] == pre[j] && self.accounts@[l] == pre[l + 1]);
                    } else {
                        assert(self.accounts@[j] == pre[j + 1] && self.accounts@[l] == pre[l + 1]);
                    }
                }
                assert forall|j: int|
                    0 <= j < self.accounts@.len() implies claims_wf(
                    #[trigger] self.accounts@[j].claims@,
                ) by {
                    if j < i as int {
                        assert(self.accounts@[j] == pre[j]);
                    } else {
                        assert(self.accounts@[j] == pre[j + 1]);
                    }
                }
            }
        }
        self.claims_total = self.claims_total - target;
        self.working_capital = self.working_capital - target;
        self.total_released = self.total_released + target;
        Ok(target)
    }
}

/// Law: end-to-end redemption. Start from a ledger that does not know the
/// account; bond any principal, minting `m` units to the fresh record, then
/// unbond all `m`, freezing a claim `c` — the two shapes are exactly what
/// [`BondingLedger::bond`] and [`BondingLedger::unbond`] ensure, at whatever
/// premium rates were in force. The account is then left holding exactly
/// that one claim and no balance; once the claim matures and the capital
/// covers it, a full claim is owed success, releases exactly the frozen
/// amount `c.amount` — however the premium rate has moved in between — and
/// leaves the account's queue empty, destroying the emptied position.
pub proof fn lemma_bond_unbond_claim_round_trip(
    l0: BondingLedger,
    l1: BondingLedger,
    l2: BondingLedger,
    account: u64,
    principal: u64,
    m: u64,
    c: UnbondClaim,
    t_claim: u64,
)
    requires
        account_index(l0.accounts@, account) == -1,
        bond_accounts_shape(l0.accounts@, l1.accounts@, account, principal, m),
        unbond_accounts_shape(
            l1.accounts@,
            l2.accounts@,
            account_index(l1.accounts@, account),
            m,
            c,
        ),
        1 <= c.amount,
        c.maturity_time <= t_claim,
        c.amount <= l2.working_capital,
    ensures
        account_index(l2.accounts@, account) == l0.accounts@.len(),
        l2.accounts@[account_index(l2.accounts@, account)].claims@ == seq![c],
        l2.accounts@[account_index(l2.accounts@, account)].vtoken_balance == 0,
        matured_amount(seq![c], t_claim) == c.amount,
        l2.claim_error(account, None, t_claim) is None,
        consume_claims(seq![c], c.amount as int) == Seq::<UnbondClaim>::empty(),
        forall|post: Seq<AccountRecord>|
            claim_accounts_shape(l2.accounts@, post, account_index(l2.accounts@, account), c.amount)
                ==> post == l2.accounts@.remove(account_index(l2.accounts@, account)),
{
    let len0 = l0.accounts@.len() as int;
    lemma_account_index_props(l0.accounts@, account);

    // the fresh record sits at the end, so the account's index is len0
    let idx1 = account_index(l1.accounts@, account);
    lemma_account_index_props(l1.accounts@, account);
    assert(l1.accounts@[len0].account == account);
    assert(idx1 >= 0);
    if idx1 < len0 {
        assert(l1.accounts@[idx1] == l0.accounts@[idx1]);
        assert(l0.accounts@[idx1].account != account);
    }
    assert(idx1 == len0);

    // after the unbond the record holds exactly the one claim and no balance
    assert(l2.accounts@[len0].claims@ == enqueue_claim(l1.accounts@[len0].claims@, c));
    assert(matured_count(Seq::<UnbondClaim>::empty(), c.maturity_time) == 0);
    assert(Seq::<UnbondClaim>::empty().insert(0, c) =~= seq![c]);
    assert(l2.accounts@[len0].claims@ == seq![c]);
    assert(l2.accounts@[len0].vtoken_balance == 0);

    // the account's index is unchanged by the unbond
    let idx2 = account_index(l2.accounts@, account);
    lemma_account_index_props(l2.accounts@, account);
    assert(l2.accounts@[len0].account == account);
    assert(idx2 >= 0);
    if idx2 < len0 {
        assert(l2.accounts@[idx2] == l1.accounts@[idx2]);
        assert(l1.accounts@[idx2] == l0.accounts@[idx2]);
        assert(l0.accounts@[idx2].account != account);
    }
    assert(idx2 == len0);

    // the matured total of the singleton queue is the frozen amount
    assert(seq![c].drop_first() =~= Seq::<UnbondClaim>::empty());
    assert(matured_count(seq![c], t_claim) == 1 + matured_count(
        Seq::<UnbondClaim>::empty(),
        t_claim,
    ));
    assert(seq![c].take(1) =~= seq![c]);
    assert(claims_amount(Seq::<UnbondClaim>::empty()) == 0);
    assert(claims_amount(seq![c]) == c.amount);
    assert(matured_amount(seq![c], t_claim) == c.amount);

    // a full claim is owed success and consumes the whole queue
    assert(l2.claim_error(account, None, t_claim) is None);
    assert(consume_claims(Seq::<UnbondClaim>::empty(), 0) == Seq::<UnbondClaim>::empty());
    assert(consume_claims(seq![c], c.amount as int) == Seq::<UnbondClaim>::empty());
}

} // verus!
