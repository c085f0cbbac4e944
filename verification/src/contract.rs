use vstd::prelude::*;
use vstd::string::StringExecFns;

use crate::error::ContractError;
use crate::msg::BalanceKind;
use crate::msg::ExecuteMsg;
use crate::msg::InstantiateMsg;
use crate::msg::QueryAnswer;
use crate::msg::QueryMsg;
use crate::msg::TransferInstruction;
use crate::order::str_cmp;
use crate::outcomes::OutcomeEntry;
use crate::outcomes::count_consumed;
use crate::outcomes::find_first_unconsumed;
use crate::outcomes::lemma_claim_consumes_exactly_one;
use crate::outcomes::has_job;
use crate::outcomes::has_unconsumed;
use crate::outcomes::insert_outcome;
use crate::outcomes::is_first_unconsumed;
use crate::outcomes::lemma_first_unconsumed_unique;
use crate::outcomes::outcome_of;
use crate::outcomes::outcomes_wf;
use crate::outcomes::same_job;
use crate::outcomes::selected_index;
use crate::randomness::nois_pick;
use crate::state::BalanceEntry;
use crate::state::Points;
use crate::state::State;
use crate::state::available_of;
use crate::state::balance_of;
use crate::state::find_account;
use crate::state::has_account;
use crate::state::lemma_balance_at;
use crate::state::same_account;

verus! {

/// The whole persisted store that every transaction reads and rewrites:
/// the ledger state, the configured oracle proxy address, and the
/// randomness outcomes received so far.
pub struct Store {
    pub state: State,
    pub nois_proxy: String,
    pub outcomes: Vec<OutcomeEntry>,
}

impl Store {
    /// The ledger is well formed and the outcome store is sorted with
    /// 32-byte random values.
    pub open spec fn wf(self) -> bool {
        &&& self.state.wf()
        &&& outcomes_wf(self.outcomes@)
    }
}

/// The account has earned points at some time: a claimant must satisfy
/// this before any other claim condition is examined.
pub open spec fn claim_eligible(pre: Store, address: Seq<char>) -> bool {
    &&& has_account(pre.state.balances@, address)
    &&& balance_of(pre.state.balances@, address).lifetime_balance > 0
}

/// What a successful claim does to the store, and what it returns.
pub open spec fn claim_ok_spec(
    pre: Store,
    post: Store,
    address: Seq<char>,
    ti: TransferInstruction,
) -> bool {
    let k = selected_index(pre.outcomes@);
    let idx = nois_pick(
        pre.outcomes@[k].randomness@,
        0,
        (pre.state.prize_pool@.len() - 1) as usize,
    );
    &&& is_first_unconsumed(pre.outcomes@, k)
    &&& count_consumed(post.outcomes@) == count_consumed(pre.outcomes@) + 1
    &&& post.outcomes@.len() == pre.outcomes@.len()
    &&& post.outcomes@[k].job_id@ == pre.outcomes@[k].job_id@
    &&& post.outcomes@[k].randomness@ == pre.outcomes@[k].randomness@
    &&& post.outcomes@[k].consumed == true
    &&& forall|j: int| 0 <= j < pre.outcomes@.len() && j != k
        ==> post.outcomes@[j] == pre.outcomes@[j]
    &&& 0 <= idx < pre.state.prize_pool@.len()
    &&& ti.contract_addr@ == pre.state.prize_pool@[idx as int].0@
    &&& ti.token_id@ == pre.state.prize_pool@[idx as int].1@
    &&& ti.recipient@ == address
    &&& post.state.prize_pool@.len() == pre.state.prize_pool@.len() - 1
    &&& post.state.prize_pool@ == pre.state.prize_pool@.remove(idx as int)
    &&& has_account(post.state.balances@, address)
    &&& balance_of(post.state.balances@, address).lifetime_balance == balance_of(
        pre.state.balances@,
        address,
    ).lifetime_balance
    &&& balance_of(post.state.balances@, address).spent_balance == balance_of(
        pre.state.balances@,
        address,
    ).spent_balance + pre.state.prize_cost
    &&& available_of(post.state.balances@, address) == available_of(pre.state.balances@, address)
        - pre.state.prize_cost
    &&& forall|a: Seq<char>| a != address
        ==> #[trigger] same_account(pre.state.balances@, post.state.balances@, a)
    &&& post.state.admin@ == pre.state.admin@
    &&& post.state.symbol@ == pre.state.symbol@
    &&& post.state.short_description@ == pre.state.short_description@
    &&& post.state.locked == pre.state.locked
    &&& post.state.prize_cost == pre.state.prize_cost
    &&& post.state.whitelist@ == pre.state.whitelist@
    &&& post.nois_proxy@ == pre.nois_proxy@
}

/// The full contract of a claim: which result comes back on which store,
/// in the fixed order the checks run, and that a failed claim changes
/// nothing at all.
pub open spec fn claim_spec(
    pre: Store,
    post: Store,
    address: Seq<char>,
    addr_valid: bool,
    r: Result<TransferInstruction, ContractError>,
) -> bool {
    let eligible = claim_eligible(pre, address);
    let rnd_ok = has_unconsumed(pre.outcomes@);
    let avail_ok = available_of(pre.state.balances@, address) >= pre.state.prize_cost;
    let pool_ok = pre.state.prize_pool@.len() > 0;
    &&& (r is Ok <==> addr_valid && eligible && rnd_ok && avail_ok && pool_ok)
    &&& (r == Err::<TransferInstruction, ContractError>(ContractError::InvalidAddress)
        <==> !addr_valid)
    &&& (r == Err::<TransferInstruction, ContractError>(ContractError::Unauthorized)
        <==> addr_valid && (!eligible || (rnd_ok && !avail_ok)))
    &&& (r == Err::<TransferInstruction, ContractError>(ContractError::NoRandomnessAvailable)
        <==> addr_valid && eligible && !rnd_ok)
    &&& (r == Err::<TransferInstruction, ContractError>(ContractError::EmptyPrizePool)
        <==> addr_valid && eligible && rnd_ok && avail_ok && !pool_ok)
    &&& (r is Err ==> post == pre)
    &&& (match r {
        Ok(ti) => claim_ok_spec(pre, post, address, ti),
        Err(_) => true,
    })
}

/// What a randomness callback does: authentication, validation,
/// anti-replay, and the stored outcome on success.
pub open spec fn receive_spec(
    pre: Store,
    post: Store,
    sender: Seq<char>,
    job_id: Seq<char>,
    randomness: Seq<u8>,
    r: Result<(), ContractError>,
) -> bool {
    let from_proxy = sender == pre.nois_proxy@;
    let len_ok = randomness.len() == 32;
    let fresh = !has_job(pre.outcomes@, job_id);
    &&& (r == Err::<(), ContractError>(ContractError::UnauthorizedOracleCallback)
        <==> !from_proxy)
    &&& (r == Err::<(), ContractError>(ContractError::InvalidRandomness)
        <==> from_proxy && !len_ok)
    &&& (r == Err::<(), ContractError>(ContractError::JobIdAlreadyPresent)
        <==> from_proxy && len_ok && !fresh)
    &&& (r is Ok <==> from_proxy && len_ok && fresh)
    &&& (r is Err ==> post == pre)
    &&& (r is Ok ==> {
        &&& post.outcomes@.len() == pre.outcomes@.len() + 1
        &&& has_job(post.outcomes@, job_id)
        &&& outcome_of(post.outcomes@, job_id).randomness@ == randomness
        &&& outcome_of(post.outcomes@, job_id).consumed == false
        &&& forall|id: Seq<char>| id != job_id ==> #[trigger] same_job(
            pre.outcomes@,
            post.outcomes@,
            id,
        )
        &&& post.state == pre.state
        &&& post.nois_proxy@ == pre.nois_proxy@
    })
}

/// What a prize deposit does: appends one pool entry, touches nothing
/// else, and never fails.
pub open spec fn deposit_spec(
    pre: Store,
    post: Store,
    sender: Seq<char>,
    token_id: Seq<char>,
) -> bool {
    &&& post.state.prize_pool@.len() == pre.state.prize_pool@.len() + 1
    &&& post.state.prize_pool@.last().0@ == sender
    &&& post.state.prize_pool@.last().1@ == token_id
    &&& post.state.prize_pool@.drop_last() == pre.state.prize_pool@
    &&& post.state.admin@ == pre.state.admin@
    &&& post.state.symbol@ == pre.state.symbol@
    &&& post.state.short_description@ == pre.state.short_description@
    &&& post.state.balances@ == pre.state.balances@
    &&& post.state.locked == pre.state.locked
    &&& post.state.prize_cost == pre.state.prize_cost
    &&& post.state.whitelist@ == pre.state.whitelist@
    &&& post.nois_proxy@ == pre.nois_proxy@
    &&& post.outcomes@ == pre.outcomes@
}

/// What an admin transfer does: only the admin may hand the role on.
pub open spec fn set_admin_spec(
    pre: Store,
    post: Store,
    sender: Seq<char>,
    address: Seq<char>,
    r: Result<(), ContractError>,
) -> bool {
    &&& (r is Ok <==> sender == pre.state.admin@)
    &&& (r is Err ==> r == Err::<(), ContractError>(ContractError::Unauthorized) && post == pre)
    &&& (r is Ok ==> {
        &&& post.state.admin@ == address
        &&& post.state.symbol@ == pre.state.symbol@
        &&& post.state.short_description@ == pre.state.short_description@
        &&& post.state.balances@ == pre.state.balances@
        &&& post.state.locked == pre.state.locked
        &&& post.state.prize_pool@ == pre.state.prize_pool@
        &&& post.state.prize_cost == pre.state.prize_cost
        &&& post.state.whitelist@ == pre.state.whitelist@
        &&& post.nois_proxy@ == pre.nois_proxy@
        &&& post.outcomes@ == pre.outcomes@
    })
}

/// What a prize-cost change does: only the admin may set the cost.
pub open spec fn set_prize_cost_spec(
    pre: Store,
    post: Store,
    sender: Seq<char>,
    cost: u64,
    r: Result<(), ContractError>,
) -> bool {
    &&& (r is Ok <==> sender == pre.state.admin@)
    &&& (r is Err ==> r == Err::<(), ContractError>(ContractError::Unauthorized) && post == pre)
    &&& (r is Ok ==> {
        &&& post.state.prize_cost == cost
        &&& post.state.admin@ == pre.state.admin@
        &&& post.state.symbol@ == pre.state.symbol@
        &&& post.state.short_description@ == pre.state.short_description@
        &&& post.state.balances@ == pre.state.balances@
        &&& post.state.locked == pre.state.locked
        &&& post.state.prize_pool@ == pre.state.prize_pool@
        &&& post.state.whitelist@ == pre.state.whitelist@
        &&& post.nois_proxy@ == pre.nois_proxy@
        &&& post.outcomes@ == pre.outcomes@
    })
}

/// The store a fresh contract starts from.
pub open spec fn instantiate_spec(
    sender: Seq<char>,
    msg: InstantiateMsg,
    proxy_valid: bool,
    r: Result<Store, ContractError>,
) -> bool {
    if proxy_valid {
        match r {
            Ok(s) => {
                &&& s.state.admin@ == sender
                &&& s.state.symbol@ == "POINTS"@
                &&& s.state.short_description@ == msg.short_description@
                &&& s.state.balances@.len() == 0
                &&& s.state.locked == false
                &&& s.state.prize_pool@.len() == 0
                &&& s.state.prize_cost == msg.prize_cost
                &&& s.state.whitelist@.len() == 0
                &&& s.nois_proxy@ == msg.nois_proxy@
                &&& s.outcomes@.len() == 0
                &&& s.wf()
            },
            Err(_) => false,
        }
    } else {
        r == Err::<Store, ContractError>(ContractError::InvalidProxyAddress)
    }
}

/// Sets up a fresh store for the caller as admin. `proxy_valid` is the
/// host's verdict on the oracle proxy address in the message; an invalid
/// proxy address rejects the whole instantiation.
pub fn instantiate(sender: String, msg: InstantiateMsg, proxy_valid: bool) -> (r: Result<
    Store,
    ContractError,
>)
    ensures
        instantiate_spec(sender@, msg, proxy_valid, r),
        r is Ok ==> r->Ok_0.wf(),
{
    if !proxy_valid {
        return Err(ContractError::InvalidProxyAddress);
    }
    let state = State {
        admin: sender,
        symbol: String::from_str("POINTS"),
        short_description: msg.short_description,
        balances: Vec::new(),
        locked: false,
        prize_pool: Vec::new(),
        prize_cost: msg.prize_cost,
        whitelist: Vec::new(),
    };
    Ok(Store { state, nois_proxy: msg.nois_proxy, outcomes: Vec::new() })
}

/// Runs one claim: validates the address (`addr_valid` is the host's
/// verdict on it), gates on the account having ever earned points,
/// consumes the first unconsumed randomness outcome in ascending job
/// order, spends the prize cost, removes the selected prize, and emits
/// the transfer instruction. Any failure leaves the store exactly as it
/// was.
pub fn claim_prize(store: &mut Store, address: String, addr_valid: bool) -> (r: Result<
    TransferInstruction,
    ContractError,
>)
    requires
        old(store).wf(),
    ensures
        final(store).wf(),
        claim_spec(*old(store), *final(store), address@, addr_valid, r),
{
    if !addr_valid {
        return Err(ContractError::InvalidAddress);
    }
    let i: usize = match find_account(&store.state.balances, address.as_str()) {
        None => {
            return Err(ContractError::Unauthorized);
        },
        Some(i) => i,
    };
    proof {
        lemma_balance_at(store.state.balances@, i as int);
    }
    let pts: Points = store.state.balances[i].points;
    if pts.lifetime_balance == 0 {
        return Err(ContractError::Unauthorized);
    }
    let k: usize = match find_first_unconsumed(&store.outcomes) {
        None => {
            return Err(ContractError::NoRandomnessAvailable);
        },
        Some(k) => k,
    };
    let cost: u64 = store.state.prize_cost;
    proof {
        assert(store.state.balances@[i as int].points.wf());
    }
    if pts.lifetime_balance - pts.spent_balance < cost {
        return Err(ContractError::Unauthorized);
    }
    if store.state.prize_pool.is_empty() {
        return Err(ContractError::EmptyPrizePool);
    }
    proof {
        assert(is_first_unconsumed(old(store).outcomes@, k as int));
        lemma_first_unconsumed_unique(
            old(store).outcomes@,
            k as int,
            selected_index(old(store).outcomes@),
        );
    }
    store.outcomes[k].consumed = true;
    let res = store.state.claim_prize(address.as_str(), &store.outcomes[k].randomness);
    match res {
        Err(_) => Err(ContractError::Unauthorized),
        Ok(prize) => {
            proof {
                lemma_claim_consumes_exactly_one(
                    old(store).outcomes@,
                    store.outcomes@,
                    k as int,
                );
                assert forall|p: int, q: int|
                    0 <= p < q < store.outcomes@.len() implies crate::order::lex_lt(
                    store.outcomes@[p].job_id@,
                    store.outcomes@[q].job_id@,
                ) by {
                    assert(store.outcomes@[p].job_id@ == old(store).outcomes@[p].job_id@);
                    assert(store.outcomes@[q].job_id@ == old(store).outcomes@[q].job_id@);
                }
            }
            Ok(TransferInstruction {
                contract_addr: prize.0,
                token_id: prize.1,
                recipient: address,
            })
        },
    }
}

/// Stores an oracle randomness callback: only the configured proxy may
/// deliver one, the value must be exactly 32 bytes, and a job identifier
/// is never overwritten.
pub fn execute_receive(
    store: &mut Store,
    sender: String,
    job_id: String,
    randomness: Vec<u8>,
) -> (r: Result<(), ContractError>)
    requires
        old(store).wf(),
    ensures
        final(store).wf(),
        receive_spec(*old(store), *final(store), sender@, job_id@, randomness@, r),
{
    if str_cmp(sender.as_str(), store.nois_proxy.as_str()) != 0 {
        return Err(ContractError::UnauthorizedOracleCallback);
    }
    if randomness.len() != 32 {
        return Err(ContractError::InvalidRandomness);
    }
    insert_outcome(&mut store.outcomes, job_id, randomness)
}

/// Accepts a prize deposit: appends the reported item to the pool.
pub fn receive_nft(store: &mut Store, sender: String, token_id: String) -> (r: Result<
    (),
    ContractError,
>)
    requires
        old(store).wf(),
    ensures
        final(store).wf(),
        r is Ok,
        deposit_spec(*old(store), *final(store), sender@, token_id@),
{
    store.state.prize_pool.push((sender, token_id));
    proof {
        assert(store.state.prize_pool@.drop_last() =~= old(store).state.prize_pool@);
    }
    Ok(())
}

/// Hands the admin role to `address`; only the current admin may.
pub fn set_admin(store: &mut Store, sender: String, address: String) -> (r: Result<
    (),
    ContractError,
>)
    requires
        old(store).wf(),
    ensures
        final(store).wf(),
        set_admin_spec(*old(store), *final(store), sender@, address@, r),
{
    if str_cmp(sender.as_str(), store.state.admin.as_str()) != 0 {
        return Err(ContractError::Unauthorized);
    }
    store.state.admin = address;
    Ok(())
}

/// Sets the cost of one claim attempt; only the current admin may.
pub fn set_prize_cost(store: &mut Store, sender: String, cost: u64) -> (r: Result<
    (),
    ContractError,
>)
    requires
        old(store).wf(),
    ensures
        final(store).wf(),
        set_prize_cost_spec(*old(store), *final(store), sender@, cost, r),
{
    if str_cmp(sender.as_str(), store.state.admin.as_str()) != 0 {
        return Err(ContractError::Unauthorized);
    }
    store.state.prize_cost = cost;
    Ok(())
}

/// Dispatches one mutating operation. `claim_addr_valid` is the host's
/// address-validation verdict for a `ClaimPrize` message and is ignored
/// for every other message. A successful claim returns its transfer
/// instruction; every other success returns nothing.
pub fn execute(store: &mut Store, sender: String, msg: ExecuteMsg, claim_addr_valid: bool) -> (r:
    Result<Option<TransferInstruction>, ContractError>)
    requires
        old(store).wf(),
    ensures
        final(store).wf(),
        match msg {
            ExecuteMsg::Cw721Receive { sender: depositor, token_id } => r == Ok::<
                Option<TransferInstruction>,
                ContractError,
            >(None) && deposit_spec(*old(store), *final(store), depositor@, token_id@),
            ExecuteMsg::ClaimPrize { address } => match r {
                Ok(Some(ti)) => claim_spec(
                    *old(store),
                    *final(store),
                    address@,
                    claim_addr_valid,
                    Ok(ti),
                ),
                Ok(None) => false,
                Err(e) => claim_spec(
                    *old(store),
                    *final(store),
                    address@,
                    claim_addr_valid,
                    Err(e),
                ),
            },
            ExecuteMsg::NoisReceive { job_id, randomness } => match r {
                Ok(Some(_)) => false,
                Ok(None) => receive_spec(
                    *old(store),
                    *final(store),
                    sender@,
                    job_id@,
                    randomness@,
                    Ok(()),
                ),
                Err(e) => receive_spec(
                    *old(store),
                    *final(store),
                    sender@,
                    job_id@,
                    randomness@,
                    Err(e),
                ),
            },
            ExecuteMsg::SetAdmin { address } => match r {
                Ok(Some(_)) => false,
                Ok(None) => set_admin_spec(*old(store), *final(store), sender@, address@, Ok(())),
                Err(e) => set_admin_spec(*old(store), *final(store), sender@, address@, Err(e)),
            },
            ExecuteMsg::SetPrizeCost { cost } => match r {
                Ok(Some(_)) => false,
                Ok(None) => set_prize_cost_spec(*old(store), *final(store), sender@, cost, Ok(())),
                Err(e) => set_prize_cost_spec(*old(store), *final(store), sender@, cost, Err(e)),
            },
        },
{
    match msg {
        ExecuteMsg::Cw721Receive { sender: depositor, token_id } => {
            match receive_nft(store, depositor, token_id) {
                Ok(()) => Ok(None),
                Err(e) => Err(e),
            }
        },
        ExecuteMsg::ClaimPrize { address } => {
            match claim_prize(store, address, claim_addr_valid) {
                Ok(ti) => Ok(Some(ti)),
                Err(e) => Err(e),
            }
        },
        ExecuteMsg::NoisReceive { job_id, randomness } => {
            match execute_receive(store, sender, job_id, randomness) {
                Ok(()) => Ok(None),
                Err(e) => Err(e),
            }
        },
        ExecuteMsg::SetAdmin { address } => {
            match set_admin(store, sender, address) {
                Ok(()) => Ok(None),
                Err(e) => Err(e),
            }
        },
        ExecuteMsg::SetPrizeCost { cost } => {
            match set_prize_cost(store, sender, cost) {
                Ok(()) => Ok(None),
                Err(e) => Err(e),
            }
        },
    }
}

/// Every account with its lifetime and spent balances, in ledger order.
pub fn get_balances(store: &Store) -> (r: Vec<(String, (u64, u64))>)
    ensures
        r@.len() == store.state.balances@.len(),
        forall|i: int| 0 <= i < r@.len() ==> {
            &&& (#[trigger] r@[i]).0@ == store.state.balances@[i].account@
            &&& r@[i].1.0 == store.state.balances@[i].points.lifetime_balance
            &&& r@[i].1.1 == store.state.balances@[i].points.spent_balance
        },
{
    let n: usize = store.state.balances.len();
    let mut out: Vec<(String, (u64, u64))> = Vec::new();
    let mut i: usize = 0;
    while i < n
        invariant
            n == store.state.balances@.len(),
            i <= n,
            out@.len() == i,
            forall|j: int| 0 <= j < i ==> {
                &&& (#[trigger] out@[j]).0@ == store.state.balances@[j].account@
                &&& out@[j].1.0 == store.state.balances@[j].points.lifetime_balance
                &&& out@[j].1.1 == store.state.balances@[j].points.spent_balance
            },
        decreases n - i,
    {
        let entry: &BalanceEntry = &store.state.balances[i];
        out.push((entry.account.clone(), (entry.points.lifetime_balance, entry.points.spent_balance)));
        i = i + 1;
    }
    out
}

/// One account's lifetime or spent balance; fails when the account has
/// no record.
pub fn get_balance(store: &Store, address: &str, kind: BalanceKind) -> (r: Result<
    u64,
    ContractError,
>)
    requires
        store.wf(),
    ensures
        match r {
            Ok(b) => has_account(store.state.balances@, address@) && b == (match kind {
                BalanceKind::Lifetime => balance_of(store.state.balances@, address@).lifetime_balance,
                BalanceKind::Spent => balance_of(store.state.balances@, address@).spent_balance,
            }),
            Err(e) => e == ContractError::Unauthorized && !has_account(
                store.state.balances@,
                address@,
            ),
        },
{
    match find_account(&store.state.balances, address) {
        None => Err(ContractError::Unauthorized),
        Some(i) => {
            proof {
                lemma_balance_at(store.state.balances@, i as int);
            }
            match kind {
                BalanceKind::Lifetime => Ok(store.state.balances[i].points.lifetime_balance),
                BalanceKind::Spent => Ok(store.state.balances[i].points.spent_balance),
            }
        },
    }
}

/// The current cost of one claim attempt.
pub fn get_prize_cost(store: &Store) -> (r: u64)
    ensures
        r == store.state.prize_cost,
{
    store.state.prize_cost
}

/// The prize pool's entries, in insertion order.
pub fn get_prize_pool(store: &Store) -> (r: Vec<(String, String)>)
    ensures
        r@ == store.state.prize_pool@,
{
    let n: usize = store.state.prize_pool.len();
    let mut out: Vec<(String, String)> = Vec::new();
    let mut i: usize = 0;
    while i < n
        invariant
            n == store.state.prize_pool@.len(),
            i <= n,
            out@.len() == i,
            forall|j: int| 0 <= j < i ==> out@[j] == store.state.prize_pool@[j],
        decreases n - i,
    {
        let first: String = store.state.prize_pool[i].0.clone();
        let second: String = store.state.prize_pool[i].1.clone();
        out.push((first, second));
        i = i + 1;
    }
    proof {
        assert(out@ =~= store.state.prize_pool@);
    }
    out
}

/// Answers one side-effect-free query.
pub fn query(store: &Store, msg: QueryMsg) -> (r: Result<QueryAnswer, ContractError>)
    requires
        store.wf(),
    ensures
        match msg {
            QueryMsg::PrizePool => match r {
                Ok(QueryAnswer::PrizePool(v)) => v@ == store.state.prize_pool@,
                _ => false,
            },
            QueryMsg::PrizeCost => r == Ok::<QueryAnswer, ContractError>(
                QueryAnswer::PrizeCost(store.state.prize_cost),
            ),
            QueryMsg::Balances => match r {
                Ok(QueryAnswer::Balances(v)) => {
                    &&& v@.len() == store.state.balances@.len()
                    &&& forall|i: int| 0 <= i < v@.len() ==> {
                        &&& (#[trigger] v@[i]).0@ == store.state.balances@[i].account@
                        &&& v@[i].1.0 == store.state.balances@[i].points.lifetime_balance
                        &&& v@[i].1.1 == store.state.balances@[i].points.spent_balance
                    }
                },
                _ => false,
            },
            QueryMsg::LifetimeBalance { address } => match r {
                Ok(QueryAnswer::Balance(b)) => has_account(store.state.balances@, address@)
                    && b == balance_of(store.state.balances@, address@).lifetime_balance,
                Err(e) => e == ContractError::Unauthorized && !has_account(
                    store.state.balances@,
                    address@,
                ),
                _ => false,
            },
            QueryMsg::SpentBalance { address } => match r {
                Ok(QueryAnswer::Balance(b)) => has_account(store.state.balances@, address@)
                    && b == balance_of(store.state.balances@, address@).spent_balance,
                Err(e) => e == ContractError::Unauthorized && !has_account(
                    store.state.balances@,
                    address@,
                ),
                _ => false,
            },
        },
{
    match msg {
        QueryMsg::PrizePool => Ok(QueryAnswer::PrizePool(get_prize_pool(store))),
        QueryMsg::PrizeCost => Ok(QueryAnswer::PrizeCost(get_prize_cost(store))),
        QueryMsg::Balances => Ok(QueryAnswer::Balances(get_balances(store))),
        QueryMsg::LifetimeBalance { address } => {
            match get_balance(store, address.as_str(), BalanceKind::Lifetime) {
                Ok(b) => Ok(QueryAnswer::Balance(b)),
                Err(e) => Err(e),
            }
        },
        QueryMsg::SpentBalance { address } => {
            match get_balance(store, address.as_str(), BalanceKind::Spent) {
                Ok(b) => Ok(QueryAnswer::Balance(b)),
                Err(e) => Err(e),
            }
        },
    }
}

} // verus!
