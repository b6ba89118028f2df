//! How much of the stake belongs to leaders that the block engine is connected to.
use crate::text::texts_view;
use vstd::prelude::*;
use vstd::string::StringExecFns;

verus! {

/// A validator's vote account.
#[derive(Debug, PartialEq, Eq)]
pub struct VoteAccount {
    /// Identity of the validator.
    pub node_pubkey: String,
    /// Its stake, in lamports.
    pub activated_stake: u64,
}

/// A [`VoteAccount`] with its identity as a sequence of characters.
#[verifier::ext_equal]
pub struct VoteAccountView {
    pub node_pubkey: Seq<char>,
    pub activated_stake: u64,
}

impl View for VoteAccount {
    type V = VoteAccountView;

    open spec fn view(&self) -> VoteAccountView {
        VoteAccountView { node_pubkey: self.node_pubkey@, activated_stake: self.activated_stake }
    }
}

/// The views of a list of vote accounts.
pub open spec fn accounts_view(accounts: Seq<VoteAccount>) -> Seq<VoteAccountView> {
    accounts.map_values(|account: VoteAccount| account@)
}

/// The stake of all the accounts together.
pub open spec fn stake_sum(accounts: Seq<VoteAccountView>) -> nat
    decreases accounts.len(),
{
    if accounts.len() == 0 {
        0
    } else {
        stake_sum(accounts.drop_last()) + accounts.last().activated_stake as nat
    }
}

/// The accounts whose validators are connected, in order.
pub open spec fn connected_accounts(
    accounts: Seq<VoteAccountView>,
    connected: Seq<Seq<char>>,
) -> Seq<VoteAccountView> {
    accounts.filter(|account: VoteAccountView| connected.contains(account.node_pubkey))
}

/// A connected leader and its stake, ready to be divided into a percentage.
#[derive(Debug, PartialEq, Eq)]
pub struct LeaderStake {
    /// Identity of the leader.
    pub node_pubkey: String,
    /// Its stake times 100.
    pub stake_times_100: u64,
}

/// A [`LeaderStake`] with its identity as a sequence of characters.
#[verifier::ext_equal]
pub struct LeaderStakeView {
    pub node_pubkey: Seq<char>,
    pub stake_times_100: int,
}

impl View for LeaderStake {
    type V = LeaderStakeView;

    open spec fn view(&self) -> LeaderStakeView {
        LeaderStakeView {
            node_pubkey: self.node_pubkey@,
            stake_times_100: self.stake_times_100 as int,
        }
    }
}

/// What the report says of a connected account.
pub open spec fn leader_stake(account: VoteAccountView) -> LeaderStakeView {
    LeaderStakeView {
        node_pubkey: account.node_pubkey,
        stake_times_100: account.activated_stake * 100,
    }
}

/// The stake of the connected leaders, and what to divide it by.
#[derive(Debug, PartialEq, Eq)]
pub struct StakeReport {
    /// The stake of all the accounts, current and delinquent.
    pub total_activated_stake: u64,
    /// The connected leaders among the current accounts, in order, up to the first one whose
    /// stake times 100 does not fit in 64 bits.
    pub leaders: Vec<LeaderStake>,
    /// The stake of the connected leaders together, times 100, if it fits in 64 bits.
    pub connected_stake_times_100: Option<u64>,
}

/// The accounts before the first one whose stake times 100 does not fit in 64 bits.
pub open spec fn reportable(accounts: Seq<VoteAccountView>) -> Seq<VoteAccountView>
    decreases accounts.len(),
{
    if accounts.len() == 0 {
        Seq::empty()
    } else {
        let before = reportable(accounts.drop_last());
        if before.len() == accounts.len() - 1 && accounts.last().activated_stake * 100 <= u64::MAX {
            before.push(accounts.last())
        } else {
            before
        }
    }
}

/// What the report says of these accounts.
pub open spec fn leader_stakes(accounts: Seq<VoteAccountView>) -> Seq<LeaderStakeView> {
    accounts.map_values(|account: VoteAccountView| leader_stake(account))
}

/// The views of the leaders of a report.
pub open spec fn leaders_view(leaders: Seq<LeaderStake>) -> Seq<LeaderStakeView> {
    leaders.map_values(|leader: LeaderStake| leader@)
}

/// The reportable accounts are the first ones.
proof fn lemma_reportable_is_prefix(accounts: Seq<VoteAccountView>)
    ensures
        reportable(accounts).len() <= accounts.len(),
        reportable(accounts) == accounts.take(reportable(accounts).len() as int),
    decreases accounts.len(),
{
    if accounts.len() > 0 {
        let rest = accounts.drop_last();
        lemma_reportable_is_prefix(rest);
        let n = reportable(accounts).len() as int;
        assert(reportable(accounts) =~= accounts.take(n));
    } else {
        assert(reportable(accounts) =~= accounts.take(0));
    }
}

/// If the stake of all the connected leaders times 100 fits in 64 bits, every one of them is
/// reported.
pub proof fn law_all_leaders_reported(accounts: Seq<VoteAccountView>)
    requires
        100 * stake_sum(accounts) <= u64::MAX,
    ensures
        reportable(accounts) == accounts,
    decreases accounts.len(),
{
    if accounts.len() > 0 {
        law_all_leaders_reported(accounts.drop_last());
        assert(reportable(accounts) =~= accounts);
    } else {
        assert(reportable(accounts) =~= accounts);
    }
}

/// The stake of one more account.
proof fn lemma_stake_sum_push(accounts: Seq<VoteAccountView>, account: VoteAccountView)
    ensures
        stake_sum(accounts.push(account)) == stake_sum(accounts) + account.activated_stake,
{
    assert(accounts.push(account).drop_last() =~= accounts);
}

/// The stake of the first accounts is at most the stake of all.
proof fn lemma_stake_sum_take(accounts: Seq<VoteAccountView>, n: int)
    requires
        0 <= n <= accounts.len(),
    ensures
        stake_sum(accounts.take(n)) <= stake_sum(accounts),
    decreases accounts.len() - n,
{
    if n == accounts.len() {
        assert(accounts.take(n) =~= accounts);
    } else {
        lemma_stake_sum_take(accounts, n + 1);
        assert(accounts.take(n + 1).drop_last() =~= accounts.take(n));
    }
}

/// The connected accounts among the first `n + 1` are those among the first `n`, and then the
/// next one if it is connected.
proof fn lemma_connected_next(
    accounts: Seq<VoteAccountView>,
    connected: Seq<Seq<char>>,
    n: int,
)
    requires
        0 <= n < accounts.len(),
    ensures
        connected_accounts(accounts.take(n + 1), connected) == if connected.contains(
            accounts[n].node_pubkey,
        ) {
            connected_accounts(accounts.take(n), connected).push(accounts[n])
        } else {
            connected_accounts(accounts.take(n), connected)
        },
{
    reveal(Seq::filter);
    assert(accounts.take(n + 1).drop_last() =~= accounts.take(n));
    assert(accounts.take(n + 1).last() == accounts[n]);
}

/// The connected accounts have at most the stake of all.
pub proof fn law_connected_stake_is_part(accounts: Seq<VoteAccountView>, connected: Seq<Seq<char>>)
    ensures
        stake_sum(connected_accounts(accounts, connected)) <= stake_sum(accounts),
    decreases accounts.len(),
{
    reveal(Seq::filter);
    if accounts.len() > 0 {
        let n = accounts.len() - 1;
        law_connected_stake_is_part(accounts.drop_last(), connected);
        lemma_connected_next(accounts, connected, n);
        assert(accounts.take(n) =~= accounts.drop_last());
        assert(accounts.take(n + 1) =~= accounts);
        lemma_stake_sum_push(connected_accounts(accounts.drop_last(), connected), accounts.last());
    }
}

/// The connected accounts among the first `n` have at most the stake of all connected ones.
proof fn lemma_connected_take(accounts: Seq<VoteAccountView>, connected: Seq<Seq<char>>, n: int)
    requires
        0 <= n <= accounts.len(),
    ensures
        stake_sum(connected_accounts(accounts.take(n), connected)) <= stake_sum(
            connected_accounts(accounts, connected),
        ),
    decreases accounts.len() - n,
{
    if n == accounts.len() {
        assert(accounts.take(n) =~= accounts);
    } else {
        lemma_connected_take(accounts, connected, n + 1);
        lemma_connected_next(accounts, connected, n);
        lemma_stake_sum_push(connected_accounts(accounts.take(n), connected), accounts[n]);
    }
}

/// Whether a name is among the given ones.
fn contains_name(names: &Vec<String>, name: &String) -> (found: bool)
    ensures
        found <==> texts_view(names@).contains(name@),
{
    let mut i: usize = 0;
    while i < names.len()
        invariant
            i <= names@.len(),
            forall|j: int| 0 <= j < i ==> texts_view(names@)[j] != name@,
        decreases names@.len() - i,
    {
        if names[i] == *name {
            assert(texts_view(names@)[i as int] == name@);
            return true;
        }
        i += 1;
    }
    false
}

/// The stake of all the accounts together, if it fits in 64 bits.
pub fn total_stake(accounts: &Vec<VoteAccount>) -> (total: Option<u64>)
    ensures
        total is Some <==> stake_sum(accounts_view(accounts@)) <= u64::MAX,
        total matches Some(sum) ==> sum == stake_sum(accounts_view(accounts@)),
{
    let ghost views = accounts_view(accounts@);
    let mut total: u64 = 0;
    let mut i: usize = 0;
    while i < accounts.len()
        invariant
            i <= accounts@.len(),
            views == accounts_view(accounts@),
            total == stake_sum(views.take(i as int)),
        decreases accounts@.len() - i,
    {
        proof {
            lemma_stake_sum_take(views, i + 1);
            assert(views.take(i + 1) =~= views.take(i as int).push(views[i as int]));
            lemma_stake_sum_push(views.take(i as int), views[i as int]);
        }
        match total.checked_add(accounts[i].activated_stake) {
            Some(sum) => {
                total = sum;
            },
            None => {
                return None;
            },
        }
        i += 1;
    }
    assert(views.take(i as int) =~= views);
    Some(total)
}

/// Reports the stake of the connected leaders, if the stake of all the accounts fits in 64 bits.
pub fn connected_leaders_stake(
    current: &Vec<VoteAccount>,
    delinquent: &Vec<VoteAccount>,
    connected_validators: &Vec<String>,
) -> (report: Option<StakeReport>)
    ensures
        report is Some <==> stake_sum(accounts_view(current@)) + stake_sum(
            accounts_view(delinquent@),
        ) <= u64::MAX,
        report matches Some(r) ==> {
            let connected = connected_accounts(
                accounts_view(current@),
                texts_view(connected_validators@),
            );
            &&& r.total_activated_stake == stake_sum(accounts_view(current@)) + stake_sum(
                accounts_view(delinquent@),
            )
            &&& leaders_view(r.leaders@) == leader_stakes(reportable(connected))
            &&& r.connected_stake_times_100 is Some <==> 100 * stake_sum(connected) <= u64::MAX
            &&& r.connected_stake_times_100 matches Some(stake) ==> {
                &&& stake == 100 * stake_sum(connected)
                &&& stake <= 100 * r.total_activated_stake
                &&& leaders_view(r.leaders@) == leader_stakes(connected)
            }
        },
{
    let total_activated_stake = match (total_stake(current), total_stake(delinquent)) {
        (Some(a), Some(b)) => match a.checked_add(b) {
            Some(total) => total,
            None => {
                return None;
            },
        },
        _ => {
            return None;
        },
    };
    let ghost views = accounts_view(current@);
    let ghost names = texts_view(connected_validators@);
    let mut connected_stake: u64 = 0;
    let mut leaders: Vec<LeaderStake> = Vec::new();
    let mut all_fit = true;
    let mut i: usize = 0;
    proof {
        law_connected_stake_is_part(views, names);
        assert(connected_accounts(views.take(0), names) =~= Seq::empty()) by {
            reveal(Seq::filter);
        }
        assert(leaders_view(leaders@) =~= leader_stakes(reportable(Seq::empty())));
    }
    while i < current.len()
        invariant
            i <= current@.len(),
            views == accounts_view(current@),
            names == texts_view(connected_validators@),
            stake_sum(connected_accounts(views, names)) <= u64::MAX,
            connected_stake == stake_sum(connected_accounts(views.take(i as int), names)),
            leaders_view(leaders@) == leader_stakes(
                reportable(connected_accounts(views.take(i as int), names)),
            ),
            all_fit <==> reportable(connected_accounts(views.take(i as int), names)).len()
                == connected_accounts(views.take(i as int), names).len(),
        decreases current@.len() - i,
    {
        let ghost before = connected_accounts(views.take(i as int), names);
        let ghost account = views[i as int];
        proof {
            lemma_connected_next(views, names, i as int);
            lemma_connected_take(views, names, i + 1);
            lemma_stake_sum_push(before, account);
            lemma_reportable_is_prefix(before);
        }
        if contains_name(connected_validators, &current[i].node_pubkey) {
            proof {
                assert(before.push(account).drop_last() =~= before);
                assert(leader_stakes(reportable(before).push(account)) =~= leader_stakes(
                    reportable(before),
                ).push(leader_stake(account)));
            }
            connected_stake += current[i].activated_stake;
            match current[i].activated_stake.checked_mul(100) {
                Some(stake_times_100) => {
                    if all_fit {
                        let ghost leaders_before = leaders@;
                        let leader = LeaderStake {
                            node_pubkey: current[i].node_pubkey.clone(),
                            stake_times_100,
                        };
                        leaders.push(leader);
                        assert(leaders_view(leaders@) =~= leaders_view(leaders_before).push(
                            leader_stake(account),
                        ));
                    }
                },
                None => {
                    all_fit = false;
                },
            }
        }
        i += 1;
    }
    assert(views.take(i as int) =~= views);
    proof {
        if 100 * stake_sum(connected_accounts(views, names)) <= u64::MAX {
            law_all_leaders_reported(connected_accounts(views, names));
        }
    }
    Some(
        StakeReport {
            total_activated_stake,
            leaders,
            connected_stake_times_100: connected_stake.checked_mul(100),
        },
    )
}

/// The line on a connected leader. `percentage` is its share of the stake as a text.
pub fn leader_stake_line(node_pubkey: &str, percentage: &str) -> (line: String)
    ensures
        line@ == "connected_leader: "@ + node_pubkey@ + ", stake: "@ + percentage@ + "%"@,
{
    let mut line = String::new();
    line.append("connected_leader: ");
    line.append(node_pubkey);
    line.append(", stake: ");
    line.append(percentage);
    line.append("%");
    assert(line@ =~= "connected_leader: "@ + node_pubkey@ + ", stake: "@ + percentage@ + "%"@);
    line
}

/// The line on all the connected leaders. `percentage` is their share of the stake as a text.
pub fn total_stake_line(percentage: &str) -> (line: String)
    ensures
        line@ == "total stake for block engine: "@ + percentage@ + "%"@,
{
    let mut line = String::new();
    line.append("total stake for block engine: ");
    line.append(percentage);
    line.append("%");
    assert(line@ =~= "total stake for block engine: "@ + percentage@ + "%"@);
    line
}

/// The reported stakes of several leaders together.
pub open spec fn leader_stake_sum(leaders: Seq<LeaderStakeView>) -> int
    decreases leaders.len(),
{
    if leaders.len() == 0 {
        0
    } else {
        leader_stake_sum(leaders.drop_last()) + leaders.last().stake_times_100
    }
}

/// The reported stakes of the leaders add up to 100 times the stake of their accounts.
pub proof fn law_leader_stakes_add_up(accounts: Seq<VoteAccountView>)
    ensures
        leader_stake_sum(leader_stakes(accounts)) == 100 * stake_sum(accounts),
    decreases accounts.len(),
{
    if accounts.len() > 0 {
        law_leader_stakes_add_up(accounts.drop_last());
        assert(leader_stakes(accounts).drop_last() =~= leader_stakes(accounts.drop_last()));
    }
}

/// The report names an account exactly if it is among the accounts and its validator is
/// connected.
pub proof fn law_reported_iff_connected(
    accounts: Seq<VoteAccountView>,
    connected: Seq<Seq<char>>,
    account: VoteAccountView,
)
    ensures
        connected_accounts(accounts, connected).contains(account) <==> accounts.contains(account)
            && connected.contains(account.node_pubkey),
    decreases accounts.len(),
{
    reveal(Seq::filter);
    if accounts.len() > 0 {
        let n = accounts.len() - 1;
        let rest = accounts.drop_last();
        law_reported_iff_connected(rest, connected, account);
        lemma_connected_next(accounts, connected, n);
        assert(accounts.take(n) =~= rest);
        assert(accounts.take(n + 1) =~= accounts);
        assert(accounts =~= rest.push(accounts[n]));
        lemma_contains_push(rest, accounts[n], account);
        lemma_contains_push(connected_accounts(rest, connected), accounts[n], account);
    }
}

/// What a list with one more entry contains.
proof fn lemma_contains_push(
    accounts: Seq<VoteAccountView>,
    last: VoteAccountView,
    account: VoteAccountView,
)
    ensures
        accounts.push(last).contains(account) <==> accounts.contains(account) || account == last,
{
    let pushed = accounts.push(last);
    if pushed.contains(account) {
        let i = choose|i: int| 0 <= i < pushed.len() && pushed[i] == account;
        if i < accounts.len() {
            assert(accounts[i] == account);
        }
    }
    if accounts.contains(account) {
        let i = choose|i: int| 0 <= i < accounts.len() && accounts[i] == account;
        assert(pushed[i] == account);
    }
    if account == last {
        assert(pushed[accounts.len() as int] == account);
    }
}

/// An account's validator is one of the connected ones.
pub open spec fn is_connected(account: VoteAccount, connected: Seq<String>) -> bool {
    exists|k: int|
        0 <= k < connected.len() && (#[trigger] connected[k])@ == account.node_pubkey@
}

/// How many of the first `n` accounts have a connected validator.
pub open spec fn connected_before(
    accounts: Seq<VoteAccount>,
    connected: Seq<String>,
    n: int,
) -> int
    decreases n,
{
    if n <= 0 {
        0
    } else {
        connected_before(accounts, connected, n - 1) + if is_connected(
            accounts[n - 1],
            connected,
        ) {
            1int
        } else {
            0int
        }
    }
}

/// Adding up the stakes from the left gives the stake of all.
proof fn lemma_sum_is_fold(accounts: Seq<VoteAccount>, f: spec_fn(int, VoteAccount) -> int)
    requires
        forall|sum: int, account: VoteAccount| #[trigger]
            f(sum, account) == sum + account.activated_stake,
    ensures
        accounts.fold_left(0, f) == stake_sum(accounts_view(accounts)),
    decreases accounts.len(),
{
    if accounts.len() > 0 {
        lemma_sum_is_fold(accounts.drop_last(), f);
        assert(accounts_view(accounts).drop_last() =~= accounts_view(accounts.drop_last()));
        assert(accounts_view(accounts).last() == accounts.last()@);
    }
}

/// Adding up the connected stakes from the left gives the stake of all the connected accounts.
proof fn lemma_connected_sum_is_fold(
    accounts: Seq<VoteAccount>,
    connected: Seq<String>,
    f: spec_fn(int, VoteAccount) -> int,
)
    requires
        forall|sum: int, account: VoteAccount| #[trigger]
            f(sum, account) == if is_connected(account, connected) {
                sum + account.activated_stake
            } else {
                sum
            },
    ensures
        accounts.fold_left(0, f) == stake_sum(
            connected_accounts(accounts_view(accounts), texts_view(connected)),
        ),
    decreases accounts.len(),
{
    let views = accounts_view(accounts);
    let names = texts_view(connected);
    if accounts.len() > 0 {
        let n = accounts.len() - 1;
        let rest = accounts.drop_last();
        lemma_connected_sum_is_fold(rest, connected, f);
        lemma_connected_next(views, names, n);
        assert(views.take(n) =~= accounts_view(rest));
        assert(views.take(n + 1) =~= views);
        assert(views[n] == accounts.last()@);
        lemma_is_connected(accounts.last(), connected);
        lemma_stake_sum_push(connected_accounts(views.take(n), names), views[n]);
    } else {
        reveal(Seq::filter);
        assert(connected_accounts(views, names).len() == 0);
    }
}

/// A validator is connected if its name is among the connected ones.
proof fn lemma_is_connected(account: VoteAccount, connected: Seq<String>)
    ensures
        is_connected(account, connected) <==> texts_view(connected).contains(
            account@.node_pubkey,
        ),
{
    let names = texts_view(connected);
    if is_connected(account, connected) {
        let k = choose|k: int|
            0 <= k < connected.len() && (#[trigger] connected[k])@ == account.node_pubkey@;
        assert(names[k] == account@.node_pubkey);
    }
    if names.contains(account@.node_pubkey) {
        let k = choose|k: int| 0 <= k < names.len() && names[k] == account@.node_pubkey;
        assert(connected[k]@ == account.node_pubkey@);
    }
}

/// The stake of all the accounts is their stakes added up, or nothing if that does not fit in 64
/// bits.
pub proof fn law_total_stake_adds_up(accounts: &Vec<VoteAccount>, total: Option<u64>)
    requires
        call_ensures(total_stake, (accounts,), total),
    ensures
        ({
            let sum = accounts@.fold_left(
                0int,
                |sum: int, account: VoteAccount| sum + account.activated_stake,
            );
            &&& total is Some <==> sum <= u64::MAX
            &&& total matches Some(stake) ==> stake == sum
        }),
{
    lemma_sum_is_fold(
        accounts@,
        |sum: int, account: VoteAccount| sum + account.activated_stake,
    );
}

/// The report divides by the stakes of all the accounts, current and delinquent, added up; and what
/// it divides for the block engine is 100 times the stakes of those current accounts whose
/// validators are connected.
pub proof fn law_reported_stakes_add_up(
    current: &Vec<VoteAccount>,
    delinquent: &Vec<VoteAccount>,
    connected: &Vec<String>,
    report: Option<StakeReport>,
)
    requires
        call_ensures(connected_leaders_stake, (current, delinquent, connected), report),
    ensures
        ({
            let total = current@.fold_left(
                0int,
                |sum: int, account: VoteAccount| sum + account.activated_stake,
            ) + delinquent@.fold_left(
                0int,
                |sum: int, account: VoteAccount| sum + account.activated_stake,
            );
            let part = current@.fold_left(
                0int,
                |sum: int, account: VoteAccount|
                    if is_connected(account, connected@) {
                        sum + account.activated_stake
                    } else {
                        sum
                    },
            );
            &&& report is Some <==> total <= u64::MAX
            &&& report matches Some(r) ==> {
                &&& r.total_activated_stake == total
                &&& r.connected_stake_times_100 is Some <==> 100 * part <= u64::MAX
                &&& r.connected_stake_times_100 matches Some(stake) ==> stake == 100 * part
            }
        }),
{
    lemma_sum_is_fold(
        current@,
        |sum: int, account: VoteAccount| sum + account.activated_stake,
    );
    lemma_sum_is_fold(
        delinquent@,
        |sum: int, account: VoteAccount| sum + account.activated_stake,
    );
    lemma_connected_sum_is_fold(
        current@,
        connected@,
        |sum: int, account: VoteAccount|
            if is_connected(account, connected@) {
                sum + account.activated_stake
            } else {
                sum
            },
    );
}

/// Where the connected ones among the first `n` accounts are in the list of connected accounts.
proof fn lemma_connected_at(accounts: Seq<VoteAccount>, connected: Seq<String>, n: int)
    requires
        0 <= n <= accounts.len(),
    ensures
        ({
            let picked = connected_accounts(
                accounts_view(accounts).take(n),
                texts_view(connected),
            );
            &&& picked.len() == connected_before(accounts, connected, n)
            &&& forall|i: int|
                0 <= i < n && #[trigger] is_connected(accounts[i], connected) ==> {
                    &&& 0 <= connected_before(accounts, connected, i) < picked.len()
                    &&& picked[connected_before(accounts, connected, i)] == accounts[i]@
                }
        }),
    decreases n,
{
    let views = accounts_view(accounts);
    let names = texts_view(connected);
    if n > 0 {
        lemma_connected_at(accounts, connected, n - 1);
        lemma_connected_next(views, names, n - 1);
        lemma_is_connected(accounts[n - 1], connected);
        assert(views[n - 1] == accounts[n - 1]@);
    } else {
        reveal(Seq::filter);
        assert(connected_accounts(views.take(0), names).len() == 0);
    }
}

/// Every place before the count of an account belongs to an earlier account.
proof fn lemma_connected_origin(
    accounts: Seq<VoteAccount>,
    connected: Seq<String>,
    n: int,
    k: int,
) -> (i: int)
    requires
        0 <= n <= accounts.len(),
        0 <= k < connected_before(accounts, connected, n),
    ensures
        0 <= i < n,
        is_connected(accounts[i], connected),
        connected_before(accounts, connected, i) == k,
    decreases n,
{
    if k < connected_before(accounts, connected, n - 1) {
        lemma_connected_origin(accounts, connected, n - 1, k)
    } else {
        n - 1
    }
}

/// How many accounts are reportable.
proof fn lemma_reportable_len(accounts: Seq<VoteAccountView>, m: int)
    requires
        0 <= m <= accounts.len(),
        forall|j: int|
            0 <= j < m ==> (#[trigger] accounts[j]).activated_stake * 100 <= u64::MAX,
    ensures
        reportable(accounts).len() >= m,
        m == accounts.len() || accounts[m].activated_stake * 100 > u64::MAX ==> reportable(
            accounts,
        ).len() == m,
    decreases accounts.len(),
{
    lemma_reportable_is_prefix(accounts);
    if accounts.len() > 0 {
        let rest = accounts.drop_last();
        lemma_reportable_is_prefix(rest);
        let least = if m < accounts.len() {
            m
        } else {
            m - 1
        };
        assert forall|j: int| 0 <= j < least implies (#[trigger] rest[j]).activated_stake * 100
            <= u64::MAX by {
            assert(rest[j] == accounts[j]);
        }
        if m < rest.len() {
            assert(rest[m] == accounts[m]);
        }
        lemma_reportable_len(rest, least);
    }
}

/// Each connected leader is reported by its full identity, with 100 times its own stake, in the
/// place that its number among the connected current accounts gives it, as long as it and those
/// before it fit in 64 bits.
pub proof fn law_leader_is_reported_in_its_place(
    current: &Vec<VoteAccount>,
    delinquent: &Vec<VoteAccount>,
    connected: &Vec<String>,
    report: Option<StakeReport>,
    i: int,
)
    requires
        call_ensures(connected_leaders_stake, (current, delinquent, connected), report),
        report is Some,
        0 <= i < current@.len(),
        is_connected(current@[i], connected@),
        forall|j: int|
            0 <= j <= i && is_connected(#[trigger] current@[j], connected@)
                ==> current@[j].activated_stake * 100 <= u64::MAX,
    ensures
        ({
            let leaders = report->Some_0.leaders@;
            let k = connected_before(current@, connected@, i);
            &&& 0 <= k < leaders.len()
            &&& leaders[k].node_pubkey@ == current@[i].node_pubkey@
            &&& leaders[k].stake_times_100 == 100 * current@[i].activated_stake
        }),
{
    let leaders = report->Some_0.leaders@;
    let views = accounts_view(current@);
    let picked = connected_accounts(views, texts_view(connected@));
    let k = connected_before(current@, connected@, i);
    let n = current@.len() as int;
    assert(views.take(n) =~= views);
    lemma_connected_at(current@, connected@, n);
    assert forall|j: int| 0 <= j < k + 1 implies (#[trigger] picked[j]).activated_stake * 100
        <= u64::MAX by {
        assert(connected_before(current@, connected@, i + 1) == k + 1);
        let at = lemma_connected_origin(current@, connected@, i + 1, j);
        assert(picked[j] == current@[at]@);
    }
    lemma_reportable_len(picked, k + 1);
    lemma_reportable_is_prefix(picked);
    assert(leaders_view(leaders).len() == leaders.len());
    assert(leader_stakes(reportable(picked)).len() == reportable(picked).len());
    assert(leaders_view(leaders)[k] == leader_stakes(reportable(picked))[k]);
    assert(leaders_view(leaders)[k] == leaders[k]@);
    assert(reportable(picked)[k] == picked[k]);
}

/// No one else is reported: there are as many leaders as connected current accounts; or, if one of
/// these does not fit in 64 bits, as many as are connected before the first such account.
pub proof fn law_as_many_leaders_as_connected_accounts(
    current: &Vec<VoteAccount>,
    delinquent: &Vec<VoteAccount>,
    connected: &Vec<String>,
    report: Option<StakeReport>,
    n: int,
)
    requires
        call_ensures(connected_leaders_stake, (current, delinquent, connected), report),
        report is Some,
        0 <= n <= current@.len(),
        forall|j: int|
            0 <= j < n && is_connected(#[trigger] current@[j], connected@)
                ==> current@[j].activated_stake * 100 <= u64::MAX,
        n < current@.len() ==> is_connected(current@[n], connected@)
            && current@[n].activated_stake * 100 > u64::MAX,
    ensures
        report->Some_0.leaders@.len() == connected_before(current@, connected@, n),
{
    let leaders = report->Some_0.leaders@;
    let views = accounts_view(current@);
    let picked = connected_accounts(views, texts_view(connected@));
    let m = connected_before(current@, connected@, n);
    let all = current@.len() as int;
    assert(views.take(all) =~= views);
    lemma_connected_at(current@, connected@, all);
    lemma_connected_at(current@, connected@, n);
    assert forall|j: int| 0 <= j < m implies (#[trigger] picked[j]).activated_stake * 100
        <= u64::MAX by {
        let at = lemma_connected_origin(current@, connected@, n, j);
        assert(picked[j] == current@[at]@);
    }
    if n < all {
        assert(is_connected(current@[n], connected@));
        assert(picked[m] == current@[n]@);
    }
    lemma_reportable_len(picked, m);
    assert(leaders_view(leaders).len() == leaders.len());
    assert(leader_stakes(reportable(picked)).len() == reportable(picked).len());
}

/// The two lines on stake hold the identity and the percentage as they are.
pub proof fn law_stake_lines(
    node_pubkey: &str,
    percentage: &str,
    leader_line: String,
    total_line: String,
)
    requires
        call_ensures(leader_stake_line, (node_pubkey, percentage), leader_line),
        call_ensures(total_stake_line, (percentage,), total_line),
    ensures
        leader_line@ == "connected_leader: "@ + node_pubkey@ + ", stake: "@ + percentage@ + "%"@,
        total_line@ == "total stake for block engine: "@ + percentage@ + "%"@,
{
}

} // verus!
