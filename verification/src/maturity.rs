//! The maturity filter: the fixed-point closure that keeps the settlements
//! containing at least one order that is mature by age or by association,
//! and notifies the solver of every settlement that is dropped.

use vstd::prelude::*;

use crate::orders::{is_user_trade, OrderClass, OrderUid, Settlement};

verus! {

broadcast use vstd::seq_lib::group_seq_lib_default, vstd::seq::group_seq_axioms;

/// Why a settlement was rejected for an auction.
#[derive(Clone, Copy, Debug, PartialEq, Eq, Structural)]
pub enum SolverRejectionReason {
    NoMatureOrders,
}

/// The outcome of an auction for one solver's submission. This crate only
/// ever emits `Rejected(NoMatureOrders)`, but the selection layer judges
/// other outcomes over the same type.
#[derive(Clone, Copy, Debug, PartialEq, Eq, Structural)]
pub enum AuctionResult {
    Ranked(usize),
    Rejected(SolverRejectionReason),
}

/// The capabilities this crate needs from a solver: a display name for
/// diagnostics and a fire-and-forget channel for auction outcomes.
/// Production and test doubles both implement it.
pub trait Solver {
    fn name(&self) -> String;

    fn notify_auction_result(&self, auction_id: i64, result: AuctionResult);
}

/// The settlements of a list of (solver, settlement) pairs, in order.
pub open spec fn settlements_of<S>(ps: Seq<(S, Settlement)>) -> Seq<Settlement> {
    ps.map_values(|p: (S, Settlement)| p.1)
}

/// Whether settlement `s` has a user trade on the order with uid `u`.
pub open spec fn settlement_has_user_uid(s: Settlement, u: Seq<u8>) -> bool {
    exists|q: int|
        0 <= q < s.trades@.len() && is_user_trade(#[trigger] s.trades@[q])
            && s.trades@[q].order.uid@ == u
}

/// Whether `u` is the uid of a user trade of some settlement marked in
/// `marked`.
pub open spec fn uid_in_marked(ss: Seq<Settlement>, marked: Seq<bool>, u: Seq<u8>) -> bool {
    exists|m: int|
        0 <= m < ss.len() && marked[m] && settlement_has_user_uid(#[trigger] ss[m], u)
}

/// Whether settlement `s` has a user trade created at or before `cutoff`
/// (mature by age).
pub open spec fn mature_by_age(s: Settlement, cutoff: int) -> bool {
    exists|i: int|
        0 <= i < s.trades@.len() && is_user_trade(#[trigger] s.trades@[i])
            && s.trades@[i].order.creation_date <= cutoff
}

/// Whether `a` and `b` each have a user trade on the same order uid.
pub open spec fn shares_user_order(a: Settlement, b: Settlement) -> bool {
    exists|i: int, j: int|
        0 <= i < a.trades@.len() && 0 <= j < b.trades@.len()
            && is_user_trade(#[trigger] a.trades@[i]) && is_user_trade(#[trigger] b.trades@[j])
            && a.trades@[i].order.uid@ == b.trades@[j].order.uid@
}

/// One unmarked settlement qualifies in a pass when some user trade of it
/// is mature by age or carries a uid already contributed by a marked
/// settlement.
pub open spec fn spec_qualifies(ss: Seq<Settlement>, marked: Seq<bool>, cutoff: int, j: int) -> bool {
    exists|i: int|
        0 <= i < ss[j].trades@.len() && is_user_trade(#[trigger] ss[j].trades@[i]) && (
        ss[j].trades@[i].order.creation_date <= cutoff || uid_in_marked(
            ss,
            marked,
            ss[j].trades@[i].order.uid@,
        ))
}

/// Settlement `j` is mature within `k` rounds of the closure: it is mature
/// by age, or it shares a user order with a settlement mature within `k - 1`
/// rounds.
pub open spec fn mature_within(ss: Seq<Settlement>, cutoff: int, k: nat, j: int) -> bool
    decreases k,
{
    &&& 0 <= j < ss.len()
    &&& k > 0
    &&& (mature_by_age(ss[j], cutoff) || exists|m: int|
        0 <= m < ss.len() && mature_within(ss, cutoff, (k - 1) as nat, m)
            && #[trigger] shares_user_order(ss[j], ss[m]))
}

/// Settlement `j` is mature: it enters the closure after finitely many
/// rounds.
pub open spec fn is_mature(ss: Seq<Settlement>, cutoff: int, j: int) -> bool {
    exists|k: nat| mature_within(ss, cutoff, k, j)
}

/// The maturity of every settlement of the list, as one flag per index.
pub open spec fn mature_flags(ss: Seq<Settlement>, cutoff: int) -> Seq<bool> {
    Seq::new(ss.len(), |j: int| is_mature(ss, cutoff, j))
}

/// The subsequence of `s` at the indices flagged in `keep`.
pub open spec fn filter_by_flags<T>(s: Seq<T>, keep: Seq<bool>) -> Seq<T>
    decreases s.len(),
{
    if s.len() == 0 {
        Seq::empty()
    } else {
        let rest = filter_by_flags(s.drop_last(), keep.drop_last());
        if keep[s.len() - 1] {
            rest.push(s.last())
        } else {
            rest
        }
    }
}

/// How many flags of `s` are set.
pub open spec fn count_marked(s: Seq<bool>) -> nat
    decreases s.len(),
{
    if s.len() == 0 {
        0
    } else {
        count_marked(s.drop_last()) + (if s.last() {
            1nat
        } else {
            0nat
        })
    }
}

proof fn lemma_count_marked_le(s: Seq<bool>)
    ensures
        count_marked(s) <= s.len(),
    decreases s.len(),
{
    if s.len() > 0 {
        lemma_count_marked_le(s.drop_last());
    }
}

proof fn lemma_count_marked_set_true(s: Seq<bool>, j: int)
    requires
        0 <= j < s.len(),
        !s[j],
    ensures
        count_marked(s.update(j, true)) == count_marked(s) + 1,
    decreases s.len(),
{
    let t = s.update(j, true);
    if j == s.len() - 1 {
        assert(t.drop_last() =~= s.drop_last());
    } else {
        assert(t.drop_last() =~= s.drop_last().update(j, true));
        lemma_count_marked_set_true(s.drop_last(), j);
    }
}

/// A settlement that qualifies against a sound marking is itself mature.
proof fn lemma_qualifies_mature(ss: Seq<Settlement>, marked: Seq<bool>, cutoff: int, j: int)
    requires
        marked.len() == ss.len(),
        0 <= j < ss.len(),
        spec_qualifies(ss, marked, cutoff, j),
        forall|m: int| 0 <= m < ss.len() && #[trigger] marked[m] ==> is_mature(ss, cutoff, m),
    ensures
        is_mature(ss, cutoff, j),
{
    reveal_with_fuel(mature_within, 2);
    let i = choose|i: int|
        0 <= i < ss[j].trades@.len() && is_user_trade(#[trigger] ss[j].trades@[i]) && (
        ss[j].trades@[i].order.creation_date <= cutoff || uid_in_marked(
            ss,
            marked,
            ss[j].trades@[i].order.uid@,
        ));
    if ss[j].trades@[i].order.creation_date <= cutoff {
        assert(mature_by_age(ss[j], cutoff));
        assert(mature_within(ss, cutoff, 1, j));
    } else {
        let u = ss[j].trades@[i].order.uid@;
        let m = choose|m: int|
            0 <= m < ss.len() && marked[m] && settlement_has_user_uid(#[trigger] ss[m], u);
        assert(is_mature(ss, cutoff, m));
        let k = choose|k: nat| mature_within(ss, cutoff, k, m);
        let q = choose|q: int|
            0 <= q < ss[m].trades@.len() && is_user_trade(#[trigger] ss[m].trades@[q])
                && ss[m].trades@[q].order.uid@ == u;
        assert(shares_user_order(ss[j], ss[m]));
        let k1: nat = (k + 1) as nat;
        assert((k1 - 1) as nat == k);
        assert(mature_within(ss, cutoff, (k1 - 1) as nat, m));
        assert(mature_within(ss, cutoff, k1, j));
    }
}

/// At a fixed point (no unmarked settlement qualifies), every mature
/// settlement is already marked.
proof fn lemma_fixpoint_complete(ss: Seq<Settlement>, marked: Seq<bool>, cutoff: int, k: nat, j: int)
    requires
        marked.len() == ss.len(),
        forall|t: int|
            0 <= t < ss.len() && !marked[t] ==> !(#[trigger] spec_qualifies(ss, marked, cutoff, t)),
        mature_within(ss, cutoff, k, j),
    ensures
        marked[j],
    decreases k,
{
    reveal_with_fuel(mature_within, 2);
    if !marked[j] {
        if mature_by_age(ss[j], cutoff) {
            let i = choose|i: int|
                0 <= i < ss[j].trades@.len() && is_user_trade(#[trigger] ss[j].trades@[i])
                    && ss[j].trades@[i].order.creation_date <= cutoff;
            assert(spec_qualifies(ss, marked, cutoff, j));
        } else {
            assert(mature_within(ss, cutoff, k, j));
            assert(k > 0);
            let m = choose|m: int|
                0 <= m < ss.len() && mature_within(ss, cutoff, (k - 1) as nat, m)
                    && #[trigger] shares_user_order(ss[j], ss[m]);
            lemma_fixpoint_complete(ss, marked, cutoff, (k - 1) as nat, m);
            let (i, q): (int, int) = choose|i: int, q: int|
                0 <= i < ss[j].trades@.len() && 0 <= q < ss[m].trades@.len()
                    && is_user_trade(#[trigger] ss[j].trades@[i]) && is_user_trade(
                    #[trigger] ss[m].trades@[q],
                ) && ss[j].trades@[i].order.uid@ == ss[m].trades@[q].order.uid@;
            assert(settlement_has_user_uid(ss[m], ss[j].trades@[i].order.uid@));
            assert(uid_in_marked(ss, marked, ss[j].trades@[i].order.uid@));
            assert(spec_qualifies(ss, marked, cutoff, j));
        }
    }
}

fn trade_is_user(t: &crate::orders::Trade) -> (r: bool)
    ensures
        r == is_user_trade(*t),
{
    matches!(t.order.class, OrderClass::Market | OrderClass::Limit)
}

fn settlement_contains_user_uid(s: &Settlement, uid: &OrderUid) -> (r: bool)
    ensures
        r == settlement_has_user_uid(*s, uid@),
{
    let nt = s.trades.len();
    for q in 0..nt
        invariant
            nt == s.trades@.len(),
            forall|t: int|
                0 <= t < q ==> !(is_user_trade(#[trigger] s.trades@[t]) && s.trades@[t].order.uid@
                    == uid@),
    {
        let t = &s.trades[q];
        if trade_is_user(t) && crate::orders::uid_eq(&t.order.uid, uid) {
            return true;
        }
    }
    false
}

fn uid_among_marked<S>(
    settlements: &Vec<(S, Settlement)>,
    marked: &Vec<bool>,
    uid: &OrderUid,
) -> (r: bool)
    requires
        marked@.len() == settlements@.len(),
    ensures
        r == uid_in_marked(settlements_of(settlements@), marked@, uid@),
{
    let ghost ss = settlements_of(settlements@);
    let n = settlements.len();
    for m in 0..n
        invariant
            n == settlements@.len(),
            marked@.len() == n,
            ss == settlements_of(settlements@),
            forall|t: int|
                0 <= t < m ==> !(marked@[t] && settlement_has_user_uid(#[trigger] ss[t], uid@)),
    {
        proof {
            assert(ss[m as int] == settlements@[m as int].1);
        }
        if marked[m] && settlement_contains_user_uid(&settlements[m].1, uid) {
            return true;
        }
    }
    false
}

fn qualifies<S>(
    settlements: &Vec<(S, Settlement)>,
    marked: &Vec<bool>,
    cutoff: i64,
    j: usize,
) -> (r: bool)
    requires
        marked@.len() == settlements@.len(),
        j < settlements@.len(),
    ensures
        r == spec_qualifies(settlements_of(settlements@), marked@, cutoff as int, j as int),
{
    let ghost ss = settlements_of(settlements@);
    proof {
        assert(ss[j as int] == settlements@[j as int].1);
    }
    let nt = settlements[j].1.trades.len();
    for i in 0..nt
        invariant
            marked@.len() == settlements@.len(),
            j < settlements@.len(),
            ss == settlements_of(settlements@),
            nt == ss[j as int].trades@.len(),
            forall|t: int|
                0 <= t < i ==> !(is_user_trade(#[trigger] ss[j as int].trades@[t]) && (
                ss[j as int].trades@[t].order.creation_date <= cutoff || uid_in_marked(
                    ss,
                    marked@,
                    ss[j as int].trades@[t].order.uid@,
                ))),
    {
        let t = &settlements[j].1.trades[i];
        proof {
            assert(ss[j as int].trades@[i as int] == settlements@[j as int].1.trades@[i as int]);
        }
        if trade_is_user(t) {
            if t.order.creation_date <= cutoff {
                return true;
            }
            if uid_among_marked(settlements, marked, &t.order.uid) {
                return true;
            }
        }
    }
    false
}

/// Computes which settlements are mature against the frozen deadline
/// `cutoff`, as one flag per settlement, by iterating the closure to its
/// fixed point.
pub fn find_mature_settlements<S>(cutoff: i64, settlements: &Vec<(S, Settlement)>) -> (r: Vec<bool>)
    ensures
        r@.len() == settlements@.len(),
        forall|j: int|
            0 <= j < settlements@.len() ==> r@[j] == is_mature(
                settlements_of(settlements@),
                cutoff as int,
                j,
            ),
{
    let ghost ss = settlements_of(settlements@);
    let n = settlements.len();
    let mut marked: Vec<bool> = vec![false; n];
    proof {
        lemma_count_marked_le(marked@);
    }
    loop
        invariant_except_break
            n == settlements@.len(),
            ss == settlements_of(settlements@),
            marked@.len() == n,
            count_marked(marked@) <= n,
            forall|m: int| 0 <= m < n && #[trigger] marked@[m] ==> is_mature(ss, cutoff as int, m),
        ensures
            marked@.len() == n,
            forall|m: int| 0 <= m < n && #[trigger] marked@[m] ==> is_mature(ss, cutoff as int, m),
            forall|t: int|
                0 <= t < n && !marked@[t] ==> !(#[trigger] spec_qualifies(ss, marked@, cutoff as int, t)),
        decreases n - count_marked(marked@),
    {
        let ghost start = marked@;
        let mut changed = false;
        for j in 0..n
            invariant
                n == settlements@.len(),
                ss == settlements_of(settlements@),
                marked@.len() == n,
                count_marked(marked@) <= n,
                forall|m: int|
                    0 <= m < n && #[trigger] marked@[m] ==> is_mature(ss, cutoff as int, m),
                !changed ==> marked@ == start,
                changed ==> count_marked(marked@) > count_marked(start),
                !changed ==> forall|t: int|
                    0 <= t < j && !marked@[t] ==> !(#[trigger] spec_qualifies(
                        ss,
                        marked@,
                        cutoff as int,
                        t,
                    )),
        {
            if !marked[j] {
                if qualifies(settlements, &marked, cutoff, j) {
                    proof {
                        lemma_qualifies_mature(ss, marked@, cutoff as int, j as int);
                        lemma_count_marked_set_true(marked@, j as int);
                    }
                    marked.set(j, true);
                    changed = true;
                    proof {
                        lemma_count_marked_le(marked@);
                    }
                }
            }
        }
        if !changed {
            break;
        }
    }
    proof {
        assert forall|j: int| 0 <= j < n implies marked@[j] == is_mature(ss, cutoff as int, j) by {
            if marked@[j] {
                assert(is_mature(ss, cutoff as int, j));
            } else if is_mature(ss, cutoff as int, j) {
                let k = choose|k: nat| mature_within(ss, cutoff as int, k, j);
                lemma_fixpoint_complete(ss, marked@, cutoff as int, k, j);
            }
        }
    }
    marked
}

/// Keeps the settlements that are mature against the frozen deadline
/// `cutoff` and notifies every excluded settlement's solver of rejection
/// with reason `NoMatureOrders`.
pub fn retain_mature_settlements_at<S: Solver>(
    cutoff: i64,
    settlements: Vec<(S, Settlement)>,
    auction_id: i64,
) -> (r: Vec<(S, Settlement)>)
    ensures
        r@ == filter_by_flags(
            settlements@,
            mature_flags(settlements_of(settlements@), cutoff as int),
        ),
{
    let ghost original = settlements@;
    let ghost ss = settlements_of(settlements@);
    let flags = find_mature_settlements(cutoff, &settlements);
    let mut rest = settlements;
    let mut retained: Vec<(S, Settlement)> = Vec::new();
    let n = flags.len();
    for j in 0..n
        invariant
            flags@.len() == n,
            original.len() == n,
            rest@ == original.skip(j as int),
            forall|t: int| 0 <= t < n ==> #[trigger] flags@[t] == is_mature(ss, cutoff as int, t),
            ss == settlements_of(original),
            retained@ == filter_by_flags(original.take(j as int), flags@.take(j as int)),
    {
        let pair = rest.remove(0);
        proof {
            assert(original.skip(j as int).remove(0) =~= original.skip(j + 1));
            assert(original.skip(j as int)[0] == original[j as int]);
            assert(original.take(j + 1).drop_last() =~= original.take(j as int));
            assert(flags@.take(j + 1).drop_last() =~= flags@.take(j as int));
            assert(original.take(j + 1).last() == original[j as int]);
        }
        if flags[j] {
            retained.push(pair);
        } else {
            pair.0.notify_auction_result(
                auction_id,
                AuctionResult::Rejected(SolverRejectionReason::NoMatureOrders),
            );
        }
    }
    proof {
        assert(original.take(n as int) =~= original);
        assert(flags@.take(n as int) =~= flags@);
        assert(flags@ =~= mature_flags(ss, cutoff as int));
    }
    retained
}

/// Relies on std's `SystemTime::now` and `duration_since`: the current
/// time, as whole seconds since the Unix epoch, negative when the system
/// clock stands before it. Nothing is promised of the value, and no clock
/// state makes the call panic.
#[verifier::external_body]
fn now_timestamp() -> i64 {
    match std::time::SystemTime::now().duration_since(std::time::UNIX_EPOCH) {
        Ok(since) => i64::try_from(since.as_secs()).unwrap_or(i64::MAX),
        Err(before) => -i64::try_from(before.duration().as_secs()).unwrap_or(i64::MAX),
    }
}

/// Keeps the settlements with a user order mature by age (older than
/// `min_order_age` seconds at one frozen "now") or by association, and
/// notifies every excluded settlement's solver of rejection with reason
/// `NoMatureOrders`. The deadline is frozen once per call, so every
/// settlement of one pass is judged against the same cutoff.
pub fn retain_mature_settlements<S: Solver>(
    min_order_age: u64,
    settlements: Vec<(S, Settlement)>,
    auction_id: i64,
) -> (r: Vec<(S, Settlement)>)
    ensures
        exists|cutoff: int|
            i64::MIN <= cutoff <= i64::MAX && r@ == filter_by_flags(
                settlements@,
                mature_flags(settlements_of(settlements@), cutoff),
            ),
{
    let now = now_timestamp();
    let wide: i128 = now as i128 - min_order_age as i128;
    let cutoff: i64 = if wide < i64::MIN as i128 {
        i64::MIN
    } else {
        wide as i64
    };
    let r = retain_mature_settlements_at(cutoff, settlements, auction_id);
    proof {
        assert(r@ == filter_by_flags(
            settlements@,
            mature_flags(settlements_of(settlements@), cutoff as int),
        ));
    }
    r
}

/// Law: a settlement containing no user (Market or Limit) trade is never
/// mature, so the maturity filter never retains it.
pub proof fn lemma_no_user_trades_never_mature(ss: Seq<Settlement>, cutoff: int, j: int)
    requires
        0 <= j < ss.len(),
        forall|i: int| 0 <= i < ss[j].trades@.len() ==> !is_user_trade(#[trigger] ss[j].trades@[i]),
    ensures
        !is_mature(ss, cutoff, j),
{
    if is_mature(ss, cutoff, j) {
        let k = choose|k: nat| mature_within(ss, cutoff, k, j);
        if mature_by_age(ss[j], cutoff) {
            let i = choose|i: int|
                0 <= i < ss[j].trades@.len() && is_user_trade(#[trigger] ss[j].trades@[i])
                    && ss[j].trades@[i].order.creation_date <= cutoff;
            assert(false);
        } else {
            let m = choose|m: int|
                0 <= m < ss.len() && mature_within(ss, cutoff, (k - 1) as nat, m)
                    && #[trigger] shares_user_order(ss[j], ss[m]);
            let (i, q): (int, int) = choose|i: int, q: int|
                0 <= i < ss[j].trades@.len() && 0 <= q < ss[m].trades@.len()
                    && is_user_trade(#[trigger] ss[j].trades@[i]) && is_user_trade(
                    #[trigger] ss[m].trades@[q],
                ) && ss[j].trades@[i].order.uid@ == ss[m].trades@[q].order.uid@;
            assert(false);
        }
    }
}

/// Law: a settlement with a user order mature by age is mature, whatever
/// other settlements are present.
pub proof fn lemma_mature_by_age_is_mature(ss: Seq<Settlement>, cutoff: int, j: int)
    requires
        0 <= j < ss.len(),
        mature_by_age(ss[j], cutoff),
    ensures
        is_mature(ss, cutoff, j),
{
    assert(mature_within(ss, cutoff, 1, j));
}

/// Law: maturity spreads across settlements that share a user order: if
/// `a` is mature and `b` shares a user-order uid with `a`, then `b` is
/// mature too. Since `shares_user_order` only admits Market and Limit
/// trades on both sides, maturity never propagates through a
/// Liquidity-class trade.
pub proof fn lemma_maturity_spreads(ss: Seq<Settlement>, cutoff: int, a: int, b: int)
    requires
        0 <= a < ss.len(),
        0 <= b < ss.len(),
        is_mature(ss, cutoff, a),
        shares_user_order(ss[b], ss[a]),
    ensures
        is_mature(ss, cutoff, b),
{
    let k = choose|k: nat| mature_within(ss, cutoff, k, a);
    let k1: nat = (k + 1) as nat;
    assert((k1 - 1) as nat == k);
    assert(mature_within(ss, cutoff, (k1 - 1) as nat, a));
    assert(mature_within(ss, cutoff, k1, b));
}

proof fn lemma_mature_within_map(
    ss1: Seq<Settlement>,
    ss2: Seq<Settlement>,
    f: spec_fn(int) -> int,
    cutoff: int,
    k: nat,
    j: int,
)
    requires
        forall|i: int|
            0 <= i < ss1.len() ==> 0 <= #[trigger] f(i) < ss2.len() && ss2[f(i)] == ss1[i],
        0 <= j < ss1.len(),
        mature_within(ss1, cutoff, k, j),
    ensures
        mature_within(ss2, cutoff, k, f(j)),
    decreases k,
{
    if mature_by_age(ss1[j], cutoff) {
        assert(ss2[f(j)] == ss1[j]);
        assert(mature_within(ss2, cutoff, k, f(j)));
    } else {
        let m = choose|m: int|
            0 <= m < ss1.len() && mature_within(ss1, cutoff, (k - 1) as nat, m)
                && #[trigger] shares_user_order(ss1[j], ss1[m]);
        lemma_mature_within_map(ss1, ss2, f, cutoff, (k - 1) as nat, m);
        assert(shares_user_order(ss2[f(j)], ss2[f(m)]));
        assert(mature_within(ss2, cutoff, k, f(j)));
    }
}

/// Law: the final mature set depends only on which settlements are
/// present, not on the order they are listed in. If `f` maps every index
/// of `ss1` to an index of `ss2` holding an equal settlement (for a
/// permutation, apply the law to both directions), a settlement mature in
/// `ss1` is mature at its image in `ss2`.
pub proof fn lemma_order_independent(
    ss1: Seq<Settlement>,
    ss2: Seq<Settlement>,
    f: spec_fn(int) -> int,
    cutoff: int,
    j: int,
)
    requires
        forall|i: int|
            0 <= i < ss1.len() ==> 0 <= #[trigger] f(i) < ss2.len() && ss2[f(i)] == ss1[i],
        0 <= j < ss1.len(),
        is_mature(ss1, cutoff, j),
    ensures
        is_mature(ss2, cutoff, f(j)),
{
    let k = choose|k: nat| mature_within(ss1, cutoff, k, j);
    lemma_mature_within_map(ss1, ss2, f, cutoff, k, j);
    assert(mature_within(ss2, cutoff, k, f(j)));
}

} // verus!
