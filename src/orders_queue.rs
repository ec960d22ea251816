use crate::messages::{CoffeeMakerRequest, MessageType};
use vstd::prelude::*;

verus! {

/// A buffered request with the id of the coffee maker that sent it.
pub type QueuedOrder = (CoffeeMakerRequest, usize);

/// Sum of the points that `orders` add to `account`.
pub open spec fn points_for(orders: Seq<QueuedOrder>, account: usize) -> nat
    decreases orders.len(),
{
    if orders.len() == 0 {
        0
    } else {
        let last = orders.last();
        points_for(orders.drop_last(), account) + if last.0.account_id == account {
            last.0.points as nat
        } else {
            0nat
        }
    }
}

/// Sum of the points of all of `orders`.
pub open spec fn total_points(orders: Seq<QueuedOrder>) -> nat
    decreases orders.len(),
{
    if orders.len() == 0 {
        0
    } else {
        total_points(orders.drop_last()) + orders.last().0.points as nat
    }
}

/// Whether `account` has a request in `orders`.
pub open spec fn has_account(orders: Seq<QueuedOrder>, account: usize) -> bool {
    exists|i: int| 0 <= i < orders.len() && orders[i].0.account_id == account
}

/// What draining add orders owes: one add request per distinct account, holding
/// the sum of the points added to it.
pub open spec fn is_aggregation_of(r: Seq<CoffeeMakerRequest>, orders: Seq<QueuedOrder>) -> bool {
    &&& forall|i: int| 0 <= i < r.len() ==> r[i].message_type == MessageType::AddPoints
    &&& forall|i: int| 0 <= i < r.len() ==> r[i].points == points_for(orders, r[i].account_id)
    &&& forall|i: int, j: int| 0 <= i < j < r.len() ==> r[i].account_id != r[j].account_id
    &&& forall|a: usize| has_account(orders, a) <==> exists|i: int| 0 <= i < r.len() && r[i].account_id == a
}

/// Requests waiting for the token, split by kind.
pub struct OrdersQueue {
    adding_orders: Vec<QueuedOrder>,
    request_points_orders: Vec<QueuedOrder>,
}

impl OrdersQueue {
    /// Buffered add orders, oldest first.
    pub closed spec fn adding(&self) -> Seq<QueuedOrder> {
        self.adding_orders@
    }

    /// Buffered redemption orders, oldest first.
    pub closed spec fn requests(&self) -> Seq<QueuedOrder> {
        self.request_points_orders@
    }

    /// The buffered add orders can be summed without overflow.
    pub open spec fn wf(&self) -> bool {
        total_points(self.adding()) <= usize::MAX
    }

    pub fn new() -> (r: OrdersQueue)
        ensures
            r.wf(),
            r.adding() == Seq::<QueuedOrder>::empty(),
            r.requests() == Seq::<QueuedOrder>::empty(),
    {
        OrdersQueue { adding_orders: Vec::new(), request_points_orders: Vec::new() }
    }

    /// Buffers `order`; kinds other than adding and requesting points are ignored.
    pub fn add(&mut self, order: CoffeeMakerRequest, coffee_maker_id: usize)
        requires
            old(self).wf(),
            order.message_type == MessageType::AddPoints ==> total_points(old(self).adding())
                + order.points <= usize::MAX,
        ensures
            final(self).wf(),
            total_points(final(self).adding()) == total_points(old(self).adding()) + if order.message_type
                == MessageType::AddPoints {
                order.points as nat
            } else {
                0nat
            },
            final(self).adding() == if order.message_type == MessageType::AddPoints {
                old(self).adding().push((order, coffee_maker_id))
            } else {
                old(self).adding()
            },
            final(self).requests() == if order.message_type == MessageType::RequestPoints {
                old(self).requests().push((order, coffee_maker_id))
            } else {
                old(self).requests()
            },
    {
        match order.message_type {
            MessageType::AddPoints => {
                self.adding_orders.push((order, coffee_maker_id));
                assert(self.adding_orders@.drop_last() == old(self).adding_orders@);
            },
            MessageType::RequestPoints => self.request_points_orders.push((order, coffee_maker_id)),
            _ => {},
        }
    }

    /// Sum that an add order of `points` would bring the buffered add orders to,
    /// or `None` where it would not fit.
    pub fn add_total_after(&self, points: usize) -> (r: Option<usize>)
        requires
            self.wf(),
        ensures
            r matches Some(t) ==> t == total_points(self.adding()) + points,
            r is None <==> total_points(self.adding()) + points > usize::MAX,
    {
        let mut total: usize = points;
        let mut i: usize = 0;
        while i < self.adding_orders.len()
            invariant
                i <= self.adding_orders@.len(),
                total == total_points(self.adding_orders@.take(i as int)) + points,
                total_points(self.adding_orders@) <= usize::MAX,
            decreases self.adding_orders@.len() - i,
        {
            let p = self.adding_orders[i].0.points;
            proof {
                assert(self.adding_orders@.take(i + 1).drop_last() == self.adding_orders@.take(i as int));
                lemma_total_prefix(self.adding_orders@, i + 1);
            }
            if total > usize::MAX - p {
                proof {
                    lemma_total_prefix(self.adding_orders@, self.adding_orders@.len() as int);
                    assert(self.adding_orders@.take(self.adding_orders@.len() as int) == self.adding_orders@);
                }
                return None;
            }
            total = total + p;
            i = i + 1;
        }
        assert(self.adding_orders@.take(i as int) == self.adding_orders@);
        Some(total)
    }

    /// Drains the add orders, aggregated by account.
    pub fn get_and_clear_adding_orders(&mut self) -> (r: Vec<CoffeeMakerRequest>)
        requires
            old(self).wf(),
        ensures
            final(self).wf(),
            is_aggregation_of(r@, old(self).adding()),
            final(self).adding() == Seq::<QueuedOrder>::empty(),
            final(self).requests() == old(self).requests(),
    {
        let mut reduced: Vec<CoffeeMakerRequest> = Vec::new();
        let n = self.adding_orders.len();
        let mut i: usize = 0;
        while i < n
            invariant
                n == self.adding_orders@.len(),
                i <= n,
                total_points(self.adding_orders@) <= usize::MAX,
                is_aggregation_of(reduced@, self.adding_orders@.take(i as int)),
            decreases n - i,
        {
            let order = self.adding_orders[i].0;
            let ghost before = self.adding_orders@.take(i as int);
            let ghost after = self.adding_orders@.take(i + 1);
            proof {
                assert(after.drop_last() == before);
                assert(after.last() == self.adding_orders@[i as int]);
                lemma_points_le_total(after, order.account_id);
                lemma_total_prefix(self.adding_orders@, i + 1);
                assert forall|a: usize| #[trigger] points_for(after, a) == points_for(before, a) + if a == order.account_id {
                    order.points as nat
                } else {
                    0nat
                } by {}
                assert forall|a: usize| #[trigger] has_account(after, a) <==> (has_account(before, a) || a == order.account_id) by {
                    if has_account(after, a) && a != order.account_id {
                        let k = choose|k: int| 0 <= k < after.len() && after[k].0.account_id == a;
                        assert(before[k].0.account_id == a);
                    }
                    if has_account(before, a) {
                        let k = choose|k: int| 0 <= k < before.len() && before[k].0.account_id == a;
                        assert(after[k].0.account_id == a);
                    }
                    if a == order.account_id {
                        assert(after[i as int].0.account_id == a);
                    }
                }
            }
            let mut j: usize = 0;
            while j < reduced.len() && reduced[j].account_id != order.account_id
                invariant
                    j <= reduced@.len(),
                    forall|k: int| 0 <= k < j ==> reduced@[k].account_id != order.account_id,
                decreases reduced@.len() - j,
            {
                j = j + 1;
            }
            let ghost old_reduced = reduced@;
            if j < reduced.len() {
                proof {
                    assert(reduced@[j as int].points == points_for(before, order.account_id));
                    assert(points_for(after, order.account_id) <= total_points(self.adding_orders@));
                }
                let sum = reduced[j].points + order.points;
                reduced.set(
                    j,
                    CoffeeMakerRequest {
                        message_type: MessageType::AddPoints,
                        account_id: order.account_id,
                        points: sum,
                    },
                );
                proof {
                    assert forall|a: usize| has_account(after, a) implies exists|k: int|
                        0 <= k < reduced@.len() && reduced@[k].account_id == a by {
                        if a != order.account_id {
                            let k = choose|k: int| 0 <= k < old_reduced.len() && old_reduced[k].account_id == a;
                            assert(reduced@[k].account_id == a);
                        } else {
                            assert(reduced@[j as int].account_id == a);
                        }
                    }
                    assert forall|k: int| 0 <= k < reduced@.len() implies #[trigger] reduced@[k].points == points_for(after, reduced@[k].account_id) by {
                        if k < old_reduced.len() && k != j {
                            assert(old_reduced[k].points == points_for(before, old_reduced[k].account_id));
                        }
                    }
                    assert forall|k: int, l: int| 0 <= k < l < reduced@.len() implies reduced@[k].account_id != reduced@[l].account_id by {
                        if k != j && l != j && l < old_reduced.len() {
                            assert(old_reduced[k].account_id != old_reduced[l].account_id);
                        }
                    }
                    assert forall|a: usize| (exists|k: int| 0 <= k < reduced@.len() && reduced@[k].account_id == a) implies has_account(after, a) by {
                        let k = choose|k: int| 0 <= k < reduced@.len() && reduced@[k].account_id == a;
                        assert(old_reduced[k].account_id == a);
                    }
                }
            } else {
                reduced.push(
                    CoffeeMakerRequest {
                        message_type: MessageType::AddPoints,
                        account_id: order.account_id,
                        points: order.points,
                    },
                );
                proof {
                    assert(!has_account(before, order.account_id));
                    lemma_absent_account_has_no_points(before, order.account_id);
                    assert forall|a: usize| has_account(after, a) implies exists|k: int|
                        0 <= k < reduced@.len() && reduced@[k].account_id == a by {
                        if a != order.account_id {
                            let k = choose|k: int| 0 <= k < old_reduced.len() && old_reduced[k].account_id == a;
                            assert(reduced@[k].account_id == a);
                        } else {
                            assert(reduced@[j as int].account_id == a);
                        }
                    }
                    assert forall|k: int| 0 <= k < reduced@.len() implies #[trigger] reduced@[k].points == points_for(after, reduced@[k].account_id) by {
                        if k < old_reduced.len() && k != j {
                            assert(old_reduced[k].points == points_for(before, old_reduced[k].account_id));
                        }
                    }
                    assert forall|k: int, l: int| 0 <= k < l < reduced@.len() implies reduced@[k].account_id != reduced@[l].account_id by {
                        if k != j && l != j && l < old_reduced.len() {
                            assert(old_reduced[k].account_id != old_reduced[l].account_id);
                        }
                    }
                    assert forall|a: usize| (exists|k: int| 0 <= k < reduced@.len() && reduced@[k].account_id == a) implies has_account(after, a) by {
                        let k = choose|k: int| 0 <= k < reduced@.len() && reduced@[k].account_id == a;
                        if k < old_reduced.len() {
                            assert(old_reduced[k].account_id == a);
                        }
                    }
                }
            }
            assert(is_aggregation_of(reduced@, after));
            i = i + 1;
        }
        proof {
            assert(self.adding_orders@.take(n as int) == self.adding_orders@);
        }
        self.adding_orders.clear();
        proof {
            assert(total_points(self.adding_orders@) == 0);
        }
        reduced
    }

    /// Drains the redemption orders, one entry per buffered request.
    pub fn get_and_clear_request_points_orders(&mut self) -> (r: Vec<QueuedOrder>)
        requires
            old(self).wf(),
        ensures
            final(self).wf(),
            r@ == old(self).requests(),
            final(self).requests() == Seq::<QueuedOrder>::empty(),
            final(self).adding() == old(self).adding(),
    {
        let mut orders: Vec<QueuedOrder> = Vec::new();
        let mut i: usize = 0;
        while i < self.request_points_orders.len()
            invariant
                i <= self.request_points_orders@.len(),
                orders@ == self.request_points_orders@.take(i as int),
            decreases self.request_points_orders@.len() - i,
        {
            orders.push(self.request_points_orders[i]);
            proof {
                assert(orders@ =~= self.request_points_orders@.take(i + 1));
            }
            i = i + 1;
        }
        proof {
            assert(orders@ =~= self.request_points_orders@);
        }
        self.request_points_orders.clear();
        orders
    }

    pub fn is_empty(&self) -> (r: bool)
        ensures
            r == (self.adding().len() == 0 && self.requests().len() == 0),
    {
        self.adding_orders.len() == 0 && self.request_points_orders.len() == 0
    }
}

impl Default for OrdersQueue {
    fn default() -> (r: Self)
        ensures
            r.wf(),
            r.adding() == Seq::<QueuedOrder>::empty(),
            r.requests() == Seq::<QueuedOrder>::empty(),
    {
        Self::new()
    }
}

/// The add orders buffered after `calls` to `add`, in order, on an empty queue.
pub open spec fn adding_after(calls: Seq<QueuedOrder>) -> Seq<QueuedOrder>
    decreases calls.len(),
{
    if calls.len() == 0 {
        calls
    } else {
        let prev = adding_after(calls.drop_last());
        if calls.last().0.message_type == MessageType::AddPoints {
            prev.push(calls.last())
        } else {
            prev
        }
    }
}

/// The redemption orders buffered after `calls` to `add`, in order, on an
/// empty queue.
pub open spec fn requests_after(calls: Seq<QueuedOrder>) -> Seq<QueuedOrder>
    decreases calls.len(),
{
    if calls.len() == 0 {
        calls
    } else {
        let prev = requests_after(calls.drop_last());
        if calls.last().0.message_type == MessageType::RequestPoints {
            prev.push(calls.last())
        } else {
            prev
        }
    }
}

/// Sum of the deltas of the add requests for `account` among `calls`.
pub open spec fn added_points(calls: Seq<QueuedOrder>, account: usize) -> nat
    decreases calls.len(),
{
    if calls.len() == 0 {
        0
    } else {
        let c = calls.last();
        added_points(calls.drop_last(), account) + if c.0.message_type == MessageType::AddPoints
            && c.0.account_id == account {
            c.0.points as nat
        } else {
            0nat
        }
    }
}

/// Whether one of `calls` adds points to `account`.
pub open spec fn adds_to(calls: Seq<QueuedOrder>, account: usize) -> bool {
    exists|i: int|
        0 <= i < calls.len() && calls[i].0.message_type == MessageType::AddPoints
            && calls[i].0.account_id == account
}

/// After any sequence of `add` calls on an empty queue, the drain of add orders
/// holds an entry for exactly the accounts that some add request named, each
/// with the sum of the deltas added to it.
pub proof fn lemma_drain_sums_added_points(calls: Seq<QueuedOrder>, account: usize)
    ensures
        points_for(adding_after(calls), account) == added_points(calls, account),
        has_account(adding_after(calls), account) == adds_to(calls, account),
    decreases calls.len(),
{
    if calls.len() > 0 {
        let prev = calls.drop_last();
        let c = calls.last();
        lemma_drain_sums_added_points(prev, account);
        if c.0.message_type == MessageType::AddPoints {
            lemma_add_accumulates(adding_after(prev), c.0, c.1, account);
        }
        if adds_to(calls, account) {
            let i = choose|i: int|
                0 <= i < calls.len() && calls[i].0.message_type == MessageType::AddPoints
                    && calls[i].0.account_id == account;
            if i < prev.len() {
                assert(prev[i] == calls[i]);
            }
        }
        if adds_to(prev, account) {
            let i = choose|i: int|
                0 <= i < prev.len() && prev[i].0.message_type == MessageType::AddPoints
                    && prev[i].0.account_id == account;
            assert(calls[i] == prev[i]);
        }
    }
}

/// After any sequence of `add` calls on an empty queue, the drain of
/// redemption orders holds exactly the redemption requests, one per call, in
/// the order of the calls, each with its coffee maker.
pub proof fn lemma_drain_keeps_each_request(calls: Seq<QueuedOrder>)
    ensures
        requests_after(calls) == calls.filter(
            |c: QueuedOrder| c.0.message_type == MessageType::RequestPoints,
        ),
    decreases calls.len(),
{
    reveal(Seq::filter);
    if calls.len() > 0 {
        lemma_drain_keeps_each_request(calls.drop_last());
    }
}

/// Buffering an add order raises the drained sum of its own account by exactly
/// its points, leaves every other account's sum as it was, and gives its
/// account an entry in the next drain.
pub proof fn lemma_add_accumulates(
    orders: Seq<QueuedOrder>,
    order: CoffeeMakerRequest,
    coffee_maker_id: usize,
    account: usize,
)
    ensures
        points_for(orders.push((order, coffee_maker_id)), account) == points_for(orders, account)
            + if order.account_id == account {
            order.points as nat
        } else {
            0nat
        },
        has_account(orders.push((order, coffee_maker_id)), account) == (has_account(orders, account)
            || order.account_id == account),
{
    let after = orders.push((order, coffee_maker_id));
    assert(after.drop_last() == orders);
    if has_account(orders, account) {
        let k = choose|k: int| 0 <= k < orders.len() && orders[k].0.account_id == account;
        assert(after[k].0.account_id == account);
    }
    if has_account(after, account) && order.account_id != account {
        let k = choose|k: int| 0 <= k < after.len() && after[k].0.account_id == account;
        assert(orders[k].0.account_id == account);
    }
    if order.account_id == account {
        assert(after[orders.len() as int].0.account_id == account);
    }
}

/// The points of one account never exceed the total.
pub proof fn lemma_points_le_total(s: Seq<QueuedOrder>, account: usize)
    ensures
        points_for(s, account) <= total_points(s),
    decreases s.len(),
{
    if s.len() > 0 {
        lemma_points_le_total(s.drop_last(), account);
    }
}

/// An account without requests gets no points.
pub proof fn lemma_absent_account_has_no_points(s: Seq<QueuedOrder>, account: usize)
    requires
        !has_account(s, account),
    ensures
        points_for(s, account) == 0,
    decreases s.len(),
{
    if s.len() > 0 {
        let t = s.drop_last();
        assert(s[s.len() - 1].0.account_id != account);
        assert forall|i: int| 0 <= i < t.len() implies t[i].0.account_id != account by {
            assert(s[i].0.account_id != account);
        }
        lemma_absent_account_has_no_points(t, account);
    }
}

/// The total of a prefix is at most the total of the whole sequence.
pub proof fn lemma_total_prefix(s: Seq<QueuedOrder>, n: int)
    requires
        0 <= n <= s.len(),
    ensures
        total_points(s.take(n)) <= total_points(s),
    decreases s.len(),
{
    if n < s.len() {
        assert(s.drop_last().take(n) == s.take(n));
        lemma_total_prefix(s.drop_last(), n);
    } else {
        assert(s.take(n) == s);
    }
}

} // verus!
