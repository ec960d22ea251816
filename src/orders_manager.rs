use crate::messages::{
    token_model, CoffeeMakerRequest, MessageKind, MessageType, ServerMessage,
    ServerMessageType, TokenData,
};
use crate::orders_queue::{has_account, is_aggregation_of, points_for, OrdersQueue, QueuedOrder};
use vstd::prelude::*;

verus! {

broadcast use vstd::std_specs::hash::group_hash_axioms;

/// Requests pending for `account` in a token.
pub open spec fn pending(t: Map<usize, Seq<CoffeeMakerRequest>>, account: usize) -> Seq<CoffeeMakerRequest> {
    if t.contains_key(account) {
        t[account]
    } else {
        Seq::empty()
    }
}

/// The add request that stands for all of `orders` on `account`.
pub open spec fn aggregated_add(orders: Seq<QueuedOrder>, account: usize) -> CoffeeMakerRequest {
    CoffeeMakerRequest {
        message_type: MessageType::AddPoints,
        account_id: account,
        points: points_for(orders, account) as usize,
    }
}

/// A token's pending requests once the add orders `orders` are recorded in it:
/// each account with add orders gets one aggregated add request at the end of
/// its list.
pub open spec fn token_after_adds(
    t: Map<usize, Seq<CoffeeMakerRequest>>,
    orders: Seq<QueuedOrder>,
) -> Map<usize, Seq<CoffeeMakerRequest>> {
    Map::new(
        |k: usize| t.contains_key(k) || has_account(orders, k),
        |k: usize|
            if has_account(orders, k) {
                pending(t, k).push(aggregated_add(orders, k))
            } else {
                t[k]
            },
    )
}

/// Appends `request` to the requests pending for its account.
fn record_request(t: &mut TokenData, request: CoffeeMakerRequest)
    ensures
        token_model(final(t)@) == token_model(old(t)@).insert(
            request.account_id,
            pending(token_model(old(t)@), request.account_id).push(request),
        ),
{
    let mut list = match t.remove(&request.account_id) {
        Some(v) => v,
        None => Vec::new(),
    };
    list.push(request);
    t.insert(request.account_id, list);
    proof {
        assert(token_model(t@) =~= token_model(old(t)@).insert(
            request.account_id,
            pending(token_model(old(t)@), request.account_id).push(request),
        ));
    }
}

/// Handles a token that reached this peer. With no buffered orders the token
/// is left as it came and nothing needs authorising. Otherwise the add orders
/// are drained into the token, one aggregated request per account, and the
/// redemption orders are drained and handed back, oldest first, to be
/// authorised one by one before the token goes on.
pub fn process_token(orders: &mut OrdersQueue, token: &mut ServerMessage) -> (r: Vec<QueuedOrder>)
    requires
        old(orders).wf(),
        old(token)@.kind is Token,
    ensures
        final(orders).wf(),
        final(orders).adding().len() == 0,
        final(orders).requests().len() == 0,
        r@ == old(orders).requests(),
        final(token)@.sender_id == old(token)@.sender_id,
        final(token)@.passed_by == old(token)@.passed_by,
        old(orders).adding().len() == 0 ==> final(token)@ == old(token)@,
        match old(token)@.kind {
            MessageKind::Token(t) => final(token)@.kind == MessageKind::Token(
                token_after_adds(t, old(orders).adding()),
            ),
            _ => false,
        },
{
    let ghost old_token = token@;
    if orders.is_empty() {
        proof {
            if let MessageKind::Token(t) = old_token.kind {
                assert(token_after_adds(t, orders.adding()) =~= t);
            }
        }
        return Vec::new();
    }
    let ghost adding = orders.adding();
    let adds = orders.get_and_clear_adding_orders();
    match &mut token.message_type {
        ServerMessageType::Token(t) => {
            let ghost t0 = token_model(t@);
            let mut i: usize = 0;
            while i < adds.len()
                invariant
                    i <= adds@.len(),
                    is_aggregation_of(adds@, adding),
                    forall|k: usize| #[trigger] token_model(t@).contains_key(k) <==> (t0.contains_key(k)
                        || exists|j: int| 0 <= j < i && adds@[j].account_id == k),
                    forall|j: int| 0 <= j < i ==> #[trigger] token_model(t@)[adds@[j].account_id] == pending(
                        t0,
                        adds@[j].account_id,
                    ).push(adds@[j]),
                    forall|k: usize| (forall|j: int| 0 <= j < i ==> adds@[j].account_id != k) && t0.contains_key(k)
                        ==> #[trigger] token_model(t@)[k] == t0[k],
                decreases adds@.len() - i,
            {
                let ghost before = token_model(t@);
                record_request(t, adds[i]);
                proof {
                    let a = adds@[i as int].account_id;
                    assert forall|j: int| 0 <= j < i implies adds@[j].account_id != a by {}
                    assert(pending(before, a) == pending(t0, a));
                    assert forall|k: usize| #[trigger] token_model(t@).contains_key(k) <==> (t0.contains_key(k)
                        || exists|j: int| 0 <= j < i + 1 && adds@[j].account_id == k) by {
                        if k == a {
                            assert(adds@[i as int].account_id == k);
                        } else if exists|j: int| 0 <= j < i + 1 && adds@[j].account_id == k {
                            let j = choose|j: int| 0 <= j < i + 1 && adds@[j].account_id == k;
                            assert(j < i);
                        }
                    }
                }
                i = i + 1;
            }
            proof {
                assert forall|k: usize| has_account(adding, k) <==> exists|j: int| 0 <= j < adds@.len() && adds@[j].account_id == k by {}
                assert forall|k: usize| has_account(adding, k) implies #[trigger] token_model(t@)[k] == pending(t0, k).push(aggregated_add(adding, k)) by {
                    let j = choose|j: int| 0 <= j < adds@.len() && adds@[j].account_id == k;
                    assert(adds@[j] == aggregated_add(adding, k));
                }
                assert(token_model(t@) =~= token_after_adds(t0, adding));
                if adding.len() == 0 {
                    assert(token_after_adds(t0, adding) =~= t0);
                }
            }
        },
        _ => {},
    }
    orders.get_and_clear_request_points_orders()
}

} // verus!
