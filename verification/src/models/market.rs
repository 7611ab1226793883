//! Market vocabulary: economic events, trade orders and price records, and
//! the bookkeeping of a market's standing orders.
use vstd::prelude::*;
use crate::text::str_eq;
use crate::platform::new_uuid_string;

verus! {

/// Events that move market prices.
#[derive(Debug, Clone, PartialEq, Eq)]
pub enum EconomicEvent {
    Shortage(String),
    Surplus(String),
    HighDemand(String),
    LowDemand(String),
    TariffIncrease,
    TariffDecrease,
    MarketCrash,
    MarketBoom,
    LocalConflict,
    LocalPeace,
}

/// Whether an order buys or sells.
#[derive(Debug, Clone, Copy, PartialEq, Eq, Structural)]
pub enum OrderType {
    Buy,
    Sell,
}

/// Where an order stands.
#[derive(Debug, Clone, Copy, PartialEq, Eq, Structural)]
pub enum OrderStatus {
    Active,
    Completed,
    Cancelled,
    Failed,
    Expired,
}

/// An order to buy or sell automatically once the price is right. The id
/// is the text form of a random identifier.
#[derive(Debug, Clone)]
pub struct TradeOrder {
    pub id: String,
    pub player_id: String,
    pub system_id: String,
    pub item_name: String,
    pub order_type: OrderType,
    pub quantity: u32,
    pub target_price: u32,
    pub price_condition: String,
    pub status: OrderStatus,
    pub created_at: u64,
    pub expires_at: Option<u64>,
    pub executed_at: Option<u64>,
    pub notes: String,
}

/// One recorded price of an item.
#[derive(Debug, Clone, Copy, PartialEq, Eq, Structural)]
pub struct PriceHistory {
    pub timestamp: u64,
    pub price: u32,
}

/// The kinds of markets, by what they trade in.
#[derive(Debug, Clone, Copy, PartialEq, Eq, Structural)]
pub enum MarketType {
    Trading,
    Industrial,
    Mining,
    Agricultural,
    HighTech,
    Black,
    Military,
}

/// Whether `o` is an active order of player `player`.
pub open spec fn active_order_of(o: TradeOrder, player: Seq<char>) -> bool {
    o.player_id@ == player && o.status == OrderStatus::Active
}

/// Index of the first active order with id `id` placed by `player`, or -1.
pub open spec fn cancellable_index(orders: Seq<TradeOrder>, id: Seq<char>, player: Seq<char>) -> int
    decreases orders.len(),
{
    if orders.len() == 0 {
        -1
    } else if orders[0].id@ == id && active_order_of(orders[0], player) {
        0
    } else {
        let r = cancellable_index(orders.drop_first(), id, player);
        if r < 0 { -1 } else { r + 1 }
    }
}

proof fn lemma_cancellable_at(orders: Seq<TradeOrder>, id: Seq<char>, player: Seq<char>, i: int)
    requires
        0 <= i <= orders.len(),
        forall|j: int| 0 <= j < i ==> !(orders[j].id@ == id && active_order_of(#[trigger] orders[j], player)),
    ensures
        i < orders.len() && orders[i].id@ == id && active_order_of(orders[i], player) ==> cancellable_index(orders, id, player) == i,
        i == orders.len() ==> cancellable_index(orders, id, player) == -1,
    decreases i,
{
    if i > 0 {
        lemma_cancellable_at(orders.drop_first(), id, player, i - 1);
    } else if orders.len() > 0 {
    }
}

/// Cancels the first active order with id `order_id` placed by
/// `player_id`; says whether there was one.
pub fn cancel_order(trade_orders: &mut Vec<TradeOrder>, order_id: &str, player_id: &str) -> (r: bool)
    ensures
        ({
            let i = cancellable_index(old(trade_orders)@, order_id@, player_id@);
            &&& r == (i >= 0)
            &&& r ==> final(trade_orders)@ == old(trade_orders)@.update(
                i,
                TradeOrder { status: OrderStatus::Cancelled, ..old(trade_orders)@[i] },
            )
            &&& !r ==> final(trade_orders)@ == old(trade_orders)@
        }),
{
    let mut i: usize = 0;
    while i < trade_orders.len()
        invariant
            i <= trade_orders@.len(),
            trade_orders@ == old(trade_orders)@,
            forall|j: int|
                0 <= j < i ==> !(trade_orders@[j].id@ == order_id@ && active_order_of(
                    #[trigger] trade_orders@[j],
                    player_id@,
                )),
        decreases trade_orders@.len() - i,
    {
        if str_eq(trade_orders[i].id.as_str(), order_id) && str_eq(trade_orders[i].player_id.as_str(), player_id)
            && trade_orders[i].status == OrderStatus::Active {
            proof {
                lemma_cancellable_at(trade_orders@, order_id@, player_id@, i as int);
            }
            let mut o = trade_orders.remove(i);
            o.status = OrderStatus::Cancelled;
            trade_orders.insert(i, o);
            assert(trade_orders@ =~= old(trade_orders)@.update(
                i as int,
                TradeOrder { status: OrderStatus::Cancelled, ..old(trade_orders)@[i as int] },
            ));
            return true;
        }
        i = i + 1;
    }
    proof {
        lemma_cancellable_at(trade_orders@, order_id@, player_id@, i as int);
    }
    false
}

/// The active orders of player `player_id`, in order.
pub fn get_player_orders<'a>(trade_orders: &'a Vec<TradeOrder>, player_id: &str) -> (r: Vec<&'a TradeOrder>)
    ensures
        r@.map_values(|o: &TradeOrder| *o) == trade_orders@.filter(|o: TradeOrder| active_order_of(o, player_id@)),
{
    let mut r: Vec<&TradeOrder> = Vec::new();
    let mut i: usize = 0;
    while i < trade_orders.len()
        invariant
            i <= trade_orders@.len(),
            r@.map_values(|o: &TradeOrder| *o) == trade_orders@.take(i as int).filter(
                |o: TradeOrder| active_order_of(o, player_id@),
            ),
        decreases trade_orders@.len() - i,
    {
        let ghost before = r@.map_values(|o: &TradeOrder| *o);
        proof {
            assert(trade_orders@.take(i + 1) =~= trade_orders@.take(i as int).push(trade_orders@[i as int]));
            trade_orders@.take(i as int).lemma_filter_push(
                trade_orders@[i as int],
                |o: TradeOrder| active_order_of(o, player_id@),
            );
        }
        if str_eq(trade_orders[i].player_id.as_str(), player_id) && trade_orders[i].status == OrderStatus::Active {
            r.push(&trade_orders[i]);
            assert(r@.map_values(|o: &TradeOrder| *o) =~= before.push(trade_orders@[i as int]));
        }
        i = i + 1;
    }
    assert(trade_orders@.take(i as int) =~= trade_orders@);
    r
}

/// The positions of the orders the orders screen lists: the active ones in
/// the active view, the others in the completed view, in order.
pub open spec fn view_positions(orders: Seq<TradeOrder>, active_view: bool) -> Seq<int>
    decreases orders.len(),
{
    if orders.len() == 0 {
        Seq::empty()
    } else {
        let r = view_positions(orders.drop_last(), active_view);
        if (orders.last().status == OrderStatus::Active) == active_view {
            r.push(orders.len() - 1)
        } else {
            r
        }
    }
}

/// The positions of the orders listed in the active view (`active_view`)
/// or in the completed view.
pub fn orders_in_view(orders: &Vec<TradeOrder>, active_view: bool) -> (r: Vec<usize>)
    ensures
        r@.map_values(|i: usize| i as int) == view_positions(orders@, active_view),
{
    let mut r: Vec<usize> = Vec::new();
    let mut i: usize = 0;
    while i < orders.len()
        invariant
            i <= orders@.len(),
            r@.map_values(|k: usize| k as int) == view_positions(orders@.take(i as int), active_view),
        decreases orders@.len() - i,
    {
        let ghost before = r@.map_values(|k: usize| k as int);
        assert(orders@.take(i + 1).drop_last() =~= orders@.take(i as int));
        if (orders[i].status == OrderStatus::Active) == active_view {
            r.push(i);
            assert(r@.map_values(|k: usize| k as int) =~= before.push(i as int));
        }
        i = i + 1;
    }
    assert(orders@.take(i as int) =~= orders@);
    r
}

/// Where the selected order stands in the list shown: the first place
/// holding it, or `None` when nothing is selected or it is not shown.
pub fn shown_position(shown: &Vec<usize>, selected: Option<usize>) -> (r: Option<usize>)
    ensures
        match selected {
            None => r is None,
            Some(s) => match r {
                Some(k) => k < shown@.len() && shown@[k as int] == s && forall|j: int| 0 <= j < k ==> shown@[j] != s,
                None => forall|j: int| 0 <= j < shown@.len() ==> shown@[j] != s,
            },
        },
{
    let s = match selected {
        None => {
            return None;
        },
        Some(s) => s,
    };
    let mut k: usize = 0;
    while k < shown.len()
        invariant
            k <= shown@.len(),
            selected == Some(s),
            forall|j: int| 0 <= j < k ==> shown@[j] != s,
        decreases shown@.len() - k,
    {
        if shown[k] == s {
            return Some(k);
        }
        k = k + 1;
    }
    None
}

/// Whether `o` is a fresh active order of the given kind, with the
/// details given and no execution yet.
pub open spec fn fresh_order(
    o: TradeOrder,
    kind: OrderType,
    player_id: Seq<char>,
    system_id: Seq<char>,
    item_name: Seq<char>,
    quantity: u32,
    target_price: u32,
    expires_at: Option<u64>,
    notes: Seq<char>,
    now: u64,
) -> bool {
    &&& o.player_id@ == player_id
    &&& o.system_id@ == system_id
    &&& o.item_name@ == item_name
    &&& o.order_type == kind
    &&& o.quantity == quantity
    &&& o.target_price == target_price
    &&& o.price_condition@ == (match kind {
        OrderType::Buy => "below"@,
        OrderType::Sell => "above"@,
    })
    &&& o.status == OrderStatus::Active
    &&& o.created_at == now
    &&& o.expires_at == expires_at
    &&& o.executed_at is None
    &&& o.notes@ == notes
}

fn new_order(
    kind: OrderType,
    player_id: &str,
    system_id: &str,
    item_name: &str,
    quantity: u32,
    target_price: u32,
    expires_at: Option<u64>,
    notes: &str,
    current_time: u64,
) -> (o: TradeOrder)
    ensures
        fresh_order(o, kind, player_id@, system_id@, item_name@, quantity, target_price, expires_at, notes@, current_time),
{
    TradeOrder {
        id: new_uuid_string(),
        player_id: String::from_str(player_id),
        system_id: String::from_str(system_id),
        item_name: String::from_str(item_name),
        order_type: kind,
        quantity,
        target_price,
        price_condition: match kind {
            OrderType::Buy => String::from_str("below"),
            OrderType::Sell => String::from_str("above"),
        },
        status: OrderStatus::Active,
        created_at: current_time,
        expires_at,
        executed_at: None,
        notes: String::from_str(notes),
    }
}

/// Places a standing order to buy `item_name` in the market of system
/// `system_id` at time `current_time`, when the market lists that item;
/// returns the new order's id.
pub fn create_buy_order(
    trade_orders: &mut Vec<TradeOrder>,
    system_id: &str,
    item_listed: bool,
    player_id: &str,
    item_name: &str,
    quantity: u32,
    target_price: u32,
    expires_at: Option<u64>,
    notes: &str,
    current_time: u64,
) -> (r: Option<String>)
    ensures
        !item_listed ==> r is None && final(trade_orders)@ == old(trade_orders)@,
        item_listed ==> (r matches Some(id) && final(trade_orders)@.len() == old(trade_orders)@.len() + 1
            && final(trade_orders)@.drop_last() == old(trade_orders)@ && final(trade_orders)@.last().id@ == id@
            && fresh_order(
            final(trade_orders)@.last(),
            OrderType::Buy,
            player_id@,
            system_id@,
            item_name@,
            quantity,
            target_price,
            expires_at,
            notes@,
            current_time,
        )),
{
    if !item_listed {
        return None;
    }
    let order = new_order(OrderType::Buy, player_id, system_id, item_name, quantity, target_price, expires_at, notes, current_time);
    let id = order.id.clone();
    trade_orders.push(order);
    assert(trade_orders@.drop_last() =~= old(trade_orders)@);
    Some(id)
}

/// Places a standing order to sell `item_name` in the market of system
/// `system_id` at time `current_time`; returns the new order's id. Any
/// item can be offered, listed or not.
pub fn create_sell_order(
    trade_orders: &mut Vec<TradeOrder>,
    system_id: &str,
    player_id: &str,
    item_name: &str,
    quantity: u32,
    target_price: u32,
    expires_at: Option<u64>,
    notes: &str,
    current_time: u64,
) -> (id: String)
    ensures
        final(trade_orders)@.len() == old(trade_orders)@.len() + 1,
        final(trade_orders)@.drop_last() == old(trade_orders)@,
        final(trade_orders)@.last().id@ == id@,
        fresh_order(
            final(trade_orders)@.last(),
            OrderType::Sell,
            player_id@,
            system_id@,
            item_name@,
            quantity,
            target_price,
            expires_at,
            notes@,
            current_time,
        ),
{
    let order = new_order(OrderType::Sell, player_id, system_id, item_name, quantity, target_price, expires_at, notes, current_time);
    let id = order.id.clone();
    trade_orders.push(order);
    assert(trade_orders@.drop_last() =~= old(trade_orders)@);
    id
}

} // verus!

verus! {

/// What the market offers for the item of one standing order this round:
/// its price, the units it holds, and the cost of buying (price times the
/// order's quantity, plus tax) and the expected revenue of selling (the
/// station's price times the order's quantity). Cost and revenue are `None`
/// where they do not fit in a u32.
#[derive(Debug, Clone, Copy, PartialEq, Eq)]
pub struct OrderQuote {
    pub price: u32,
    pub available: u32,
    pub buy_cost: Option<u32>,
    pub sell_revenue: Option<u32>,
}

/// What a round of order processing does with one order.
#[derive(Debug, Clone, Copy, PartialEq, Eq, Structural)]
pub enum OrderStep {
    /// Left as it is.
    Skip,
    /// Past its expiry: cancelled.
    Expire,
    /// Its condition holds: executed.
    Execute,
    /// Its cost or revenue does not fit in a u32: the round stops here.
    Overflow,
}

/// The step for order `o` at time `now`, with `quote` what the market offers
/// for its item (`None` when the market does not trade it), `credits` the
/// player's credits at the start of the round, and `held` the quantity of
/// the first hold entry of the item's name (`None` when there is none).
/// A buy order executes once the price is at or below its target and the
/// player can pay and the market has the units; a sell order once the price
/// is at or above its target and the player holds the units.
pub open spec fn order_step(o: TradeOrder, now: u64, quote: Option<OrderQuote>, credits: u32, held: Option<u32>) -> OrderStep {
    if o.status != OrderStatus::Active {
        OrderStep::Skip
    } else if o.expires_at matches Some(e) && now > e {
        OrderStep::Expire
    } else {
        match quote {
            None => OrderStep::Skip,
            Some(q) => match o.order_type {
                OrderType::Buy => if q.price <= o.target_price {
                    match q.buy_cost {
                        None => OrderStep::Overflow,
                        Some(c) => if credits >= c && q.available >= o.quantity {
                            OrderStep::Execute
                        } else {
                            OrderStep::Skip
                        },
                    }
                } else {
                    OrderStep::Skip
                },
                OrderType::Sell => if q.price >= o.target_price {
                    match held {
                        None => OrderStep::Skip,
                        Some(h) => if h >= o.quantity {
                            match q.sell_revenue {
                                None => OrderStep::Overflow,
                                Some(_) => OrderStep::Execute,
                            }
                        } else {
                            OrderStep::Skip
                        },
                    }
                } else {
                    OrderStep::Skip
                },
            },
        }
    }
}

/// The positions, in order, of the first `n` orders whose step is `kind`.
pub open spec fn step_positions(
    orders: Seq<TradeOrder>,
    now: u64,
    quotes: Seq<Option<OrderQuote>>,
    credits: u32,
    held: Seq<Option<u32>>,
    kind: OrderStep,
    n: int,
) -> Seq<usize>
    decreases n,
{
    if n <= 0 {
        Seq::empty()
    } else {
        let r = step_positions(orders, now, quotes, credits, held, kind, n - 1);
        if order_step(orders[n - 1], now, quotes[n - 1], credits, held[n - 1]) == kind {
            r.push((n - 1) as usize)
        } else {
            r
        }
    }
}

/// Plans a round of order processing: the orders to cancel as expired and
/// the orders to execute, in order. `Err(i)` when the cost or revenue of
/// order `i`, the first such, does not fit in a u32.
pub fn plan_orders(
    orders: &Vec<TradeOrder>,
    now: u64,
    quotes: &Vec<Option<OrderQuote>>,
    credits: u32,
    held: &Vec<Option<u32>>,
) -> (r: Result<(Vec<usize>, Vec<usize>), usize>)
    requires
        quotes@.len() == orders@.len(),
        held@.len() == orders@.len(),
    ensures
        match r {
            Err(i) => {
                &&& i < orders@.len()
                &&& order_step(orders@[i as int], now, quotes@[i as int], credits, held@[i as int]) == OrderStep::Overflow
                &&& forall|j: int| 0 <= j < i ==> #[trigger] order_step(orders@[j], now, quotes@[j], credits, held@[j])
                    != OrderStep::Overflow
            },
            Ok((expired, execute)) => {
                &&& forall|j: int| 0 <= j < orders@.len() ==> #[trigger] order_step(orders@[j], now, quotes@[j], credits, held@[j])
                    != OrderStep::Overflow
                &&& expired@ == step_positions(orders@, now, quotes@, credits, held@, OrderStep::Expire, orders@.len() as int)
                &&& execute@ == step_positions(orders@, now, quotes@, credits, held@, OrderStep::Execute, orders@.len() as int)
            },
        },
{
    let mut expired: Vec<usize> = Vec::new();
    let mut execute: Vec<usize> = Vec::new();
    let mut i: usize = 0;
    while i < orders.len()
        invariant
            i <= orders@.len(),
            quotes@.len() == orders@.len(),
            held@.len() == orders@.len(),
            forall|j: int| 0 <= j < i ==> #[trigger] order_step(orders@[j], now, quotes@[j], credits, held@[j]) != OrderStep::Overflow,
            expired@ == step_positions(orders@, now, quotes@, credits, held@, OrderStep::Expire, i as int),
            execute@ == step_positions(orders@, now, quotes@, credits, held@, OrderStep::Execute, i as int),
        decreases orders@.len() - i,
    {
        let o = &orders[i];
        let step = if o.status != OrderStatus::Active {
            OrderStep::Skip
        } else if match o.expires_at {
            Some(e) => now > e,
            None => false,
        } {
            OrderStep::Expire
        } else {
            match quotes[i] {
                None => OrderStep::Skip,
                Some(q) => match o.order_type {
                    OrderType::Buy => if q.price <= o.target_price {
                        match q.buy_cost {
                            None => OrderStep::Overflow,
                            Some(c) => if credits >= c && q.available >= o.quantity {
                                OrderStep::Execute
                            } else {
                                OrderStep::Skip
                            },
                        }
                    } else {
                        OrderStep::Skip
                    },
                    OrderType::Sell => if q.price >= o.target_price {
                        match held[i] {
                            None => OrderStep::Skip,
                            Some(h) => if h >= o.quantity {
                                match q.sell_revenue {
                                    None => OrderStep::Overflow,
                                    Some(_) => OrderStep::Execute,
                                }
                            } else {
                                OrderStep::Skip
                            },
                        }
                    } else {
                        OrderStep::Skip
                    },
                },
            }
        };
        assert(step == order_step(orders@[i as int], now, quotes@[i as int], credits, held@[i as int]));
        match step {
            OrderStep::Overflow => {
                return Err(i);
            },
            OrderStep::Expire => {
                expired.push(i);
            },
            OrderStep::Execute => {
                execute.push(i);
            },
            OrderStep::Skip => {},
        }
        i = i + 1;
    }
    Ok((expired, execute))
}

/// Cancels the orders at the given positions (those past their expiry).
pub fn cancel_expired(orders: &mut Vec<TradeOrder>, positions: &Vec<usize>)
    ensures
        final(orders)@.len() == old(orders)@.len(),
        forall|j: int| 0 <= j < old(orders)@.len() ==> #[trigger] final(orders)@[j] == (if positions@.contains(j as usize) {
            TradeOrder { status: OrderStatus::Cancelled, ..old(orders)@[j] }
        } else {
            old(orders)@[j]
        }),
{
    let mut k: usize = 0;
    while k < positions.len()
        invariant
            k <= positions@.len(),
            orders@.len() == old(orders)@.len(),
            forall|j: int| 0 <= j < old(orders)@.len() ==> #[trigger] orders@[j] == (if positions@.take(k as int).contains(j as usize) {
                TradeOrder { status: OrderStatus::Cancelled, ..old(orders)@[j] }
            } else {
                old(orders)@[j]
            }),
        decreases positions@.len() - k,
    {
        let p = positions[k];
        proof {
            let before = positions@.take(k as int);
            let after = positions@.take(k + 1);
            assert(after =~= before.push(p));
            assert forall|j: int| 0 <= j < old(orders)@.len() implies #[trigger] after.contains(j as usize)
                == (before.contains(j as usize) || j as usize == p) by {
                if after.contains(j as usize) {
                    let w = choose|w: int| 0 <= w < after.len() && after[w] == j as usize;
                    if w < k {
                        assert(before[w] == j as usize);
                    }
                }
                if before.contains(j as usize) {
                    let w = choose|w: int| 0 <= w < before.len() && before[w] == j as usize;
                    assert(after[w] == j as usize);
                }
                if j as usize == p {
                    assert(after[k as int] == j as usize);
                }
            }
        }
        if p < orders.len() {
            let mut o = orders.remove(p);
            o.status = OrderStatus::Cancelled;
            orders.insert(p, o);
        }
        k = k + 1;
    }
    assert(positions@.take(positions@.len() as int) =~= positions@);
}

/// A copy of an order.
fn copy_order(o: &TradeOrder) -> (r: TradeOrder)
    ensures
        r == *o,
{
    TradeOrder {
        id: o.id.clone(),
        player_id: o.player_id.clone(),
        system_id: o.system_id.clone(),
        item_name: o.item_name.clone(),
        order_type: o.order_type,
        quantity: o.quantity,
        target_price: o.target_price,
        price_condition: o.price_condition.clone(),
        status: o.status,
        created_at: o.created_at,
        expires_at: o.expires_at,
        executed_at: o.executed_at,
        notes: o.notes.clone(),
    }
}

/// Marks the order at position `index` executed at time `now`, and gives a
/// copy of it.
pub fn complete_order(orders: &mut Vec<TradeOrder>, index: usize, now: u64) -> (done: TradeOrder)
    requires
        index < old(orders)@.len(),
    ensures
        final(orders)@ == old(orders)@.update(
            index as int,
            TradeOrder { status: OrderStatus::Completed, executed_at: Some(now), ..old(orders)@[index as int] },
        ),
        done == final(orders)@[index as int],
{
    let mut o = orders.remove(index);
    o.status = OrderStatus::Completed;
    o.executed_at = Some(now);
    let copy = copy_order(&o);
    orders.insert(index, o);
    assert(orders@ =~= old(orders)@.update(
        index as int,
        TradeOrder { status: OrderStatus::Completed, executed_at: Some(now), ..old(orders)@[index as int] },
    ));
    copy
}

} // verus!

verus! {

proof fn lemma_step_positions(
    orders: Seq<TradeOrder>,
    now: u64,
    quotes: Seq<Option<OrderQuote>>,
    credits: u32,
    held: Seq<Option<u32>>,
    kind: OrderStep,
    n: int,
)
    requires
        n <= usize::MAX,
    ensures
        forall|k: int| 0 <= k < step_positions(orders, now, quotes, credits, held, kind, n).len() ==> {
            let j = #[trigger] step_positions(orders, now, quotes, credits, held, kind, n)[k];
            &&& j < n
            &&& order_step(orders[j as int], now, quotes[j as int], credits, held[j as int]) == kind
        },
    decreases n,
{
    if n > 0 {
        lemma_step_positions(orders, now, quotes, credits, held, kind, n - 1);
        let r = step_positions(orders, now, quotes, credits, held, kind, n - 1);
        assert forall|k: int| 0 <= k < step_positions(orders, now, quotes, credits, held, kind, n).len() implies {
            let j = #[trigger] step_positions(orders, now, quotes, credits, held, kind, n)[k];
            &&& j < n
            &&& order_step(orders[j as int], now, quotes[j as int], credits, held[j as int]) == kind
        } by {
            if k < r.len() {
                assert(step_positions(orders, now, quotes, credits, held, kind, n)[k] == r[k]);
            } else {
                assert(step_positions(orders, now, quotes, credits, held, kind, n)[k] == (n - 1) as usize);
                assert(((n - 1) as usize) as int == n - 1);
            }
        }
    }
}

/// What a planned round does with an order, in terms of the order, the
/// quote and the player: an order that executes is active and not past its
/// expiry; a buy executes only at or below its target price, when the
/// player can pay its cost and the market holds the whole quantity; a sell
/// only at or above its target price when the player holds the whole
/// quantity. An order that expires is active and past its expiry.
pub proof fn law_planned_orders_meet_their_conditions(
    orders: Seq<TradeOrder>,
    now: u64,
    quotes: Seq<Option<OrderQuote>>,
    credits: u32,
    held: Seq<Option<u32>>,
    k: int,
)
    requires
        orders.len() <= usize::MAX,
    ensures
        0 <= k < step_positions(orders, now, quotes, credits, held, OrderStep::Execute, orders.len() as int).len() ==> {
            let j = step_positions(orders, now, quotes, credits, held, OrderStep::Execute, orders.len() as int)[k] as int;
            let o = orders[j];
            &&& j < orders.len()
            &&& o.status == OrderStatus::Active
            &&& !(o.expires_at matches Some(e) && now > e)
            &&& quotes[j] matches Some(q)
            &&& o.order_type == OrderType::Buy ==> {
                &&& q.price <= o.target_price
                &&& q.buy_cost matches Some(c)
                &&& credits >= c
                &&& q.available >= o.quantity
            }
            &&& o.order_type == OrderType::Sell ==> {
                &&& q.price >= o.target_price
                &&& held[j] matches Some(h)
                &&& h >= o.quantity
            }
        },
        0 <= k < step_positions(orders, now, quotes, credits, held, OrderStep::Expire, orders.len() as int).len() ==> {
            let j = step_positions(orders, now, quotes, credits, held, OrderStep::Expire, orders.len() as int)[k] as int;
            &&& j < orders.len()
            &&& orders[j].status == OrderStatus::Active
            &&& orders[j].expires_at matches Some(e)
            &&& now > e
        },
{
    lemma_step_positions(orders, now, quotes, credits, held, OrderStep::Execute, orders.len() as int);
    lemma_step_positions(orders, now, quotes, credits, held, OrderStep::Expire, orders.len() as int);
    if 0 <= k < step_positions(orders, now, quotes, credits, held, OrderStep::Execute, orders.len() as int).len() {
        let j = step_positions(orders, now, quotes, credits, held, OrderStep::Execute, orders.len() as int)[k];
        assert(order_step(orders[j as int], now, quotes[j as int], credits, held[j as int]) == OrderStep::Execute);
    }
    if 0 <= k < step_positions(orders, now, quotes, credits, held, OrderStep::Expire, orders.len() as int).len() {
        let j = step_positions(orders, now, quotes, credits, held, OrderStep::Expire, orders.len() as int)[k];
        assert(order_step(orders[j as int], now, quotes[j as int], credits, held[j as int]) == OrderStep::Expire);
    }
}

} // verus!
