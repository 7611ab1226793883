//! The player-driven marketplace: listings, bids, purchases, contracts and
//! price trends.
use vstd::prelude::*;
use crate::keyed::{as_map, entries_view, find_key, index_of_key, keys_unique, lemma_index_of_key, remove_key, upsert};
use crate::models::item::{Item, ItemType, ItemView};
use crate::platform::{new_uuid_string, unix_now_secs};
use crate::text::{decimal, i64_to_decimal, signed_decimal, str_eq, strings_contain, strings_view, u64_to_decimal};

verus! {

/// Who can see a listing.
#[derive(Debug, Clone)]
pub enum ListingVisibility {
    Public,
    FactionOnly(String),
    PlayerList(Vec<String>),
}

pub enum ListingVisibilityView {
    Public,
    FactionOnly(Seq<char>),
    PlayerList(Seq<Seq<char>>),
}

impl View for ListingVisibility {
    type V = ListingVisibilityView;

    open spec fn view(&self) -> ListingVisibilityView {
        match self {
            ListingVisibility::Public => ListingVisibilityView::Public,
            ListingVisibility::FactionOnly(f) => ListingVisibilityView::FactionOnly(f@),
            ListingVisibility::PlayerList(p) => ListingVisibilityView::PlayerList(strings_view(p@)),
        }
    }
}

/// An offer by a player to sell some quantity of an item.
#[derive(Debug, Clone)]
pub struct PlayerMarketListing {
    pub id: String,
    pub seller_id: String,
    pub seller_name: String,
    pub item: Item,
    pub quantity: u32,
    pub price_per_unit: u32,
    pub total_price: u32,
    pub system_id: String,
    pub location_id: String,
    pub created_at: u64,
    pub expires_at: Option<u64>,
    pub minimum_reputation: i32,
    pub visibility: ListingVisibility,
    pub negotiable: bool,
    pub description: String,
    pub tags: Vec<String>,
    pub quantity_sold: u32,
}

pub struct ListingView {
    pub id: Seq<char>,
    pub seller_id: Seq<char>,
    pub seller_name: Seq<char>,
    pub item: ItemView,
    pub quantity: u32,
    pub price_per_unit: u32,
    pub total_price: u32,
    pub system_id: Seq<char>,
    pub location_id: Seq<char>,
    pub created_at: u64,
    pub expires_at: Option<u64>,
    pub minimum_reputation: i32,
    pub visibility: ListingVisibilityView,
    pub negotiable: bool,
    pub description: Seq<char>,
    pub tags: Seq<Seq<char>>,
    pub quantity_sold: u32,
}

impl View for PlayerMarketListing {
    type V = ListingView;

    open spec fn view(&self) -> ListingView {
        ListingView {
            id: self.id@,
            seller_id: self.seller_id@,
            seller_name: self.seller_name@,
            item: self.item@,
            quantity: self.quantity,
            price_per_unit: self.price_per_unit,
            total_price: self.total_price,
            system_id: self.system_id@,
            location_id: self.location_id@,
            created_at: self.created_at,
            expires_at: self.expires_at,
            minimum_reputation: self.minimum_reputation,
            visibility: self.visibility@,
            negotiable: self.negotiable,
            description: self.description@,
            tags: strings_view(self.tags@),
            quantity_sold: self.quantity_sold,
        }
    }
}

/// Status of a bid.
#[derive(Debug, Clone, Copy, PartialEq, Eq, Structural)]
pub enum BidStatus {
    Pending,
    Accepted,
    Rejected,
    Expired,
    Canceled,
}

/// The debug name of a bid status.
pub open spec fn bid_status_name(s: BidStatus) -> Seq<char> {
    match s {
        BidStatus::Pending => "Pending"@,
        BidStatus::Accepted => "Accepted"@,
        BidStatus::Rejected => "Rejected"@,
        BidStatus::Expired => "Expired"@,
        BidStatus::Canceled => "Canceled"@,
    }
}

impl BidStatus {
    /// The variant's name, as `{:?}` prints it.
    pub fn debug_name(&self) -> (s: String)
        ensures
            s@ == bid_status_name(*self),
    {
        match self {
            BidStatus::Pending => String::from_str("Pending"),
            BidStatus::Accepted => String::from_str("Accepted"),
            BidStatus::Rejected => String::from_str("Rejected"),
            BidStatus::Expired => String::from_str("Expired"),
            BidStatus::Canceled => String::from_str("Canceled"),
        }
    }
}

/// A price offer on a negotiable listing.
#[derive(Debug, Clone)]
pub struct MarketBid {
    pub id: String,
    pub listing_id: String,
    pub bidder_id: String,
    pub bidder_name: String,
    pub bid_amount: u32,
    pub quantity: u32,
    pub total_amount: u32,
    pub message: String,
    pub status: BidStatus,
    pub created_at: u64,
    pub expires_at: Option<u64>,
}

pub struct BidView {
    pub id: Seq<char>,
    pub listing_id: Seq<char>,
    pub bidder_id: Seq<char>,
    pub bidder_name: Seq<char>,
    pub bid_amount: u32,
    pub quantity: u32,
    pub total_amount: u32,
    pub message: Seq<char>,
    pub status: BidStatus,
    pub created_at: u64,
    pub expires_at: Option<u64>,
}

impl View for MarketBid {
    type V = BidView;

    open spec fn view(&self) -> BidView {
        BidView {
            id: self.id@,
            listing_id: self.listing_id@,
            bidder_id: self.bidder_id@,
            bidder_name: self.bidder_name@,
            bid_amount: self.bid_amount,
            quantity: self.quantity,
            total_amount: self.total_amount,
            message: self.message@,
            status: self.status,
            created_at: self.created_at,
            expires_at: self.expires_at,
        }
    }
}

/// A completed sale.
#[derive(Debug, Clone)]
pub struct MarketPurchase {
    pub id: String,
    pub listing_id: String,
    pub buyer_id: String,
    pub seller_id: String,
    pub item_name: String,
    pub quantity: u32,
    pub price_per_unit: u32,
    pub total_price: u32,
    pub timestamp: u64,
    pub system_id: String,
    pub was_negotiated: bool,
}

pub struct PurchaseView {
    pub id: Seq<char>,
    pub listing_id: Seq<char>,
    pub buyer_id: Seq<char>,
    pub seller_id: Seq<char>,
    pub item_name: Seq<char>,
    pub quantity: u32,
    pub price_per_unit: u32,
    pub total_price: u32,
    pub timestamp: u64,
    pub system_id: Seq<char>,
    pub was_negotiated: bool,
}

impl View for MarketPurchase {
    type V = PurchaseView;

    open spec fn view(&self) -> PurchaseView {
        PurchaseView {
            id: self.id@,
            listing_id: self.listing_id@,
            buyer_id: self.buyer_id@,
            seller_id: self.seller_id@,
            item_name: self.item_name@,
            quantity: self.quantity,
            price_per_unit: self.price_per_unit,
            total_price: self.total_price,
            timestamp: self.timestamp,
            system_id: self.system_id@,
            was_negotiated: self.was_negotiated,
        }
    }
}

impl MarketPurchase {
    pub fn duplicate(&self) -> (r: MarketPurchase)
        ensures
            r@ == self@,
    {
        MarketPurchase {
            id: self.id.clone(),
            listing_id: self.listing_id.clone(),
            buyer_id: self.buyer_id.clone(),
            seller_id: self.seller_id.clone(),
            item_name: self.item_name.clone(),
            quantity: self.quantity,
            price_per_unit: self.price_per_unit,
            total_price: self.total_price,
            timestamp: self.timestamp,
            system_id: self.system_id.clone(),
            was_negotiated: self.was_negotiated,
        }
    }
}

/// Status of a contract.
#[derive(Debug, Clone, Copy, PartialEq, Eq, Structural)]
pub enum ContractStatus {
    Open,
    InProgress,
    Completed,
    Failed,
    Canceled,
    Disputed,
}

/// The debug name of a contract status.
pub open spec fn contract_status_name(s: ContractStatus) -> Seq<char> {
    match s {
        ContractStatus::Open => "Open"@,
        ContractStatus::InProgress => "InProgress"@,
        ContractStatus::Completed => "Completed"@,
        ContractStatus::Failed => "Failed"@,
        ContractStatus::Canceled => "Canceled"@,
        ContractStatus::Disputed => "Disputed"@,
    }
}

impl ContractStatus {
    /// The variant's name, as `{:?}` prints it.
    pub fn debug_name(&self) -> (s: String)
        ensures
            s@ == contract_status_name(*self),
    {
        match self {
            ContractStatus::Open => String::from_str("Open"),
            ContractStatus::InProgress => String::from_str("InProgress"),
            ContractStatus::Completed => String::from_str("Completed"),
            ContractStatus::Failed => String::from_str("Failed"),
            ContractStatus::Canceled => String::from_str("Canceled"),
            ContractStatus::Disputed => String::from_str("Disputed"),
        }
    }
}

/// One progress note on a contract.
#[derive(Debug, Clone)]
pub struct ContractProgress {
    pub timestamp: u64,
    pub update_by: String,
    pub message: String,
    pub items_delivered: Vec<(String, u32)>,
}

pub struct ProgressView {
    pub timestamp: u64,
    pub update_by: Seq<char>,
    pub message: Seq<char>,
    pub items_delivered: Seq<(Seq<char>, u32)>,
}

/// The characters of each (name, count) pair.
pub open spec fn named_counts_view(v: Seq<(String, u32)>) -> Seq<(Seq<char>, u32)> {
    v.map_values(|e: (String, u32)| (e.0@, e.1))
}

/// The views of each (item, count) pair.
pub open spec fn item_counts_view(v: Seq<(Item, u32)>) -> Seq<(ItemView, u32)> {
    v.map_values(|e: (Item, u32)| (e.0@, e.1))
}

impl View for ContractProgress {
    type V = ProgressView;

    open spec fn view(&self) -> ProgressView {
        ProgressView {
            timestamp: self.timestamp,
            update_by: self.update_by@,
            message: self.message@,
            items_delivered: named_counts_view(self.items_delivered@),
        }
    }
}

/// A contract between players for a larger order.
#[derive(Debug, Clone)]
pub struct MarketContract {
    pub id: String,
    pub issuer_id: String,
    pub assignee_ids: Vec<String>,
    pub title: String,
    pub description: String,
    pub items_required: Vec<(Item, u32)>,
    pub reward_credits: u32,
    pub reward_items: Vec<(Item, u32)>,
    pub deadline: Option<u64>,
    pub created_at: u64,
    pub status: ContractStatus,
    pub progress: Vec<ContractProgress>,
    pub terms: Vec<String>,
    pub is_public: bool,
}

pub struct ContractView {
    pub id: Seq<char>,
    pub issuer_id: Seq<char>,
    pub assignee_ids: Seq<Seq<char>>,
    pub title: Seq<char>,
    pub description: Seq<char>,
    pub items_required: Seq<(ItemView, u32)>,
    pub reward_credits: u32,
    pub reward_items: Seq<(ItemView, u32)>,
    pub deadline: Option<u64>,
    pub created_at: u64,
    pub status: ContractStatus,
    pub progress: Seq<ProgressView>,
    pub terms: Seq<Seq<char>>,
    pub is_public: bool,
}

impl View for MarketContract {
    type V = ContractView;

    open spec fn view(&self) -> ContractView {
        ContractView {
            id: self.id@,
            issuer_id: self.issuer_id@,
            assignee_ids: strings_view(self.assignee_ids@),
            title: self.title@,
            description: self.description@,
            items_required: item_counts_view(self.items_required@),
            reward_credits: self.reward_credits,
            reward_items: item_counts_view(self.reward_items@),
            deadline: self.deadline,
            created_at: self.created_at,
            status: self.status,
            progress: self.progress@.map_values(|p: ContractProgress| p@),
            terms: strings_view(self.terms@),
            is_public: self.is_public,
        }
    }
}

/// Aggregated trading of one item within one hour.
#[derive(Debug, Clone)]
pub struct PriceTrend {
    pub item_name: String,
    pub average_price: u32,
    pub lowest_price: u32,
    pub highest_price: u32,
    pub volume_traded: u32,
    pub timestamp: u64,
}

pub struct PriceTrendView {
    pub item_name: Seq<char>,
    pub average_price: u32,
    pub lowest_price: u32,
    pub highest_price: u32,
    pub volume_traded: u32,
    pub timestamp: u64,
}

impl View for PriceTrend {
    type V = PriceTrendView;

    open spec fn view(&self) -> PriceTrendView {
        PriceTrendView {
            item_name: self.item_name@,
            average_price: self.average_price,
            lowest_price: self.lowest_price,
            highest_price: self.highest_price,
            volume_traded: self.volume_traded,
            timestamp: self.timestamp,
        }
    }
}

impl PriceTrend {
    pub fn duplicate(&self) -> (r: PriceTrend)
        ensures
            r@ == self@,
    {
        PriceTrend {
            item_name: self.item_name.clone(),
            average_price: self.average_price,
            lowest_price: self.lowest_price,
            highest_price: self.highest_price,
            volume_traded: self.volume_traded,
            timestamp: self.timestamp,
        }
    }
}

/// The views of a series of trend points.
pub open spec fn trends_view(v: Seq<PriceTrend>) -> Seq<PriceTrendView> {
    v.map_values(|t: PriceTrend| t@)
}

/// The views of the trend series stored per item name.
pub open spec fn trend_entries_view(v: Seq<(String, Vec<PriceTrend>)>) -> Seq<(Seq<char>, Seq<PriceTrendView>)> {
    v.map_values(|e: (String, Vec<PriceTrend>)| (e.0@, trends_view(e.1@)))
}

/// Orders in which search results can be sorted.
#[derive(Debug, Clone, Copy, PartialEq, Eq, Structural)]
pub enum ListingSortOption {
    PriceAscending,
    PriceDescending,
    NewestFirst,
    OldestFirst,
    QuantityAscending,
    QuantityDescending,
}

/// Summary of the market for one item.
#[derive(Debug, Clone)]
pub struct ItemMarketStatistics {
    pub item_name: String,
    pub current_listings_count: usize,
    pub current_quantity_available: u32,
    pub current_min_price: u32,
    pub current_max_price: u32,
    pub current_avg_price: u32,
    pub recent_sales_count: usize,
    pub recent_sales_volume: u32,
    pub recent_sales_value: u32,
    pub price_change_percent: i32,
    pub price_history: Option<Vec<PriceTrend>>,
}

/// The whole player marketplace. Listings, bids and contracts are keyed by
/// their ids; price trends by item name. The fee is kept in basis points
/// (hundredths of a percent).
#[derive(Debug, Clone)]
pub struct PlayerMarket {
    pub listings: Vec<(String, PlayerMarketListing)>,
    pub bids: Vec<(String, MarketBid)>,
    pub purchase_history: Vec<MarketPurchase>,
    pub contracts: Vec<(String, MarketContract)>,
    pub market_fee_basis_points: u32,
    pub price_trends: Vec<(String, Vec<PriceTrend>)>,
    pub reputation_requirements: bool,
}

impl PlayerMarket {
    pub open spec fn listing_map(&self) -> Map<Seq<char>, ListingView> {
        as_map(entries_view(self.listings@))
    }

    pub open spec fn bid_map(&self) -> Map<Seq<char>, BidView> {
        as_map(entries_view(self.bids@))
    }

    pub open spec fn contract_map(&self) -> Map<Seq<char>, ContractView> {
        as_map(entries_view(self.contracts@))
    }

    pub open spec fn trend_map(&self) -> Map<Seq<char>, Seq<PriceTrendView>> {
        as_map(trend_entries_view(self.price_trends@))
    }

    pub open spec fn history(&self) -> Seq<PurchaseView> {
        self.purchase_history@.map_values(|p: MarketPurchase| p@)
    }

    /// Keys are stored once, and every listing's remaining and sold
    /// quantities stay within what a u32 price total can describe.
    pub open spec fn wf(&self) -> bool {
        &&& keys_unique(entries_view(self.listings@))
        &&& keys_unique(entries_view(self.bids@))
        &&& keys_unique(entries_view(self.contracts@))
        &&& keys_unique(trend_entries_view(self.price_trends@))
        &&& forall|k: Seq<char>| #[trigger] self.listing_map().dom().contains(k) ==> listing_in_range(self.listing_map()[k])
    }

    pub fn new() -> (m: PlayerMarket)
        ensures
            m.wf(),
            m.listing_map() == Map::<Seq<char>, ListingView>::empty(),
            m.bid_map() == Map::<Seq<char>, BidView>::empty(),
            m.contract_map() == Map::<Seq<char>, ContractView>::empty(),
            m.trend_map() == Map::<Seq<char>, Seq<PriceTrendView>>::empty(),
            m.history() == Seq::<PurchaseView>::empty(),
            m.market_fee_basis_points == 500,
            m.reputation_requirements,
    {
        let m = PlayerMarket {
            listings: Vec::new(),
            bids: Vec::new(),
            purchase_history: Vec::new(),
            contracts: Vec::new(),
            market_fee_basis_points: 500,
            price_trends: Vec::new(),
            reputation_requirements: true,
        };
        assert(m.listing_map() =~= Map::<Seq<char>, ListingView>::empty());
        assert(m.bid_map() =~= Map::<Seq<char>, BidView>::empty());
        assert(m.contract_map() =~= Map::<Seq<char>, ContractView>::empty());
        assert(m.trend_map() =~= Map::<Seq<char>, Seq<PriceTrendView>>::empty());
        assert(m.history() =~= Seq::<PurchaseView>::empty());
        m
    }
}

/// A listing's price totals fit in a u32.
pub open spec fn listing_in_range(l: ListingView) -> bool {
    &&& l.price_per_unit * l.quantity <= u32::MAX
    &&& l.quantity + l.quantity_sold <= u32::MAX
}


/// Everything except the bids is as before.
pub open spec fn only_bids_changed(a: PlayerMarket, b: PlayerMarket) -> bool {
    &&& a.listings@ == b.listings@
    &&& a.purchase_history@ == b.purchase_history@
    &&& a.contracts@ == b.contracts@
    &&& a.price_trends@ == b.price_trends@
    &&& a.market_fee_basis_points == b.market_fee_basis_points
    &&& a.reputation_requirements == b.reputation_requirements
}

/// Everything except the contracts is as before.
pub open spec fn only_contracts_changed(a: PlayerMarket, b: PlayerMarket) -> bool {
    &&& a.listings@ == b.listings@
    &&& a.bids@ == b.bids@
    &&& a.purchase_history@ == b.purchase_history@
    &&& a.price_trends@ == b.price_trends@
    &&& a.market_fee_basis_points == b.market_fee_basis_points
    &&& a.reputation_requirements == b.reputation_requirements
}

/// A bid with a new status.
pub open spec fn bid_with_status(b: BidView, status: BidStatus) -> BidView {
    BidView { status, ..b }
}

fn text(s: &str) -> (r: String)
    ensures
        r@ == s@,
{
    String::from_str(s)
}

fn text_then(s: &str, tail: String) -> (r: String)
    ensures
        r@ == s@ + tail@,
{
    let mut r = String::from_str(s);
    r.append(tail.as_str());
    r
}

impl PlayerMarket {
    /// Sets the status of the bid at position `i`.
    fn set_bid_status(&mut self, i: usize, status: BidStatus)
        requires
            old(self).wf(),
            i < old(self).bids@.len(),
        ensures
            final(self).wf(),
            only_bids_changed(*old(self), *final(self)),
            final(self).bid_map() == old(self).bid_map().insert(
                old(self).bids@[i as int].0@,
                bid_with_status(old(self).bids@[i as int].1@, status),
            ),
    {
        let ghost s = entries_view(self.bids@);
        let (k, mut b) = self.bids.remove(i);
        b.status = status;
        let ghost nb = b@;
        self.bids.insert(i, (k, b));
        proof {
            crate::keyed::lemma_update_value(s, i as int, nb);
            assert(entries_view(self.bids@) =~= s.update(i as int, (s[i as int].0, nb)));
            assert(self.listing_map() == old(self).listing_map());
        }
    }

    /// Rejects a pending bid.
    pub fn reject_bid(&mut self, bid_id: &str) -> (r: Result<(), String>)
        requires
            old(self).wf(),
        ensures
            final(self).wf(),
            only_bids_changed(*old(self), *final(self)),
            !old(self).bid_map().dom().contains(bid_id@) ==> final(self).bid_map() == old(self).bid_map() && (r matches Err(
                m,
            ) && m@ == "Bid not found"@),
            old(self).bid_map().dom().contains(bid_id@) ==> {
                let b = old(self).bid_map()[bid_id@];
                if b.status != BidStatus::Pending {
                    final(self).bid_map() == old(self).bid_map() && (r matches Err(m) && m@
                        == "Cannot reject bid with status: "@ + bid_status_name(b.status))
                } else {
                    r is Ok && final(self).bid_map() == old(self).bid_map().insert(
                        bid_id@,
                        bid_with_status(b, BidStatus::Rejected),
                    )
                }
            },
    {
        let ghost s = entries_view(self.bids@);
        proof {
            lemma_index_of_key(s, bid_id@);
        }
        match find_key(&self.bids, bid_id) {
            None => Err(text("Bid not found")),
            Some(i) => {
                let status = self.bids[i].1.status;
                if status != BidStatus::Pending {
                    return Err(text_then("Cannot reject bid with status: ", status.debug_name()));
                }
                self.set_bid_status(i, BidStatus::Rejected);
                Ok(())
            },
        }
    }

    /// Cancels one's own pending bid.
    pub fn cancel_bid(&mut self, bid_id: &str, bidder_id: &str) -> (r: Result<(), String>)
        requires
            old(self).wf(),
        ensures
            final(self).wf(),
            only_bids_changed(*old(self), *final(self)),
            !old(self).bid_map().dom().contains(bid_id@) ==> final(self).bid_map() == old(self).bid_map() && (r matches Err(
                m,
            ) && m@ == "Bid not found"@),
            old(self).bid_map().dom().contains(bid_id@) ==> {
                let b = old(self).bid_map()[bid_id@];
                if b.bidder_id != bidder_id@ {
                    final(self).bid_map() == old(self).bid_map() && (r matches Err(m) && m@
                        == "You can only cancel your own bids"@)
                } else if b.status != BidStatus::Pending {
                    final(self).bid_map() == old(self).bid_map() && (r matches Err(m) && m@
                        == "Cannot cancel bid with status: "@ + bid_status_name(b.status))
                } else {
                    r is Ok && final(self).bid_map() == old(self).bid_map().insert(
                        bid_id@,
                        bid_with_status(b, BidStatus::Canceled),
                    )
                }
            },
    {
        let ghost s = entries_view(self.bids@);
        proof {
            lemma_index_of_key(s, bid_id@);
        }
        match find_key(&self.bids, bid_id) {
            None => Err(text("Bid not found")),
            Some(i) => {
                if !str_eq(self.bids[i].1.bidder_id.as_str(), bidder_id) {
                    return Err(text("You can only cancel your own bids"));
                }
                let status = self.bids[i].1.status;
                if status != BidStatus::Pending {
                    return Err(text_then("Cannot cancel bid with status: ", status.debug_name()));
                }
                self.set_bid_status(i, BidStatus::Canceled);
                Ok(())
            },
        }
    }
}


/// A progress note with the given author and text, at time `t`.
pub open spec fn progress_note(t: u64, by: Seq<char>, message: Seq<char>, items: Seq<(Seq<char>, u32)>) -> ProgressView {
    ProgressView { timestamp: t, update_by: by, message, items_delivered: items }
}

/// The contract after `player` accepts it at time `t`.
pub open spec fn accepted_contract(c: ContractView, player: Seq<char>, t: u64) -> ContractView {
    ContractView {
        assignee_ids: if c.assignee_ids.contains(player) { c.assignee_ids } else { c.assignee_ids.push(player) },
        status: ContractStatus::InProgress,
        progress: c.progress.push(progress_note(t, player, "Contract accepted"@, Seq::empty())),
        ..c
    }
}

/// The contract with one more progress note.
pub open spec fn with_note(c: ContractView, note: ProgressView) -> ContractView {
    ContractView { progress: c.progress.push(note), ..c }
}

/// The contract after its issuer completes it at time `t`.
pub open spec fn completed_contract(c: ContractView, issuer: Seq<char>, t: u64) -> ContractView {
    ContractView {
        status: ContractStatus::Completed,
        progress: c.progress.push(progress_note(t, issuer, "Contract marked as completed by issuer"@, Seq::empty())),
        ..c
    }
}

/// The timestamp of a contract's newest progress note.
pub open spec fn last_note_time(c: ContractView) -> u64 {
    c.progress.last().timestamp
}

impl PlayerMarket {
    /// Opens a new contract and returns its id.
    pub fn create_contract(
        &mut self,
        issuer_id: &str,
        title: &str,
        description: &str,
        items_required: Vec<(Item, u32)>,
        reward_credits: u32,
        reward_items: Vec<(Item, u32)>,
        deadline: Option<u64>,
        terms: Vec<String>,
        is_public: bool,
    ) -> (id: String)
        requires
            old(self).wf(),
        ensures
            final(self).wf(),
            only_contracts_changed(*old(self), *final(self)),
            final(self).contract_map() == old(self).contract_map().insert(
                id@,
                ContractView {
                    id: id@,
                    issuer_id: issuer_id@,
                    assignee_ids: Seq::empty(),
                    title: title@,
                    description: description@,
                    items_required: item_counts_view(items_required@),
                    reward_credits,
                    reward_items: item_counts_view(reward_items@),
                    deadline,
                    created_at: final(self).contract_map()[id@].created_at,
                    status: ContractStatus::Open,
                    progress: Seq::empty(),
                    terms: strings_view(terms@),
                    is_public,
                },
            ),
    {
        let contract_id = new_uuid_string();
        let current_time = unix_now_secs();
        let contract = MarketContract {
            id: contract_id.clone(),
            issuer_id: text(issuer_id),
            assignee_ids: Vec::new(),
            title: text(title),
            description: text(description),
            items_required,
            reward_credits,
            reward_items,
            deadline,
            created_at: current_time,
            status: ContractStatus::Open,
            progress: Vec::new(),
            terms,
            is_public,
        };
        assert(contract@.assignee_ids =~= Seq::<Seq<char>>::empty());
        assert(contract@.progress =~= Seq::<ProgressView>::empty());
        let key = contract_id.clone();
        upsert(&mut self.contracts, key, contract);
        proof {
            assert(self.listing_map() == old(self).listing_map());
        }
        contract_id
    }

    /// Takes on an open contract.
    pub fn accept_contract(&mut self, contract_id: &str, player_id: &str) -> (r: Result<(), String>)
        requires
            old(self).wf(),
        ensures
            final(self).wf(),
            only_contracts_changed(*old(self), *final(self)),
            !old(self).contract_map().dom().contains(contract_id@) ==> final(self).contract_map()
                == old(self).contract_map() && (r matches Err(m) && m@ == "Contract not found"@),
            old(self).contract_map().dom().contains(contract_id@) ==> {
                let c = old(self).contract_map()[contract_id@];
                if c.status != ContractStatus::Open {
                    final(self).contract_map() == old(self).contract_map() && (r matches Err(m) && m@
                        == "Contract is not open for acceptance: "@ + contract_status_name(c.status))
                } else {
                    r is Ok && final(self).contract_map() == old(self).contract_map().insert(
                        contract_id@,
                        accepted_contract(c, player_id@, last_note_time(final(self).contract_map()[contract_id@])),
                    )
                }
            },
    {
        let ghost s = entries_view(self.contracts@);
        proof {
            lemma_index_of_key(s, contract_id@);
        }
        let i = match find_key(&self.contracts, contract_id) {
            None => {
                return Err(text("Contract not found"));
            },
            Some(i) => i,
        };
        let status = self.contracts[i].1.status;
        if status != ContractStatus::Open {
            return Err(text_then("Contract is not open for acceptance: ", status.debug_name()));
        }
        let (k, mut c) = self.contracts.remove(i);
        let ghost before = c@;
        if !strings_contain(&c.assignee_ids, player_id) {
            let ghost prev = c.assignee_ids@;
            c.assignee_ids.push(text(player_id));
            assert(strings_view(c.assignee_ids@) =~= strings_view(prev).push(player_id@));
        }
        c.status = ContractStatus::InProgress;
        let current_time = unix_now_secs();
        let note = ContractProgress {
            timestamp: current_time,
            update_by: text(player_id),
            message: text("Contract accepted"),
            items_delivered: Vec::new(),
        };
        assert(note@.items_delivered =~= Seq::<(Seq<char>, u32)>::empty());
        let ghost prev_progress = c.progress@;
        let ghost note_view = note@;
        c.progress.push(note);
        assert(c@.progress =~= before.progress.push(note_view));
        assert(c@ == accepted_contract(before, player_id@, current_time));
        self.contracts.insert(i, (k, c));
        proof {
            crate::keyed::lemma_update_value(s, i as int, accepted_contract(before, player_id@, current_time));
            assert(entries_view(self.contracts@) =~= s.update(
                i as int,
                (s[i as int].0, accepted_contract(before, player_id@, current_time)),
            ));
            assert(self.listing_map() == old(self).listing_map());
            crate::keyed::lemma_unique_index(entries_view(self.contracts@), contract_id@, i as int);
        }
        Ok(())
    }
}


impl PlayerMarket {
    /// Adds a progress note, by an assignee or the issuer, to a contract in progress.
    pub fn update_contract_progress(
        &mut self,
        contract_id: &str,
        player_id: &str,
        message: &str,
        items_delivered: Vec<(String, u32)>,
    ) -> (r: Result<(), String>)
        requires
            old(self).wf(),
        ensures
            final(self).wf(),
            only_contracts_changed(*old(self), *final(self)),
            !old(self).contract_map().dom().contains(contract_id@) ==> final(self).contract_map()
                == old(self).contract_map() && (r matches Err(m) && m@ == "Contract not found"@),
            old(self).contract_map().dom().contains(contract_id@) ==> {
                let c = old(self).contract_map()[contract_id@];
                if !c.assignee_ids.contains(player_id@) && c.issuer_id != player_id@ {
                    final(self).contract_map() == old(self).contract_map() && (r matches Err(m) && m@
                        == "You are not authorized to update this contract"@)
                } else if c.status != ContractStatus::InProgress {
                    final(self).contract_map() == old(self).contract_map() && (r matches Err(m) && m@
                        == "Cannot update contract with status: "@ + contract_status_name(c.status))
                } else {
                    r is Ok && final(self).contract_map() == old(self).contract_map().insert(
                        contract_id@,
                        with_note(
                            c,
                            progress_note(
                                last_note_time(final(self).contract_map()[contract_id@]),
                                player_id@,
                                message@,
                                named_counts_view(items_delivered@),
                            ),
                        ),
                    )
                }
            },
    {
        let ghost s = entries_view(self.contracts@);
        proof {
            lemma_index_of_key(s, contract_id@);
        }
        let i = match find_key(&self.contracts, contract_id) {
            None => {
                return Err(text("Contract not found"));
            },
            Some(i) => i,
        };
        if !strings_contain(&self.contracts[i].1.assignee_ids, player_id) && !str_eq(
            self.contracts[i].1.issuer_id.as_str(),
            player_id,
        ) {
            return Err(text("You are not authorized to update this contract"));
        }
        let status = self.contracts[i].1.status;
        if status != ContractStatus::InProgress {
            return Err(text_then("Cannot update contract with status: ", status.debug_name()));
        }
        let (k, mut c) = self.contracts.remove(i);
        let ghost before = c@;
        let current_time = unix_now_secs();
        let note = ContractProgress {
            timestamp: current_time,
            update_by: text(player_id),
            message: text(message),
            items_delivered,
        };
        let ghost note_view = note@;
        c.progress.push(note);
        assert(c@.progress =~= before.progress.push(note_view));
        assert(c@ == with_note(before, note_view));
        self.contracts.insert(i, (k, c));
        proof {
            crate::keyed::lemma_update_value(s, i as int, with_note(before, note_view));
            assert(entries_view(self.contracts@) =~= s.update(i as int, (s[i as int].0, with_note(before, note_view))));
            assert(self.listing_map() == old(self).listing_map());
            crate::keyed::lemma_unique_index(entries_view(self.contracts@), contract_id@, i as int);
        }
        Ok(())
    }

    /// Marks a contract in progress as completed; only its issuer may.
    pub fn complete_contract(&mut self, contract_id: &str, issuer_id: &str) -> (r: Result<(), String>)
        requires
            old(self).wf(),
        ensures
            final(self).wf(),
            only_contracts_changed(*old(self), *final(self)),
            !old(self).contract_map().dom().contains(contract_id@) ==> final(self).contract_map()
                == old(self).contract_map() && (r matches Err(m) && m@ == "Contract not found"@),
            old(self).contract_map().dom().contains(contract_id@) ==> {
                let c = old(self).contract_map()[contract_id@];
                if c.issuer_id != issuer_id@ {
                    final(self).contract_map() == old(self).contract_map() && (r matches Err(m) && m@
                        == "Only the contract issuer can mark it as complete"@)
                } else if c.status != ContractStatus::InProgress {
                    final(self).contract_map() == old(self).contract_map() && (r matches Err(m) && m@
                        == "Cannot complete contract with status: "@ + contract_status_name(c.status))
                } else {
                    r is Ok && final(self).contract_map() == old(self).contract_map().insert(
                        contract_id@,
                        completed_contract(c, issuer_id@, last_note_time(final(self).contract_map()[contract_id@])),
                    )
                }
            },
    {
        let ghost s = entries_view(self.contracts@);
        proof {
            lemma_index_of_key(s, contract_id@);
        }
        let i = match find_key(&self.contracts, contract_id) {
            None => {
                return Err(text("Contract not found"));
            },
            Some(i) => i,
        };
        if !str_eq(self.contracts[i].1.issuer_id.as_str(), issuer_id) {
            return Err(text("Only the contract issuer can mark it as complete"));
        }
        let status = self.contracts[i].1.status;
        if status != ContractStatus::InProgress {
            return Err(text_then("Cannot complete contract with status: ", status.debug_name()));
        }
        let (k, mut c) = self.contracts.remove(i);
        let ghost before = c@;
        c.status = ContractStatus::Completed;
        let current_time = unix_now_secs();
        let note = ContractProgress {
            timestamp: current_time,
            update_by: text(issuer_id),
            message: text("Contract marked as completed by issuer"),
            items_delivered: Vec::new(),
        };
        assert(note@.items_delivered =~= Seq::<(Seq<char>, u32)>::empty());
        let ghost note_view = note@;
        c.progress.push(note);
        assert(c@.progress =~= before.progress.push(note_view));
        assert(c@ == completed_contract(before, issuer_id@, current_time));
        self.contracts.insert(i, (k, c));
        proof {
            crate::keyed::lemma_update_value(s, i as int, completed_contract(before, issuer_id@, current_time));
            assert(entries_view(self.contracts@) =~= s.update(
                i as int,
                (s[i as int].0, completed_contract(before, issuer_id@, current_time)),
            ));
            assert(self.listing_map() == old(self).listing_map());
            crate::keyed::lemma_unique_index(entries_view(self.contracts@), contract_id@, i as int);
        }
        Ok(())
    }
}


/// The start of the hour containing second `t`.
pub open spec fn hour_of(t: u64) -> u64 {
    (t - t % 3600) as u64
}

/// Whether one more trade of `quantity` in hour `hour` can be folded into a
/// trend series without overflowing or dividing by zero. Only a trade in the
/// hour of the newest point is folded into it; any other starts a new point.
pub open spec fn trend_has_room(series: Seq<PriceTrendView>, price: u32, quantity: u32, hour: u64) -> bool {
    series.len() > 0 && series.last().timestamp == hour ==> {
        let last = series.last();
        &&& last.volume_traded + quantity <= u32::MAX
        &&& last.volume_traded + quantity > 0
        &&& last.average_price * last.volume_traded + price * quantity <= u64::MAX
    }
}

/// The quantity-weighted mean of two prices.
pub open spec fn weighted_average(avg: u32, volume: u32, price: u32, quantity: u32) -> int {
    (avg * volume + price * quantity) / (volume + quantity)
}

/// The trend series after a trade at `price` for `quantity` units in the hour `hour`:
/// a trade in the hour of the newest point is folded into it; otherwise a new
/// point starts, and only the newest 24 points are kept.
pub open spec fn trend_after_trade(series: Seq<PriceTrendView>, item_name: Seq<char>, price: u32, quantity: u32, hour: u64) -> Seq<
    PriceTrendView,
> {
    if series.len() > 0 && series.last().timestamp == hour {
        let last = series.last();
        series.update(
            series.len() - 1,
            PriceTrendView {
                average_price: weighted_average(last.average_price, last.volume_traded, price, quantity) as u32,
                lowest_price: if price < last.lowest_price { price } else { last.lowest_price },
                highest_price: if price > last.highest_price { price } else { last.highest_price },
                volume_traded: (last.volume_traded + quantity) as u32,
                ..last
            },
        )
    } else {
        let grown = series.push(
            PriceTrendView {
                item_name,
                average_price: price,
                lowest_price: price,
                highest_price: price,
                volume_traded: quantity,
                timestamp: hour,
            },
        );
        if grown.len() > 24 {
            grown.subrange(grown.len() - 24, grown.len() as int)
        } else {
            grown
        }
    }
}

/// The trend series stored for an item (empty when none).
pub open spec fn series_of(trends: Map<Seq<char>, Seq<PriceTrendView>>, item_name: Seq<char>) -> Seq<PriceTrendView> {
    if trends.dom().contains(item_name) {
        trends[item_name]
    } else {
        Seq::empty()
    }
}

proof fn lemma_weighted_average_bounds(avg: u32, volume: u32, price: u32, quantity: u32)
    requires
        volume + quantity > 0,
    ensures
        0 <= weighted_average(avg, volume, price, quantity) <= u32::MAX,
{
    let m: int = if avg > price { avg as int } else { price as int };
    assert(avg * volume + price * quantity <= m * (volume + quantity)) by (nonlinear_arith)
        requires
            m >= avg,
            m >= price,
            volume >= 0,
            quantity >= 0,
    ;
    assert(avg * volume + price * quantity >= 0) by (nonlinear_arith)
        requires
            avg >= 0,
            volume >= 0,
            price >= 0,
            quantity >= 0,
    ;
    assert((avg * volume + price * quantity) / (volume + quantity) <= m) by (nonlinear_arith)
        requires
            avg * volume + price * quantity <= m * (volume + quantity),
            volume + quantity > 0,
    ;
    assert(avg * volume <= 0xffff_ffff * 0xffff_ffffint) by (nonlinear_arith)
        requires
            avg <= 0xffff_ffff,
            volume <= 0xffff_ffff,
            avg >= 0,
            volume >= 0,
    ;
    assert(price * quantity <= 0xffff_ffff * 0xffff_ffffint) by (nonlinear_arith)
        requires
            price <= 0xffff_ffff,
            quantity <= 0xffff_ffff,
            price >= 0,
            quantity >= 0,
    ;
}

/// The newest `n` points of a series.
fn keep_newest(series: Vec<PriceTrend>, n: usize) -> (r: Vec<PriceTrend>)
    requires
        series.len() >= n,
    ensures
        trends_view(r@) == trends_view(series@).subrange(series.len() - n, series.len() as int),
{
    let mut r: Vec<PriceTrend> = Vec::new();
    let start = series.len() - n;
    let mut i = start;
    while i < series.len()
        invariant
            start <= i <= series.len(),
            start == series.len() - n,
            trends_view(r@) == trends_view(series@).subrange(start as int, i as int),
        decreases series.len() - i,
    {
        let ghost prev = r@;
        r.push(series[i].duplicate());
        assert(trends_view(r@) =~= trends_view(prev).push(series@[i as int]@));
        assert(trends_view(series@).subrange(start as int, i + 1) =~= trends_view(series@).subrange(
            start as int,
            i as int,
        ).push(series@[i as int]@));
        i = i + 1;
    }
    r
}

/// Folds one trade into a trend series.
fn fold_trade(series: Vec<PriceTrend>, item_name: &str, price: u32, quantity: u32, hour: u64) -> (r: Vec<PriceTrend>)
    requires
        trend_has_room(trends_view(series@), price, quantity, hour),
    ensures
        trends_view(r@) == trend_after_trade(trends_view(series@), item_name@, price, quantity, hour),
{
    let ghost sv = trends_view(series@);
    let mut series = series;
    let n = series.len();
    if n > 0 && series[n - 1].timestamp == hour {
        let mut last = series.pop().unwrap();
        let ghost lv = last@;
        proof {
            lemma_weighted_average_bounds(lv.average_price, lv.volume_traded, price, quantity);
        }
        let total_volume = last.volume_traded + quantity;
        let weighted = (last.average_price as u64 * last.volume_traded as u64 + price as u64 * quantity as u64)
            / total_volume as u64;
        last.average_price = weighted as u32;
        last.lowest_price = if price < last.lowest_price { price } else { last.lowest_price };
        last.highest_price = if price > last.highest_price { price } else { last.highest_price };
        last.volume_traded = total_volume;
        let ghost nl = last@;
        series.push(last);
        assert(trends_view(series@) =~= sv.update(sv.len() - 1, nl));
        series
    } else {
        let point = PriceTrend {
            item_name: text(item_name),
            average_price: price,
            lowest_price: price,
            highest_price: price,
            volume_traded: quantity,
            timestamp: hour,
        };
        let ghost pv = point@;
        series.push(point);
        assert(trends_view(series@) =~= sv.push(pv));
        if series.len() > 24 {
            keep_newest(series, 24)
        } else {
            series
        }
    }
}

impl PlayerMarket {
    /// Whether a trade of `quantity` units of `item_name` at `price` in hour
    /// `hour` can be folded into the item's trend series.
    fn trend_room(&self, item_name: &str, price: u32, quantity: u32, hour: u64) -> (r: bool)
        requires
            self.wf(),
        ensures
            r == trend_has_room(series_of(self.trend_map(), item_name@), price, quantity, hour),
    {
        let ghost s = trend_entries_view(self.price_trends@);
        proof {
            lemma_index_of_key(s, item_name@);
            crate::keyed::lemma_index_same_keys(s, entries_view(self.price_trends@), item_name@);
        }
        match find_key(&self.price_trends, item_name) {
            None => true,
            Some(i) => {
                proof {
                    crate::keyed::lemma_unique_index(s, item_name@, i as int);
                }
                let series = &self.price_trends[i].1;
                let ghost sv = trends_view(series@);
                assert(sv == series_of(self.trend_map(), item_name@));
                let n = series.len();
                if n == 0 {
                    return true;
                }
                let last = &series[n - 1];
                assert(sv.last() == last@);
                if last.timestamp != hour {
                    return true;
                }
                let volume = last.volume_traded as u64 + quantity as u64;
                if volume > 0xffff_ffffu64 || volume == 0 {
                    return false;
                }
                let avg = last.average_price as u128;
                let vol = last.volume_traded as u128;
                let p = price as u128;
                let q = quantity as u128;
                assert(avg * vol <= 0xffff_ffff_ffff_ffffu128) by (nonlinear_arith)
                    requires
                        avg <= 0xffff_ffff,
                        vol <= 0xffff_ffff,
                ;
                assert(p * q <= 0xffff_ffff_ffff_ffffu128) by (nonlinear_arith)
                    requires
                        p <= 0xffff_ffff,
                        q <= 0xffff_ffff,
                ;
                let a = avg * vol;
                let b = p * q;
                a + b <= 0xffff_ffff_ffff_ffffu128
            },
        }
    }

    /// Records a trade of `quantity` units of `item_name` at `price` at time `now`.
    fn update_price_trend(&mut self, item_name: &str, price: u32, quantity: u32, now: u64)
        requires
            old(self).wf(),
            trend_has_room(series_of(old(self).trend_map(), item_name@), price, quantity, hour_of(now)),
        ensures
            final(self).wf(),
            final(self).listings@ == old(self).listings@,
            final(self).bids@ == old(self).bids@,
            final(self).contracts@ == old(self).contracts@,
            final(self).purchase_history@ == old(self).purchase_history@,
            final(self).market_fee_basis_points == old(self).market_fee_basis_points,
            final(self).reputation_requirements == old(self).reputation_requirements,
            final(self).trend_map() == old(self).trend_map().insert(
                item_name@,
                trend_after_trade(series_of(old(self).trend_map(), item_name@), item_name@, price, quantity, hour_of(now)),
            ),
    {
        let hour = now - now % 3600;
        let ghost s = trend_entries_view(self.price_trends@);
        proof {
            lemma_index_of_key(s, item_name@);
            crate::keyed::lemma_index_same_keys(s, entries_view(self.price_trends@), item_name@);
        }
        match find_key(&self.price_trends, item_name) {
            Some(i) => {
                let (k, series) = self.price_trends.remove(i);
                proof {
                    crate::keyed::lemma_unique_index(s, item_name@, i as int);
                }
                let folded = fold_trade(series, item_name, price, quantity, hour);
                let ghost fv = trends_view(folded@);
                self.price_trends.insert(i, (k, folded));
                proof {
                    crate::keyed::lemma_update_value(s, i as int, fv);
                    assert(trend_entries_view(self.price_trends@) =~= s.update(i as int, (s[i as int].0, fv)));
                }
            },
            None => {
                let empty: Vec<PriceTrend> = Vec::new();
                assert(trends_view(empty@) =~= Seq::<PriceTrendView>::empty());
                let folded = fold_trade(empty, item_name, price, quantity, hour);
                let ghost fv = trends_view(folded@);
                self.price_trends.push((text(item_name), folded));
                proof {
                    crate::keyed::lemma_push_new(s, item_name@, fv);
                    assert(trend_entries_view(self.price_trends@) =~= s.push((item_name@, fv)));
                }
            },
        }
        proof {
            assert(self.listing_map() == old(self).listing_map());
        }
    }
}


fn text4(a: &str, x: String, b: &str, y: String) -> (r: String)
    ensures
        r@ == a@ + x@ + b@ + y@,
{
    let mut r = String::from_str(a);
    r.append(x.as_str());
    r.append(b);
    r.append(y.as_str());
    r
}

/// A listing after `q` units were sold from it.
pub open spec fn after_sale(l: ListingView, q: u32) -> ListingView {
    ListingView { quantity: (l.quantity - q) as u32, quantity_sold: (l.quantity_sold + q) as u32, ..l }
}

/// The listings after `q` units were sold from listing `id`; a listing sold
/// out is removed.
pub open spec fn listings_after_sale(m: Map<Seq<char>, ListingView>, id: Seq<char>, q: u32) -> Map<Seq<char>, ListingView> {
    if m[id].quantity == q {
        m.remove(id)
    } else {
        m.insert(id, after_sale(m[id], q))
    }
}

/// Everything but listings, purchase history and trends is as before.
pub open spec fn only_sales_changed(a: PlayerMarket, b: PlayerMarket) -> bool {
    &&& a.bids@ == b.bids@
    &&& a.contracts@ == b.contracts@
    &&& a.market_fee_basis_points == b.market_fee_basis_points
    &&& a.reputation_requirements == b.reputation_requirements
}

/// The market state is exactly as before.
pub open spec fn unchanged(a: PlayerMarket, b: PlayerMarket) -> bool {
    &&& a.listings@ == b.listings@
    &&& a.bids@ == b.bids@
    &&& a.purchase_history@ == b.purchase_history@
    &&& a.contracts@ == b.contracts@
    &&& a.price_trends@ == b.price_trends@
    &&& a.market_fee_basis_points == b.market_fee_basis_points
    &&& a.reputation_requirements == b.reputation_requirements
}

proof fn lemma_product_le(p: u32, a: u32, b: u32)
    requires
        a <= b,
    ensures
        p * a <= p * b,
{
    assert(p * a <= p * b) by (nonlinear_arith)
        requires
            a <= b,
            p >= 0,
    ;
}

impl PlayerMarket {
    /// Takes `q` units out of the listing at position `i`.
    fn sell_from_listing(&mut self, i: usize, q: u32)
        requires
            old(self).wf(),
            i < old(self).listings@.len(),
            q <= old(self).listings@[i as int].1.quantity,
        ensures
            final(self).wf(),
            final(self).bids@ == old(self).bids@,
            final(self).contracts@ == old(self).contracts@,
            final(self).purchase_history@ == old(self).purchase_history@,
            final(self).price_trends@ == old(self).price_trends@,
            final(self).market_fee_basis_points == old(self).market_fee_basis_points,
            final(self).reputation_requirements == old(self).reputation_requirements,
            final(self).listing_map() == listings_after_sale(
                old(self).listing_map(),
                old(self).listings@[i as int].0@,
                q,
            ),
    {
        let ghost s = entries_view(self.listings@);
        let ghost key = s[i as int].0;
        proof {
            crate::keyed::lemma_unique_index(s, key, i as int);
            assert(self.listing_map().dom().contains(key));
            assert(listing_in_range(s[i as int].1));
        }
        let (k, mut l) = self.listings.remove(i);
        let ghost lv = l@;
        l.quantity = l.quantity - q;
        l.quantity_sold = l.quantity_sold + q;
        if l.quantity == 0 {
            proof {
                crate::keyed::lemma_remove_entry(s, i as int);
                assert(entries_view(self.listings@) =~= s.remove(i as int));
            }
        } else {
            let ghost nl = l@;
            self.listings.insert(i, (k, l));
            proof {
                crate::keyed::lemma_update_value(s, i as int, nl);
                assert(entries_view(self.listings@) =~= s.update(i as int, (s[i as int].0, nl)));
                lemma_product_le(lv.price_per_unit, nl.quantity, lv.quantity);
                assert(listing_in_range(nl));
            }
        }
        proof {
            let m = self.listing_map();
            assert forall|k2: Seq<char>| #[trigger] m.dom().contains(k2) implies listing_in_range(m[k2]) by {
                if k2 != key {
                    assert(old(self).listing_map().dom().contains(k2));
                }
            }
        }
    }

    /// Buys `quantity` units from a listing at its asking price.
    pub fn purchase_listing(&mut self, listing_id: &str, buyer_id: &str, quantity: u32, buyer_reputation: i32) -> (r: Result<
        MarketPurchase,
        String,
    >)
        requires
            old(self).wf(),
        ensures
            final(self).wf(),
            !old(self).listing_map().dom().contains(listing_id@) ==> unchanged(*old(self), *final(self)) && (r matches Err(
                m,
            ) && m@ == "Listing not found"@),
            old(self).listing_map().dom().contains(listing_id@) ==> {
                let l = old(self).listing_map()[listing_id@];
                if l.quantity < quantity {
                    unchanged(*old(self), *final(self)) && (r matches Err(m) && m@
                        == "Not enough quantity available. Requested: "@ + decimal(quantity as nat) + ", Available: "@
                        + decimal(l.quantity as nat))
                } else if old(self).reputation_requirements && buyer_reputation < l.minimum_reputation {
                    unchanged(*old(self), *final(self)) && (r matches Err(m) && m@ == "Insufficient reputation. Required: "@
                        + signed_decimal(l.minimum_reputation as int) + ", You have: "@ + signed_decimal(
                        buyer_reputation as int,
                    ))
                } else if r is Err {
                    unchanged(*old(self), *final(self)) && (r matches Err(m) && m@ == "Trade volume out of range"@)
                        && exists|t: u64| !trend_has_room(
                        series_of(old(self).trend_map(), l.item.name),
                        l.price_per_unit,
                        quantity,
                        #[trigger] hour_of(t),
                    )
                } else {
                    r matches Ok(p) && {
                        &&& p@ == PurchaseView {
                            id: p@.id,
                            listing_id: listing_id@,
                            buyer_id: buyer_id@,
                            seller_id: l.seller_id,
                            item_name: l.item.name,
                            quantity,
                            price_per_unit: l.price_per_unit,
                            total_price: (l.price_per_unit * quantity) as u32,
                            timestamp: p@.timestamp,
                            system_id: l.system_id,
                            was_negotiated: false,
                        }
                        &&& only_sales_changed(*old(self), *final(self))
                        &&& final(self).listing_map() == listings_after_sale(old(self).listing_map(), listing_id@, quantity)
                        &&& final(self).history() == old(self).history().push(p@)
                        &&& final(self).trend_map() == old(self).trend_map().insert(
                            l.item.name,
                            trend_after_trade(
                                series_of(old(self).trend_map(), l.item.name),
                                l.item.name,
                                l.price_per_unit,
                                quantity,
                                hour_of(p@.timestamp),
                            ),
                        )
                    }
                }
            },
    {
        let ghost s = entries_view(self.listings@);
        proof {
            lemma_index_of_key(s, listing_id@);
        }
        let i = match find_key(&self.listings, listing_id) {
            None => {
                return Err(text("Listing not found"));
            },
            Some(i) => i,
        };
        proof {
            crate::keyed::lemma_unique_index(s, listing_id@, i as int);
        }
        let available = self.listings[i].1.quantity;
        if available < quantity {
            return Err(
                text4(
                    "Not enough quantity available. Requested: ",
                    u64_to_decimal(quantity as u64),
                    ", Available: ",
                    u64_to_decimal(available as u64),
                ),
            );
        }
        let minimum = self.listings[i].1.minimum_reputation;
        if self.reputation_requirements && buyer_reputation < minimum {
            return Err(
                text4(
                    "Insufficient reputation. Required: ",
                    i64_to_decimal(minimum as i64),
                    ", You have: ",
                    i64_to_decimal(buyer_reputation as i64),
                ),
            );
        }
        let price_per_unit = self.listings[i].1.price_per_unit;
        proof {
            assert(self.listing_map().dom().contains(listing_id@));
            assert(listing_in_range(s[i as int].1));
            lemma_product_le(price_per_unit, quantity, available);
        }
        let total_price = price_per_unit * quantity;
        let current_time = unix_now_secs();
        if !self.trend_room(self.listings[i].1.item.name.as_str(), price_per_unit, quantity, current_time - current_time % 3600) {
            assert(!trend_has_room(
                series_of(self.trend_map(), s[i as int].1.item.name),
                price_per_unit,
                quantity,
                hour_of(current_time),
            ));
            return Err(text("Trade volume out of range"));
        }
        let purchase_id = new_uuid_string();
        let purchase = MarketPurchase {
            id: purchase_id,
            listing_id: text(listing_id),
            buyer_id: text(buyer_id),
            seller_id: self.listings[i].1.seller_id.clone(),
            item_name: self.listings[i].1.item.name.clone(),
            quantity,
            price_per_unit,
            total_price,
            timestamp: current_time,
            system_id: self.listings[i].1.system_id.clone(),
            was_negotiated: false,
        };
        let item_name = self.listings[i].1.item.name.clone();
        self.sell_from_listing(i, quantity);
        self.update_price_trend(item_name.as_str(), price_per_unit, quantity, current_time);
        let ghost pv = purchase@;
        let ghost before_push = self.history();
        self.purchase_history.push(purchase.duplicate());
        assert(self.history() =~= before_push.push(pv));
        Ok(purchase)
    }
}


/// A listing as first posted at time `t`.
pub open spec fn new_listing(
    id: Seq<char>,
    seller_id: Seq<char>,
    seller_name: Seq<char>,
    item: ItemView,
    quantity: u32,
    price_per_unit: u32,
    system_id: Seq<char>,
    location_id: Seq<char>,
    t: u64,
    expiration: Option<u64>,
    min_reputation: i32,
    visibility: ListingVisibilityView,
    negotiable: bool,
    description: Seq<char>,
    tags: Seq<Seq<char>>,
) -> ListingView {
    ListingView {
        id,
        seller_id,
        seller_name,
        item,
        quantity,
        price_per_unit,
        total_price: (price_per_unit * quantity) as u32,
        system_id,
        location_id,
        created_at: t,
        expires_at: expiration,
        minimum_reputation: min_reputation,
        visibility,
        negotiable,
        description,
        tags,
        quantity_sold: 0,
    }
}

impl PlayerMarket {
    /// Posts a listing and returns its id.
    pub fn create_listing(
        &mut self,
        seller_id: &str,
        seller_name: &str,
        item: Item,
        quantity: u32,
        price_per_unit: u32,
        system_id: &str,
        location_id: &str,
        expiration: Option<u64>,
        min_reputation: i32,
        visibility: ListingVisibility,
        negotiable: bool,
        description: &str,
        tags: Vec<String>,
    ) -> (id: String)
        requires
            old(self).wf(),
            price_per_unit * quantity <= u32::MAX,
        ensures
            final(self).wf(),
            final(self).bids@ == old(self).bids@,
            final(self).contracts@ == old(self).contracts@,
            final(self).purchase_history@ == old(self).purchase_history@,
            final(self).price_trends@ == old(self).price_trends@,
            final(self).market_fee_basis_points == old(self).market_fee_basis_points,
            final(self).reputation_requirements == old(self).reputation_requirements,
            final(self).listing_map() == old(self).listing_map().insert(
                id@,
                new_listing(
                    id@,
                    seller_id@,
                    seller_name@,
                    item@,
                    quantity,
                    price_per_unit,
                    system_id@,
                    location_id@,
                    final(self).listing_map()[id@].created_at,
                    expiration,
                    min_reputation,
                    visibility@,
                    negotiable,
                    description@,
                    strings_view(tags@),
                ),
            ),
    {
        let id = new_uuid_string();
        let current_time = unix_now_secs();
        let listing = PlayerMarketListing {
            id: id.clone(),
            seller_id: text(seller_id),
            seller_name: text(seller_name),
            item,
            quantity,
            price_per_unit,
            total_price: price_per_unit * quantity,
            system_id: text(system_id),
            location_id: text(location_id),
            created_at: current_time,
            expires_at: expiration,
            minimum_reputation: min_reputation,
            visibility,
            negotiable,
            description: text(description),
            tags,
            quantity_sold: 0,
        };
        let ghost lv = listing@;
        upsert(&mut self.listings, id.clone(), listing);
        proof {
            let m = self.listing_map();
            assert forall|k2: Seq<char>| #[trigger] m.dom().contains(k2) implies listing_in_range(m[k2]) by {
                if k2 != id@ {
                    assert(old(self).listing_map().dom().contains(k2));
                }
            }
        }
        id
    }

    /// Offers a price for some units of a negotiable listing, at time `now`.
    pub fn place_bid_at(
        &mut self,
        listing_id: &str,
        bidder_id: &str,
        bidder_name: &str,
        bid_amount: u32,
        quantity: u32,
        message: &str,
        expires_in_hours: Option<u64>,
        now: u64,
    ) -> (r: Result<String, String>)
        requires
            old(self).wf(),
            bid_amount * quantity <= u32::MAX,
            expires_in_hours matches Some(h) ==> now + h * 3600 <= u64::MAX,
        ensures
            final(self).wf(),
            only_bids_changed(*old(self), *final(self)),
            !old(self).listing_map().dom().contains(listing_id@) ==> final(self).bid_map() == old(self).bid_map() && (r matches Err(
                m,
            ) && m@ == "Listing not found"@),
            old(self).listing_map().dom().contains(listing_id@) ==> {
                let l = old(self).listing_map()[listing_id@];
                if !l.negotiable {
                    final(self).bid_map() == old(self).bid_map() && (r matches Err(m) && m@
                        == "This listing does not accept bids"@)
                } else if l.quantity < quantity {
                    final(self).bid_map() == old(self).bid_map() && (r matches Err(m) && m@
                        == "Requested quantity exceeds available quantity"@)
                } else {
                    r matches Ok(id) && final(self).bid_map() == old(self).bid_map().insert(
                        id@,
                        BidView {
                            id: id@,
                            listing_id: listing_id@,
                            bidder_id: bidder_id@,
                            bidder_name: bidder_name@,
                            bid_amount,
                            quantity,
                            total_amount: (bid_amount * quantity) as u32,
                            message: message@,
                            status: BidStatus::Pending,
                            created_at: now,
                            expires_at: match expires_in_hours {
                                Some(h) => Some((now + h * 3600) as u64),
                                None => None,
                            },
                        },
                    )
                }
            },
    {
        let ghost s = entries_view(self.listings@);
        proof {
            lemma_index_of_key(s, listing_id@);
        }
        let i = match find_key(&self.listings, listing_id) {
            None => {
                return Err(text("Listing not found"));
            },
            Some(i) => i,
        };
        proof {
            crate::keyed::lemma_unique_index(s, listing_id@, i as int);
        }
        if !self.listings[i].1.negotiable {
            return Err(text("This listing does not accept bids"));
        }
        if self.listings[i].1.quantity < quantity {
            return Err(text("Requested quantity exceeds available quantity"));
        }
        let bid_id = new_uuid_string();
        let expires_at = match expires_in_hours {
            Some(hours) => Some(now + hours * 3600),
            None => None,
        };
        let bid = MarketBid {
            id: bid_id.clone(),
            listing_id: text(listing_id),
            bidder_id: text(bidder_id),
            bidder_name: text(bidder_name),
            bid_amount,
            quantity,
            total_amount: bid_amount * quantity,
            message: text(message),
            status: BidStatus::Pending,
            created_at: now,
            expires_at,
        };
        upsert(&mut self.bids, bid_id.clone(), bid);
        proof {
            assert(self.listing_map() == old(self).listing_map());
        }
        Ok(bid_id)
    }

    /// Offers a price for some units of a negotiable listing. The bid is
    /// stamped with the current time; when an expiry that far ahead cannot
    /// be represented, the bid is refused and nothing changes.
    pub fn place_bid(
        &mut self,
        listing_id: &str,
        bidder_id: &str,
        bidder_name: &str,
        bid_amount: u32,
        quantity: u32,
        message: &str,
        expires_in_hours: Option<u64>,
    ) -> (r: Result<String, String>)
        requires
            old(self).wf(),
            bid_amount * quantity <= u32::MAX,
        ensures
            final(self).wf(),
            only_bids_changed(*old(self), *final(self)),
            r is Ok ==> old(self).listing_map().dom().contains(listing_id@),
            r matches Ok(id) ==> {
                let b = final(self).bid_map()[id@];
                &&& final(self).bid_map() == old(self).bid_map().insert(id@, b)
                &&& b == BidView {
                    id: id@,
                    listing_id: listing_id@,
                    bidder_id: bidder_id@,
                    bidder_name: bidder_name@,
                    bid_amount,
                    quantity,
                    total_amount: (bid_amount * quantity) as u32,
                    message: message@,
                    status: BidStatus::Pending,
                    created_at: b.created_at,
                    expires_at: match expires_in_hours {
                        Some(h) => Some((b.created_at + h * 3600) as u64),
                        None => None,
                    },
                }
            },
            r is Err ==> final(self).bid_map() == old(self).bid_map(),
            old(self).listing_map().dom().contains(listing_id@) && old(self).listing_map()[listing_id@].negotiable
                && quantity <= old(self).listing_map()[listing_id@].quantity && expires_in_hours is None ==> r is Ok,
    {
        let now = unix_now_secs();
        match expires_in_hours {
            Some(h) => {
                if h > (u64::MAX - now) / 3600 {
                    return Err(text("Bid expiry is out of range"));
                }
            },
            None => {},
        }
        self.place_bid_at(listing_id, bidder_id, bidder_name, bid_amount, quantity, message, expires_in_hours, now)
    }

    /// Accepts a pending bid: sells the bid's units at the bid price.
    pub fn accept_bid(&mut self, bid_id: &str) -> (r: Result<MarketPurchase, String>)
        requires
            old(self).wf(),
        ensures
            final(self).wf(),
            !old(self).bid_map().dom().contains(bid_id@) ==> unchanged(*old(self), *final(self)) && (r matches Err(m)
                && m@ == "Bid not found"@),
            old(self).bid_map().dom().contains(bid_id@) ==> {
                let b = old(self).bid_map()[bid_id@];
                if b.status != BidStatus::Pending {
                    unchanged(*old(self), *final(self)) && (r matches Err(m) && m@
                        == "Bid cannot be accepted: current status is "@ + bid_status_name(b.status))
                } else if !old(self).listing_map().dom().contains(b.listing_id) {
                    only_bids_changed(*old(self), *final(self)) && final(self).bid_map() == old(self).bid_map().insert(
                        bid_id@,
                        bid_with_status(b, BidStatus::Rejected),
                    ) && (r matches Err(m) && m@ == "Listing no longer exists"@)
                } else {
                    let l = old(self).listing_map()[b.listing_id];
                    if l.quantity < b.quantity {
                        unchanged(*old(self), *final(self)) && (r matches Err(m) && m@
                            == "Listing no longer has sufficient quantity available"@)
                    } else if r is Err {
                        unchanged(*old(self), *final(self)) && (r matches Err(m) && m@ == "Trade volume out of range"@)
                            && exists|t: u64| !trend_has_room(
                            series_of(old(self).trend_map(), l.item.name),
                            b.bid_amount,
                            b.quantity,
                            #[trigger] hour_of(t),
                        )
                    } else {
                        r matches Ok(p) && {
                            &&& p@ == PurchaseView {
                                id: p@.id,
                                listing_id: b.listing_id,
                                buyer_id: b.bidder_id,
                                seller_id: l.seller_id,
                                item_name: l.item.name,
                                quantity: b.quantity,
                                price_per_unit: b.bid_amount,
                                total_price: b.total_amount,
                                timestamp: p@.timestamp,
                                system_id: l.system_id,
                                was_negotiated: true,
                            }
                            &&& final(self).contracts@ == old(self).contracts@
                            &&& final(self).market_fee_basis_points == old(self).market_fee_basis_points
                            &&& final(self).reputation_requirements == old(self).reputation_requirements
                            &&& final(self).bid_map() == old(self).bid_map().insert(
                                bid_id@,
                                bid_with_status(b, BidStatus::Accepted),
                            )
                            &&& final(self).listing_map() == listings_after_sale(
                                old(self).listing_map(),
                                b.listing_id,
                                b.quantity,
                            )
                            &&& final(self).history() == old(self).history().push(p@)
                            &&& final(self).trend_map() == old(self).trend_map().insert(
                                l.item.name,
                                trend_after_trade(
                                    series_of(old(self).trend_map(), l.item.name),
                                    l.item.name,
                                    b.bid_amount,
                                    b.quantity,
                                    hour_of(p@.timestamp),
                                ),
                            )
                        }
                    }
                }
            },
    {
        let ghost bs = entries_view(self.bids@);
        proof {
            lemma_index_of_key(bs, bid_id@);
        }
        let bi = match find_key(&self.bids, bid_id) {
            None => {
                return Err(text("Bid not found"));
            },
            Some(bi) => bi,
        };
        proof {
            crate::keyed::lemma_unique_index(bs, bid_id@, bi as int);
        }
        let status = self.bids[bi].1.status;
        if status != BidStatus::Pending {
            return Err(text_then("Bid cannot be accepted: current status is ", status.debug_name()));
        }
        let ghost ls = entries_view(self.listings@);
        proof {
            lemma_index_of_key(ls, bs[bi as int].1.listing_id);
        }
        let li = match find_key(&self.listings, self.bids[bi].1.listing_id.as_str()) {
            None => {
                self.set_bid_status(bi, BidStatus::Rejected);
                return Err(text("Listing no longer exists"));
            },
            Some(li) => li,
        };
        proof {
            crate::keyed::lemma_unique_index(ls, bs[bi as int].1.listing_id, li as int);
        }
        let bid_quantity = self.bids[bi].1.quantity;
        if self.listings[li].1.quantity < bid_quantity {
            return Err(text("Listing no longer has sufficient quantity available"));
        }
        let bid_amount = self.bids[bi].1.bid_amount;
        let current_time = unix_now_secs();
        if !self.trend_room(
            self.listings[li].1.item.name.as_str(),
            bid_amount,
            bid_quantity,
            current_time - current_time % 3600,
        ) {
            assert(!trend_has_room(
                series_of(self.trend_map(), ls[li as int].1.item.name),
                bid_amount,
                bid_quantity,
                hour_of(current_time),
            ));
            return Err(text("Trade volume out of range"));
        }
        let purchase_id = new_uuid_string();
        let purchase = MarketPurchase {
            id: purchase_id,
            listing_id: self.bids[bi].1.listing_id.clone(),
            buyer_id: self.bids[bi].1.bidder_id.clone(),
            seller_id: self.listings[li].1.seller_id.clone(),
            item_name: self.listings[li].1.item.name.clone(),
            quantity: bid_quantity,
            price_per_unit: bid_amount,
            total_price: self.bids[bi].1.total_amount,
            timestamp: current_time,
            system_id: self.listings[li].1.system_id.clone(),
            was_negotiated: true,
        };
        let item_name = self.listings[li].1.item.name.clone();
        self.set_bid_status(bi, BidStatus::Accepted);
        self.sell_from_listing(li, bid_quantity);
        self.update_price_trend(item_name.as_str(), bid_amount, bid_quantity, current_time);
        let ghost pv = purchase@;
        let ghost before_push = self.history();
        self.purchase_history.push(purchase.duplicate());
        assert(self.history() =~= before_push.push(pv));
        Ok(purchase)
    }
}


/// Whether a player (with an optional faction) may see a listing.
pub open spec fn visible_to(v: ListingVisibilityView, player_id: Seq<char>, faction: Option<Seq<char>>) -> bool {
    match v {
        ListingVisibilityView::Public => true,
        ListingVisibilityView::FactionOnly(f) => faction matches Some(pf) && pf == f,
        ListingVisibilityView::PlayerList(ps) => ps.contains(player_id),
    }
}

/// The search filters a listing has to pass.
pub struct SearchFilter {
    pub player_id: Seq<char>,
    pub faction: Option<Seq<char>>,
    pub item_name: Option<Seq<char>>,
    pub item_type: Option<ItemType>,
    pub system_id: Option<Seq<char>>,
    pub tags: Option<Seq<Seq<char>>>,
    pub min_price: Option<u32>,
    pub max_price: Option<u32>,
}

/// Whether a listing passes every filter that is set.
pub open spec fn listing_matches(l: ListingView, f: SearchFilter) -> bool {
    &&& visible_to(l.visibility, f.player_id, f.faction)
    &&& (f.item_name matches Some(n) ==> crate::text::contains_seq(l.item.name, n))
    &&& (f.item_type matches Some(t) ==> l.item.item_type == t)
    &&& (f.system_id matches Some(sys) ==> l.system_id == sys)
    &&& (f.min_price matches Some(lo) ==> l.price_per_unit >= lo)
    &&& (f.max_price matches Some(hi) ==> l.price_per_unit <= hi)
    &&& (f.tags matches Some(ts) ==> shares_tag(l.tags, ts))
}

/// Whether some wanted tag is among a listing's tags.
pub open spec fn shares_tag(have: Seq<Seq<char>>, wanted: Seq<Seq<char>>) -> bool {
    exists|i: int| 0 <= i < wanted.len() && have.contains(#[trigger] wanted[i])
}

/// The value a sort option orders by.
pub open spec fn sort_key(l: ListingView, opt: ListingSortOption) -> u64 {
    match opt {
        ListingSortOption::PriceAscending | ListingSortOption::PriceDescending => l.price_per_unit as u64,
        ListingSortOption::NewestFirst | ListingSortOption::OldestFirst => l.created_at,
        ListingSortOption::QuantityAscending | ListingSortOption::QuantityDescending => l.quantity as u64,
    }
}

/// Whether a sort option puts smaller keys first.
pub open spec fn ascending(opt: ListingSortOption) -> bool {
    opt == ListingSortOption::PriceAscending || opt == ListingSortOption::OldestFirst || opt
        == ListingSortOption::QuantityAscending
}

/// Whether `a` may come before `b` under the sort option.
pub open spec fn in_order(a: ListingView, b: ListingView, opt: ListingSortOption) -> bool {
    if ascending(opt) {
        sort_key(a, opt) <= sort_key(b, opt)
    } else {
        sort_key(a, opt) >= sort_key(b, opt)
    }
}

/// Listings sorted under the option.
pub open spec fn sorted_by(s: Seq<ListingView>, opt: ListingSortOption) -> bool {
    forall|i: int, j: int| 0 <= i < j < s.len() ==> in_order(#[trigger] s[i], #[trigger] s[j], opt)
}

fn exec_sort_key(l: &PlayerMarketListing, opt: ListingSortOption) -> (k: u64)
    ensures
        k == sort_key(l@, opt),
{
    match opt {
        ListingSortOption::PriceAscending | ListingSortOption::PriceDescending => l.price_per_unit as u64,
        ListingSortOption::NewestFirst | ListingSortOption::OldestFirst => l.created_at,
        ListingSortOption::QuantityAscending | ListingSortOption::QuantityDescending => l.quantity as u64,
    }
}

fn exec_in_order(a: &PlayerMarketListing, b: &PlayerMarketListing, opt: ListingSortOption) -> (r: bool)
    ensures
        r == in_order(a@, b@, opt),
{
    let ka = exec_sort_key(a, opt);
    let kb = exec_sort_key(b, opt);
    let asc = match opt {
        ListingSortOption::PriceAscending | ListingSortOption::OldestFirst | ListingSortOption::QuantityAscending => true,
        _ => false,
    };
    if asc {
        ka <= kb
    } else {
        ka >= kb
    }
}

fn opt_str_view(o: Option<&str>) -> (r: Ghost<Option<Seq<char>>>)
    ensures
        r@ == (match o {
            Some(x) => Some(x@),
            None => None::<Seq<char>>,
        }),
{
    Ghost(
        match o {
            Some(x) => Some(x@),
            None => None,
        },
    )
}

/// The filter described by the search arguments.
pub open spec fn filter_of(
    player_id: &str,
    player_faction: Option<&str>,
    item_name: Option<&str>,
    item_type: Option<&ItemType>,
    system_id: Option<&str>,
    tags: Option<&[String]>,
    min_price: Option<u32>,
    max_price: Option<u32>,
) -> SearchFilter {
    SearchFilter {
        player_id: player_id@,
        faction: match player_faction {
            Some(x) => Some(x@),
            None => None,
        },
        item_name: match item_name {
            Some(x) => Some(x@),
            None => None,
        },
        item_type: match item_type {
            Some(t) => Some(*t),
            None => None,
        },
        system_id: match system_id {
            Some(x) => Some(x@),
            None => None,
        },
        tags: match tags {
            Some(ts) => Some(strings_view(ts@)),
            None => None,
        },
        min_price,
        max_price,
    }
}

fn any_tag_listed(listing_tags: &Vec<String>, wanted: &[String]) -> (r: bool)
    ensures
        r == shares_tag(strings_view(listing_tags@), strings_view(wanted@)),
{
    let mut i: usize = 0;
    while i < wanted.len()
        invariant
            i <= wanted@.len(),
            forall|j: int| 0 <= j < i ==> !strings_view(listing_tags@).contains(#[trigger] strings_view(wanted@)[j]),
        decreases wanted@.len() - i,
    {
        if strings_contain(listing_tags, wanted[i].as_str()) {
            assert(strings_view(wanted@)[i as int] == wanted@[i as int]@);
            assert(strings_view(listing_tags@).contains(strings_view(wanted@)[i as int]));
            return true;
        }
        assert(strings_view(wanted@)[i as int] == wanted@[i as int]@);
        i = i + 1;
    }
    false
}

fn exec_matches(
    l: &PlayerMarketListing,
    player_id: &str,
    player_faction: Option<&str>,
    item_name: Option<&str>,
    item_type: Option<&ItemType>,
    system_id: Option<&str>,
    tags: Option<&[String]>,
    min_price: Option<u32>,
    max_price: Option<u32>,
) -> (r: bool)
    ensures
        r == listing_matches(
            l@,
            filter_of(player_id, player_faction, item_name, item_type, system_id, tags, min_price, max_price),
        ),
{
    let visible = match &l.visibility {
        ListingVisibility::Public => true,
        ListingVisibility::FactionOnly(faction) => match player_faction {
            Some(pf) => str_eq(pf, faction.as_str()),
            None => false,
        },
        ListingVisibility::PlayerList(players) => strings_contain(players, player_id),
    };
    if !visible {
        return false;
    }
    match item_name {
        Some(n) => {
            if !crate::text::str_contains(l.item.name.as_str(), n) {
                return false;
            }
        },
        None => {},
    }
    match item_type {
        Some(t) => {
            if l.item.item_type != *t {
                return false;
            }
        },
        None => {},
    }
    match system_id {
        Some(sys) => {
            if !str_eq(l.system_id.as_str(), sys) {
                return false;
            }
        },
        None => {},
    }
    match min_price {
        Some(lo) => {
            if l.price_per_unit < lo {
                return false;
            }
        },
        None => {},
    }
    match max_price {
        Some(hi) => {
            if l.price_per_unit > hi {
                return false;
            }
        },
        None => {},
    }
    match tags {
        Some(ts) => any_tag_listed(&l.tags, ts),
        None => true,
    }
}

/// The listings of an entry list, in order.
pub open spec fn listing_values(v: Seq<(String, PlayerMarketListing)>) -> Seq<ListingView> {
    v.map_values(|e: (String, PlayerMarketListing)| e.1@)
}

/// Positions in `order` sorted by their listings under the option.
pub open spec fn positions_sorted(lv: Seq<ListingView>, order: Seq<usize>, opt: ListingSortOption) -> bool {
    forall|a: int, b: int|
        0 <= a < b < order.len() ==> in_order(lv[#[trigger] order[a] as int], lv[#[trigger] order[b] as int], opt)
}

/// Inserts position `x` into `order` after every position whose listing may
/// come before it.
fn insert_in_order(listings: &Vec<(String, PlayerMarketListing)>, order: &mut Vec<usize>, x: usize, opt: ListingSortOption)
    requires
        x < listings@.len(),
        forall|j: int| 0 <= j < old(order)@.len() ==> #[trigger] old(order)@[j] < listings@.len(),
        positions_sorted(listing_values(listings@), old(order)@, opt),
    ensures
        positions_sorted(listing_values(listings@), final(order)@, opt),
        exists|p: int| 0 <= p <= old(order)@.len() && final(order)@ == old(order)@.insert(p, x),
{
    let ghost lv = listing_values(listings@);
    let mut p: usize = 0;
    while p < order.len() && exec_in_order(&listings[order[p]].1, &listings[x].1, opt)
        invariant
            p <= order@.len(),
            lv == listing_values(listings@),
            x < listings@.len(),
            forall|j: int| 0 <= j < order@.len() ==> #[trigger] order@[j] < listings@.len(),
            forall|j: int| 0 <= j < p ==> in_order(lv[#[trigger] order@[j] as int], lv[x as int], opt),
        decreases order@.len() - p,
    {
        assert(listings@[order@[p as int] as int].1@ == lv[order@[p as int] as int]);
        assert(listings@[x as int].1@ == lv[x as int]);
        p = p + 1;
    }
    if p < order.len() {
        assert(listings@[order@[p as int] as int].1@ == lv[order@[p as int] as int]);
        assert(listings@[x as int].1@ == lv[x as int]);
    }
    let ghost before = order@;
    order.insert(p, x);
    proof {
        assert forall|a: int, b: int| 0 <= a < b < order@.len() implies in_order(
            lv[#[trigger] order@[a] as int],
            lv[#[trigger] order@[b] as int],
            opt,
        ) by {
            if a < p && b < p {
                assert(order@[a] == before[a] && order@[b] == before[b]);
            } else if a < p && b == p {
                assert(order@[a] == before[a]);
            } else if a < p && b > p {
                assert(order@[a] == before[a] && order@[b] == before[b - 1]);
            } else if a == p {
                assert(order@[b] == before[b - 1]);
                assert(!in_order(lv[before[p as int] as int], lv[x as int], opt));
                if b - 1 > p {
                    assert(in_order(lv[before[p as int] as int], lv[before[b - 1] as int], opt));
                }
            } else {
                assert(order@[a] == before[a - 1] && order@[b] == before[b - 1]);
            }
        }
    }
}

/// The positions, in increasing order, of the listings that pass the filters.
fn matching_positions(
    listings: &Vec<(String, PlayerMarketListing)>,
    player_id: &str,
    player_faction: Option<&str>,
    item_name: Option<&str>,
    item_type: Option<&ItemType>,
    system_id: Option<&str>,
    tags: Option<&[String]>,
    min_price: Option<u32>,
    max_price: Option<u32>,
) -> (m: Vec<usize>)
    ensures
        forall|a: int, b: int| 0 <= a < b < m@.len() ==> #[trigger] m@[a] < #[trigger] m@[b],
        forall|j: int| 0 <= j < m@.len() ==> #[trigger] m@[j] < listings@.len(),
        forall|x: int|
            0 <= x < listings@.len() ==> (listing_matches(
                #[trigger] listing_values(listings@)[x],
                filter_of(player_id, player_faction, item_name, item_type, system_id, tags, min_price, max_price),
            ) <==> m@.contains(x as usize)),
{
    let ghost f = filter_of(player_id, player_faction, item_name, item_type, system_id, tags, min_price, max_price);
    let ghost lv = listing_values(listings@);
    let mut m: Vec<usize> = Vec::new();
    let mut i: usize = 0;
    while i < listings.len()
        invariant
            i <= listings@.len(),
            lv == listing_values(listings@),
            f == filter_of(player_id, player_faction, item_name, item_type, system_id, tags, min_price, max_price),
            forall|a: int, b: int| 0 <= a < b < m@.len() ==> #[trigger] m@[a] < #[trigger] m@[b],
            forall|j: int| 0 <= j < m@.len() ==> #[trigger] m@[j] < i,
            forall|x: int| 0 <= x < i ==> (listing_matches(#[trigger] lv[x], f) <==> m@.contains(x as usize)),
        decreases listings@.len() - i,
    {
        let hit = exec_matches(&listings[i].1, player_id, player_faction, item_name, item_type, system_id, tags, min_price, max_price);
        assert(listings@[i as int].1@ == lv[i as int]);
        let ghost before = m@;
        if hit {
            m.push(i);
        }
        proof {
            assert forall|x: int| 0 <= x < i + 1 implies (listing_matches(#[trigger] lv[x], f) <==> m@.contains(x as usize)) by {
                if x < i {
                    if before.contains(x as usize) {
                        let w = choose|w: int| 0 <= w < before.len() && before[w] == x as usize;
                        assert(m@[w] == x as usize);
                    }
                    if m@.contains(x as usize) {
                        let w = choose|w: int| 0 <= w < m@.len() && m@[w] == x as usize;
                        if w < before.len() {
                            assert(before[w] == x as usize);
                        }
                    }
                } else {
                    if hit {
                        assert(m@[before.len() as int] == i);
                    } else if m@.contains(x as usize) {
                        let w = choose|w: int| 0 <= w < m@.len() && m@[w] == x as usize;
                        assert(before[w] < i);
                    }
                }
            }
        }
        i = i + 1;
    }
    m
}

/// Inserting an element adds exactly that element.
proof fn lemma_insert_contains(s: Seq<usize>, p: int, x: usize)
    requires
        0 <= p <= s.len(),
    ensures
        forall|y: usize| #[trigger] s.insert(p, x).contains(y) <==> (y == x || s.contains(y)),
{
    let t = s.insert(p, x);
    assert forall|y: usize| #[trigger] t.contains(y) <==> (y == x || s.contains(y)) by {
        if t.contains(y) {
            let w = choose|w: int| 0 <= w < t.len() && t[w] == y;
            if w < p {
                assert(s[w] == y);
            } else if w > p {
                assert(s[w - 1] == y);
            }
        }
        if y == x {
            assert(t[p] == x);
        } else if s.contains(y) {
            let w = choose|w: int| 0 <= w < s.len() && s[w] == y;
            if w < p {
                assert(t[w] == y);
            } else {
                assert(t[w + 1] == y);
            }
        }
    }
}

/// Inserting a new element keeps a sequence free of duplicates.
proof fn lemma_insert_no_dup(s: Seq<usize>, p: int, x: usize)
    requires
        0 <= p <= s.len(),
        s.no_duplicates(),
        !s.contains(x),
    ensures
        s.insert(p, x).no_duplicates(),
{
    let t = s.insert(p, x);
    assert forall|a: int, b: int| 0 <= a < b < t.len() implies t[a] != t[b] by {
        if a < p && b < p {
            assert(t[a] == s[a] && t[b] == s[b]);
        } else if a < p && b == p {
            assert(t[a] == s[a]);
        } else if a < p && b > p {
            assert(t[a] == s[a] && t[b] == s[b - 1]);
        } else if a == p {
            assert(t[b] == s[b - 1]);
        } else {
            assert(t[a] == s[a - 1] && t[b] == s[b - 1]);
        }
    }
}

/// Sorts listing positions by their listings under the option.
fn sort_positions(listings: &Vec<(String, PlayerMarketListing)>, m: &Vec<usize>, opt: ListingSortOption) -> (r: Vec<usize>)
    requires
        m@.no_duplicates(),
        forall|j: int| 0 <= j < m@.len() ==> #[trigger] m@[j] < listings@.len(),
    ensures
        positions_sorted(listing_values(listings@), r@, opt),
        r@.no_duplicates(),
        r@.len() == m@.len(),
        forall|y: usize| #[trigger] r@.contains(y) <==> m@.contains(y),
        forall|j: int| 0 <= j < r@.len() ==> #[trigger] r@[j] < listings@.len(),
{
    let mut r: Vec<usize> = Vec::new();
    let mut i: usize = 0;
    while i < m.len()
        invariant
            i <= m@.len(),
            m@.no_duplicates(),
            forall|j: int| 0 <= j < m@.len() ==> #[trigger] m@[j] < listings@.len(),
            forall|j: int| 0 <= j < r@.len() ==> #[trigger] r@[j] < listings@.len(),
            positions_sorted(listing_values(listings@), r@, opt),
            r@.no_duplicates(),
            r@.len() == i,
            forall|y: usize| #[trigger] r@.contains(y) <==> m@.subrange(0, i as int).contains(y),
        decreases m@.len() - i,
    {
        let ghost before = r@;
        let ghost prefix = m@.subrange(0, i as int);
        let x = m[i];
        proof {
            if before.contains(x) {
                let w = choose|w: int| 0 <= w < prefix.len() && prefix[w] == x;
                assert(m@[w] == m@[i as int]);
            }
        }
        insert_in_order(listings, &mut r, x, opt);
        proof {
            let p = choose|p: int| 0 <= p <= before.len() && r@ == before.insert(p, x);
            lemma_insert_contains(before, p, x);
            lemma_insert_no_dup(before, p, x);
            let next = m@.subrange(0, i as int + 1);
            assert(next =~= prefix.push(x));
            assert forall|y: usize| #[trigger] r@.contains(y) <==> next.contains(y) by {
                if next.contains(y) {
                    let w = choose|w: int| 0 <= w < next.len() && next[w] == y;
                    if w < prefix.len() {
                        assert(prefix[w] == y);
                    }
                }
                if prefix.contains(y) {
                    let w = choose|w: int| 0 <= w < prefix.len() && prefix[w] == y;
                    assert(next[w] == y);
                }
                if y == x {
                    assert(next[i as int] == x);
                }
            }
            assert forall|j: int| 0 <= j < r@.len() implies #[trigger] r@[j] < listings@.len() by {
                if j < p {
                    assert(r@[j] == before[j]);
                } else if j > p {
                    assert(r@[j] == before[j - 1]);
                }
            }
        }
        i = i + 1;
    }
    assert(m@.subrange(0, m@.len() as int) =~= m@);
    r
}

impl PlayerMarket {
    /// The listings visible to a player that pass every filter that is set,
    /// sorted by the chosen option. Each matching listing appears once.
    pub fn search_listings(
        &self,
        player_id: &str,
        player_faction: Option<&str>,
        item_name: Option<&str>,
        item_type: Option<&ItemType>,
        system_id: Option<&str>,
        tags: Option<&[String]>,
        min_price: Option<u32>,
        max_price: Option<u32>,
        sort_by: ListingSortOption,
    ) -> (r: Vec<&PlayerMarketListing>)
        ensures
            sorted_by(r@.map_values(|x: &PlayerMarketListing| x@), sort_by),
            exists|order: Seq<usize>|
                {
                    &&& #[trigger] order.len() == r@.len()
                    &&& order.no_duplicates()
                    &&& forall|j: int|
                        0 <= j < order.len() ==> #[trigger] order[j] < self.listings@.len() && r@[j]@
                            == listing_values(self.listings@)[order[j] as int]
                    &&& forall|x: int|
                        0 <= x < self.listings@.len() ==> (listing_matches(
                            #[trigger] listing_values(self.listings@)[x],
                            filter_of(player_id, player_faction, item_name, item_type, system_id, tags, min_price, max_price),
                        ) <==> order.contains(x as usize))
                },
    {
        let ghost lv = listing_values(self.listings@);
        let matching = matching_positions(
            &self.listings,
            player_id,
            player_faction,
            item_name,
            item_type,
            system_id,
            tags,
            min_price,
            max_price,
        );
        proof {
            lemma_increasing_no_duplicates(matching@);
        }
        let order = sort_positions(&self.listings, &matching, sort_by);
        let mut r: Vec<&PlayerMarketListing> = Vec::new();
        let mut j: usize = 0;
        while j < order.len()
            invariant
                j <= order@.len(),
                lv == listing_values(self.listings@),
                forall|x: int| 0 <= x < order@.len() ==> #[trigger] order@[x] < self.listings@.len(),
                r@.len() == j,
                forall|x: int| 0 <= x < j ==> #[trigger] r@[x]@ == lv[order@[x] as int],
            decreases order@.len() - j,
        {
            r.push(&self.listings[order[j]].1);
            j = j + 1;
        }
        proof {
            let rv = r@.map_values(|x: &PlayerMarketListing| x@);
            assert forall|a: int, b: int| 0 <= a < b < rv.len() implies in_order(#[trigger] rv[a], #[trigger] rv[b], sort_by) by {
                assert(rv[a] == lv[order@[a] as int]);
                assert(rv[b] == lv[order@[b] as int]);
            }
            assert forall|x: int| 0 <= x < self.listings@.len() implies (listing_matches(
                #[trigger] lv[x],
                filter_of(player_id, player_faction, item_name, item_type, system_id, tags, min_price, max_price),
            ) <==> order@.contains(x as usize)) by {}
        }
        r
    }
}

/// Strictly increasing sequences have no duplicates.
proof fn lemma_increasing_no_duplicates(s: Seq<usize>)
    requires
        forall|a: int, b: int| 0 <= a < b < s.len() ==> #[trigger] s[a] < #[trigger] s[b],
    ensures
        s.no_duplicates(),
{
}


/// Whether a listing has passed its expiry at time `now`.
pub open spec fn listing_expired(l: ListingView, now: u64) -> bool {
    l.expires_at matches Some(e) && now > e
}

/// Whether a pending bid has passed its expiry at time `now`.
pub open spec fn bid_lapsed(b: BidView, now: u64) -> bool {
    b.status == BidStatus::Pending && (b.expires_at matches Some(e) && now > e)
}

/// A bid after expiry processing at time `now`.
pub open spec fn bid_after_expiry(b: BidView, now: u64) -> BidView {
    if bid_lapsed(b, now) {
        bid_with_status(b, BidStatus::Expired)
    } else {
        b
    }
}

/// Pushing `k0` onto a list whose members are those satisfying `p` gives the
/// members satisfying `p` or equal to `k0`.
proof fn lemma_push_member(before: Seq<Seq<char>>, k0: Seq<char>, p: spec_fn(Seq<char>) -> bool)
    requires
        forall|k: Seq<char>| #[trigger] before.contains(k) <==> p(k),
        before.no_duplicates(),
        !p(k0),
    ensures
        forall|k: Seq<char>| #[trigger] before.push(k0).contains(k) <==> (p(k) || k == k0),
        before.push(k0).no_duplicates(),
{
    let after = before.push(k0);
    assert forall|k: Seq<char>| #[trigger] after.contains(k) <==> (p(k) || k == k0) by {
        if after.contains(k) {
            let w = choose|w: int| 0 <= w < after.len() && after[w] == k;
            if w < before.len() {
                assert(before[w] == k);
                assert(before.contains(k));
            } else {
                assert(k == k0);
            }
        }
        if k == k0 {
            assert(after[before.len() as int] == k0);
        } else if p(k) {
            assert(before.contains(k));
            let w = choose|w: int| 0 <= w < before.len() && before[w] == k;
            assert(after[w] == k);
        }
    }
    assert forall|a: int, b: int| 0 <= a < b < after.len() implies after[a] != after[b] by {
        if b == before.len() {
            assert(before.contains(before[a]));
        }
    }
}

/// The outcome of expiry processing at time `now`: expired listings are
/// gone and reported, lapsed bids are marked expired and reported, and
/// nothing else in listings or bids changes.
pub open spec fn expired_at(old: PlayerMarket, new: PlayerMarket, r: (Vec<String>, Vec<String>), now: u64) -> bool {
    &&& forall|k: Seq<char>| #[trigger] new.listing_map().dom().contains(k) <==> (old.listing_map().dom().contains(k)
        && !listing_expired(old.listing_map()[k], now))
    &&& forall|k: Seq<char>| #[trigger] new.listing_map().dom().contains(k) ==> new.listing_map()[k] == old.listing_map()[k]
    &&& strings_view(r.0@).no_duplicates()
    &&& forall|k: Seq<char>| #[trigger] strings_view(r.0@).contains(k) <==> (old.listing_map().dom().contains(k)
        && listing_expired(old.listing_map()[k], now))
    &&& new.bid_map().dom() == old.bid_map().dom()
    &&& forall|k: Seq<char>| #[trigger] new.bid_map().dom().contains(k) ==> new.bid_map()[k] == bid_after_expiry(
        old.bid_map()[k],
        now,
    )
    &&& strings_view(r.1@).no_duplicates()
    &&& forall|k: Seq<char>| #[trigger] strings_view(r.1@).contains(k) <==> (old.bid_map().dom().contains(k)
        && bid_lapsed(old.bid_map()[k], now))
}

impl PlayerMarket {
    /// Removes listings past their expiry and marks pending bids past their
    /// expiry as expired, at time `now`. Returns the ids of both.
    pub fn process_expirations_at(&mut self, now: u64) -> (r: (Vec<String>, Vec<String>))
        requires
            old(self).wf(),
        ensures
            final(self).wf(),
            final(self).contracts@ == old(self).contracts@,
            final(self).purchase_history@ == old(self).purchase_history@,
            final(self).price_trends@ == old(self).price_trends@,
            final(self).market_fee_basis_points == old(self).market_fee_basis_points,
            final(self).reputation_requirements == old(self).reputation_requirements,
            expired_at(*old(self), *final(self), r, now),
    {
        let ghost s = entries_view(self.listings@);
        let ghost n = s.len();
        let mut expired_listings: Vec<String> = Vec::new();
        proof {
            assert forall|k: Seq<char>| #[trigger] as_map(s).dom().contains(k) implies index_of_key(s, k) < n by {
                crate::keyed::lemma_index_of_key(s, k);
            }
            assert(strings_view(expired_listings@) =~= Seq::<Seq<char>>::empty());
            assert(entries_view(self.listings@) == s);
        }
        let mut i = self.listings.len();
        while i > 0
            invariant
                i <= n,
                i <= self.listings@.len(),
                s == entries_view(old(self).listings@),
                n == s.len(),
                keys_unique(s),
                keys_unique(entries_view(self.listings@)),
                entries_view(self.listings@).subrange(0, i as int) == s.subrange(0, i as int),
                forall|k: Seq<char>| #[trigger] as_map(entries_view(self.listings@)).dom().contains(k) <==> (as_map(s).dom().contains(k)
                    && !(listing_expired(as_map(s)[k], now) && index_of_key(s, k) >= i)),
                forall|k: Seq<char>| #[trigger] as_map(entries_view(self.listings@)).dom().contains(k) ==> as_map(
                    entries_view(self.listings@),
                )[k] == as_map(s)[k],
                strings_view(expired_listings@).no_duplicates(),
                forall|k: Seq<char>| #[trigger] strings_view(expired_listings@).contains(k) <==> (as_map(s).dom().contains(k)
                    && listing_expired(as_map(s)[k], now) && index_of_key(s, k) >= i),
                self.bids@ == old(self).bids@,
                self.contracts@ == old(self).contracts@,
                self.purchase_history@ == old(self).purchase_history@,
                self.price_trends@ == old(self).price_trends@,
                self.market_fee_basis_points == old(self).market_fee_basis_points,
                self.reputation_requirements == old(self).reputation_requirements,
            decreases i,
        {
            let j = i - 1;
            let ghost cur = entries_view(self.listings@);
            let ghost k0 = s[j as int].0;
            proof {
                assert(cur.subrange(0, i as int)[j as int] == s.subrange(0, i as int)[j as int]);
                assert(cur[j as int] == s[j as int]);
                crate::keyed::lemma_unique_index(s, k0, j as int);
            }
            let expired = match self.listings[j].1.expires_at {
                Some(e) => now > e,
                None => false,
            };
            if expired {
                let (key, _gone) = self.listings.remove(j);
                proof {
                    crate::keyed::lemma_remove_entry(cur, j as int);
                    assert(entries_view(self.listings@) =~= cur.remove(j as int));
                    assert(entries_view(self.listings@).subrange(0, j as int) =~= s.subrange(0, j as int));
                    assert(!strings_view(expired_listings@).contains(k0));
                }
                let ghost before = expired_listings@;
                expired_listings.push(key);
                proof {
                    assert(strings_view(expired_listings@) =~= strings_view(before).push(k0));
                    let pred = |k: Seq<char>| as_map(s).dom().contains(k) && listing_expired(as_map(s)[k], now) && index_of_key(s, k) >= i;
                    lemma_push_member(strings_view(before), k0, pred);
                    assert forall|k: Seq<char>| #[trigger] strings_view(expired_listings@).contains(k) <==> (as_map(s).dom().contains(k)
                        && listing_expired(as_map(s)[k], now) && index_of_key(s, k) >= j) by {
                        crate::keyed::lemma_index_of_key(s, k);
                        if index_of_key(s, k) == j {
                            assert(k == k0);
                        }
                    }
                    assert(strings_view(expired_listings@).no_duplicates());
                    assert forall|k: Seq<char>| #[trigger] as_map(entries_view(self.listings@)).dom().contains(k) <==> (as_map(s).dom().contains(k)
                        && !(listing_expired(as_map(s)[k], now) && index_of_key(s, k) >= j)) by {
                        crate::keyed::lemma_index_of_key(s, k);
                    }
                }
            } else {
                proof {
                    assert(entries_view(self.listings@).subrange(0, j as int) =~= s.subrange(0, j as int)) by {
                        assert(entries_view(self.listings@).subrange(0, i as int) == s.subrange(0, i as int));
                        assert forall|w: int| 0 <= w < j implies entries_view(self.listings@)[w] == s[w] by {
                            assert(entries_view(self.listings@).subrange(0, i as int)[w] == s.subrange(0, i as int)[w]);
                        }
                    }
                    assert forall|k: Seq<char>| #[trigger] as_map(entries_view(self.listings@)).dom().contains(k) <==> (as_map(s).dom().contains(k)
                        && !(listing_expired(as_map(s)[k], now) && index_of_key(s, k) >= j)) by {
                        crate::keyed::lemma_index_of_key(s, k);
                    }
                    assert forall|k: Seq<char>| #[trigger] strings_view(expired_listings@).contains(k) <==> (as_map(s).dom().contains(k)
                        && listing_expired(as_map(s)[k], now) && index_of_key(s, k) >= j) by {
                        crate::keyed::lemma_index_of_key(s, k);
                    }
                }
            }
            i = j;
        }
        proof {
            assert forall|k: Seq<char>| #[trigger] as_map(s).dom().contains(k) implies index_of_key(s, k) >= 0 by {
                crate::keyed::lemma_index_of_key(s, k);
            }
        }
        let ghost ls = self.listings@;
        assert forall|k: Seq<char>| #[trigger] as_map(entries_view(ls)).dom().contains(k) implies listing_in_range(
            as_map(entries_view(ls))[k],
        ) by {
            assert(as_map(s).dom().contains(k));
            assert(old(self).listing_map().dom().contains(k));
        }
        assert(keys_unique(entries_view(ls)));
        let ghost bs = entries_view(self.bids@);
        let mut expired_bids: Vec<String> = Vec::new();
        proof {
            assert(strings_view(expired_bids@) =~= Seq::<Seq<char>>::empty());
            assert forall|k: Seq<char>| #[trigger] as_map(bs).dom().contains(k) implies index_of_key(bs, k) >= 0 by {}
        }
        let mut b: usize = 0;
        while b < self.bids.len()
            invariant
                b <= self.bids@.len(),
                bs == entries_view(old(self).bids@),
                bs.len() == self.bids@.len(),
                self.listings@ == ls,
                keys_unique(bs),
                forall|w: int| 0 <= w < bs.len() ==> (#[trigger] entries_view(self.bids@)[w]).0 == bs[w].0,
                forall|w: int| 0 <= w < b ==> (#[trigger] entries_view(self.bids@)[w]).1 == bid_after_expiry(bs[w].1, now),
                forall|w: int| b <= w < bs.len() ==> #[trigger] entries_view(self.bids@)[w] == bs[w],
                strings_view(expired_bids@).no_duplicates(),
                forall|k: Seq<char>| #[trigger] strings_view(expired_bids@).contains(k) <==> (as_map(bs).dom().contains(k)
                    && bid_lapsed(as_map(bs)[k], now) && index_of_key(bs, k) < b),
                self.contracts@ == old(self).contracts@,
                self.purchase_history@ == old(self).purchase_history@,
                self.price_trends@ == old(self).price_trends@,
                self.market_fee_basis_points == old(self).market_fee_basis_points,
                self.reputation_requirements == old(self).reputation_requirements,
            decreases self.bids@.len() - b,
        {
            let ghost cur = entries_view(self.bids@);
            let ghost k0 = bs[b as int].0;
            proof {
                crate::keyed::lemma_unique_index(bs, k0, b as int);
                assert(cur[b as int] == bs[b as int]);
            }
            let lapsed = self.bids[b].1.status == BidStatus::Pending && match self.bids[b].1.expires_at {
                Some(e) => now > e,
                None => false,
            };
            if lapsed {
                let (key, mut bid) = self.bids.remove(b);
                bid.status = BidStatus::Expired;
                let key_copy = key.clone();
                self.bids.insert(b, (key, bid));
                proof {
                    assert(entries_view(self.bids@) =~= cur.update(b as int, (k0, bid_with_status(bs[b as int].1, BidStatus::Expired))));
                }
                let ghost before = expired_bids@;
                expired_bids.push(key_copy);
                proof {
                    assert(strings_view(expired_bids@) =~= strings_view(before).push(k0));
                    let pred = |k: Seq<char>| as_map(bs).dom().contains(k) && bid_lapsed(as_map(bs)[k], now) && index_of_key(bs, k) < b;
                    lemma_push_member(strings_view(before), k0, pred);
                    assert forall|k: Seq<char>| #[trigger] strings_view(expired_bids@).contains(k) <==> (as_map(bs).dom().contains(k)
                        && bid_lapsed(as_map(bs)[k], now) && index_of_key(bs, k) < b + 1) by {
                        crate::keyed::lemma_index_of_key(bs, k);
                        if index_of_key(bs, k) == b {
                            assert(k == k0);
                        }
                    }
                    assert(strings_view(expired_bids@).no_duplicates());
                }
            } else {
                proof {
                    assert forall|k: Seq<char>| #[trigger] strings_view(expired_bids@).contains(k) <==> (as_map(bs).dom().contains(k)
                        && bid_lapsed(as_map(bs)[k], now) && index_of_key(bs, k) < b + 1) by {
                        crate::keyed::lemma_index_of_key(bs, k);
                    }
                }
            }
            b = b + 1;
        }
        proof {
            let fin = entries_view(self.bids@);
            assert forall|w: int, v: int| 0 <= w < v < fin.len() implies fin[w].0 != fin[v].0 by {
                assert(fin[w].0 == bs[w].0);
                assert(fin[v].0 == bs[v].0);
            }
            assert forall|k: Seq<char>| #[trigger] as_map(fin).dom().contains(k) == as_map(bs).dom().contains(k)
                && (as_map(fin).dom().contains(k) ==> as_map(fin)[k] == bid_after_expiry(as_map(bs)[k], now)) by {
                crate::keyed::lemma_index_same_keys(fin, bs, k);
                crate::keyed::lemma_index_of_key(bs, k);
            }
            assert(as_map(fin).dom() =~= as_map(bs).dom());
            assert forall|k: Seq<char>| #[trigger] as_map(bs).dom().contains(k) implies index_of_key(bs, k) < bs.len() by {
                crate::keyed::lemma_index_of_key(bs, k);
            }
        }
        (expired_listings, expired_bids)
    }

    /// Expiry processing at the current time.
    pub fn process_expirations(&mut self) -> (r: (Vec<String>, Vec<String>))
        requires
            old(self).wf(),
        ensures
            final(self).wf(),
            final(self).contracts@ == old(self).contracts@,
            final(self).purchase_history@ == old(self).purchase_history@,
            final(self).price_trends@ == old(self).price_trends@,
            final(self).market_fee_basis_points == old(self).market_fee_basis_points,
            final(self).reputation_requirements == old(self).reputation_requirements,
            exists|now: u64| #[trigger] expired_at(*old(self), *final(self), r, now),
    {
        let now = unix_now_secs();
        self.process_expirations_at(now)
    }
}


/// How many of the listings offer the item named `name`.
pub open spec fn count_of(ls: Seq<ListingView>, name: Seq<char>) -> nat
    decreases ls.len(),
{
    if ls.len() == 0 {
        0
    } else {
        count_of(ls.drop_last(), name) + if ls.last().item.name == name { 1nat } else { 0nat }
    }
}

/// Units on offer of the item named `name`.
pub open spec fn quantity_of(ls: Seq<ListingView>, name: Seq<char>) -> nat
    decreases ls.len(),
{
    if ls.len() == 0 {
        0
    } else {
        quantity_of(ls.drop_last(), name) + if ls.last().item.name == name { ls.last().quantity as nat } else { 0nat }
    }
}

/// Total asking value (price per unit times quantity) of the item named `name`.
pub open spec fn value_of(ls: Seq<ListingView>, name: Seq<char>) -> nat
    decreases ls.len(),
{
    if ls.len() == 0 {
        0
    } else {
        value_of(ls.drop_last(), name) + if ls.last().item.name == name {
            (ls.last().price_per_unit * ls.last().quantity) as nat
        } else {
            0nat
        }
    }
}

/// Lowest asking price for the item named `name` (0 when none is listed).
pub open spec fn min_price_of(ls: Seq<ListingView>, name: Seq<char>) -> u32
    decreases ls.len(),
{
    if ls.len() == 0 {
        0
    } else {
        let prev = min_price_of(ls.drop_last(), name);
        let p = ls.last().price_per_unit;
        if ls.last().item.name != name {
            prev
        } else if count_of(ls.drop_last(), name) == 0 || p < prev {
            p
        } else {
            prev
        }
    }
}

/// Highest asking price for the item named `name` (0 when none is listed).
pub open spec fn max_price_of(ls: Seq<ListingView>, name: Seq<char>) -> u32
    decreases ls.len(),
{
    if ls.len() == 0 {
        0
    } else {
        let prev = max_price_of(ls.drop_last(), name);
        let p = ls.last().price_per_unit;
        if ls.last().item.name != name {
            prev
        } else if count_of(ls.drop_last(), name) == 0 || p > prev {
            p
        } else {
            prev
        }
    }
}

/// How many recorded sales were of the item named `name`.
pub open spec fn sales_count(h: Seq<PurchaseView>, name: Seq<char>) -> nat
    decreases h.len(),
{
    if h.len() == 0 {
        0
    } else {
        sales_count(h.drop_last(), name) + if h.last().item_name == name { 1nat } else { 0nat }
    }
}

/// Units sold of the item named `name`.
pub open spec fn sales_volume(h: Seq<PurchaseView>, name: Seq<char>) -> nat
    decreases h.len(),
{
    if h.len() == 0 {
        0
    } else {
        sales_volume(h.drop_last(), name) + if h.last().item_name == name { h.last().quantity as nat } else { 0nat }
    }
}

/// Credits paid in sales of the item named `name`.
pub open spec fn sales_value(h: Seq<PurchaseView>, name: Seq<char>) -> nat
    decreases h.len(),
{
    if h.len() == 0 {
        0
    } else {
        sales_value(h.drop_last(), name) + if h.last().item_name == name { h.last().total_price as nat } else { 0nat }
    }
}

/// The first and the last average price of a series, when a price change
/// is reported for it: it has two points or more and starts above 0.
pub open spec fn change_inputs(series: Seq<PriceTrendView>) -> Option<(u32, u32)> {
    if series.len() >= 2 && series[0].average_price > 0 {
        Some((series[0].average_price, series.last().average_price))
    } else {
        None
    }
}

/// The price change reported for a series: `change` (the percentage
/// reckoned in `f32` from the first and last price) where one is reported,
/// else 0.
pub open spec fn change_over(series: Seq<PriceTrendView>, change: i32) -> int {
    if change_inputs(series) is Some {
        change as int
    } else {
        0
    }
}

/// The statistics that `get_market_statistics` reports for `name`.
pub open spec fn describes(st: ItemMarketStatistics, m: PlayerMarket, name: Seq<char>, change: i32) -> bool {
    let ls = listing_values(m.listings@);
    let h = m.history();
    &&& st.item_name@ == name
    &&& st.current_listings_count == count_of(ls, name)
    &&& st.current_quantity_available == quantity_of(ls, name)
    &&& st.current_min_price == min_price_of(ls, name)
    &&& st.current_max_price == max_price_of(ls, name)
    &&& st.current_avg_price == (if quantity_of(ls, name) > 0 {
        (value_of(ls, name) / quantity_of(ls, name)) as u32
    } else {
        0u32
    })
    &&& st.recent_sales_count == sales_count(h, name)
    &&& st.recent_sales_volume == sales_volume(h, name)
    &&& st.recent_sales_value == sales_value(h, name)
    &&& st.price_change_percent == change_over(series_of(m.trend_map(), name), change)
    &&& match st.price_history {
        Some(v) => m.trend_map().dom().contains(name) && trends_view(v@) == m.trend_map()[name],
        None => !m.trend_map().dom().contains(name),
    }
}

/// The listing sums over a prefix never exceed those over the whole list.
proof fn lemma_listing_sums_grow(ls: Seq<ListingView>, name: Seq<char>, i: int)
    requires
        0 <= i <= ls.len(),
    ensures
        quantity_of(ls.take(i), name) <= quantity_of(ls, name),
        value_of(ls.take(i), name) <= value_of(ls, name),
    decreases ls.len(),
{
    if i < ls.len() {
        lemma_listing_sums_grow(ls.drop_last(), name, i);
        assert(ls.drop_last().take(i) =~= ls.take(i));
    } else {
        assert(ls.take(i) =~= ls);
    }
}

/// The sales sums over a prefix never exceed those over the whole history.
proof fn lemma_sales_sums_grow(h: Seq<PurchaseView>, name: Seq<char>, i: int)
    requires
        0 <= i <= h.len(),
    ensures
        sales_volume(h.take(i), name) <= sales_volume(h, name),
        sales_value(h.take(i), name) <= sales_value(h, name),
    decreases h.len(),
{
    if i < h.len() {
        lemma_sales_sums_grow(h.drop_last(), name, i);
        assert(h.drop_last().take(i) =~= h.take(i));
    } else {
        assert(h.take(i) =~= h);
    }
}

/// A copy of a trend series.
fn copy_series(series: &Vec<PriceTrend>) -> (r: Vec<PriceTrend>)
    ensures
        trends_view(r@) == trends_view(series@),
{
    let mut r: Vec<PriceTrend> = Vec::new();
    let mut i: usize = 0;
    while i < series.len()
        invariant
            i <= series.len(),
            trends_view(r@) == trends_view(series@).take(i as int),
        decreases series.len() - i,
    {
        let ghost prev = r@;
        r.push(series[i].duplicate());
        assert(trends_view(r@) =~= trends_view(prev).push(series@[i as int]@));
        assert(trends_view(series@).take(i + 1) =~= trends_view(series@).take(i as int).push(series@[i as int]@));
        i = i + 1;
    }
    assert(trends_view(series@).take(series.len() as int) =~= trends_view(series@));
    r
}

impl PlayerMarket {
    /// The first and the last average price of the item's trend, when a
    /// price change is reported for it (see `change_inputs`).
    pub fn price_change_inputs(&self, item_name: &str) -> (r: Option<(u32, u32)>)
        requires
            self.wf(),
        ensures
            r == change_inputs(series_of(self.trend_map(), item_name@)),
    {
        let ghost s = trend_entries_view(self.price_trends@);
        proof {
            lemma_index_of_key(s, item_name@);
            crate::keyed::lemma_index_same_keys(s, entries_view(self.price_trends@), item_name@);
        }
        match find_key(&self.price_trends, item_name) {
            Some(k) => {
                let series = &self.price_trends[k].1;
                proof {
                    crate::keyed::lemma_unique_index(s, item_name@, k as int);
                    assert(trends_view(series@) == self.trend_map()[item_name@]);
                }
                let n = series.len();
                if n >= 2 && series[0].average_price > 0 {
                    assert(trends_view(series@)[0] == series@[0]@);
                    assert(trends_view(series@).last() == series@[n - 1]@);
                    Some((series[0].average_price, series[n - 1].average_price))
                } else {
                    None
                }
            },
            None => None,
        }
    }

    /// Market statistics for one item: the listings that offer it, its
    /// recorded sales and its price trend. `None` when nothing is listed.
    /// `price_change_percent` is the change from the first to the last
    /// average price of the trend, reckoned in `f32` by the caller from
    /// `price_change_inputs`; it is reported only where those are given.
    pub fn get_market_statistics(&self, item_name: &str, price_change_percent: i32) -> (r: Option<ItemMarketStatistics>)
        requires
            self.wf(),
            quantity_of(listing_values(self.listings@), item_name@) <= u32::MAX,
            value_of(listing_values(self.listings@), item_name@) <= u64::MAX,
            sales_volume(self.history(), item_name@) <= u32::MAX,
            sales_value(self.history(), item_name@) <= u32::MAX,
        ensures
            r is None <==> count_of(listing_values(self.listings@), item_name@) == 0,
            r matches Some(st) ==> describes(st, *self, item_name@, price_change_percent),
    {
        let ghost ls = listing_values(self.listings@);
        let ghost name = item_name@;
        let mut count: usize = 0;
        let mut quantity: u32 = 0;
        let mut value: u64 = 0;
        let mut min_price: u32 = 0;
        let mut max_price: u32 = 0;
        let mut i: usize = 0;
        while i < self.listings.len()
            invariant
                i <= self.listings@.len(),
                ls == listing_values(self.listings@),
                name == item_name@,
                quantity_of(ls, name) <= u32::MAX,
                value_of(ls, name) <= u64::MAX,
                count == count_of(ls.take(i as int), name),
                quantity == quantity_of(ls.take(i as int), name),
                value == value_of(ls.take(i as int), name),
                min_price == min_price_of(ls.take(i as int), name),
                max_price == max_price_of(ls.take(i as int), name),
            decreases self.listings@.len() - i,
        {
            let l = &self.listings[i].1;
            proof {
                assert(ls.take(i + 1).drop_last() =~= ls.take(i as int));
                assert(ls.take(i + 1).last() == l@);
                assert(count_of(ls.take(i as int), name) <= i) by {
                    lemma_count_bounded(ls.take(i as int), name);
                }
                lemma_listing_sums_grow(ls, name, i + 1);
            }
            if str_eq(l.item.name.as_str(), item_name) {
                let p = l.price_per_unit;
                if count == 0 || p < min_price {
                    min_price = p;
                }
                if count == 0 || p > max_price {
                    max_price = p;
                }
                count = count + 1;
                quantity = quantity + l.quantity;
                assert(p as u64 * l.quantity as u64 <= 0xffff_ffff_ffff_ffffu64) by (nonlinear_arith)
                    requires
                        p <= 0xffff_ffffu32,
                        l.quantity <= 0xffff_ffffu32,
                ;
                value = value + p as u64 * l.quantity as u64;
            }
            i = i + 1;
        }
        proof {
            assert(ls.take(self.listings@.len() as int) =~= ls);
        }
        if count == 0 {
            return None;
        }
        let avg: u32 = if quantity > 0 {
            (value / quantity as u64) as u32
        } else {
            0
        };
        let ghost h = self.history();
        let mut sales: usize = 0;
        let mut volume: u32 = 0;
        let mut paid: u32 = 0;
        let mut j: usize = 0;
        while j < self.purchase_history.len()
            invariant
                j <= self.purchase_history@.len(),
                h == self.history(),
                name == item_name@,
                sales_volume(h, name) <= u32::MAX,
                sales_value(h, name) <= u32::MAX,
                sales == sales_count(h.take(j as int), name),
                volume == sales_volume(h.take(j as int), name),
                paid == sales_value(h.take(j as int), name),
            decreases self.purchase_history@.len() - j,
        {
            let pu = &self.purchase_history[j];
            proof {
                assert(h.take(j + 1).drop_last() =~= h.take(j as int));
                assert(h.take(j + 1).last() == pu@);
                assert(sales_count(h.take(j as int), name) <= j) by {
                    lemma_sales_count_bounded(h.take(j as int), name);
                }
                lemma_sales_sums_grow(h, name, j + 1);
            }
            if str_eq(pu.item_name.as_str(), item_name) {
                sales = sales + 1;
                volume = volume + pu.quantity;
                paid = paid + pu.total_price;
            }
            j = j + 1;
        }
        proof {
            assert(h.take(self.purchase_history@.len() as int) =~= h);
        }
        let ghost s = trend_entries_view(self.price_trends@);
        proof {
            lemma_index_of_key(s, name);
            crate::keyed::lemma_index_same_keys(s, entries_view(self.price_trends@), name);
        }
        let (price_history, change) = match find_key(&self.price_trends, item_name) {
            Some(k) => {
                let series = &self.price_trends[k].1;
                proof {
                    crate::keyed::lemma_unique_index(s, name, k as int);
                    assert(trends_view(series@) == self.trend_map()[name]);
                }
                let n = series.len();
                let change = if n >= 2 && series[0].average_price > 0 {
                    price_change_percent
                } else {
                    0
                };
                (Some(copy_series(series)), change)
            },
            None => (None, 0),
        };
        Some(
            ItemMarketStatistics {
                item_name: text(item_name),
                current_listings_count: count,
                current_quantity_available: quantity,
                current_min_price: min_price,
                current_max_price: max_price,
                current_avg_price: avg,
                recent_sales_count: sales,
                recent_sales_volume: volume,
                recent_sales_value: paid,
                price_change_percent: change,
                price_history,
            },
        )
    }
}

/// A list holds at most as many listings of an item as it has entries.
proof fn lemma_count_bounded(ls: Seq<ListingView>, name: Seq<char>)
    ensures
        count_of(ls, name) <= ls.len(),
    decreases ls.len(),
{
    if ls.len() > 0 {
        lemma_count_bounded(ls.drop_last(), name);
    }
}

/// A history holds at most as many sales of an item as it has entries.
proof fn lemma_sales_count_bounded(h: Seq<PurchaseView>, name: Seq<char>)
    ensures
        sales_count(h, name) <= h.len(),
    decreases h.len(),
{
    if h.len() > 0 {
        lemma_sales_count_bounded(h.drop_last(), name);
    }
}

/// A sale moves units from on offer to sold: their total stays the same.
pub proof fn law_sale_keeps_units(l: ListingView, q: u32)
    requires
        q <= l.quantity,
        l.quantity + l.quantity_sold <= u32::MAX,
    ensures
        after_sale(l, q).quantity + after_sale(l, q).quantity_sold == l.quantity + l.quantity_sold,
{
}

/// After expiry processing at time `now`, no listing left is expired and no
/// bid is still pending past its expiry.
pub proof fn law_expiry_leaves_nothing_due(old: PlayerMarket, new: PlayerMarket, r: (Vec<String>, Vec<String>), now: u64)
    requires
        expired_at(old, new, r, now),
    ensures
        forall|k: Seq<char>| #[trigger] new.listing_map().dom().contains(k) ==> !listing_expired(new.listing_map()[k], now),
        forall|k: Seq<char>| #[trigger] new.bid_map().dom().contains(k) ==> !bid_lapsed(new.bid_map()[k], now),
{
    assert forall|k: Seq<char>| #[trigger] new.bid_map().dom().contains(k) implies !bid_lapsed(new.bid_map()[k], now) by {
        assert(old.bid_map().dom().contains(k));
    }
}

proof fn lemma_price_bounds(ls: Seq<ListingView>, name: Seq<char>)
    ensures
        count_of(ls, name) > 0 ==> min_price_of(ls, name) <= max_price_of(ls, name),
        count_of(ls, name) > 0 ==> min_price_of(ls, name) * quantity_of(ls, name) <= value_of(ls, name),
        count_of(ls, name) > 0 ==> value_of(ls, name) <= max_price_of(ls, name) * quantity_of(ls, name),
        count_of(ls, name) == 0 ==> quantity_of(ls, name) == 0 && value_of(ls, name) == 0,
    decreases ls.len(),
{
    if ls.len() > 0 {
        let p = ls.drop_last();
        lemma_price_bounds(p, name);
        let l = ls.last();
        if l.item.name == name {
            let lo = min_price_of(ls, name);
            let hi = max_price_of(ls, name);
            let pr = l.price_per_unit;
            let q = l.quantity;
            let qp = quantity_of(p, name);
            let vp = value_of(p, name);
            assert(lo <= pr <= hi);
            assert(lo * q <= pr * q) by (nonlinear_arith)
                requires
                    lo <= pr,
            ;
            assert(pr * q <= hi * q) by (nonlinear_arith)
                requires
                    pr <= hi,
            ;
            if count_of(p, name) > 0 {
                assert(lo <= min_price_of(p, name) && max_price_of(p, name) <= hi);
                assert(lo * qp <= min_price_of(p, name) * qp) by (nonlinear_arith)
                    requires
                        lo <= min_price_of(p, name),
                ;
                assert(max_price_of(p, name) * qp <= hi * qp) by (nonlinear_arith)
                    requires
                        max_price_of(p, name) <= hi,
                ;
            }
            assert(lo * (qp + q) == lo * qp + lo * q) by (nonlinear_arith);
            assert(hi * (qp + q) == hi * qp + hi * q) by (nonlinear_arith);
        }
    }
}

/// The average asking price reported for an item lies between its lowest
/// and highest asking price.
pub proof fn law_average_price_between(ls: Seq<ListingView>, name: Seq<char>)
    requires
        quantity_of(ls, name) > 0,
    ensures
        min_price_of(ls, name) <= value_of(ls, name) / quantity_of(ls, name) <= max_price_of(ls, name),
{
    lemma_price_bounds(ls, name);
    let q = quantity_of(ls, name);
    let v = value_of(ls, name);
    let lo = min_price_of(ls, name);
    let hi = max_price_of(ls, name);
    assert(lo <= v / q) by (nonlinear_arith)
        requires
            lo * q <= v,
            q > 0,
    ;
    assert(v / q <= hi) by (nonlinear_arith)
        requires
            v <= hi * q,
            q > 0,
    ;
}

} // verus!

verus! {

/// What a search returns, in terms of the listings and the filters: every
/// listing returned is one of the market's, visible to the player, and
/// within every filter that is set (its price at least the minimum and at
/// most the maximum, its item of the type and in the system asked for, its
/// name holding the text asked for, sharing a tag asked for); and every
/// listing that passes all of them is returned.
pub proof fn law_search_keeps_exactly_the_matches(
    lv: Seq<ListingView>,
    f: SearchFilter,
    order: Seq<usize>,
    r: Seq<ListingView>,
    j: int,
    x: int,
)
    requires
        order.len() == r.len(),
        forall|i: int| 0 <= i < order.len() ==> #[trigger] order[i] < lv.len() && r[i] == lv[order[i] as int],
        forall|y: int| 0 <= y < lv.len() ==> (listing_matches(#[trigger] lv[y], f) <==> order.contains(y as usize)),
    ensures
        0 <= j < r.len() ==> {
            &&& lv.contains(r[j])
            &&& visible_to(r[j].visibility, f.player_id, f.faction)
            &&& (f.min_price matches Some(lo) ==> r[j].price_per_unit >= lo)
            &&& (f.max_price matches Some(hi) ==> r[j].price_per_unit <= hi)
            &&& (f.item_type matches Some(t) ==> r[j].item.item_type == t)
            &&& (f.system_id matches Some(sys) ==> r[j].system_id == sys)
            &&& (f.item_name matches Some(n) ==> crate::text::contains_seq(r[j].item.name, n))
            &&& (f.tags matches Some(ts) ==> shares_tag(r[j].tags, ts))
        },
        0 <= x < lv.len() && x <= usize::MAX && visible_to(lv[x].visibility, f.player_id, f.faction) && (f.min_price matches Some(
            lo,
        ) ==> lv[x].price_per_unit >= lo) && (f.max_price matches Some(hi) ==> lv[x].price_per_unit <= hi) && (
        f.item_type matches Some(t) ==> lv[x].item.item_type == t) && (f.system_id matches Some(sys) ==> lv[x].system_id
            == sys) && (f.item_name matches Some(n) ==> crate::text::contains_seq(lv[x].item.name, n)) && (
        f.tags matches Some(ts) ==> shares_tag(lv[x].tags, ts)) ==> exists|i: int|
            0 <= i < r.len() && #[trigger] r[i] == lv[x],
{
    if 0 <= j < r.len() {
        let y = order[j] as int;
        assert(order.contains(order[j]));
        assert((y as usize) == order[j]);
        assert(listing_matches(lv[y], f));
        assert(lv.contains(r[j]));
    }
    if 0 <= x < lv.len() && x <= usize::MAX && listing_matches(lv[x], f) {
        assert(order.contains(x as usize));
        let i = choose|i: int| 0 <= i < order.len() && order[i] == x as usize;
        assert(r[i] == lv[x]);
    }
}

} // verus!
