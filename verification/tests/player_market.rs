use space_trader::models::item::{Item, ItemType, ResourceType};
use space_trader::models::player_market::{BidStatus, ContractStatus, ListingSortOption, ListingVisibility, PlayerMarket, PriceTrend};

fn ore(name: &str) -> Item {
    Item::new(name, 40, 1, ItemType::Resource(ResourceType::Mineral))
}

fn list(m: &mut PlayerMarket, name: &str, qty: u32, price: u32, negotiable: bool, expires: Option<u64>) -> String {
    m.create_listing(
        "seller",
        "Sal",
        ore(name),
        qty,
        price,
        "sol",
        "station-1",
        expires,
        0,
        ListingVisibility::Public,
        negotiable,
        "fresh ore",
        vec!["ore".to_string()],
    )
}

#[test]
fn listing_is_stored_with_total_price() {
    let mut m = PlayerMarket::new();
    let id = list(&mut m, "Iron", 10, 7, false, None);
    let (_, l) = m.listings.iter().find(|(k, _)| *k == id).unwrap();
    assert_eq!(l.total_price, 70);
    assert_eq!(l.quantity_sold, 0);
    assert_eq!(l.id, id);
}

#[test]
fn purchase_updates_listing_history_and_trend() {
    let mut m = PlayerMarket::new();
    let id = list(&mut m, "Iron", 10, 7, false, None);
    let p = m.purchase_listing(&id, "buyer", 4, 0).unwrap();
    assert_eq!(p.total_price, 28);
    assert_eq!(p.quantity, 4);
    assert_eq!(p.item_name, "Iron");
    assert_eq!(p.seller_id, "seller");
    let (_, l) = m.listings.iter().find(|(k, _)| *k == id).unwrap();
    assert_eq!(l.quantity, 6);
    assert_eq!(l.quantity_sold, 4);
    assert_eq!(m.purchase_history.len(), 1);
    let err = m.purchase_listing(&id, "buyer", 7, 0).unwrap_err();
    assert_eq!(err, "Not enough quantity available. Requested: 7, Available: 6");
    assert!(m.purchase_listing(&id, "buyer", 6, 0).is_ok());
    assert!(m.listings.iter().all(|(k, _)| *k != id));
    assert_eq!(m.purchase_listing(&id, "buyer", 1, 0).unwrap_err(), "Listing not found");
    let (_, series) = m.price_trends.iter().find(|(k, _)| k == "Iron").unwrap();
    assert_eq!(series.last().unwrap().volume_traded, 10);
    assert_eq!(series.last().unwrap().average_price, 7);
}

#[test]
fn reputation_is_checked() {
    let mut m = PlayerMarket::new();
    let id = m.create_listing(
        "s", "S", ore("Gold"), 1, 100, "sol", "st", None, 50, ListingVisibility::Public, false, "", Vec::new(),
    );
    assert_eq!(m.purchase_listing(&id, "b", 1, 10).unwrap_err(), "Insufficient reputation. Required: 50, You have: 10");
    m.reputation_requirements = false;
    assert!(m.purchase_listing(&id, "b", 1, 10).is_ok());
}

#[test]
fn bids_on_negotiable_listings() {
    let mut m = PlayerMarket::new();
    let fixed = list(&mut m, "Iron", 5, 10, false, None);
    assert_eq!(m.place_bid_at(&fixed, "b", "Bo", 8, 1, "hi", None, 100).unwrap_err(), "This listing does not accept bids");
    let open = list(&mut m, "Nickel", 5, 10, true, None);
    let bid = m.place_bid_at(&open, "b", "Bo", 8, 2, "hi", Some(1), 100).unwrap();
    let (_, b) = m.bids.iter().find(|(k, _)| *k == bid).unwrap();
    assert_eq!(b.total_amount, 16);
    assert_eq!(b.status, BidStatus::Pending);
    assert_eq!(b.expires_at, Some(3_700));
    assert!(m.cancel_bid(&bid, "someone-else").is_err());
    let purchase = m.accept_bid(&bid).unwrap();
    assert!(purchase.was_negotiated);
    assert_eq!(purchase.total_price, 16);
    let (_, b) = m.bids.iter().find(|(k, _)| *k == bid).unwrap();
    assert_eq!(b.status, BidStatus::Accepted);
}

#[test]
fn rejecting_and_cancelling_bids() {
    let mut m = PlayerMarket::new();
    let open = list(&mut m, "Cobalt", 5, 10, true, None);
    let b1 = m.place_bid_at(&open, "b", "Bo", 8, 1, "", None, 0).unwrap();
    let b2 = m.place_bid_at(&open, "c", "Cy", 9, 1, "", None, 0).unwrap();
    assert!(m.reject_bid(&b1).is_ok());
    assert!(m.cancel_bid(&b2, "c").is_ok());
    assert!(m.reject_bid("missing").is_err());
    let s1 = m.bids.iter().find(|(k, _)| *k == b1).unwrap().1.status;
    let s2 = m.bids.iter().find(|(k, _)| *k == b2).unwrap().1.status;
    assert_eq!(s1, BidStatus::Rejected);
    assert_eq!(s2, BidStatus::Canceled);
}

#[test]
fn contract_lifecycle() {
    let mut m = PlayerMarket::new();
    let id = m.create_contract(
        "issuer", "Deliver ore", "Bring iron", vec![(ore("Iron"), 5)], 500, Vec::new(), None, Vec::new(), true,
    );
    assert!(m.complete_contract(&id, "issuer").is_err());
    assert!(m.accept_contract(&id, "hauler").is_ok());
    assert!(m.update_contract_progress(&id, "stranger", "hi", Vec::new()).is_err());
    assert!(m.update_contract_progress(&id, "hauler", "half", vec![("Iron".to_string(), 3)]).is_ok());
    assert!(m.complete_contract(&id, "someone").is_err());
    assert!(m.complete_contract(&id, "issuer").is_ok());
    let c = &m.contracts.iter().find(|(k, _)| *k == id).unwrap().1;
    assert_eq!(c.status, ContractStatus::Completed);
    assert_eq!(c.assignee_ids, vec!["hauler".to_string()]);
}

#[test]
fn search_filters_and_sorts() {
    let mut m = PlayerMarket::new();
    list(&mut m, "Iron Ore", 5, 30, false, None);
    list(&mut m, "Iron Bar", 2, 10, false, None);
    list(&mut m, "Gold", 1, 20, false, None);
    m.create_listing(
        "s", "S", ore("Iron Secret"), 1, 1, "sol", "st", None, 0, ListingVisibility::FactionOnly("Miners".to_string()),
        false, "", Vec::new(),
    );
    let found = m.search_listings("me", None, Some("Iron"), None, None, None, None, None, ListingSortOption::PriceAscending);
    let prices: Vec<u32> = found.iter().map(|l| l.price_per_unit).collect();
    assert_eq!(prices, vec![10, 30]);
    let found = m.search_listings("me", Some("Miners"), Some("Iron"), None, None, None, None, Some(25), ListingSortOption::QuantityDescending);
    let names: Vec<&str> = found.iter().map(|l| l.item.name.as_str()).collect();
    assert_eq!(names, vec!["Iron Bar", "Iron Secret"]);
}

#[test]
fn expirations_remove_listings_and_lapse_bids() {
    let mut m = PlayerMarket::new();
    let old = list(&mut m, "Ice", 5, 10, true, Some(100));
    let fresh = list(&mut m, "Gas", 5, 10, true, Some(1_000));
    let bid = m.place_bid_at(&fresh, "b", "Bo", 5, 1, "", Some(0), 50).unwrap();
    let (gone, lapsed) = m.process_expirations_at(200);
    assert_eq!(gone, vec![old.clone()]);
    assert_eq!(lapsed, vec![bid.clone()]);
    assert!(m.listings.iter().all(|(k, _)| *k != old));
    let b = &m.bids.iter().find(|(k, _)| *k == bid).unwrap().1;
    assert_eq!(b.status, BidStatus::Expired);
    let (gone2, lapsed2) = m.process_expirations_at(200);
    assert!(gone2.is_empty() && lapsed2.is_empty());
}

#[test]
fn market_statistics_for_an_item() {
    let mut m = PlayerMarket::new();
    assert!(m.get_market_statistics("Iron", 0).is_none());
    let a = list(&mut m, "Iron", 10, 5, false, None);
    list(&mut m, "Iron", 30, 9, false, None);
    list(&mut m, "Gold", 1, 500, false, None);
    m.purchase_listing(&a, "b", 2, 0).unwrap();
    assert_eq!(m.price_change_inputs("Iron"), None);
    let st = m.get_market_statistics("Iron", 77).unwrap();
    assert_eq!(st.item_name, "Iron");
    assert_eq!(st.current_listings_count, 2);
    assert_eq!(st.current_quantity_available, 38);
    assert_eq!(st.current_min_price, 5);
    assert_eq!(st.current_max_price, 9);
    assert_eq!(st.current_avg_price, (8 * 5 + 30 * 9) / 38);
    assert_eq!(st.recent_sales_count, 1);
    assert_eq!(st.recent_sales_volume, 2);
    assert_eq!(st.recent_sales_value, 10);
    assert_eq!(st.price_change_percent, 0);
    assert_eq!(st.price_history.as_ref().map(|h| h.len()), Some(1));
}

#[test]
fn debug_names_of_statuses() {
    assert_eq!(BidStatus::Pending.debug_name(), "Pending");
    assert_eq!(ContractStatus::InProgress.debug_name(), "InProgress");
}

#[test]
fn trade_that_would_overflow_this_hours_trend_is_refused() {
    let mut m = PlayerMarket::new();
    let id = list(&mut m, "Iron", 10, 7, false, None);
    let now = std::time::SystemTime::now().duration_since(std::time::UNIX_EPOCH).unwrap().as_secs();
    let hour = now - now % 3600;
    let full = |t: u64| PriceTrend {
        item_name: "Iron".to_string(),
        average_price: 7,
        lowest_price: 7,
        highest_price: 7,
        volume_traded: u32::MAX,
        timestamp: t,
    };
    m.price_trends.push(("Iron".to_string(), vec![full(hour)]));
    let before = m.listings.iter().find(|(k, _)| *k == id).unwrap().1.quantity;
    let r = m.purchase_listing(&id, "buyer", 1, 0);
    let later = std::time::SystemTime::now().duration_since(std::time::UNIX_EPOCH).unwrap().as_secs();
    if later - later % 3600 == hour {
        assert_eq!(r.unwrap_err(), "Trade volume out of range");
        assert_eq!(m.listings.iter().find(|(k, _)| *k == id).unwrap().1.quantity, before);
        assert!(m.purchase_history.is_empty());
    }
}

#[test]
fn full_trend_point_of_an_earlier_hour_does_not_block() {
    let mut m = PlayerMarket::new();
    let id = list(&mut m, "Iron", 10, 7, false, None);
    m.price_trends.push((
        "Iron".to_string(),
        vec![PriceTrend {
            item_name: "Iron".to_string(),
            average_price: 7,
            lowest_price: 7,
            highest_price: 7,
            volume_traded: u32::MAX,
            timestamp: 3600,
        }],
    ));
    assert!(m.purchase_listing(&id, "buyer", 1, 0).is_ok());
}

/// The percentage change, reckoned in `f32`.
fn change_percent(oldest: u32, newest: u32) -> i32 {
    ((newest as f32 - oldest as f32) / oldest as f32 * 100.0) as i32
}

#[test]
fn price_change_is_reported_from_the_trend_ends() {
    let mut m = PlayerMarket::new();
    list(&mut m, "Iron", 10, 7, false, None);
    let point = |avg: u32, t: u64| PriceTrend {
        item_name: "Iron".to_string(),
        average_price: avg,
        lowest_price: avg,
        highest_price: avg,
        volume_traded: 1,
        timestamp: t,
    };
    m.price_trends.push(("Iron".to_string(), vec![point(5, 0), point(9, 3600), point(26, 7200)]));
    let (oldest, newest) = m.price_change_inputs("Iron").unwrap();
    assert_eq!((oldest, newest), (5, 26));
    let change = change_percent(oldest, newest);
    assert_eq!(change, 419);
    let st = m.get_market_statistics("Iron", change).unwrap();
    assert_eq!(st.price_change_percent, 419);
}
