use crystal_server::market::{MarketError, MarketManager};

#[test]
fn list_buy_and_cancel() {
    let mut mgr = MarketManager::new();
    let id = mgr.list("A", 1234, 500).unwrap();
    assert_eq!(mgr.all_orders().len(), 1);
    let order = mgr.buy(id).unwrap();
    assert_eq!(order.seller, "A");
    assert_eq!(order.item_uid, 1234);
    assert_eq!(order.price, 500);
    assert!(mgr.orders.is_empty());
    assert_eq!(mgr.buy(id), Err(MarketError::OrderNotFound));
}

#[test]
fn zero_price_rejected() {
    let mut mgr = MarketManager::new();
    assert_eq!(mgr.list("A", 1, 0), Err(MarketError::InvalidPrice));
}

#[test]
fn order_ids_are_unique() {
    let mut mgr = MarketManager::new();
    let a = mgr.list("A", 1, 10).unwrap();
    let b = mgr.list("B", 2, 20).unwrap();
    assert_ne!(a, b);
}

#[test]
fn cancel_returns_order() {
    let mut mgr = MarketManager::new();
    let id = mgr.list("A", 99, 50).unwrap();
    let o = mgr.cancel(id).unwrap();
    assert_eq!(o.seller, "A");
    assert!(mgr.orders.is_empty());
}

#[test]
fn first_order_id_is_one_and_ids_increase() {
    let mut mgr = MarketManager::new();
    assert_eq!(mgr.list("A", 1, 10), Ok(1));
    assert_eq!(mgr.list("A", 2, 10), Ok(2));
    mgr.cancel(1).unwrap();
    assert_eq!(mgr.list("A", 3, 10), Ok(3));
    assert_eq!(mgr.cancel(1), Err(MarketError::OrderNotFound));
    let mut ids: Vec<u64> = mgr.all_orders().iter().map(|o| o.order_id).collect();
    ids.sort();
    assert_eq!(ids, vec![2, 3]);
}
