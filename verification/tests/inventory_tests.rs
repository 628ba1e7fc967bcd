use casifin::date::Date;
use casifin::error::CasifinError;
use casifin::inventory::{Fifo, InventoryLot, InventoryMethod, Lifo, WeightedAverage};
use casifin::money::Money;

fn test_lots() -> [InventoryLot; 3] {
    [
        InventoryLot::new(100, Money::from(10), Date::from_ymd_opt(2024, 1, 1).unwrap()),
        InventoryLot::new(100, Money::from(12), Date::from_ymd_opt(2024, 2, 1).unwrap()),
        InventoryLot::new(100, Money::from(14), Date::from_ymd_opt(2024, 3, 1).unwrap()),
    ]
}

#[test]
fn test_fifo_cogs() {
    let lots = test_lots();
    let fifo = Fifo;
    let cogs = fifo.cogs(&lots, 150).unwrap();
    assert_eq!(cogs, Money::from(1600));
    let ending = fifo.ending_inventory(&lots, 150).unwrap();
    assert_eq!(ending, Money::from(2000));
}

#[test]
fn test_lifo_cogs() {
    let lots = test_lots();
    let lifo = Lifo;
    let cogs = lifo.cogs(&lots, 150).unwrap();
    assert_eq!(cogs, Money::from(2000));
    let ending = lifo.ending_inventory(&lots, 150).unwrap();
    assert_eq!(ending, Money::from(1600));
}

#[test]
fn test_weighted_average_cogs() {
    let lots = test_lots();
    let wa = WeightedAverage;
    let cogs = wa.cogs(&lots, 150).unwrap();
    assert_eq!(cogs, Money::from(1800));
    let ending = wa.ending_inventory(&lots, 150).unwrap();
    assert_eq!(ending, Money::from(1800));
}

#[test]
fn test_exceeds_inventory() {
    let lots = test_lots();
    let fifo = Fifo;
    assert!(fifo.cogs(&lots, 500).is_err());
}

#[test]
fn test_empty_lots() {
    let lots: [InventoryLot; 0] = [];
    let fifo = Fifo;
    assert!(fifo.cogs(&lots, 10).is_err());
}

#[test]
fn test_inventory_total_consistency() {
    let lots = vec![
        InventoryLot::new(100, Money::from(10), Date::from_ymd_opt(2024, 1, 1).unwrap()),
        InventoryLot::new(100, Money::from(12), Date::from_ymd_opt(2024, 2, 1).unwrap()),
        InventoryLot::new(100, Money::from(14), Date::from_ymd_opt(2024, 3, 1).unwrap()),
    ];
    let values: Vec<Money> = lots.iter().map(|l| l.total_value()).collect();
    let total_value = Money::sum(&values);
    let fifo = Fifo;
    let lifo = Lifo;
    let wa = WeightedAverage;
    let fifo_cogs = fifo.cogs(&lots, 150).unwrap();
    let fifo_ending = fifo.ending_inventory(&lots, 150).unwrap();
    assert_eq!(fifo_cogs.add(fifo_ending), total_value);
    let lifo_cogs = lifo.cogs(&lots, 150).unwrap();
    let lifo_ending = lifo.ending_inventory(&lots, 150).unwrap();
    assert_eq!(lifo_cogs.add(lifo_ending), total_value);
    let wa_cogs = wa.cogs(&lots, 150).unwrap();
    let wa_ending = wa.ending_inventory(&lots, 150).unwrap();
    assert_eq!(wa_cogs.add(wa_ending), total_value);
}

#[test]
fn fifo_and_lifo_follow_dates_not_positions() {
    let lots = [
        InventoryLot::new(10, Money::from(5), Date::from_ymd_opt(2024, 3, 1).unwrap()),
        InventoryLot::new(10, Money::from(1), Date::from_ymd_opt(2024, 1, 1).unwrap()),
        InventoryLot::new(10, Money::from(3), Date::from_ymd_opt(2024, 2, 1).unwrap()),
    ];
    assert_eq!(Fifo.cogs(&lots, 15).unwrap(), Money::from(25));
    assert_eq!(Lifo.cogs(&lots, 15).unwrap(), Money::from(65));
}

#[test]
fn same_date_lots_keep_their_order() {
    let d = Date::from_ymd_opt(2024, 1, 1).unwrap();
    let lots = [InventoryLot::new(10, Money::from(1), d), InventoryLot::new(10, Money::from(2), d)];
    assert_eq!(Fifo.cogs(&lots, 10).unwrap(), Money::from(10));
    assert_eq!(Lifo.cogs(&lots, 10).unwrap(), Money::from(20));
}

#[test]
fn inventory_error_messages() {
    let lots = test_lots();
    assert_eq!(
        Fifo.cogs(&lots, 500),
        Err(CasifinError::InventoryError("units_sold (500) exceeds available inventory (300)".to_string()))
    );
    let empty: [InventoryLot; 0] = [];
    assert_eq!(Lifo.cogs(&empty, 1), Err(CasifinError::InventoryError("no inventory lots available".to_string())));
    assert!(WeightedAverage.ending_inventory(&lots, 301).is_err());
}

#[test]
fn selling_nothing_costs_nothing() {
    let lots = test_lots();
    assert_eq!(Fifo.cogs(&lots, 0).unwrap(), Money::zero());
    assert_eq!(WeightedAverage.cogs(&lots, 0).unwrap(), Money::zero());
    assert_eq!(lots[0].total_value(), Money::from(1000));
    assert_eq!(lots[1].checked_total_value(), Some(Money::from(1200)));
}
