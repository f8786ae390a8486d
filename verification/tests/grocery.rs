use rust_exercises::grocery_store::{create_store, populate_store, GroceryStore, Price, Product, Row, Shelf, Zone};

fn price(x: f32) -> Price {
    Price::from_bits(x.to_bits())
}

fn stocked_store() -> GroceryStore {
    let mut store = create_store();
    store.add_product("fruit", "001", "apple", "2025-04-20", price(1.2), 50).unwrap();
    store.add_product("wine", "010", "red wine", "2030-06-01", price(10.0), 20).unwrap();
    store.add_product("juice", "016", "orange juice", "2025-07-15", price(2.2), 35).unwrap();
    store
}

#[test]
fn the_example_store_has_its_rows_shelves_and_zones() {
    let store = create_store();
    assert_eq!(store.row_position("beverages"), Some(1));
    assert_eq!(store.shelf_position("soft"), Some((1, 1)));
    assert_eq!(store.zone_position("veggies"), Some((0, 0, 1)));
    assert_eq!(store.zone_position("bakery"), None);
    assert_eq!(store.product_position("001"), None);
}

#[test]
fn adding_refuses_known_ids_and_unknown_zones() {
    let mut store = stocked_store();
    assert_eq!(store.product_position("010"), Some((1, 0, 0, 0)));
    assert_eq!(store.add_product("beer", "010", "x", "y", price(1.0), 1), Err("Product already exists!"));
    assert_eq!(store.add_product("bakery", "099", "x", "y", price(1.0), 1), Err("Zone not found"));
    assert_eq!(store.product_position("099"), None);
}

#[test]
fn restock_sell_rename_and_reprice() {
    let mut store = stocked_store();
    store.restock_product("001", 10).unwrap();
    assert_eq!(store.get_product_info("001").unwrap().4, 60);
    assert_eq!(store.sell_product("001", 8), Ok(price(1.2)));
    assert_eq!(store.get_product_info("001").unwrap().4, 52);
    assert_eq!(store.sell_product("001", 100), Err("Not enough units in stock!"));
    assert_eq!(store.sell_product("404", 1), Err("Product not found"));
    store.change_product_name("010", "vinho verde").unwrap();
    store.change_product_price("010", price(0.01)).unwrap();
    let info = store.get_product_info("010").unwrap();
    assert_eq!((info.0.as_str(), info.1.as_str(), info.2.as_str()), ("010", "vinho verde", "2030-06-01"));
    assert_eq!(info.3, price(0.01));
    assert_eq!(store.restock_product("404", 1), Err("Product not found"));
    assert_eq!(store.change_product_name("404", "x"), Err("Product not found"));
    assert_eq!(store.change_product_price("404", price(1.0)), Err("Product not found"));
}

#[test]
fn removing_what_was_added_restores_the_store() {
    let mut store = stocked_store();
    store.add_product("chips", "020", "pringles", "2026-01-15", price(2.5), 30).unwrap();
    assert_eq!(store.product_position("020"), Some((0, 1, 0, 0)));
    store.remove_product("020").unwrap();
    assert_eq!(store.product_position("020"), None);
    assert_eq!(store.remove_product("020"), Err("Product not found"));
    assert_eq!(store.product_position("016"), Some((1, 1, 0, 0)));
}

#[test]
fn moving_a_product_to_another_zone() {
    let mut store = stocked_store();
    store.change_product_position("016", "water").unwrap();
    assert_eq!(store.product_position("016"), Some((1, 1, 1, 0)));
    assert_eq!(store.get_product_info("016").unwrap().4, 35);
    assert_eq!(store.change_product_position("016", "bakery"), Err("Zone not found"));
    assert_eq!(store.product_position("016"), None);
    assert_eq!(store.change_product_position("404", "water"), Err("Product not found"));
}

#[test]
fn building_a_store_by_hand() {
    let mut store = GroceryStore::new();
    assert_eq!(store.zone_position("z"), None);
    let zone = Zone::new("z", vec![Product::new("1", "tea", "2026-01-01", price(3.0), 4)]);
    store.add_rows(vec![Row::new("r", vec![Shelf::new("s", vec![zone])])]);
    assert_eq!(store.product_position("1"), Some((0, 0, 0, 0)));
    assert!(!price(-0.0).is_below_zero());
    assert!(price(-1.0).is_below_zero());
    assert!(!price(f32::NAN).is_below_zero());
}

#[test]
fn the_example_stock_fills_two_products_per_zone() {
    let mut store = create_store();
    populate_store(&mut store);
    assert_eq!(store.product_position("001"), Some((0, 0, 0, 0)));
    assert_eq!(store.product_position("002"), Some((0, 0, 0, 1)));
    assert_eq!(store.product_position("016"), Some((1, 1, 1, 1)));
    let info = store.get_product_info("015").unwrap();
    assert_eq!(info.3, price(49.99));
    assert_eq!(info.4, 1);
    populate_store(&mut store);
    assert_eq!(store.product_position("016"), Some((1, 1, 1, 1)));
    assert_eq!(store.get_product_info("009").unwrap().4, 80);
    let mut bare = GroceryStore::new();
    populate_store(&mut bare);
    assert_eq!(bare.product_position("001"), None);
}
