use rust_exercises::grocery_store::Price;
use rust_exercises::mapped_store::{
    address_input, build_store, partial_address_input, product_id_input, GroceryErrors, GroceryStore,
    PartialAddressStep, Product, populate_store,
};

fn price(x: f32) -> Price {
    Price::from_bits(x.to_bits())
}

fn apple() -> Product {
    Product::new("01", "apple", "2025-04-20", price(1.2), 50)
}

fn sorted(mut v: Vec<String>) -> Vec<String> {
    v.sort();
    v
}

fn stocked() -> GroceryStore {
    let mut store = build_store().unwrap();
    store.add_product("food", "healthy", "fruits", apple()).unwrap();
    store.add_product("food", "snacks", "chips", Product::new("03", "pringles", "2026-01-15", price(2.5), 30)).unwrap();
    store
        .add_product("beverages", "alcohol", "wines", Product::new("06", "red_wine", "2030-06-01", price(10.0), 20))
        .unwrap();
    store
}

#[test]
fn rows_shelves_and_zones_are_added_once() {
    let mut store = GroceryStore::new();
    store.add_row("food").unwrap();
    assert!(matches!(store.add_row("food"), Err(GroceryErrors::RowAlreadyExists(r)) if r == "food"));
    store.add_shelf("food", "healthy").unwrap();
    assert!(matches!(store.add_shelf("food", "healthy"), Err(GroceryErrors::ShelfAlreadyExists(_, s)) if s == "healthy"));
    assert!(store.add_shelf("drinks", "healthy").is_ok());
    store.add_zone("food", "healthy", "fruits").unwrap();
    assert!(matches!(
        store.add_zone("food", "healthy", "fruits"),
        Err(GroceryErrors::ZoneAlreadyExists(_, _, z)) if z == "fruits"
    ));
    assert!(store.add_zone("food", "snacks", "chips").is_ok());
    assert!(store.add_product("food", "healthy", "fruits", apple()).is_ok());
}

#[test]
fn adding_needs_an_existing_place() {
    let mut store = build_store().unwrap();
    assert!(matches!(store.add_product("toys", "a", "b", apple()), Err(GroceryErrors::RowNotFound(r)) if r == "toys"));
    assert!(matches!(store.add_product("food", "toys", "b", apple()), Err(GroceryErrors::ShelfNotFound(_, s)) if s == "toys"));
    assert!(matches!(
        store.add_product("food", "healthy", "toys", apple()),
        Err(GroceryErrors::ZoneNotFound(_, _, z)) if z == "toys"
    ));
    assert!(store.get_product_from_id("01").is_none());
    store.add_product("food", "healthy", "fruits", apple()).unwrap();
    match store.add_product("food", "healthy", "fruits", Product::new("01", "green apple", "2025-05-01", price(1.5), 5)) {
        Err(GroceryErrors::ProductAlreadyExists(_, _, _, p)) => assert_eq!(p.name, "green apple"),
        other => panic!("{:?}", other),
    }
    let kept = store.get_product_from_id("01").unwrap();
    assert_eq!((kept.name.as_str(), kept.stock), ("apple", 50));
}

#[test]
fn removing_what_was_added_gives_it_back() {
    let mut store = stocked();
    assert_eq!(
        store.find_address_from_id("01"),
        Some(("food".to_string(), "healthy".to_string(), "fruits".to_string()))
    );
    let p = store.remove_product("01").unwrap();
    assert_eq!(p.name, "apple");
    assert_eq!(p.stock, 50);
    assert!(store.get_product_from_id("01").is_none());
    assert!(store.find_address_from_id("01").is_none());
    assert!(matches!(store.remove_product("01"), Err(GroceryErrors::ProductNotFound(i)) if i == "01"));
}

#[test]
fn stock_changes() {
    let mut store = stocked();
    store.restock_product("03", 10).unwrap();
    assert_eq!(store.get_product_from_id("03").unwrap().stock, 40);
    assert!(matches!(store.restock_product("03", u32::MAX), Err(GroceryErrors::U32Overflow(u, 40)) if u == u32::MAX));
    assert!(matches!(store.restock_product("99", 1), Err(GroceryErrors::ProductNotFound(_))));
    assert_eq!(store.sell_product("03", 10).unwrap(), price(2.5));
    assert_eq!(store.get_product_from_id("03").unwrap().stock, 30);
    assert!(matches!(store.sell_product("03", 31), Err(GroceryErrors::NotEnoughStock(_, 31, 30))));
    assert_eq!(store.get_product_from_id("03").unwrap().stock, 30);
}

#[test]
fn renaming_and_repricing() {
    let mut store = stocked();
    store.change_product_name("06", "vinho verde").unwrap();
    assert_eq!(store.get_product_from_id("06").unwrap().name, "vinho verde");
    assert!(matches!(store.change_product_price("06", price(-1.0)), Err(GroceryErrors::InvalidPrice(p)) if p == price(-1.0)));
    store.change_product_price("06", price(0.01)).unwrap();
    assert_eq!(store.get_product_from_id("06").unwrap().price, price(0.01));
    assert!(store.change_product_price("06", price(-0.0)).is_ok());
    assert!(matches!(store.change_product_name("99", "x"), Err(GroceryErrors::ProductNotFound(_))));
}

#[test]
fn changing_position_moves_the_product() {
    let mut store = stocked();
    store.change_product_position("01", "food", "healthy", "veggies").unwrap();
    let moved = store.get_product_from_id("01").unwrap();
    assert_eq!((moved.name.as_str(), moved.stock), ("apple", 50));
    assert_eq!(
        store.find_address_from_id("01"),
        Some(("food".to_string(), "healthy".to_string(), "veggies".to_string()))
    );
    assert!(store.list_products_at_zone("food", "healthy", "fruits").is_empty());
    assert_eq!(store.list_products_at_zone("food", "healthy", "veggies"), vec!["01"]);
    assert_eq!(store.list_products().len(), 3);
    store.change_product_position("03", "food", "snacks", "chips").unwrap();
    assert_eq!(store.list_products_at_zone("food", "snacks", "chips"), vec!["03"]);
    assert!(matches!(
        store.change_product_position("03", "food", "snacks", "candy"),
        Err(GroceryErrors::ZoneNotFound(_, _, _))
    ));
    assert_eq!(
        store.find_address_from_id("03"),
        Some(("food".to_string(), "snacks".to_string(), "chips".to_string()))
    );
    assert_eq!(store.list_products_at_zone("food", "snacks", "chips"), vec!["03"]);
    assert!(matches!(store.change_product_position("99", "food", "snacks", "chips"), Err(GroceryErrors::ProductNotFound(_))));
}

#[test]
fn rows_shelves_and_zones_added_again_keep_their_contents() {
    let mut store = stocked();
    assert!(matches!(store.add_row("food"), Err(GroceryErrors::RowAlreadyExists(_))));
    assert!(matches!(store.add_shelf("food", "snacks"), Err(GroceryErrors::ShelfAlreadyExists(_, _))));
    assert!(matches!(store.add_zone("food", "snacks", "chips"), Err(GroceryErrors::ZoneAlreadyExists(_, _, _))));
    assert_eq!(store.get_product_from_id("03").unwrap().name, "pringles");
    assert_eq!(sorted(store.list_products()), vec!["01", "03", "06"]);
}

#[test]
fn listing_by_partial_address() {
    let store = stocked();
    assert_eq!(sorted(store.list_products()), vec!["01", "03", "06"]);
    assert_eq!(sorted(store.list_products_at_row("food")), vec!["01", "03"]);
    assert_eq!(store.list_products_at_shelf("food", "snacks"), vec!["03"]);
    assert_eq!(store.list_products_at_zone("beverages", "alcohol", "wines"), vec!["06"]);
    assert!(store.list_products_at_zone("beverages", "alcohol", "beers").is_empty());
    assert_eq!(sorted(store.list_products_at_address(Some("food"), None, None).unwrap()), vec!["01", "03"]);
    assert_eq!(store.list_products_at_address(None, None, None).unwrap().len(), 3);
    match store.list_products_at_address(None, Some("snacks"), None) {
        Err(GroceryErrors::InvalidArguments(None, Some(s), None)) => assert_eq!(s, "snacks"),
        other => panic!("{:?}", other),
    }
    assert!(store.list_products_at_address(Some("food"), None, Some("chips")).is_err());
}

#[test]
fn typed_input_is_trimmed_and_partial_addresses_stop_at_an_empty_answer() {
    assert_eq!(product_id_input(" 07\n"), "07");
    assert_eq!(
        address_input("food\n", " healthy", "fruits \r\n"),
        ("food".to_string(), "healthy".to_string(), "fruits".to_string())
    );
    let mut answers: Vec<String> = Vec::new();
    assert!(matches!(partial_address_input(&answers), PartialAddressStep::Ask("Enter row: ")));
    answers.push("food".to_string());
    assert!(matches!(partial_address_input(&answers), PartialAddressStep::Ask("Enter shelf: ")));
    answers.push(String::new());
    match partial_address_input(&answers) {
        PartialAddressStep::Done(Some(r), None, None) => assert_eq!(r, "food"),
        _ => panic!(),
    }
    assert!(matches!(partial_address_input(&vec![String::new()]), PartialAddressStep::Done(None, None, None)));
    let all = vec!["a".to_string(), "b".to_string(), "c".to_string()];
    assert!(matches!(partial_address_input(&all), PartialAddressStep::Done(Some(_), Some(_), Some(_))));
}

#[test]
fn the_example_stock_fills_every_zone() {
    let mut store = build_store().unwrap();
    populate_store(&mut store).unwrap();
    assert_eq!(store.list_products().len(), 16);
    assert_eq!(sorted(store.list_products_at_zone("beverages", "soft_drinks", "sodas")), vec!["08", "16"]);
    let pepsi = store.get_product_from_id("16").unwrap();
    assert_eq!((pepsi.name.as_str(), pepsi.stock), ("pepsi", 42));
    assert_eq!(pepsi.price, price(1.80));
    assert!(matches!(populate_store(&mut store), Err(GroceryErrors::ProductAlreadyExists(_, _, _, _))));
    let mut bare = GroceryStore::new();
    assert!(matches!(populate_store(&mut bare), Err(GroceryErrors::RowNotFound(r)) if r == "food"));
}
