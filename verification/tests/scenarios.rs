use grocery_list::handlers::add_grocery_list_item;
use grocery_list::handlers::delete_grocery_list_item;
use grocery_list::handlers::get_grocery_list;
use grocery_list::handlers::update_grocery_list_item;
use grocery_list::models::Id;
use grocery_list::models::Item;
use grocery_list::models::Store;

#[test]
fn post_then_get_shows_item() {
    let store = Store::new();
    let reply = add_grocery_list_item(
        Item { name: "milk".to_string(), quantity: 2 },
        &store,
    );
    assert_eq!(reply.status, 201);
    assert_eq!(reply.message, "Added items to the grocery list");
    let listing = get_grocery_list(&store);
    assert_eq!(listing, vec![("milk".to_string(), 2)]);
}

#[test]
fn post_then_put_overwrites_quantity() {
    let store = Store::new();
    add_grocery_list_item(Item { name: "milk".to_string(), quantity: 2 }, &store);
    let reply = update_grocery_list_item(
        Item { name: "milk".to_string(), quantity: 5 },
        &store,
    );
    assert_eq!(reply.status, 201);
    assert_eq!(reply.message, "Added items to the grocery list");
    let listing = get_grocery_list(&store);
    assert_eq!(listing, vec![("milk".to_string(), 5)]);
}

#[test]
fn delete_without_prior_add_is_ok() {
    let store = Store::new();
    let reply = delete_grocery_list_item(Id { name: "milk".to_string() }, &store);
    assert_eq!(reply.status, 200);
    assert_eq!(reply.message, "Removed item from grocery");
    let listing = get_grocery_list(&store);
    assert!(listing.is_empty());
}

#[test]
fn post_then_delete_leaves_empty_list() {
    let store = Store::new();
    add_grocery_list_item(Item { name: "eggs".to_string(), quantity: 12 }, &store);
    let reply = delete_grocery_list_item(Id { name: "eggs".to_string() }, &store);
    assert_eq!(reply.status, 200);
    let listing = get_grocery_list(&store);
    assert!(listing.is_empty());
}
