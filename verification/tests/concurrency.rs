use std::sync::Arc;

use grocery_list::handlers::add_grocery_list_item;
use grocery_list::models::Item;
use grocery_list::models::Store;

fn runtime() -> tokio::runtime::Runtime {
    tokio::runtime::Builder::new_multi_thread()
        .worker_threads(4)
        .build()
        .unwrap()
}

#[test]
fn concurrent_distinct_puts_all_present() {
    // N concurrent puts with distinct names, then a snapshot: all N entries
    // must be present, with no lost updates.
    let n: i32 = 16;
    let store = Arc::new(Store::new());
    let rt = runtime();
    rt.block_on(async {
        let mut tasks = Vec::new();
        for i in 0..n {
            let handle = Arc::clone(&store);
            tasks.push(tokio::spawn(async move {
                handle.put(format!("item-{}", i), i);
            }));
        }
        for task in tasks {
            task.await.unwrap();
        }
    });
    let mut snap = store.snapshot();
    assert_eq!(snap.len(), n as usize);
    snap.sort_by(|a, b| a.1.cmp(&b.1));
    for i in 0..n {
        assert_eq!(snap[i as usize], (format!("item-{}", i), i));
    }
}

#[test]
fn concurrent_snapshots_are_identical() {
    // N concurrent snapshots of an unchanging store must all return the
    // same mapping.
    let store = Arc::new(Store::new());
    add_grocery_list_item(Item { name: "milk".to_string(), quantity: 2 }, &store);
    add_grocery_list_item(Item { name: "eggs".to_string(), quantity: 12 }, &store);
    let rt = runtime();
    let snapshots = rt.block_on(async {
        let mut tasks = Vec::new();
        for _ in 0..16 {
            let handle = Arc::clone(&store);
            tasks.push(tokio::spawn(async move { handle.snapshot() }));
        }
        let mut results = Vec::new();
        for task in tasks {
            results.push(task.await.unwrap());
        }
        results
    });
    let first = snapshots[0].clone();
    assert_eq!(first.len(), 2);
    for snap in &snapshots {
        assert_eq!(*snap, first);
    }
}
