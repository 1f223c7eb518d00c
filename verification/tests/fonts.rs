use sabitori::fonts::{add, all, count, since, FontStore};

#[test]
fn empty_data_is_ignored() {
    let mut store = FontStore::new();
    add(&mut store, Vec::new());
    assert!(all(&store).iter().all(|f| !f.is_empty()), "an empty font was stored");
}

#[test]
fn added_fonts_stay_available_to_everyone() {
    let mut store = FontStore::new();
    add(&mut store, vec![1u8, 2, 3]);
    let marker = vec![7u8, 7, 7, 7];
    let before = count(&store);
    add(&mut store, marker.clone());

    let handed = since(&store, before);
    assert!(handed.iter().any(|f| f == &marker), "not handed over");
    assert!(all(&store).iter().any(|f| f == &marker), "gone once handed over");

    assert!(since(&store, count(&store)).is_empty());
}

#[test]
fn fonts_keep_the_order_they_were_added_in() {
    let mut store = FontStore::new();
    add(&mut store, vec![1u8]);
    add(&mut store, Vec::new());
    add(&mut store, vec![2u8, 2]);
    assert_eq!(count(&store), 2);
    assert_eq!(all(&store), vec![vec![1u8], vec![2u8, 2]]);
    assert_eq!(since(&store, 1), vec![vec![2u8, 2]]);
    assert!(since(&store, 5).is_empty());
}
