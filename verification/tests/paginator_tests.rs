use nuzlolcke::paginator::{paginate_script, Paginator};

fn page(ids: &[&str]) -> Vec<String> {
    ids.iter().map(|s| s.to_string()).collect()
}

#[test]
fn pagination_termination_scripted() {
    let pages = vec![page(&["m1", "m2"]), page(&["m3"]), page(&[])];
    let (ids, offsets) = paginate_script(0, &pages);
    assert_eq!(ids, page(&["m1", "m2", "m3"]));
    // two non-empty pages plus the terminating empty one: three requests
    assert_eq!(offsets.len(), 3);
}

#[test]
fn offset_advancement_uneven_pages() {
    let pages = vec![
        page(&["a", "b", "c"]),
        page(&["d"]),
        page(&["e", "f"]),
        page(&[]),
    ];
    let (ids, offsets) = paginate_script(0, &pages);
    assert_eq!(ids.len(), 6);
    assert_eq!(offsets, vec![0, 3, 4, 6]);
}

#[test]
fn offset_advancement_alternate_start() {
    let pages = vec![page(&["a", "b"]), page(&["c"]), page(&[])];
    let (_, offsets) = paginate_script(1, &pages);
    assert_eq!(offsets, vec![1, 3, 4]);
}

#[test]
fn pagination_stops_at_first_empty_page() {
    let pages = vec![page(&["a"]), page(&[]), page(&["b"])];
    let (ids, offsets) = paginate_script(0, &pages);
    assert_eq!(ids, page(&["a"]));
    assert_eq!(offsets, vec![0, 1]);
}

#[test]
fn pagination_empty_first_page() {
    let pages = vec![page(&[])];
    let (ids, offsets) = paginate_script(7, &pages);
    assert!(ids.is_empty());
    assert_eq!(offsets, vec![7]);
}

#[test]
fn pagination_script_exhausted_without_empty_page() {
    let pages = vec![page(&["a"])];
    let (ids, offsets) = paginate_script(0, &pages);
    assert_eq!(ids, page(&["a"]));
    assert_eq!(offsets, vec![0]);
}

#[test]
fn record_page_advances_by_page_size() {
    let mut pag = Paginator::new(0);
    assert_eq!(pag.offset, 0);
    assert!(!pag.done);
    pag.record_page(&page(&["x", "y", "z"]));
    assert_eq!(pag.offset, 3);
    assert_eq!(pag.ids, page(&["x", "y", "z"]));
    assert!(!pag.done);
    pag.record_page(&page(&["w"]));
    assert_eq!(pag.offset, 4);
    assert_eq!(pag.ids, page(&["x", "y", "z", "w"]));
    pag.record_page(&page(&[]));
    assert!(pag.done);
    assert_eq!(pag.offset, 4);
    assert_eq!(pag.ids, page(&["x", "y", "z", "w"]));
}
