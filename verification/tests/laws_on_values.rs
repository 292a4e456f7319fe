use rust_server::catalog::parse_id_list;
use rust_server::pagination::{last_visible_page, page_summary, page_window};
use rust_server::producers::{unique_producers, CommonMalResponse};

#[test]
fn listed_ids_read_back() {
    let ids: Vec<u32> = vec![3, 14, 159, 0, 4294967295, 14];
    let text = ids.iter().map(|i| i.to_string()).collect::<Vec<_>>().join(",");
    assert_eq!(parse_id_list(&text), Ok(ids));
    assert_eq!(parse_id_list("7"), Ok(vec![7]));
}

#[test]
fn last_page_covers_every_item() {
    for total in 0..60i64 {
        for per_page in 1..12i64 {
            let last = last_visible_page(total, per_page);
            assert!(last * per_page >= total);
            assert!(total == 0 || (last - 1) * per_page < total);
        }
    }
}

#[test]
fn next_page_reported_iff_items_remain() {
    for total in 0..40u64 {
        for per_page in 1..8u64 {
            for page in 1..10u64 {
                let w = page_window(Some(page), Some(per_page));
                let s = page_summary(&w, total, 0);
                assert_eq!(s.has_next_page, page * per_page < total, "{} {} {}", total, per_page, page);
            }
        }
    }
}

#[test]
fn deduplicated_producers_are_unique_and_complete() {
    let mk = |id: u32| CommonMalResponse { mal_id: id, kind: "anime".into(), name: format!("p{}", id), url: String::new() };
    let lists = vec![vec![mk(4), mk(1), mk(4)], vec![mk(9), mk(1)], vec![mk(2)]];
    let unique = unique_producers(&lists);
    let ids: Vec<u32> = unique.iter().map(|p| p.mal_id).collect();
    assert_eq!(ids, vec![4, 1, 9, 2]);
}

#[test]
fn pieces_that_are_not_ids_are_ignored() {
    assert_eq!(parse_id_list(" 5 , x,7"), parse_id_list("5,7"));
    assert_eq!(parse_id_list("abc, ,-3,4.5,9"), Ok(vec![9]));
}
