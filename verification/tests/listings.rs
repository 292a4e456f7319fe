use rust_server::catalog::{anime_list_pagination, anime_list_sort, anime_list_window, local_search_filter, AnimeListParams, AnimeListSortBy, AnimeSearchParams};
use rust_server::groups::{GroupListParams, GroupSortBy};
use rust_server::listing::SortOrder;
use rust_server::pagination::{last_visible_page, last_visible_page_i32, last_visible_page_of_count, page_summary, page_window, producer_pagination};
use rust_server::producers::{ProducerListParams, ProducerSortBy};
use rust_server::users::{UserListParams, UserSortBy};

#[test]
fn last_page_is_ceiling_of_total_over_size() {
    assert_eq!(last_visible_page(0, 10), 0);
    assert_eq!(last_visible_page(1, 10), 1);
    assert_eq!(last_visible_page(10, 10), 1);
    assert_eq!(last_visible_page(11, 10), 2);
    assert_eq!(last_visible_page(95, 25), 4);
}

#[test]
fn last_page_follows_float_conversion_at_edges() {
    assert_eq!(last_visible_page(5, 0), i64::MAX);
    assert_eq!(last_visible_page(0, 0), 0);
    assert_eq!(last_visible_page(-5, 0), i64::MIN);
    assert_eq!(last_visible_page(7, -2), -3);
    assert_eq!(last_visible_page_i32(i64::MAX, 1), i32::MAX);
    assert_eq!(last_visible_page_of_count(u64::MAX, 0), i32::MAX);
    for (t, p) in [(7i64, 2i64), (8, 3), (0, 4), (13, -4), (-13, 4), (-13, -4), (1000, 7)] {
        assert_eq!(last_visible_page(t, p), (t as f64 / p as f64).ceil() as i64, "{} {}", t, p);
        assert_eq!(last_visible_page_i32(t, p), (t as f64 / p as f64).ceil() as i32);
    }
}

#[test]
fn page_window_defaults_and_skip() {
    let w = page_window(None, None);
    assert_eq!((w.per_page, w.current_page, w.skip), (10, 1, 0));
    let w = page_window(Some(3), Some(25));
    assert_eq!((w.per_page, w.current_page, w.skip), (25, 3, 50));
    let w = page_window(Some(0), Some(5));
    assert_eq!(w.skip, (-5i64) as u64);
}

#[test]
fn page_summary_reports_next_page() {
    let w = page_window(Some(2), Some(10));
    let s = page_summary(&w, 25, 10);
    assert_eq!(s.last_visible_page, 3);
    assert!(s.has_next_page);
    assert_eq!((s.current_page, s.count, s.total, s.per_page), (2, 10, 25, 10));
    let w = page_window(Some(3), Some(10));
    let s = page_summary(&w, 25, 5);
    assert!(!s.has_next_page);
}

#[test]
fn producer_pagination_uses_32_bit_numbers() {
    let w = page_window(Some(1), Some(20));
    let p = producer_pagination(&w, 41, 20);
    assert_eq!(p.last_visible_page, 3);
    assert!(p.has_next_page);
    assert_eq!(p.current_page, 1);
    assert_eq!((p.items.count, p.items.total, p.items.per_page), (20, 41, 20));
}

#[test]
fn anime_list_window_bounds_page_and_size() {
    let params = AnimeListParams { page: 0, limit: 500, sort_by: None, order: None };
    let w = anime_list_window(&params);
    assert_eq!((w.page, w.limit, w.skip), (1, 100, 0));
    let params = AnimeListParams { page: 4, limit: 25, sort_by: None, order: None };
    let w = anime_list_window(&params);
    assert_eq!((w.page, w.limit, w.skip), (4, 25, 75));
}

#[test]
fn anime_list_sort_defaults_to_score_descending() {
    let k = anime_list_sort(&AnimeListParams { page: 1, limit: 10, sort_by: None, order: None });
    assert_eq!((k.field.as_str(), k.direction), ("score", -1));
    let k = anime_list_sort(&AnimeListParams {
        page: 1,
        limit: 10,
        sort_by: Some(AnimeListSortBy::Episodes),
        order: Some(SortOrder::Asc),
    });
    assert_eq!((k.field.as_str(), k.direction), ("episodes", 1));
    let k = anime_list_sort(&AnimeListParams { page: 1, limit: 10, sort_by: Some(AnimeListSortBy::Popularity), order: Some(SortOrder::Desc) });
    assert_eq!((k.field.as_str(), k.direction), ("popularity", -1));
}

#[test]
fn anime_list_pagination_counts_pages() {
    let w = anime_list_window(&AnimeListParams { page: 2, limit: 25, sort_by: None, order: None });
    let p = anime_list_pagination(&w, 60, 25);
    assert_eq!(p.last_visible_page, 3);
    assert!(p.has_next_page);
    assert_eq!((p.current_page, p.items.count, p.items.total, p.items.per_page), (2, 25, 60, 25));
}

#[test]
fn local_search_matches_english_title() {
    let f = local_search_filter(&AnimeSearchParams { q: "Bebop".to_string() });
    assert_eq!((f.field.as_str(), f.pattern.as_str()), ("titles.english", "Bebop"));
}

#[test]
fn user_filter_trims_email() {
    let mut p = UserListParams { page: None, limit: None, email: Some("  ann@ ".to_string()), sort_by: None, order: None };
    let f = rust_server::users::build_filter(&p).unwrap();
    assert_eq!((f.field.as_str(), f.pattern.as_str()), ("email", "ann@"));
    p.email = Some("   ".to_string());
    assert!(rust_server::users::build_filter(&p).is_none());
    p.email = None;
    assert!(rust_server::users::build_filter(&p).is_none());
}

#[test]
fn user_sort_fields_and_direction() {
    let mut p = UserListParams { page: None, limit: None, email: None, sort_by: None, order: None };
    let k = rust_server::users::build_sort(&p);
    assert_eq!((k.field.as_str(), k.direction), ("_id", 1));
    p.sort_by = Some(UserSortBy::LastLogin);
    p.order = Some(SortOrder::Desc);
    let k = rust_server::users::build_sort(&p);
    assert_eq!((k.field.as_str(), k.direction), ("last_login", -1));
    p.sort_by = Some(UserSortBy::Email);
    p.order = Some(SortOrder::Asc);
    let k = rust_server::users::build_sort(&p);
    assert_eq!((k.field.as_str(), k.direction), ("email", 1));
    p.sort_by = Some(UserSortBy::Username);
    assert_eq!(rust_server::users::build_sort(&p).field, "username");
}

#[test]
fn group_filter_and_sort() {
    let p = GroupListParams { page: None, limit: None, name: Some(" admins".to_string()), sort_by: Some(GroupSortBy::Name), order: Some(SortOrder::Desc) };
    let f = rust_server::groups::build_filter(&p).unwrap();
    assert_eq!((f.field.as_str(), f.pattern.as_str()), ("name", "admins"));
    let k = rust_server::groups::build_sort(&p);
    assert_eq!((k.field.as_str(), k.direction), ("name", -1));
    let p = GroupListParams { page: None, limit: None, name: Some("".to_string()), sort_by: None, order: None };
    assert!(rust_server::groups::build_filter(&p).is_none());
    assert_eq!(rust_server::groups::build_sort(&p).field, "_id");
}

#[test]
fn producer_filter_keeps_name_untrimmed() {
    let p = ProducerListParams { page: None, limit: None, name: Some(" Sunrise ".to_string()), sort_by: None, order: None };
    let f = rust_server::producers::build_filter(&p).unwrap();
    assert_eq!((f.field.as_str(), f.pattern.as_str()), ("name", " Sunrise "));
    let k = rust_server::producers::build_sort(&p);
    assert_eq!((k.field.as_str(), k.direction), ("name", 1));
    let p = ProducerListParams { page: None, limit: None, name: None, sort_by: Some(ProducerSortBy::MalId), order: Some(SortOrder::Desc) };
    assert!(rust_server::producers::build_filter(&p).is_none());
    let k = rust_server::producers::build_sort(&p);
    assert_eq!((k.field.as_str(), k.direction), ("mal_id", -1));
}
