use catalog_access::codec::{uuid_to_base32hex, DecodeError};
use catalog_access::pagination::{
    bad_cursor_response, select_brand_page, select_comment_page, BrandRow, CommentPagination, CommentRow,
};
use catalog_access::identifier::Identifier;
use catalog_access::pagination::{clamp_limit, BrandPagination, select_page, PageRow, PaginationCursor, MAX_PAGE_LIMIT};

fn id(n: u8) -> Identifier {
    let mut b = [0u8; 16];
    b[15] = n;
    Identifier::from_bytes(b)
}

/// Five rows in ascending identifier order: r1 (newest) has the largest id.
fn five_rows() -> Vec<PageRow> {
    (1..=5u8).map(|n| PageRow { id: id(n), active: true }).collect()
}

fn cursor(limit: usize, last: Option<Identifier>, descending: bool) -> PaginationCursor {
    PaginationCursor { limit, last_seen_id: last, descending }
}

#[test]
fn descending_pages_of_two_cover_five_rows() {
    let rows = five_rows();
    let (r1, r2, r3, r4, r5) = (id(5), id(4), id(3), id(2), id(1));
    let first = select_page(&rows, &cursor(2, None, true));
    assert_eq!(first, vec![r1, r2]);
    let second = select_page(&rows, &cursor(2, Some(r2), true));
    assert_eq!(second, vec![r3, r4]);
    let third = select_page(&rows, &cursor(2, Some(r4), true));
    assert_eq!(third, vec![r5]);
    let fourth = select_page(&rows, &cursor(2, Some(r5), true));
    assert!(fourth.is_empty());
}

#[test]
fn ascending_pages_follow_the_cursor() {
    let rows = five_rows();
    assert_eq!(select_page(&rows, &cursor(3, None, false)), vec![id(1), id(2), id(3)]);
    assert_eq!(select_page(&rows, &cursor(3, Some(id(3)), false)), vec![id(4), id(5)]);
}

#[test]
fn soft_deleted_row_leaves_the_listing_in_order() {
    let mut rows = five_rows();
    let before = select_page(&rows, &cursor(10, None, true));
    rows[2].active = false;
    let after = select_page(&rows, &cursor(10, None, true));
    assert_eq!(before, vec![id(5), id(4), id(3), id(2), id(1)]);
    assert_eq!(after, vec![id(5), id(4), id(2), id(1)]);
    assert_eq!(select_page(&rows, &cursor(2, Some(id(4)), true)), vec![id(2), id(1)]);
}

#[test]
fn empty_table_gives_empty_page() {
    assert!(select_page(&Vec::new(), &cursor(10, None, true)).is_empty());
}

#[test]
fn cursor_beyond_every_row_gives_empty_page() {
    let rows = five_rows();
    assert!(select_page(&rows, &cursor(10, Some(id(0)), true)).is_empty());
    assert!(select_page(&rows, &cursor(10, Some(id(9)), false)).is_empty());
    assert_eq!(select_page(&rows, &cursor(10, Some(id(9)), true)).len(), 5);
}

#[test]
fn limits_are_clamped() {
    assert_eq!(clamp_limit(None), 10);
    assert_eq!(clamp_limit(Some(0)), 1);
    assert_eq!(clamp_limit(Some(-5)), 1);
    assert_eq!(clamp_limit(Some(25)), 25);
    assert_eq!(clamp_limit(Some(100_000)), MAX_PAGE_LIMIT);
}

#[test]
fn request_defaults_and_cursor_decoding() {
    let c = PaginationCursor::from_request(None, None, None).unwrap();
    assert_eq!(c, cursor(10, None, true));
    let text = uuid_to_base32hex(id(3));
    let c = PaginationCursor::from_request(Some(2), Some(&text), Some(false)).unwrap();
    assert_eq!(c, cursor(2, Some(id(3)), false));
    assert_eq!(PaginationCursor::from_request(Some(2), Some("short"), None), Err(DecodeError::InvalidLength));
}

#[test]
fn brand_pages_use_integer_order() {
    let p = BrandPagination { limit: None, last_id: Some(7), order_by_desc: None };
    assert_eq!(p.page_limit(), 10);
    assert!(p.is_descending());
    assert!(p.admits_id(6));
    assert!(!p.admits_id(7));
    let q = BrandPagination { limit: Some(500), last_id: Some(7), order_by_desc: Some(false) };
    assert_eq!(q.page_limit(), 100);
    assert!(q.admits_id(8));
    assert!(!q.admits_id(7));
}

#[test]
fn comment_pages_keep_to_one_product() {
    let (a, b) = (id(100), id(200));
    let rows: Vec<CommentRow> = (1..=6u8)
        .map(|n| CommentRow { id: id(n), product_id: if n % 2 == 0 { a } else { b }, active: n != 4 })
        .collect();
    let request = CommentPagination::from_request(Some(10), &uuid_to_base32hex(a), None, None).unwrap();
    assert_eq!(request.product_id, a);
    assert_eq!(select_comment_page(&rows, &request), vec![id(6), id(2)]);
    let later = CommentPagination::from_request(Some(1), &uuid_to_base32hex(b), Some(&uuid_to_base32hex(id(5))), None)
        .unwrap();
    assert_eq!(select_comment_page(&rows, &later), vec![id(3)]);
    assert_eq!(CommentPagination::from_request(None, "", None, None), Err(DecodeError::InvalidLength));
}

#[test]
fn brand_page_selection() {
    let rows: Vec<BrandRow> = (1..=5).map(|n| BrandRow { id: n, active: n != 3 }).collect();
    let first = BrandPagination { limit: Some(2), last_id: None, order_by_desc: None };
    assert_eq!(select_brand_page(&rows, &first), vec![5, 4]);
    let second = BrandPagination { limit: Some(2), last_id: Some(4), order_by_desc: None };
    assert_eq!(select_brand_page(&rows, &second), vec![2, 1]);
    let up = BrandPagination { limit: None, last_id: Some(1), order_by_desc: Some(false) };
    assert_eq!(select_brand_page(&rows, &up), vec![2, 4, 5]);
}

#[test]
fn bad_cursor_is_not_found() {
    let (code, body) = bad_cursor_response(DecodeError::InvalidAlphabet);
    assert_eq!(code, 404);
    let (status, _, message) = body.into_parts();
    assert_eq!(status, "error");
    assert_eq!(message.as_deref(), Some("Error fetching data"));
}
