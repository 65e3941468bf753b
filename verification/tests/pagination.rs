use sc_follower_avatars::pagination::Collection;

fn with_cursor(cursor: Option<&str>) -> Collection<i32> {
    Collection { collection: Vec::new(), next_href: cursor.map(|s| s.to_string()) }
}

#[test]
fn next_offset_of_plain_cursor() {
    let c = with_cursor(Some("https://api/users/1/followers?offset=42&limit=200"));
    assert_eq!(c.get_next_href_offset(), "42");
}

#[test]
fn next_offset_when_offset_is_not_first() {
    let c = with_cursor(Some("https://api/users/1/followers?limit=200&offset=7"));
    assert_eq!(c.get_next_href_offset(), "7");
}

#[test]
fn next_offset_of_cursor_without_offset_key() {
    let c = with_cursor(Some("https://api/users/1/followers?limit=200"));
    assert_eq!(c.get_next_href_offset(), "no more");
}

#[test]
fn next_offset_of_cursor_without_query() {
    let c = with_cursor(Some("not-a-paginated-url"));
    assert_eq!(c.get_next_href_offset(), "no more");
}

#[test]
fn next_offset_of_absent_cursor() {
    let c = with_cursor(None);
    assert_eq!(c.get_next_href_offset(), "no more");
    assert!(!c.have_next_href());
}

#[test]
fn has_more_on_empty_cursor_is_false() {
    assert!(!with_cursor(Some("")).have_next_href());
    assert!(with_cursor(Some("x?offset=1&")).have_next_href());
}

#[test]
fn first_request_sentinel_is_recognised() {
    assert!(with_cursor(Some("st")).is_first());
    assert!(!with_cursor(Some("station")).is_first());
    assert!(!with_cursor(None).is_first());
}

#[test]
fn offset_value_ends_at_next_separator() {
    let c = with_cursor(Some("h?offset=13&offset=99"));
    assert_eq!(c.get_next_href_offset(), "13");
}
