use sc_follower_avatars::config::Config;
use sc_follower_avatars::endpoint::App;
use sc_follower_avatars::fetch::Fetcher;
use sc_follower_avatars::pagination::Collection;
use sc_follower_avatars::records::Follower;

fn test_app() -> App {
    App::new(Config {
        user_to_fetch: "123".to_string(),
        client_token: "tok".to_string(),
        img_out_path: "out".to_string(),
        threads: 2,
    })
}

fn follower(n: &str) -> Follower {
    Follower { avatar_url: format!("https://cdn/{}.jpg", n), username: n.to_string() }
}

fn names(fs: &[Follower]) -> Vec<String> {
    fs.iter().map(|f| f.username.clone()).collect()
}

#[test]
fn two_pages_in_order() {
    let app = test_app();
    let mut fetcher = Fetcher::start();

    let first_url = fetcher.next_request(&app, "123").expect("first request owed");
    assert_eq!(
        first_url,
        "https://api-v2.soundcloud.com/users/123/followers?client_id=tok&limit=200"
    );
    fetcher.absorb(Collection {
        collection: vec![follower("a"), follower("b")],
        next_href: Some("https://api/users/123/followers?offset=2&limit=200".to_string()),
    });

    let second_url = fetcher.next_request(&app, "123").expect("second request owed");
    assert_eq!(
        second_url,
        "https://api-v2.soundcloud.com/users/123/followers?client_id=tok&limit=200&offset=2"
    );
    fetcher.absorb(Collection { collection: vec![follower("c")], next_href: None });

    assert!(fetcher.next_request(&app, "123").is_none());
    let all = fetcher.finish();
    assert_eq!(names(&all), vec!["a", "b", "c"]);
}

#[test]
fn transport_failure_keeps_first_page() {
    let app = test_app();
    let mut fetcher = Fetcher::start();

    assert!(fetcher.next_request(&app, "123").is_some());
    fetcher.absorb(Collection {
        collection: vec![follower("a"), follower("b")],
        next_href: Some("https://api/users/123/followers?offset=2&limit=200".to_string()),
    });

    // The transport fails on the second request: the caller stops the
    // loop and keeps what was accumulated, with no error raised.
    assert!(fetcher.next_request(&app, "123").is_some());
    let all = fetcher.finish();
    assert_eq!(names(&all), vec!["a", "b"]);
}

#[test]
fn cursor_without_offset_stops_pagination() {
    let app = test_app();
    let mut fetcher = Fetcher::start();
    fetcher.absorb(Collection {
        collection: vec![follower("a")],
        next_href: Some("https://api/users/123/followers?limit=200".to_string()),
    });
    assert!(fetcher.next_request(&app, "123").is_none());
    assert_eq!(fetcher.finish().len(), 1);
}

#[test]
fn empty_cursor_stops_pagination() {
    let app = test_app();
    let mut fetcher = Fetcher::start();
    fetcher.absorb(Collection { collection: vec![follower("a")], next_href: Some(String::new()) });
    assert!(fetcher.next_request(&app, "123").is_none());
}

#[test]
fn repeated_offset_stops_pagination() {
    let app = test_app();
    let mut fetcher = Fetcher::start();
    assert!(fetcher.next_request(&app, "123").is_some());

    let page = Collection {
        collection: vec![follower("a")],
        next_href: Some("https://api/users/123/followers?offset=2&limit=200".to_string()),
    };
    fetcher.absorb(page);
    assert!(fetcher.next_request(&app, "123").is_some());

    // The server answers with the same cursor again: the stall guard ends
    // the loop instead of re-requesting the same page forever.
    let same_page = Collection {
        collection: vec![follower("b")],
        next_href: Some("https://api/users/123/followers?offset=2&limit=200".to_string()),
    };
    fetcher.absorb(same_page);
    assert!(fetcher.next_request(&app, "123").is_none());
    assert_eq!(fetcher.finish().len(), 2);
}

#[test]
fn advancing_offsets_keep_paginating() {
    let app = test_app();
    let mut fetcher = Fetcher::start();
    assert!(fetcher.next_request(&app, "123").is_some());
    for off in [2, 4, 6] {
        fetcher.absorb(Collection {
            collection: vec![follower("x"), follower("y")],
            next_href: Some(format!("https://api/users/123/followers?offset={}&limit=200", off)),
        });
        let url = fetcher.next_request(&app, "123").expect("advancing cursor is followed");
        assert!(url.ends_with(&format!("&offset={}", off)));
    }
    fetcher.absorb(Collection { collection: vec![], next_href: None });
    assert!(fetcher.next_request(&app, "123").is_none());
    assert_eq!(fetcher.finish().len(), 6);
}
