use sc_follower_avatars::config::Config;
use sc_follower_avatars::endpoint::App;
use sc_follower_avatars::records::Follower;
use sc_follower_avatars::records::SearchResult;
use sc_follower_avatars::records::pick_user_result;

fn test_app() -> App {
    App::new(Config {
        user_to_fetch: "123".to_string(),
        client_token: "tok".to_string(),
        img_out_path: "out".to_string(),
        threads: 2,
    })
}

#[test]
fn endpoint_with_resources_and_args() {
    let app = test_app();
    let url = app.build_endpoint(
        vec![("users", "123".to_string()), ("followers", String::new())],
        vec![("limit", "200".to_string()), ("offset", "2".to_string())],
    );
    assert_eq!(
        url,
        "https://api-v2.soundcloud.com/users/123/followers?client_id=tok&limit=200&offset=2"
    );
}

#[test]
fn endpoint_resource_without_value() {
    let app = test_app();
    let url = app.build_endpoint(
        vec![("search", String::new())],
        vec![("q", "take".to_string())],
    );
    assert_eq!(url, "https://api-v2.soundcloud.com/search?client_id=tok&q=take");
}

#[test]
fn default_avatar_is_flagged_whatever_the_name() {
    for name in ["a", "b", ""] {
        let f = Follower {
            avatar_url: "https://cdn/images/default_avatar_large.png".to_string(),
            username: name.to_string(),
        };
        assert!(f.have_default_avatar());
    }
    let custom = Follower {
        avatar_url: "https://cdn/images/artwork-000123-large.jpg".to_string(),
        username: "a".to_string(),
    };
    assert!(!custom.have_default_avatar());
}

#[test]
fn search_entry_kind() {
    let user = SearchResult { id: 1, kind: "user".to_string(), permalink: "take".to_string() };
    let track = SearchResult { id: 2, kind: "track".to_string(), permalink: "take".to_string() };
    assert!(user.is_an_user());
    assert!(!track.is_an_user());
}

#[test]
fn first_matching_search_entry_wins() {
    let results = vec![
        SearchResult { id: 1, kind: "track".to_string(), permalink: "take".to_string() },
        SearchResult { id: 2, kind: "user".to_string(), permalink: "other".to_string() },
        SearchResult { id: 3, kind: "user".to_string(), permalink: "take".to_string() },
        SearchResult { id: 4, kind: "user".to_string(), permalink: "take".to_string() },
    ];
    assert_eq!(pick_user_result(&results, "take"), Some(3));
}

#[test]
fn no_matching_search_entry() {
    let results = vec![
        SearchResult { id: 1, kind: "track".to_string(), permalink: "take".to_string() },
    ];
    assert_eq!(pick_user_result(&results, "take"), None);
    assert_eq!(pick_user_result(&Vec::new(), "take"), None);
}
