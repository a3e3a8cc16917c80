use favourite_repos::repository::{RepoRecord, Repository};
use favourite_repos::source::{listing_from_response, repositories_from_records, FetchError};

#[test]
fn record_with_all_fields() {
    let record = RepoRecord {
        name: Some("tool".to_string()),
        html_url: Some("https://github.com/me/tool".to_string()),
        description: Some("A tool".to_string()),
        stargazers_count: Some(12),
    };
    let r = Repository::from_record(&record, "me");
    assert_eq!(r.name, "tool");
    assert_eq!(r.url, "https://github.com/me/tool");
    assert_eq!(r.description, "A tool");
    assert_eq!(r.stars, 12);
    assert_eq!(r.username, "me");
}

#[test]
fn record_with_missing_fields_takes_defaults() {
    let record = RepoRecord {
        name: None,
        html_url: None,
        description: None,
        stargazers_count: None,
    };
    let r = Repository::from_record(&record, "me");
    assert_eq!(r.name, "");
    assert_eq!(r.url, "");
    assert_eq!(r.description, "No description");
    assert_eq!(r.stars, 0);
    assert_eq!(r.username, "me");
}

#[test]
fn oversized_star_count_saturates() {
    let record = RepoRecord {
        name: None,
        html_url: None,
        description: None,
        stargazers_count: Some(4_294_967_296 + 7),
    };
    assert_eq!(Repository::from_record(&record, "me").stars, u32::MAX);
}

#[test]
fn largest_u32_star_count_is_kept() {
    let record = RepoRecord {
        name: None,
        html_url: None,
        description: None,
        stargazers_count: Some(4_294_967_295),
    };
    assert_eq!(Repository::from_record(&record, "me").stars, 4_294_967_295);
}

#[test]
fn listing_star_counts_out_of_range_or_negative() {
    let body = r#"[{"stargazers_count": 5000000000}, {"stargazers_count": -3}, {"stargazers_count": 2.5}]"#;
    let out = listing_from_response(200, body.to_string(), "me").unwrap();
    assert_eq!(out[0].stars, u32::MAX);
    assert_eq!(out[1].stars, 0);
    assert_eq!(out[2].stars, 0);
}

#[test]
fn same_response_gives_same_result() {
    let body = r#"[{"name": "a", "stargazers_count": 4}, {"name": "b"}]"#;
    let one = listing_from_response(200, body.to_string(), "me").unwrap();
    let two = listing_from_response(200, body.to_string(), "me").unwrap();
    assert_eq!(one.len(), two.len());
    for (x, y) in one.iter().zip(two.iter()) {
        assert_eq!(x.name, y.name);
        assert_eq!(x.stars, y.stars);
        assert_eq!(x.description, y.description);
    }
    let e1 = listing_from_response(200, "{".to_string(), "me");
    let e2 = listing_from_response(200, "{".to_string(), "me");
    match (e1, e2) {
        (Err(FetchError::Transport { message: m1 }), Err(FetchError::Transport { message: m2 })) => {
            assert!(!m1.is_empty());
            assert_eq!(m1, m2);
        }
        other => panic!("unexpected outcome: {:?}", other),
    }
}

#[test]
fn records_keep_their_order() {
    let records = vec![
        RepoRecord {
            name: Some("one".to_string()),
            html_url: None,
            description: None,
            stargazers_count: Some(1),
        },
        RepoRecord {
            name: Some("two".to_string()),
            html_url: None,
            description: None,
            stargazers_count: Some(2),
        },
    ];
    let out = repositories_from_records(&records, "u");
    assert_eq!(out.len(), 2);
    assert_eq!(out[0].name, "one");
    assert_eq!(out[1].name, "two");
    assert_eq!(out[1].username, "u");
}

#[test]
fn error_status_gives_remote_api_error() {
    match listing_from_response(403, "rate limited".to_string(), "me") {
        Err(FetchError::RemoteApi { status, body }) => {
            assert_eq!(status, 403);
            assert_eq!(body, "rate limited");
        }
        other => panic!("unexpected outcome: {:?}", other),
    }
}

#[test]
fn redirect_status_is_no_success() {
    assert!(matches!(
        listing_from_response(301, "[]".to_string(), "me"),
        Err(FetchError::RemoteApi { status: 301, .. })
    ));
}

#[test]
fn listing_body_is_parsed_with_defaults() {
    let body = r#"[
        {"name": "alpha", "html_url": "https://github.com/me/alpha", "description": "first", "stargazers_count": 3},
        {"name": "beta", "html_url": "https://github.com/me/beta", "description": null, "stargazers_count": "many"},
        {}
    ]"#;
    let out = listing_from_response(200, body.to_string(), "me").unwrap();
    assert_eq!(out.len(), 3);
    assert_eq!(out[0].name, "alpha");
    assert_eq!(out[0].url, "https://github.com/me/alpha");
    assert_eq!(out[0].description, "first");
    assert_eq!(out[0].stars, 3);
    assert_eq!(out[1].name, "beta");
    assert_eq!(out[1].description, "No description");
    assert_eq!(out[1].stars, 0);
    assert_eq!(out[2].name, "");
    assert_eq!(out[2].url, "");
    assert_eq!(out[2].username, "me");
}

#[test]
fn empty_listing_gives_no_repositories() {
    assert!(listing_from_response(200, "[]".to_string(), "me").unwrap().is_empty());
}

#[test]
fn malformed_body_gives_transport_error() {
    assert!(matches!(
        listing_from_response(200, "not json".to_string(), "me"),
        Err(FetchError::Transport { .. })
    ));
}
