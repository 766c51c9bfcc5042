use social_directory::data::{AccountStats, Data, FollowEdge, RawAccount};
use social_directory::join::{resolve, JoinError};
use social_directory::store::{FetchError, RefreshError, Store};
use social_directory::utils::{add_near_suffix, make_image, make_image_url};

fn raw_account(id: u64, username: &str) -> RawAccount {
    RawAccount {
        id,
        username: username.to_string(),
        domain: None,
        created_at: "2022-03-07T19:41:55.929584".to_string(),
        note: String::new(),
        display_name: String::new(),
        avatar_file_name: None,
        avatar_content_type: None,
        avatar_file_size: None,
        header_file_name: None,
        header_content_type: None,
        header_file_size: None,
        fields: Vec::new(),
        actor_type: "Person".to_string(),
        discoverable: true,
        statuses_count: 0,
        last_status_at: None,
    }
}

fn edge(source: u64, target: u64) -> FollowEdge {
    FollowEdge {
        id: 0,
        created_at: "2022-02-17T20:51:20.940777".to_string(),
        account_id: source,
        target_account_id: target,
    }
}

fn stats(account_id: u64, statuses_count: u64, last_status_at: Option<&str>) -> AccountStats {
    AccountStats {
        id: 0,
        account_id,
        statuses_count,
        following_count: 0,
        created_at: "2022-02-10T00:41:25.3457".to_string(),
        last_status_at: last_status_at.map(|s| s.to_string()),
    }
}

#[test]
fn add_near_suffix_appends_domain() {
    assert_eq!(add_near_suffix(&"alice".to_string()), "alice.near");
    assert_eq!(add_near_suffix(&String::new()), ".near");
}

#[test]
fn image_url_is_sharded_and_zero_padded() {
    let url = make_image_url("avatars", 1, "a.jpg");
    assert_eq!(
        url,
        "https://mastodon.near.social/system/accounts/avatars/000/000/000/000/000/001/original/a.jpg"
    );
}

#[test]
fn image_url_for_full_width_identifier() {
    let url = make_image_url("headers", 107916959145894674, "d1cd99c5c40bc501.jpeg");
    assert_eq!(
        url,
        "https://mastodon.near.social/system/accounts/headers/107/916/959/145/894/674/original/d1cd99c5c40bc501.jpeg"
    );
}

#[test]
fn make_image_absent_triple_gives_none() {
    assert!(make_image(7, "avatars", None, None, None).is_none());
}

#[test]
fn make_image_present_triple_gives_descriptor() {
    let img = make_image(
        7,
        "avatars",
        Some("pic.png".to_string()),
        Some("image/png".to_string()),
        Some(1234),
    )
    .expect("descriptor expected");
    assert_eq!(
        img.url,
        "https://mastodon.near.social/system/accounts/avatars/000/000/000/000/000/007/original/pic.png"
    );
    assert_eq!(img.content_type, "image/png");
    assert_eq!(img.file_size, 1234);
}

#[test]
fn resolve_maps_every_account() {
    let accounts = vec![raw_account(1, "alice"), raw_account(2, "bob")];
    let ids = resolve(&accounts).expect("bijection expected");
    assert_eq!(ids, vec!["alice.near".to_string(), "bob.near".to_string()]);
}

#[test]
fn resolve_rejects_duplicate_numeric_id() {
    let accounts = vec![raw_account(1, "alice"), raw_account(1, "bob")];
    assert_eq!(resolve(&accounts), Err(JoinError::DuplicateIdentity));
}

#[test]
fn end_to_end_example() {
    let accounts = vec![raw_account(1, "alice"), raw_account(2, "bob")];
    let edges = vec![edge(1, 2)];
    let feed_stats = vec![stats(2, 5, Some("2022-01-01"))];
    let data = Data::build(accounts, feed_stats, edges).expect("build should succeed");

    let alice = data.get_account(&"alice.near".to_string()).expect("alice expected");
    assert_eq!(alice.account_id, "alice.near");
    assert_eq!(alice.following, vec!["bob.near".to_string()]);
    assert!(alice.followers.is_empty());
    assert_eq!(alice.statuses_count, 0);
    assert!(alice.avatar.is_none());
    assert!(alice.header.is_none());

    let bob = data.get_account(&"bob.near".to_string()).expect("bob expected");
    assert_eq!(bob.followers, vec!["alice.near".to_string()]);
    assert!(bob.following.is_empty());
    assert_eq!(bob.statuses_count, 5);
    assert!(bob.avatar.is_none());
    assert!(bob.header.is_none());
}

#[test]
fn edge_inversion_exact_lists() {
    let accounts = vec![raw_account(1, "a"), raw_account(2, "b"), raw_account(3, "c")];
    let edges = vec![edge(1, 2), edge(1, 3), edge(3, 1), edge(2, 1)];
    let data = Data::build(accounts, Vec::new(), edges).expect("build should succeed");

    let a = data.get_account(&"a.near".to_string()).unwrap();
    assert_eq!(a.following, vec!["b.near".to_string(), "c.near".to_string()]);
    assert_eq!(a.followers, vec!["c.near".to_string(), "b.near".to_string()]);

    let b = data.get_account(&"b.near".to_string()).unwrap();
    assert_eq!(b.following, vec!["a.near".to_string()]);
    assert_eq!(b.followers, vec!["a.near".to_string()]);

    let c = data.get_account(&"c.near".to_string()).unwrap();
    assert_eq!(c.following, vec!["a.near".to_string()]);
    assert_eq!(c.followers, vec!["a.near".to_string()]);
}

#[test]
fn stats_merge_defaults_when_absent() {
    let accounts = vec![raw_account(1, "alice"), raw_account(2, "bob")];
    let feed_stats = vec![stats(2, 9, Some("2022-01-01"))];
    let data = Data::build(accounts, feed_stats, Vec::new()).unwrap();
    let alice = data.get_account(&"alice.near".to_string()).unwrap();
    assert_eq!(alice.statuses_count, 0);
    let bob = data.get_account(&"bob.near".to_string()).unwrap();
    assert_eq!(bob.statuses_count, 9);
}

#[test]
fn stats_for_unknown_account_are_ignored() {
    let accounts = vec![raw_account(1, "alice")];
    let feed_stats = vec![stats(42, 7, None)];
    let data = Data::build(accounts, feed_stats, Vec::new()).unwrap();
    let alice = data.get_account(&"alice.near".to_string()).unwrap();
    assert_eq!(alice.statuses_count, 0);
}

#[test]
fn last_matching_stats_record_wins() {
    let accounts = vec![raw_account(1, "alice")];
    let feed_stats = vec![stats(1, 3, None), stats(1, 8, None)];
    let data = Data::build(accounts, feed_stats, Vec::new()).unwrap();
    let alice = data.get_account(&"alice.near".to_string()).unwrap();
    assert_eq!(alice.statuses_count, 8);
}

#[test]
fn duplicate_numeric_id_rejected() {
    let accounts = vec![raw_account(1, "alice"), raw_account(1, "bob")];
    let r = Data::build(accounts, Vec::new(), Vec::new());
    assert_eq!(r.err(), Some(JoinError::DuplicateIdentity));
}

#[test]
fn duplicate_username_rejected() {
    let accounts = vec![raw_account(1, "alice"), raw_account(2, "alice")];
    let r = Data::build(accounts, Vec::new(), Vec::new());
    assert_eq!(r.err(), Some(JoinError::DuplicateIdentity));
}

#[test]
fn dangling_edge_rejected() {
    let accounts = vec![raw_account(1, "alice")];
    let edges = vec![edge(1, 99)];
    let r = Data::build(accounts, Vec::new(), edges);
    assert_eq!(r.err(), Some(JoinError::DanglingEdge));

    let accounts = vec![raw_account(1, "alice")];
    let edges = vec![edge(99, 1)];
    let r = Data::build(accounts, Vec::new(), edges);
    assert_eq!(r.err(), Some(JoinError::DanglingEdge));
}

#[test]
fn partial_media_triple_rejected() {
    let mut a = raw_account(1, "alice");
    a.avatar_file_name = Some("x.png".to_string());
    let r = Data::build(vec![a], Vec::new(), Vec::new());
    assert_eq!(r.err(), Some(JoinError::MalformedMediaTriple));

    let mut a = raw_account(1, "alice");
    a.header_content_type = Some("image/png".to_string());
    a.header_file_size = Some(10);
    let r = Data::build(vec![a], Vec::new(), Vec::new());
    assert_eq!(r.err(), Some(JoinError::MalformedMediaTriple));
}

#[test]
fn full_media_triple_materializes() {
    let mut a = raw_account(1, "alice");
    a.avatar_file_name = Some("x.png".to_string());
    a.avatar_content_type = Some("image/png".to_string());
    a.avatar_file_size = Some(10);
    let data = Data::build(vec![a], Vec::new(), Vec::new()).unwrap();
    let alice = data.get_account(&"alice.near".to_string()).unwrap();
    let avatar = alice.avatar.expect("avatar expected");
    assert_eq!(
        avatar.url,
        "https://mastodon.near.social/system/accounts/avatars/000/000/000/000/000/001/original/x.png"
    );
    assert_eq!(avatar.content_type, "image/png");
    assert_eq!(avatar.file_size, 10);
    assert!(alice.header.is_none());
}

#[test]
fn lookup_absent_key_gives_none() {
    let data = Data::build(vec![raw_account(1, "alice")], Vec::new(), Vec::new()).unwrap();
    assert!(data.get_account(&"bob.near".to_string()).is_none());
    assert!(data.get_account(&"alice".to_string()).is_none());
}

#[test]
fn empty_feeds_build_empty_snapshot() {
    let data = Data::build(Vec::new(), Vec::new(), Vec::new()).expect("empty build succeeds");
    assert_eq!(data.accounts.len(), 0);
    assert!(data.get_account(&"alice.near".to_string()).is_none());
}

#[test]
fn text_and_profile_fields_copied_through() {
    let mut a = raw_account(1, "alice");
    a.note = "hello".to_string();
    a.display_name = "Alice".to_string();
    a.fields = vec![social_directory::data::AccountField {
        name: "hey".to_string(),
        value: "ho".to_string(),
    }];
    let data = Data::build(vec![a], Vec::new(), Vec::new()).unwrap();
    let alice = data.get_account(&"alice.near".to_string()).unwrap();
    assert_eq!(alice.note, "hello");
    assert_eq!(alice.display_name, "Alice");
    assert_eq!(alice.fields.len(), 1);
    assert_eq!(alice.fields[0].name, "hey");
    assert_eq!(alice.fields[0].value, "ho");
}

#[test]
fn install_replaces_whole_snapshot() {
    let first = Data::build(vec![raw_account(1, "alice")], Vec::new(), Vec::new()).unwrap();
    let second = Data::build(vec![raw_account(2, "bob")], Vec::new(), Vec::new()).unwrap();
    let mut store = Store::new(first);
    assert!(store.lookup(&"alice.near".to_string()).is_some());
    store.install(second);
    assert!(store.lookup(&"alice.near".to_string()).is_none());
    assert!(store.lookup(&"bob.near".to_string()).is_some());
}

#[test]
fn refresh_success_installs_new_generation() {
    let first = Data::build(vec![raw_account(1, "alice")], Vec::new(), Vec::new()).unwrap();
    let mut store = Store::new(first);
    let r = store.refresh(Ok((
        vec![raw_account(2, "bob")],
        vec![stats(2, 4, None)],
        Vec::new(),
    )));
    assert_eq!(r, Ok(()));
    assert!(store.lookup(&"alice.near".to_string()).is_none());
    let bob = store.lookup(&"bob.near".to_string()).unwrap();
    assert_eq!(bob.statuses_count, 4);
}

#[test]
fn refresh_failure_leaves_previous_generation() {
    let accounts = vec![raw_account(1, "alice"), raw_account(2, "bob")];
    let edges = vec![edge(1, 2)];
    let first = Data::build(accounts, Vec::new(), edges).unwrap();
    let mut store = Store::new(first);

    let r = store.refresh(Err(FetchError::Transport));
    assert_eq!(r, Err(RefreshError::Fetch));
    let r = store.refresh(Err(FetchError::Decode));
    assert_eq!(r, Err(RefreshError::Decode));
    let r = store.refresh(Ok((
        vec![raw_account(3, "mallory")],
        Vec::new(),
        vec![edge(3, 99)],
    )));
    assert_eq!(r, Err(RefreshError::Join(JoinError::DanglingEdge)));

    let alice = store.lookup(&"alice.near".to_string()).expect("previous generation expected");
    assert_eq!(alice.account_id, "alice.near");
    assert_eq!(alice.following, vec!["bob.near".to_string()]);
    assert!(store.lookup(&"mallory.near".to_string()).is_none());
}
