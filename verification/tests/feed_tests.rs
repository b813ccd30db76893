use postfeed::forms::ComposeForm;
use postfeed::forms::FeedView;
use postfeed::forms::HomeForm;
use postfeed::store::Store;
use postfeed::store::StoreKey;

fn set_username(store: &mut Store, name: &str) {
    let mut home = HomeForm::new();
    home.set_username(String::from(name));
    home.submit(store);
}

fn compose(store: &mut Store, content: &str) {
    let mut form = ComposeForm::new();
    form.set_content(String::from(content));
    form.submit(store);
}

#[test]
fn each_submit_appends_exactly_one_post() {
    let mut store = Store::new_available();
    set_username(&mut store, "alice");
    compose(&mut store, "first");
    assert_eq!(FeedView::mount(&store).posts.len(), 1);
    compose(&mut store, "second");
    assert_eq!(FeedView::mount(&store).posts.len(), 2);
    compose(&mut store, "third");
    let feed = FeedView::mount(&store);
    assert_eq!(feed.posts.len(), 3);
    assert_eq!(feed.posts[0].content, "first");
    assert_eq!(feed.posts[1].content, "second");
    assert_eq!(feed.posts[2].content, "third");
    assert!(feed.posts.iter().all(|p| p.username == "alice"));
}

#[test]
fn prior_entries_stay_unchanged() {
    let mut store = Store::new_available();
    set_username(&mut store, "alice");
    compose(&mut store, "hello");
    set_username(&mut store, "bob");
    compose(&mut store, "world");
    let feed = FeedView::mount(&store);
    assert_eq!(feed.posts.len(), 2);
    assert_eq!(feed.posts[0].username, "alice");
    assert_eq!(feed.posts[0].content, "hello");
    assert_eq!(feed.posts[1].username, "bob");
    assert_eq!(feed.posts[1].content, "world");
}

#[test]
fn submit_without_username_is_a_no_op() {
    let mut store = Store::new_available();
    compose(&mut store, "shout into the void");
    assert!(store.get(StoreKey::Posts).is_none());
    assert_eq!(FeedView::mount(&store).posts.len(), 0);
}

#[test]
fn feed_round_trips_posts_with_empty_content() {
    let mut store = Store::new_available();
    set_username(&mut store, "alice");
    compose(&mut store, "");
    compose(&mut store, "x");
    compose(&mut store, "");
    let feed = FeedView::mount(&store);
    assert_eq!(feed.posts.len(), 3);
    assert_eq!(feed.posts[0].content, "");
    assert_eq!(feed.posts[1].content, "x");
    assert_eq!(feed.posts[2].content, "");
}

#[test]
fn malformed_stored_value_renders_zero_posts() {
    let mut store = Store::new_available();
    store.set(StoreKey::Posts, String::from("not json"));
    let feed = FeedView::mount(&store);
    assert_eq!(feed.posts.len(), 0);
}

#[test]
fn alice_hi_is_stored_exactly() {
    let mut store = Store::new_available();
    set_username(&mut store, "alice");
    compose(&mut store, "hi");
    assert_eq!(
        store.get(StoreKey::Posts).as_deref(),
        Some("[{\"username\":\"alice\",\"content\":\"hi\"}]")
    );
}

#[test]
fn home_submit_stores_username_and_ignores_password() {
    let mut store = Store::new_available();
    let mut home = HomeForm::new();
    home.set_username(String::from("carol"));
    home.set_password(String::from("ignored"));
    home.submit(&mut store);
    assert_eq!(store.get(StoreKey::Username).as_deref(), Some("carol"));
    assert!(store.get(StoreKey::Posts).is_none());
    assert_eq!(home.username, "carol");
    assert_eq!(home.password, "ignored");
}

#[test]
fn empty_username_is_stored_like_any_other() {
    let mut store = Store::new_available();
    set_username(&mut store, "");
    assert_eq!(store.get(StoreKey::Username).as_deref(), Some(""));
    compose(&mut store, "anonymous note");
    let feed = FeedView::mount(&store);
    assert_eq!(feed.posts.len(), 1);
    assert_eq!(feed.posts[0].username, "");
}

#[test]
fn unavailable_store_drops_writes() {
    let mut store = Store::new_unavailable();
    assert!(!store.is_available());
    set_username(&mut store, "alice");
    assert!(store.get(StoreKey::Username).is_none());
    compose(&mut store, "lost");
    assert!(store.get(StoreKey::Posts).is_none());
    assert_eq!(FeedView::mount(&store).posts.len(), 0);
}

#[test]
fn mounting_twice_yields_the_same_feed() {
    let mut store = Store::new_available();
    set_username(&mut store, "alice");
    compose(&mut store, "hi");
    let first = FeedView::mount(&store);
    let second = FeedView::mount(&store);
    assert_eq!(first.posts, second.posts);
}

#[test]
fn render_lines_show_username_and_content() {
    let mut store = Store::new_available();
    set_username(&mut store, "alice");
    compose(&mut store, "hi");
    compose(&mut store, "");
    let feed = FeedView::mount(&store);
    let lines = feed.render_lines();
    assert_eq!(lines.len(), 2);
    assert_eq!(lines[0], "alice: hi");
    assert_eq!(lines[1], "alice: ");
}
