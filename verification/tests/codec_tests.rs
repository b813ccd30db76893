use postfeed::codec::encode_posts_str;
use postfeed::codec::parse_posts_str;
use postfeed::post::Post;

fn post(username: &str, content: &str) -> Post {
    Post { username: String::from(username), content: String::from(content) }
}

#[test]
fn empty_list_encodes_to_empty_array() {
    assert_eq!(encode_posts_str(&Vec::new()), "[]");
}

#[test]
fn empty_array_parses_to_empty_list() {
    let parsed = parse_posts_str("[]").expect("well-formed");
    assert_eq!(parsed.len(), 0);
}

#[test]
fn one_post_encodes_compactly() {
    let posts = vec![post("alice", "hi")];
    assert_eq!(
        encode_posts_str(&posts),
        "[{\"username\":\"alice\",\"content\":\"hi\"}]"
    );
}

#[test]
fn quotes_and_backslashes_are_escaped() {
    let posts = vec![post("a\\b", "say \"hi\"")];
    let encoded = encode_posts_str(&posts);
    assert_eq!(
        encoded,
        "[{\"username\":\"a\\\\b\",\"content\":\"say \\\"hi\\\"\"}]"
    );
    let parsed = parse_posts_str(&encoded).expect("well-formed");
    assert_eq!(parsed, posts);
}

#[test]
fn several_posts_round_trip() {
    let posts = vec![post("alice", "hi"), post("bob", ""), post("", "no name")];
    let encoded = encode_posts_str(&posts);
    let parsed = parse_posts_str(&encoded).expect("well-formed");
    assert_eq!(parsed, posts);
}

#[test]
fn malformed_values_do_not_parse() {
    assert!(parse_posts_str("").is_none());
    assert!(parse_posts_str("not json").is_none());
    assert!(parse_posts_str("[").is_none());
    assert!(parse_posts_str("]").is_none());
    assert!(parse_posts_str("[]junk").is_none());
    assert!(parse_posts_str("{\"username\":\"a\",\"content\":\"b\"}").is_none());
    assert!(parse_posts_str("[{\"username\":\"a\"}]").is_none());
    assert!(parse_posts_str("[{\"username\":\"a\",\"content\":\"b\"}").is_none());
    assert!(parse_posts_str("[{\"username\":\"a\",\"content\":\"b}]").is_none());
}

#[test]
fn the_grammar_is_the_compact_form_only() {
    // the application always writes the compact form, so a spaced
    // variant counts as malformed and renders as an empty feed
    assert!(parse_posts_str("[ ]").is_none());
    assert!(parse_posts_str("[{\"username\": \"a\",\"content\": \"b\"}]").is_none());
}

#[test]
fn parse_accepts_exactly_the_stored_shape() {
    let parsed =
        parse_posts_str("[{\"username\":\"a\",\"content\":\"b\"},{\"username\":\"c\",\"content\":\"d\"}]")
            .expect("well-formed");
    assert_eq!(parsed, vec![post("a", "b"), post("c", "d")]);
}
