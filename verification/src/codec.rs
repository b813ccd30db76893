//! The persisted form of the post list: a JSON array of objects
//! `{"username": ..., "content": ...}` in insertion order, and a verified
//! parser for it. Whatever fails to parse is treated by the callers as an
//! empty list, never as a failure.

use vstd::prelude::*;
use vstd::string::StrSliceExecFns;
use vstd::string::StringExecFns;
use crate::post::Post;
use crate::post::PostV;
use crate::strutil::str_eq;

verus! {

// ---------------------------------------------------------------------
// Encoding, at the specification level.
// ---------------------------------------------------------------------

/// Escaping for one character inside a quoted string: quote and
/// backslash get a backslash prefix, every other character stands as is.
pub open spec fn esc_char(c: char) -> Seq<char> {
    if c == '"' || c == '\\' {
        seq!['\\', c]
    } else {
        seq![c]
    }
}

/// A whole string, escaped character by character.
pub open spec fn esc_string(s: Seq<char>) -> Seq<char>
    decreases s.len(),
{
    if s.len() == 0 {
        Seq::empty()
    } else {
        esc_char(s[0]) + esc_string(s.drop_first())
    }
}

/// A quoted string literal for `s`.
pub open spec fn quoted(s: Seq<char>) -> Seq<char> {
    seq!['"'] + esc_string(s) + seq!['"']
}

/// The quoted `username` key with its separating colon.
pub open spec fn key_username() -> Seq<char> {
    "\"username\":"@
}

/// The quoted `content` key with its separating colon.
pub open spec fn key_content() -> Seq<char> {
    "\"content\":"@
}

/// One post as an object with the two fixed keys in fixed order.
pub open spec fn encode_post(p: PostV) -> Seq<char> {
    seq!['{'] + key_username() + quoted(p.username) + seq![','] + key_content() + quoted(
        p.content,
    ) + seq!['}']
}

/// The comma-separated members of the array.
pub open spec fn encode_body(l: Seq<PostV>) -> Seq<char>
    decreases l.len(),
{
    if l.len() == 0 {
        Seq::empty()
    } else if l.len() == 1 {
        encode_post(l[0])
    } else {
        encode_post(l[0]) + seq![','] + encode_body(l.drop_first())
    }
}

/// The stored form of a whole post list.
pub open spec fn encode_posts(l: Seq<PostV>) -> Seq<char> {
    seq!['['] + encode_body(l) + seq![']']
}

// ---------------------------------------------------------------------
// Parsing, at the specification level.
// ---------------------------------------------------------------------

/// Does `lit` occur in `s` at position `i`?
pub open spec fn match_at(s: Seq<char>, i: int, lit: Seq<char>) -> bool {
    0 <= i && i + lit.len() <= s.len() && s.subrange(i, i + lit.len()) == lit
}

/// Parse the body of a quoted string starting at `i`, just after the
/// opening quote, up to and including the closing quote. Yields the
/// unescaped characters and the position after the closing quote.
pub open spec fn parse_string_at(s: Seq<char>, i: int) -> Option<(Seq<char>, int)>
    decreases s.len() - i,
{
    if i < 0 || i >= s.len() {
        None
    } else if s[i] == '"' {
        Some((Seq::empty(), i + 1))
    } else if s[i] == '\\' {
        if i + 1 < s.len() && (s[i + 1] == '"' || s[i + 1] == '\\') {
            match parse_string_at(s, i + 2) {
                Some((t, j)) => Some((seq![s[i + 1]] + t, j)),
                None => None,
            }
        } else {
            None
        }
    } else {
        match parse_string_at(s, i + 1) {
            Some((t, j)) => Some((seq![s[i]] + t, j)),
            None => None,
        }
    }
}

/// Parse one post object at position `i`.
pub open spec fn parse_post_at(s: Seq<char>, i: int) -> Option<(PostV, int)> {
    let opening = seq!['{'] + key_username() + seq!['"'];
    if match_at(s, i, opening) {
        match parse_string_at(s, i + opening.len()) {
            Some((u, j)) => {
                let middle = seq![','] + key_content() + seq!['"'];
                if match_at(s, j, middle) {
                    match parse_string_at(s, j + middle.len()) {
                        Some((c, k)) => {
                            if k < s.len() && s[k] == '}' {
                                Some(((PostV { username: u, content: c }), k + 1))
                            } else {
                                None
                            }
                        },
                        None => None,
                    }
                } else {
                    None
                }
            },
            None => None,
        }
    } else {
        None
    }
}

/// Parse `post (',' post)* ']'` starting at `i`; yields the posts and the
/// position after the closing bracket. The bound check on `j` can never
/// fail, because a parsed post is at least one character wide; it only
/// makes the recursion visibly well-founded.
pub open spec fn parse_items_at(s: Seq<char>, i: int) -> Option<(Seq<PostV>, int)>
    decreases s.len() - i,
{
    match parse_post_at(s, i) {
        Some((p, j)) => {
            if j <= i || j > s.len() {
                None
            } else if j < s.len() && s[j] == ',' {
                match parse_items_at(s, j + 1) {
                    Some((l, k)) => Some((seq![p] + l, k)),
                    None => None,
                }
            } else if j < s.len() && s[j] == ']' {
                Some((seq![p], j + 1))
            } else {
                None
            }
        },
        None => None,
    }
}

/// Parse a full stored value: an array of posts covering all of `s`.
pub open spec fn parse_posts(s: Seq<char>) -> Option<Seq<PostV>> {
    if s.len() == 2 && s[0] == '[' && s[1] == ']' {
        Some(Seq::empty())
    } else if s.len() >= 2 && s[0] == '[' {
        match parse_items_at(s, 1) {
            Some((l, k)) => if k == s.len() {
                Some(l)
            } else {
                None
            },
            None => None,
        }
    } else {
        None
    }
}

/// What the application sees in a stored `posts` value: the parsed list,
/// or the empty list when the key is missing or the value is malformed.
pub open spec fn posts_of(stored: Option<Seq<char>>) -> Seq<PostV> {
    match stored {
        Some(s) => match parse_posts(s) {
            Some(l) => l,
            None => Seq::empty(),
        },
        None => Seq::empty(),
    }
}

// ---------------------------------------------------------------------
// Facts about the specification parser.
// ---------------------------------------------------------------------

/// A successful string parse always moves forward and stays in bounds.
proof fn lemma_parse_string_advances(s: Seq<char>, i: int)
    ensures
        match parse_string_at(s, i) {
            Some((t, j)) => i < j <= s.len(),
            None => true,
        },
    decreases s.len() - i,
{
    if 0 <= i < s.len() {
        if s[i] == '"' {
        } else if s[i] == '\\' {
            if i + 1 < s.len() && (s[i + 1] == '"' || s[i + 1] == '\\') {
                lemma_parse_string_advances(s, i + 2);
            }
        } else {
            lemma_parse_string_advances(s, i + 1);
        }
    }
}

/// Carve a smaller slice out of a known subrange of `s`.
proof fn lemma_subrange_of_known(s: Seq<char>, i: int, w: Seq<char>, a: int, b: int)
    requires
        0 <= i,
        i + w.len() <= s.len(),
        s.subrange(i, i + w.len()) == w,
        0 <= a <= b <= w.len(),
    ensures
        s.subrange(i + a, i + b) == w.subrange(a, b),
{
    assert forall|k: int| 0 <= k < b - a implies s.subrange(i + a, i + b)[k] == w.subrange(a, b)[k] by {
        assert(s.subrange(i + a, i + b)[k] == s[i + a + k]);
        assert(s.subrange(i, i + w.len())[a + k] == s[i + a + k]);
    }
    assert(s.subrange(i + a, i + b) =~= w.subrange(a, b));
}

/// A successful post parse always moves forward and stays in bounds.
proof fn lemma_parse_post_advances(s: Seq<char>, i: int)
    ensures
        match parse_post_at(s, i) {
            Some((p, j)) => i < j <= s.len(),
            None => true,
        },
{
    let opening = seq!['{'] + key_username() + seq!['"'];
    if match_at(s, i, opening) {
        lemma_parse_string_advances(s, i + opening.len());
        match parse_string_at(s, i + opening.len()) {
            Some((u, j)) => {
                let middle = seq![','] + key_content() + seq!['"'];
                if match_at(s, j, middle) {
                    lemma_parse_string_advances(s, j + middle.len());
                }
            },
            None => {},
        }
    }
}

// ---------------------------------------------------------------------
// The round trip: the encoder's output parses back to the same list.
// ---------------------------------------------------------------------

/// An encoded post is never shorter than its fixed punctuation.
proof fn lemma_encode_post_len(p: PostV)
    ensures
        encode_post(p).len() >= 3,
{
}

/// An escaped string followed by its closing quote parses back to the
/// original string.
proof fn lemma_parse_string_of_esc(t: Seq<char>, s: Seq<char>, i: int)
    requires
        0 <= i,
        i + esc_string(t).len() + 1 <= s.len(),
        s.subrange(i, i + esc_string(t).len() + 1) == esc_string(t) + seq!['"'],
    ensures
        parse_string_at(s, i) == Some((t, i + esc_string(t).len() + 1)),
    decreases t.len(),
{
    let e = esc_string(t);
    let j = i + e.len() + 1;
    let w = e + seq!['"'];
    if t.len() == 0 {
        assert(e =~= Seq::<char>::empty());
        assert(s[i] == '"') by {
            assert(s.subrange(i, j)[0] == s[i]);
        }
        assert(t =~= Seq::<char>::empty());
    } else {
        let t1 = t.drop_first();
        let e1 = esc_string(t1);
        if t[0] == '"' || t[0] == '\\' {
            assert(s[i] == '\\') by {
                assert(s.subrange(i, j)[0] == s[i]);
            }
            assert(s[i + 1] == t[0]) by {
                assert(s.subrange(i, j)[1] == s[i + 1]);
            }
            lemma_subrange_of_known(s, i, w, 2, w.len() as int);
            assert(w.subrange(2, w.len() as int) =~= e1 + seq!['"']);
            lemma_parse_string_of_esc(t1, s, i + 2);
            assert(seq![s[i + 1]] + t1 =~= t);
        } else {
            assert(s[i] == t[0]) by {
                assert(s.subrange(i, j)[0] == s[i]);
            }
            lemma_subrange_of_known(s, i, w, 1, w.len() as int);
            assert(w.subrange(1, w.len() as int) =~= e1 + seq!['"']);
            lemma_parse_string_of_esc(t1, s, i + 1);
            assert(seq![s[i]] + t1 =~= t);
        }
    }
}

/// An encoded post parses back to the same post.
proof fn lemma_parse_post_of_encode(p: PostV, s: Seq<char>, i: int)
    requires
        0 <= i,
        i + encode_post(p).len() <= s.len(),
        s.subrange(i, i + encode_post(p).len()) == encode_post(p),
    ensures
        parse_post_at(s, i) == Some((p, i + encode_post(p).len())),
{
    let ep = encode_post(p);
    let opening = seq!['{'] + key_username() + seq!['"'];
    let middle = seq![','] + key_content() + seq!['"'];
    let eu = esc_string(p.username);
    let ec = esc_string(p.content);
    let a1 = opening.len() as int;
    let a2 = a1 + eu.len() + 1;
    let a3 = a2 + middle.len();
    let a4 = a3 + ec.len() + 1;
    assert(ep.len() == a4 + 1);

    lemma_subrange_of_known(s, i, ep, 0, a1);
    assert(ep.subrange(0, a1) =~= opening);
    assert(s.subrange(i, i + a1) =~= opening);

    lemma_subrange_of_known(s, i, ep, a1, a2);
    assert(ep.subrange(a1, a2) =~= eu + seq!['"']);
    lemma_parse_string_of_esc(p.username, s, i + a1);

    lemma_subrange_of_known(s, i, ep, a2, a3);
    assert(ep.subrange(a2, a3) =~= middle);

    lemma_subrange_of_known(s, i, ep, a3, a4);
    assert(ep.subrange(a3, a4) =~= ec + seq!['"']);
    lemma_parse_string_of_esc(p.content, s, i + a3);

    assert(s[i + a4] == '}') by {
        assert(s.subrange(i, i + ep.len() as int)[a4] == s[i + a4]);
        assert(ep[a4] == '}');
    }
    assert(parse_post_at(s, i) == Some((p, i + ep.len() as int)));
}

/// An encoded non-empty list followed by the closing bracket parses back
/// to the same list.
proof fn lemma_parse_items_of_encode(l: Seq<PostV>, s: Seq<char>, i: int)
    requires
        l.len() > 0,
        0 <= i,
        s.len() == i + encode_body(l).len() + 1,
        s.subrange(i, s.len() as int) == encode_body(l) + seq![']'],
    ensures
        parse_items_at(s, i) == Some((l, s.len() as int)),
    decreases l.len(),
{
    let eb = encode_body(l);
    let ep0 = encode_post(l[0]);
    let w = eb + seq![']'];
    lemma_encode_post_len(l[0]);
    let j = i + ep0.len();
    if l.len() == 1 {
        lemma_subrange_of_known(s, i, w, 0, ep0.len() as int);
        assert(w.subrange(0, ep0.len() as int) =~= ep0);
        lemma_parse_post_of_encode(l[0], s, i);
        assert(s[j] == ']') by {
            assert(s.subrange(i, s.len() as int)[ep0.len() as int] == s[j]);
        }
        assert(seq![l[0]] =~= l);
    } else {
        let l1 = l.drop_first();
        lemma_subrange_of_known(s, i, w, 0, ep0.len() as int);
        assert(w.subrange(0, ep0.len() as int) =~= ep0);
        lemma_parse_post_of_encode(l[0], s, i);
        assert(s[j] == ',') by {
            assert(s.subrange(i, s.len() as int)[ep0.len() as int] == s[j]);
        }
        lemma_subrange_of_known(s, i, w, ep0.len() as int + 1, w.len() as int);
        assert(w.subrange(ep0.len() as int + 1, w.len() as int) =~= encode_body(l1) + seq![']']);
        lemma_parse_items_of_encode(l1, s, j + 1);
        assert(seq![l[0]] + l1 =~= l);
    }
}

/// The round trip at the list level: what the encoder writes, the parser
/// reads back unchanged. This is what makes the feed a faithful image of
/// every post that was ever written.
pub proof fn lemma_parse_encode(l: Seq<PostV>)
    ensures
        parse_posts(encode_posts(l)) == Some(l),
{
    let s = encode_posts(l);
    if l.len() == 0 {
        assert(encode_body(l) =~= Seq::<char>::empty());
        assert(s =~= seq!['[', ']']);
        assert(Seq::<PostV>::empty() =~= l);
    } else {
        lemma_encode_post_len(l[0]);
        assert(s[0] == '[');
        assert(s.subrange(1, s.len() as int) =~= encode_body(l) + seq![']']);
        lemma_parse_items_of_encode(l, s, 1);
    }
}

/// Writing a list and then reading the stored value yields the very same
/// list, empty-content posts included.
pub proof fn lemma_posts_round_trip(l: Seq<PostV>)
    ensures
        posts_of(Some(encode_posts(l))) == l,
{
    lemma_parse_encode(l);
}

// ---------------------------------------------------------------------
// The executable encoder.
// ---------------------------------------------------------------------

/// Escaping distributes over appending one character.
proof fn lemma_esc_string_push(t: Seq<char>, c: char)
    ensures
        esc_string(t.push(c)) == esc_string(t) + esc_char(c),
    decreases t.len(),
{
    if t.len() == 0 {
        assert(t.push(c)[0] == c);
        assert(t.push(c).drop_first() =~= Seq::<char>::empty());
        assert(esc_string(t.push(c)) == esc_char(c) + esc_string(Seq::<char>::empty()));
        assert(esc_char(c) + Seq::<char>::empty() =~= esc_char(c));
        assert(esc_string(t) + esc_char(c) =~= esc_char(c));
    } else {
        assert(t.push(c)[0] == t[0]);
        assert(t.push(c).drop_first() =~= t.drop_first().push(c));
        lemma_esc_string_push(t.drop_first(), c);
        assert(esc_char(t[0]) + (esc_string(t.drop_first()) + esc_char(c)) =~= (esc_char(t[0])
            + esc_string(t.drop_first())) + esc_char(c));
    }
}

/// Encoding one more post appends it, with a separating comma when the
/// list was not empty.
proof fn lemma_encode_body_push(l: Seq<PostV>, p: PostV)
    ensures
        encode_body(l.push(p)) == if l.len() == 0 {
            encode_post(p)
        } else {
            encode_body(l) + seq![','] + encode_post(p)
        },
    decreases l.len(),
{
    let lp = l.push(p);
    if l.len() == 0 {
        assert(lp.len() == 1);
        assert(lp[0] == p);
    } else {
        assert(lp[0] == l[0]);
        assert(lp.drop_first() =~= l.drop_first().push(p));
        lemma_encode_body_push(l.drop_first(), p);
        if l.len() == 1 {
            assert(l.drop_first().len() == 0);
            assert(encode_body(lp) == encode_post(l[0]) + seq![','] + encode_post(p));
            assert(encode_body(l) == encode_post(l[0]));
        } else {
            assert(encode_body(lp) == encode_post(l[0]) + seq![','] + (encode_body(l.drop_first())
                + seq![','] + encode_post(p)));
            assert(encode_post(l[0]) + seq![','] + (encode_body(l.drop_first()) + seq![',']
                + encode_post(p)) =~= (encode_post(l[0]) + seq![','] + encode_body(l.drop_first()))
                + seq![','] + encode_post(p));
        }
    }
}

/// Append the escaped form of `s` to `out`.
fn append_escaped(out: &mut String, s: &str)
    ensures
        final(out)@ == old(out)@ + esc_string(s@),
{
    let n = s.unicode_len();
    let mut i: usize = 0;
    proof {
        assert(s@.subrange(0, 0) =~= Seq::<char>::empty());
        assert(esc_string(Seq::<char>::empty()) =~= Seq::<char>::empty());
        assert(old(out)@ + Seq::<char>::empty() =~= old(out)@);
    }
    while i < n
        invariant
            n == s@.len(),
            i <= n,
            out@ == old(out)@ + esc_string(s@.subrange(0, i as int)),
        decreases n - i,
    {
        let ghost pre = s@.subrange(0, i as int);
        let ghost c = s@[i as int];
        let cc = s.get_char(i);
        if cc == '"' || cc == '\\' {
            out.append("\\");
        }
        out.append(s.substring_char(i, i + 1));
        proof {
            reveal_strlit("\\");
            assert("\\"@ =~= seq!['\\']);
            assert(s@.subrange(i as int, i as int + 1) =~= seq![c]);
            lemma_esc_string_push(pre, c);
            assert(s@.subrange(0, i as int + 1) =~= pre.push(c));
            if c == '"' || c == '\\' {
                assert(esc_char(c) =~= seq!['\\'] + seq![c]);
                assert(((old(out)@ + esc_string(pre)) + seq!['\\']) + seq![c] =~= old(out)@ + (
                esc_string(pre) + esc_char(c)));
            } else {
                assert(esc_char(c) =~= seq![c]);
                assert((old(out)@ + esc_string(pre)) + seq![c] =~= old(out)@ + (esc_string(pre)
                    + esc_char(c)));
            }
        }
        i = i + 1;
    }
    proof {
        assert(s@.subrange(0, n as int) =~= s@);
    }
}

/// Append the encoded form of one post to `out`.
fn append_post(out: &mut String, p: &Post)
    ensures
        final(out)@ == old(out)@ + encode_post(p@),
{
    out.append("{\"username\":\"");
    append_escaped(out, p.username.as_str());
    out.append("\",\"content\":\"");
    append_escaped(out, p.content.as_str());
    out.append("\"}");
    proof {
        reveal_strlit("{\"username\":\"");
        reveal_strlit("\"username\":");
        reveal_strlit("\",\"content\":\"");
        reveal_strlit("\"content\":");
        reveal_strlit("\"}");
        assert("{\"username\":\""@ =~= seq!['{'] + key_username() + seq!['"']);
        assert("\",\"content\":\""@ =~= seq!['"'] + seq![','] + key_content() + seq!['"']);
        assert("\"}"@ =~= seq!['"'] + seq!['}']);
        assert(out@ =~= old(out)@ + encode_post(p@));
    }
}

/// Serialize a post list to its stored form.
pub fn encode_posts_str(posts: &Vec<Post>) -> (r: String)
    ensures
        r@ == encode_posts(posts.deep_view()),
{
    let ghost l = posts.deep_view();
    let mut out = String::new();
    out.append("[");
    proof {
        reveal_strlit("[");
        assert("["@ =~= seq!['[']);
        assert(l.subrange(0, 0) =~= Seq::<PostV>::empty());
        assert(out@ =~= seq!['['] + encode_body(l.subrange(0, 0)));
    }
    let mut i: usize = 0;
    while i < posts.len()
        invariant
            l == posts.deep_view(),
            l.len() == posts@.len(),
            i <= posts@.len(),
            out@ == seq!['['] + encode_body(l.subrange(0, i as int)),
        decreases posts@.len() - i,
    {
        let ghost pre = l.subrange(0, i as int);
        if i > 0 {
            out.append(",");
        }
        append_post(&mut out, &posts[i]);
        proof {
            reveal_strlit(",");
            assert(","@ =~= seq![',']);
            assert(l[i as int] == posts@[i as int].deep_view());
            assert(posts[i as int]@ == l[i as int]);
            assert(l.subrange(0, i as int + 1) =~= pre.push(l[i as int]));
            lemma_encode_body_push(pre, l[i as int]);
            if i == 0 {
                assert(pre.len() == 0);
                assert(out@ =~= seq!['['] + encode_body(l.subrange(0, i as int + 1)));
            } else {
                assert(((seq!['['] + encode_body(pre)) + seq![',']) + encode_post(l[i as int]) =~= seq![
                    '[',
                ] + (encode_body(pre) + seq![','] + encode_post(l[i as int])));
            }
        }
        i = i + 1;
    }
    out.append("]");
    proof {
        reveal_strlit("]");
        assert("]"@ =~= seq![']']);
        assert(l.subrange(0, l.len() as int) =~= l);
        assert(out@ =~= seq!['['] + encode_body(l) + seq![']']);
    }
    out
}

// ---------------------------------------------------------------------
// The executable parser.
// ---------------------------------------------------------------------

/// Does `lit` occur in `s` at character position `i`?
fn check_lit_at(s: &str, i: usize, lit: &str) -> (r: bool)
    ensures
        r == match_at(s@, i as int, lit@),
{
    let n = s.unicode_len();
    let m = lit.unicode_len();
    if i > n || n - i < m {
        return false;
    }
    let sub = s.substring_char(i, i + m);
    str_eq(sub, lit)
}

/// Parse a quoted-string body starting at `start`: the executable mirror
/// of `parse_string_at`.
fn parse_string_exec(s: &str, start: usize) -> (r: Option<(String, usize)>)
    ensures
        match r {
            Some(tj) => parse_string_at(s@, start as int) == Some((tj.0@, tj.1 as int)) && tj.1
                <= s@.len(),
            None => parse_string_at(s@, start as int) is None,
        },
{
    let n = s.unicode_len();
    if start >= n {
        return None;
    }
    let mut out = String::new();
    let mut pos: usize = start;
    proof {
        match parse_string_at(s@, start as int) {
            Some((t, _j)) => {
                assert(Seq::<char>::empty() + t =~= t);
            },
            None => {},
        }
    }
    loop
        invariant
            n == s@.len(),
            start <= pos <= n,
            ({
                let full = parse_string_at(s@, start as int);
                match parse_string_at(s@, pos as int) {
                    Some((t, j)) => full == Some((out@ + t, j)),
                    None => full is None,
                }
            }),
        decreases n - pos,
    {
        if pos >= n {
            return None;
        }
        let c = s.get_char(pos);
        if c == '"' {
            proof {
                assert(out@ + Seq::<char>::empty() =~= out@);
            }
            return Some((out, pos + 1));
        }
        if c == '\\' {
            if pos + 1 < n {
                let d = s.get_char(pos + 1);
                if d == '"' || d == '\\' {
                    let ghost oldout = out@;
                    out.append(s.substring_char(pos + 1, pos + 2));
                    proof {
                        assert(s@.subrange(pos as int + 1, pos as int + 2) =~= seq![
                            s@[pos as int + 1],
                        ]);
                        match parse_string_at(s@, pos as int + 2) {
                            Some((t, _j)) => {
                                assert((oldout + seq![s@[pos as int + 1]]) + t =~= oldout + (seq![
                                    s@[pos as int + 1],
                                ] + t));
                            },
                            None => {},
                        }
                    }
                    pos = pos + 2;
                } else {
                    return None;
                }
            } else {
                return None;
            }
        } else {
            let ghost oldout = out@;
            out.append(s.substring_char(pos, pos + 1));
            proof {
                assert(s@.subrange(pos as int, pos as int + 1) =~= seq![s@[pos as int]]);
                match parse_string_at(s@, pos as int + 1) {
                    Some((t, _j)) => {
                        assert((oldout + seq![s@[pos as int]]) + t =~= oldout + (seq![
                            s@[pos as int],
                        ] + t));
                    },
                    None => {},
                }
            }
            pos = pos + 1;
        }
    }
}

/// Parse one post object at `i`: the executable mirror of
/// `parse_post_at`.
fn parse_post_exec(s: &str, i: usize) -> (r: Option<(Post, usize)>)
    ensures
        match r {
            Some(pj) => parse_post_at(s@, i as int) == Some((pj.0@, pj.1 as int)) && i < pj.1
                <= s@.len(),
            None => parse_post_at(s@, i as int) is None,
        },
{
    proof {
        reveal_strlit("{\"username\":\"");
        reveal_strlit("\"username\":");
        reveal_strlit(",\"content\":\"");
        reveal_strlit("\"content\":");
        assert("{\"username\":\""@ =~= seq!['{'] + key_username() + seq!['"']);
        assert(",\"content\":\""@ =~= seq![','] + key_content() + seq!['"']);
    }
    let n = s.unicode_len();
    if !check_lit_at(s, i, "{\"username\":\"") {
        return None;
    }
    let j0 = i + 13;
    let (u, j1) = match parse_string_exec(s, j0) {
        None => {
            return None;
        },
        Some(x) => x,
    };
    proof {
        lemma_parse_string_advances(s@, j0 as int);
    }
    if !check_lit_at(s, j1, ",\"content\":\"") {
        return None;
    }
    let j2 = j1 + 12;
    let (c, j3) = match parse_string_exec(s, j2) {
        None => {
            return None;
        },
        Some(x) => x,
    };
    proof {
        lemma_parse_string_advances(s@, j2 as int);
    }
    if j3 < n && s.get_char(j3) == '}' {
        let p = Post { username: u, content: c };
        return Some((p, j3 + 1));
    }
    None
}

/// Parse a stored `posts` value; `None` when the text is not a
/// well-formed post array.
pub fn parse_posts_str(s: &str) -> (r: Option<Vec<Post>>)
    ensures
        match r {
            Some(v) => parse_posts(s@) == Some(v.deep_view()),
            None => parse_posts(s@) is None,
        },
{
    let n = s.unicode_len();
    if n < 2 {
        return None;
    }
    if s.get_char(0) != '[' {
        return None;
    }
    if n == 2 {
        if s.get_char(1) == ']' {
            let v: Vec<Post> = Vec::new();
            proof {
                assert(v.deep_view() =~= Seq::<PostV>::empty());
            }
            return Some(v);
        }
        // two characters, '[' then something other than ']': the post
        // that would have to start at position 1 has no room, so the
        // whole parse fails
        proof {
            reveal_strlit("\"username\":");
            assert((seq!['{'] + key_username() + seq!['"']).len() == 13);
            assert(!match_at(s@, 1, seq!['{'] + key_username() + seq!['"']));
            assert(parse_post_at(s@, 1) is None);
            assert(parse_items_at(s@, 1) is None);
        }
        return None;
    }
    let mut acc: Vec<Post> = Vec::new();
    let mut pos: usize = 1;
    proof {
        assert(acc.deep_view() =~= Seq::<PostV>::empty());
        match parse_items_at(s@, 1) {
            Some((l, _k)) => {
                assert(Seq::<PostV>::empty() + l =~= l);
            },
            None => {},
        }
    }
    loop
        invariant
            n == s@.len(),
            n > 2,
            s@[0] == '[',
            1 <= pos <= n,
            ({
                let full = parse_items_at(s@, 1);
                match parse_items_at(s@, pos as int) {
                    Some((l, k)) => full == Some((acc.deep_view() + l, k)),
                    None => full is None,
                }
            }),
        decreases n - pos,
    {
        let (p, j) = match parse_post_exec(s, pos) {
            None => {
                return None;
            },
            Some(x) => x,
        };
        if j < n && s.get_char(j) == ',' {
            let ghost oldacc = acc.deep_view();
            let ghost pv = p@;
            acc.push(p);
            proof {
                assert(acc.deep_view() =~= oldacc.push(pv));
                match parse_items_at(s@, j as int + 1) {
                    Some((l, _k)) => {
                        assert(oldacc.push(pv) + l =~= oldacc + (seq![pv] + l));
                    },
                    None => {},
                }
            }
            pos = j + 1;
        } else if j < n && s.get_char(j) == ']' {
            if j + 1 == n {
                let ghost oldacc = acc.deep_view();
                let ghost pv = p@;
                acc.push(p);
                proof {
                    assert(acc.deep_view() =~= oldacc.push(pv));
                    assert(oldacc.push(pv) =~= oldacc + seq![pv]);
                }
                return Some(acc);
            }
            return None;
        } else {
            return None;
        }
    }
}

} // verus!
