//! The view components: form state for the home, compose and login
//! screens, and the read-only feed. Each form owns its transient field
//! text; a submit acts on the store (or on the form's own result
//! message) and never clears the fields.

use vstd::prelude::*;
use vstd::string::StringExecFns;
use crate::post::Post;
use crate::post::PostV;
use crate::store::Store;
use crate::store::StoreKey;
use crate::codec::encode_posts;
use crate::codec::encode_posts_str;
use crate::codec::parse_posts_str;
use crate::codec::posts_of;
use crate::codec::lemma_posts_round_trip;
use crate::strutil::str_eq;

verus! {

// ---------------------------------------------------------------------
// Home: set the current username.
// ---------------------------------------------------------------------

/// Form state of the home screen: a username field and a password field
/// that is collected but never used.
pub struct HomeForm {
    pub username: String,
    pub password: String,
}

impl HomeForm {
    /// A freshly mounted form: both fields empty.
    pub fn new() -> (f: HomeForm)
        ensures
            f.username@ == Seq::<char>::empty(),
            f.password@ == Seq::<char>::empty(),
    {
        HomeForm { username: String::new(), password: String::new() }
    }

    /// Typing into the username field replaces its text.
    pub fn set_username(&mut self, v: String)
        ensures
            final(self).username == v,
            final(self).password == old(self).password,
    {
        self.username = v;
    }

    /// Typing into the password field replaces its text.
    pub fn set_password(&mut self, v: String)
        ensures
            final(self).password == v,
            final(self).username == old(self).username,
    {
        self.password = v;
    }

    /// Submit: store the username field's current text, unconditionally
    /// overwriting any prior value; an empty username is stored like any
    /// other. The password is ignored and the fields keep their text.
    pub fn submit(&self, store: &mut Store)
        ensures
            final(store)@.available == old(store)@.available,
            old(store)@.available ==> final(store)@.username == Some(self.username@),
            old(store)@.available ==> final(store)@.posts == old(store)@.posts,
            !old(store)@.available ==> final(store)@ == old(store)@,
    {
        store.set(StoreKey::Username, self.username.clone());
        proof {
            assert(final(store)@.stored(StoreKey::Username) == final(store)@.username);
            assert(final(store)@.stored(StoreKey::Posts) == final(store)@.posts);
        }
    }
}

// ---------------------------------------------------------------------
// Compose: write one post.
// ---------------------------------------------------------------------

/// Form state of the compose screen: the text of the post being written.
pub struct ComposeForm {
    pub content: String,
}

impl ComposeForm {
    /// A freshly mounted form: the content field empty.
    pub fn new() -> (f: ComposeForm)
        ensures
            f.content@ == Seq::<char>::empty(),
    {
        ComposeForm { content: String::new() }
    }

    /// Typing into the content field replaces its text.
    pub fn set_content(&mut self, v: String)
        ensures
            final(self).content == v,
    {
        self.content = v;
    }

    /// Submit: read the stored username; if none was ever stored the
    /// submit is a deliberate silent no-op. Otherwise append one post,
    /// stamped with that username, to the stored list — treating a
    /// missing or malformed list as empty — and write the whole list
    /// back. The content field keeps its text; empty content is a valid
    /// post.
    pub fn submit(&self, store: &mut Store)
        ensures
            final(store)@.available == old(store)@.available,
            final(store)@.username == old(store)@.username,
            old(store)@.username is None ==> final(store)@ == old(store)@,
            !old(store)@.available ==> final(store)@ == old(store)@,
            (match old(store)@.username {
                Some(u) => old(store)@.available ==> final(store)@.posts == Some(
                    encode_posts(
                        posts_of(old(store)@.posts).push(
                            (PostV { username: u, content: self.content@ }),
                        ),
                    ),
                ),
                None => true,
            }),
            (match old(store)@.username {
                Some(u) => old(store)@.available ==> posts_of(final(store)@.posts) == posts_of(
                    old(store)@.posts,
                ).push((PostV { username: u, content: self.content@ })),
                None => true,
            }),
    {
        let uname = match store.get(StoreKey::Username) {
            None => {
                return;
            },
            Some(u) => u,
        };
        let mut list: Vec<Post> = match store.get(StoreKey::Posts) {
            None => {
                let v: Vec<Post> = Vec::new();
                proof {
                    assert(v.deep_view() =~= Seq::<PostV>::empty());
                }
                v
            },
            Some(raw) => match parse_posts_str(raw.as_str()) {
                None => {
                    let v: Vec<Post> = Vec::new();
                    proof {
                        assert(v.deep_view() =~= Seq::<PostV>::empty());
                    }
                    v
                },
                Some(v) => v,
            },
        };
        proof {
            assert(list.deep_view() == posts_of(old(store)@.posts));
        }
        let ghost oldlist = list.deep_view();
        let post = Post { username: uname, content: self.content.clone() };
        let ghost pv = post@;
        list.push(post);
        proof {
            assert(list.deep_view() =~= oldlist.push(pv));
        }
        let encoded = encode_posts_str(&list);
        store.set(StoreKey::Posts, encoded);
        proof {
            assert(final(store)@.stored(StoreKey::Posts) == final(store)@.posts);
            assert(final(store)@.stored(StoreKey::Username) == final(store)@.username);
            lemma_posts_round_trip(oldlist.push(pv));
        }
    }
}

/// Appending one post grows the list by exactly one, leaves every prior
/// entry unchanged in place, and puts the new post last.
pub proof fn lemma_append_preserves_prior(l: Seq<PostV>, p: PostV)
    ensures
        l.push(p).len() == l.len() + 1,
        forall|k: int| 0 <= k < l.len() ==> l.push(p)[k] == l[k],
        l.push(p)[l.len() as int] == p,
{
}

// ---------------------------------------------------------------------
// Feed: read all posts.
// ---------------------------------------------------------------------

/// The read-only feed screen: a snapshot of the stored posts, taken when
/// the view is mounted. A post written later is not shown until the view
/// is mounted again.
pub struct FeedView {
    pub posts: Vec<Post>,
}

impl FeedView {
    /// Mount: read and parse the stored list. A missing key or a
    /// malformed value renders as an empty feed, never as a failure.
    pub fn mount(store: &Store) -> (f: FeedView)
        ensures
            f.posts.deep_view() == posts_of(store@.posts),
    {
        let posts: Vec<Post> = match store.get(StoreKey::Posts) {
            None => {
                let v: Vec<Post> = Vec::new();
                proof {
                    assert(v.deep_view() =~= Seq::<PostV>::empty());
                }
                v
            },
            Some(raw) => match parse_posts_str(raw.as_str()) {
                None => {
                    let v: Vec<Post> = Vec::new();
                    proof {
                        assert(v.deep_view() =~= Seq::<PostV>::empty());
                    }
                    v
                },
                Some(v) => v,
            },
        };
        FeedView { posts }
    }

    /// One display line per post, `username: content`, in insertion
    /// order.
    pub fn render_lines(&self) -> (r: Vec<String>)
        ensures
            r@.len() == self.posts@.len(),
            forall|k: int|
                0 <= k < r@.len() ==> (#[trigger] r@[k])@ == self.posts@[k]@.username + ": "@
                    + self.posts@[k]@.content,
    {
        let mut r: Vec<String> = Vec::new();
        let mut i: usize = 0;
        while i < self.posts.len()
            invariant
                i <= self.posts@.len(),
                r@.len() == i,
                forall|k: int|
                    0 <= k < i ==> (#[trigger] r@[k])@ == self.posts@[k]@.username + ": "@
                        + self.posts@[k]@.content,
            decreases self.posts@.len() - i,
        {
            let p = &self.posts[i];
            let mut line = String::new();
            line.append(p.username.as_str());
            line.append(": ");
            line.append(p.content.as_str());
            proof {
                assert(Seq::<char>::empty() + p.username@ =~= p.username@);
            }
            r.push(line);
            i = i + 1;
        }
        r
    }
}

// ---------------------------------------------------------------------
// Login: the standalone credential check.
// ---------------------------------------------------------------------

/// The fixed credential pair the login screen accepts.
pub open spec fn login_ok(u: Seq<char>, p: Seq<char>) -> bool {
    u == "dev.to"@ && p == "dev.to"@
}

/// The result message shown after a login submit.
pub open spec fn login_message(u: Seq<char>, p: Seq<char>) -> Seq<char> {
    if login_ok(u, p) {
        "Login successful"@
    } else {
        "Login failed"@
    }
}

/// Compare the typed credentials against the fixed pair. A toy gate,
/// not authentication: there is no session, no lockout, no storage.
pub fn check_credentials(u: &str, p: &str) -> (r: bool)
    ensures
        r == login_ok(u@, p@),
{
    str_eq(u, "dev.to") && str_eq(p, "dev.to")
}

/// Form state of the standalone login screen: the two fields and the
/// last result message.
pub struct LoginForm {
    pub username: String,
    pub password: String,
    pub message: Option<String>,
}

impl LoginForm {
    /// A freshly mounted form: both fields empty, no message yet.
    pub fn new() -> (f: LoginForm)
        ensures
            f.username@ == Seq::<char>::empty(),
            f.password@ == Seq::<char>::empty(),
            f.message is None,
    {
        LoginForm { username: String::new(), password: String::new(), message: None }
    }

    /// Typing into the username field replaces its text.
    pub fn set_username(&mut self, v: String)
        ensures
            final(self).username == v,
            final(self).password == old(self).password,
            final(self).message == old(self).message,
    {
        self.username = v;
    }

    /// Typing into the password field replaces its text.
    pub fn set_password(&mut self, v: String)
        ensures
            final(self).password == v,
            final(self).username == old(self).username,
            final(self).message == old(self).message,
    {
        self.password = v;
    }

    /// Submit: compare both fields against the fixed pair and set the
    /// result message; success if and only if both match. The fields
    /// keep their text after either outcome.
    pub fn submit(&mut self)
        ensures
            final(self).username == old(self).username,
            final(self).password == old(self).password,
            (match final(self).message {
                Some(m) => m@ == login_message(old(self).username@, old(self).password@),
                None => false,
            }),
    {
        if check_credentials(self.username.as_str(), self.password.as_str()) {
            self.message = Some(String::from_str("Login successful"));
        } else {
            self.message = Some(String::from_str("Login failed"));
        }
    }
}

} // verus!
