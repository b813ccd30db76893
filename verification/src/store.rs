//! An in-memory model of the browser's synchronous string key-value store.
//!
//! The application persists exactly two keys: the current username and the
//! serialized post list. The store can also be created in a degraded,
//! unavailable mode (the browser refused storage access): reads find
//! nothing and writes are dropped, so every action stays a harmless no-op.

use vstd::prelude::*;

verus! {

/// The two keys the application persists.
#[derive(PartialEq, Eq, Structural, Clone, Copy, Debug)]
pub enum StoreKey {
    Username,
    Posts,
}

/// The mathematical value of a `Store`.
pub ghost struct StoreV {
    pub available: bool,
    pub username: Option<Seq<char>>,
    pub posts: Option<Seq<char>>,
}

impl StoreV {
    /// The value stored under `k`, if any.
    pub open spec fn stored(self, k: StoreKey) -> Option<Seq<char>> {
        match k {
            StoreKey::Username => self.username,
            StoreKey::Posts => self.posts,
        }
    }
}

/// The key-value store itself.
pub struct Store {
    available: bool,
    username: Option<String>,
    posts: Option<String>,
}

impl View for Store {
    type V = StoreV;

    closed spec fn view(&self) -> StoreV {
        StoreV {
            available: self.available,
            username: match self.username {
                Some(s) => Some(s@),
                None => None,
            },
            posts: match self.posts {
                Some(s) => Some(s@),
                None => None,
            },
        }
    }
}

impl Store {
    /// A fresh, working store with nothing persisted.
    pub fn new_available() -> (s: Store)
        ensures
            s@ == (StoreV { available: true, username: None, posts: None }),
    {
        Store { available: true, username: None, posts: None }
    }

    /// The degraded mode used when the browser refuses storage access.
    pub fn new_unavailable() -> (s: Store)
        ensures
            s@ == (StoreV { available: false, username: None, posts: None }),
    {
        Store { available: false, username: None, posts: None }
    }

    /// Whether writes will actually persist; the UI can surface a
    /// non-fatal notice when they will not.
    pub fn is_available(&self) -> (r: bool)
        ensures
            r == self@.available,
    {
        self.available
    }

    /// Read the value stored under `k`.
    pub fn get(&self, k: StoreKey) -> (r: Option<String>)
        ensures
            r.deep_view() == self@.stored(k),
    {
        match k {
            StoreKey::Username => match &self.username {
                Some(s) => Some(s.clone()),
                None => None,
            },
            StoreKey::Posts => match &self.posts {
                Some(s) => Some(s.clone()),
                None => None,
            },
        }
    }

    /// Write `v` under `k`, overwriting any prior value. On an
    /// unavailable store the write is dropped.
    pub fn set(&mut self, k: StoreKey, v: String)
        ensures
            final(self)@.available == old(self)@.available,
            old(self)@.available ==> final(self)@.stored(k) == Some(v@),
            old(self)@.available ==> forall|k2: StoreKey|
                k2 != k ==> #[trigger] final(self)@.stored(k2) == old(self)@.stored(k2),
            !old(self)@.available ==> final(self)@ == old(self)@,
    {
        if self.available {
            match k {
                StoreKey::Username => {
                    self.username = Some(v);
                },
                StoreKey::Posts => {
                    self.posts = Some(v);
                },
            }
        }
    }
}

} // verus!
