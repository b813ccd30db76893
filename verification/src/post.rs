//! The feed entry record.

use vstd::prelude::*;

verus! {

/// A single feed entry: who wrote it and what they wrote.
///
/// Entries are immutable once created; they are never updated or deleted
/// and their identity is their position in the stored list.
#[derive(PartialEq, Eq, Debug)]
pub struct Post {
    pub username: String,
    pub content: String,
}

/// The mathematical value of a `Post`: both fields as character sequences.
pub ghost struct PostV {
    pub username: Seq<char>,
    pub content: Seq<char>,
}

impl View for Post {
    type V = PostV;

    open spec fn view(&self) -> PostV {
        PostV { username: self.username@, content: self.content@ }
    }
}

impl DeepView for Post {
    type V = PostV;

    open spec fn deep_view(&self) -> PostV {
        self@
    }
}

impl Clone for Post {
    fn clone(&self) -> (r: Post)
        ensures
            r@ == self@,
    {
        Post { username: self.username.clone(), content: self.content.clone() }
    }
}

} // verus!
