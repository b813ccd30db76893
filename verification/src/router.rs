//! The client-side router: a pure dispatch table from URL paths to views.

use vstd::prelude::*;
use crate::strutil::str_eq;

verus! {

/// The four addressable views. `Hello` is the compose screen and
/// `World` is the feed, matching the paths they answer to.
#[derive(PartialEq, Eq, Structural, Clone, Copy, Debug)]
pub enum Route {
    Home,
    Hello,
    World,
    NotFound,
}

/// Which view a path selects: `/` is home, `/posts` the compose screen,
/// `/world` the feed, and every other path falls through to `NotFound`.
pub open spec fn spec_route(path: Seq<char>) -> Route {
    if path == "/posts"@ {
        Route::Hello
    } else if path == "/world"@ {
        Route::World
    } else if path == "/"@ {
        Route::Home
    } else {
        Route::NotFound
    }
}

/// Pure dispatch: the selected view depends on the path alone, so
/// routing the same path twice yields the same view, and no path fails.
pub fn route_for(path: &str) -> (r: Route)
    ensures
        r == spec_route(path@),
{
    if str_eq(path, "/posts") {
        Route::Hello
    } else if str_eq(path, "/world") {
        Route::World
    } else if str_eq(path, "/") {
        Route::Home
    } else {
        Route::NotFound
    }
}

} // verus!
