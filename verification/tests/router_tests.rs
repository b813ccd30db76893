use postfeed::router::Route;
use postfeed::router::route_for;

#[test]
fn unknown_path_renders_not_found() {
    assert_eq!(route_for("/nope"), Route::NotFound);
}

#[test]
fn root_path_renders_home() {
    assert_eq!(route_for("/"), Route::Home);
}

#[test]
fn posts_path_renders_compose() {
    assert_eq!(route_for("/posts"), Route::Hello);
}

#[test]
fn world_path_renders_feed() {
    assert_eq!(route_for("/world"), Route::World);
}

#[test]
fn routing_is_idempotent() {
    assert_eq!(route_for("/nope"), route_for("/nope"));
    assert_eq!(route_for("/"), route_for("/"));
    assert_eq!(route_for("/world"), route_for("/world"));
}

#[test]
fn near_miss_paths_render_not_found() {
    assert_eq!(route_for(""), Route::NotFound);
    assert_eq!(route_for("/posts/"), Route::NotFound);
    assert_eq!(route_for("/Posts"), Route::NotFound);
    assert_eq!(route_for("/worldly"), Route::NotFound);
}
