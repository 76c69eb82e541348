//! Canonical defining paths of the framework types that the lints look for.

use vstd::prelude::*;

verus! {

pub open spec fn app_path() -> Seq<Seq<char>> {
    seq!["bevy_app"@, "app"@, "App"@]
}

pub open spec fn events_path() -> Seq<Seq<char>> {
    seq!["bevy_ecs"@, "event"@, "collections"@, "Events"@]
}

pub open spec fn query_path() -> Seq<Seq<char>> {
    seq!["bevy_ecs"@, "system"@, "query"@, "Query"@]
}

/// `bevy_app::app::App`.
pub fn app() -> (r: Vec<String>)
    ensures
        r.deep_view() == app_path(),
{
    let r = vec![String::from_str("bevy_app"), String::from_str("app"), String::from_str("App")];
    proof {
        assert(r.deep_view() =~= app_path());
    }
    r
}

/// `bevy_ecs::event::collections::Events`.
pub fn events() -> (r: Vec<String>)
    ensures
        r.deep_view() == events_path(),
{
    let r = vec![
        String::from_str("bevy_ecs"),
        String::from_str("event"),
        String::from_str("collections"),
        String::from_str("Events"),
    ];
    proof {
        assert(r.deep_view() =~= events_path());
    }
    r
}

/// `bevy_ecs::system::query::Query`.
pub fn query() -> (r: Vec<String>)
    ensures
        r.deep_view() == query_path(),
{
    let r = vec![
        String::from_str("bevy_ecs"),
        String::from_str("system"),
        String::from_str("query"),
        String::from_str("Query"),
    ];
    proof {
        assert(r.deep_view() =~= query_path());
    }
    r
}

} // verus!
