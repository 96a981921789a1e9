//! The pattern tables of the router, kept by the `route-recognizer` crate.
//!
//! The tables are taken on trust: each item that calls into that crate
//! says what it claims of the call.

use vstd::prelude::*;
use vstd::string::{is_ascii, StrSliceExecFns};
use super::text::{holds_nul, pairs_view};

verus! {

/// `route_recognizer::Router`, a table from route patterns to handlers.
/// Nothing is known of what is inside one but what the items below state.
#[verifier::external_type_specification]
#[verifier::external_body]
#[verifier::reject_recursive_types(T)]
pub struct ExPatternTable<T>(route_recognizer::Router<T>);

/// The registrations a table was built from, in the order in which they were
/// made: each is a pattern and the handler it was registered with.
pub uninterp spec fn table_routes(table: route_recognizer::Router<usize>) -> Seq<(Seq<char>, usize)>;

/// What `route_recognizer::Router::recognize` answers for a path on a table
/// built from the given registrations: nothing where no pattern matches, else
/// the handler of the pattern it prefers and the parameters it bound, as pairs
/// of name and value in the order of the names.
///
/// How that crate matches is its own affair and is not stated here. In
/// short: a literal segment matches itself, `:name` matches one segment
/// that is not empty, `*name` matches the rest of the path if it is not
/// empty; of several patterns that match, the one with the most literal
/// segments is preferred, then the one with the most named segments; and of
/// two registrations of one pattern the later one counts.
pub uninterp spec fn recognized(routes: Seq<(Seq<char>, usize)>, path: Seq<char>) -> Option<
    (usize, Seq<(Seq<char>, Seq<char>)>),
>;

/// The patterns that a table takes: ASCII text without a NUL character, of a
/// length that the table's counters can hold.
pub open spec fn registrable(route: Seq<char>) -> bool {
    &&& vstd::utf8::is_ascii_chars(route)
    &&& !route.contains('\0')
    &&& route.len() <= u32::MAX
}

/// Whether a text is a pattern that a table takes.
pub fn is_registrable(route: &str) -> (ok: bool)
    ensures
        ok == registrable(route@),
{
    if !route.is_ascii() || holds_nul(route) {
        return false;
    }
    route.unicode_len() <= 0xffff_ffff
}

/// A match as the tables report it: the handler and the bound parameters.
pub struct Found {
    pub handler: usize,
    pub params: Vec<(String, String)>,
}

impl Found {
    /// The match as plain values.
    pub open spec fn view(&self) -> (usize, Seq<(Seq<char>, Seq<char>)>) {
        (self.handler, pairs_view(self.params@))
    }
}

/// The answer of a table as plain values.
pub open spec fn found_view(found: Option<Found>) -> Option<(usize, Seq<(Seq<char>, Seq<char>)>)> {
    match found {
        Some(f) => Some(f@),
        None => None,
    }
}

/// Calls `route_recognizer::Router::new`. Trusted: the new table holds no
/// registration.
#[verifier::external_body]
pub(crate) fn table_new() -> (table: route_recognizer::Router<usize>)
    ensures
        table_routes(table) == Seq::<(Seq<char>, usize)>::empty(),
{
    route_recognizer::Router::new()
}

/// Calls `route_recognizer::Router::add`. Trusted: the table then holds the
/// registrations it held, followed by the new one. Patterns on which that
/// crate fails (text that is not ASCII, a NUL character) are left out.
#[verifier::external_body]
pub(crate) fn table_add(table: &mut route_recognizer::Router<usize>, route: &str, handler: usize)
    requires
        registrable(route@),
    ensures
        table_routes(*final(table)) == table_routes(*old(table)).push((route@, handler)),
{
    table.add(route, handler)
}

/// Calls `route_recognizer::Router::recognize` and copies the answer out.
/// Trusted: the answer depends on the registrations and the path alone, and a
/// handler that is reported is one that was registered. Paths with a NUL
/// character, on which that crate fails, are left out.
#[verifier::external_body]
pub(crate) fn table_recognize(table: &route_recognizer::Router<usize>, path: &str) -> (found: Option<Found>)
    requires
        !path@.contains('\0'),
    ensures
        found_view(found) == recognized(table_routes(*table), path@),
        found matches Some(f) ==> exists|i: int|
            0 <= i < table_routes(*table).len() && (#[trigger] table_routes(*table)[i]).1 == f.handler,
{
    match table.recognize(path) {
        Ok(m) => Some(Found {
            handler: **m.handler(),
            params: m.params().iter().map(|(k, v)| (k.to_string(), v.to_string())).collect(),
        }),
        Err(_) => None,
    }
}

} // verus!
