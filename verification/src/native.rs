use vstd::prelude::*;

verus! {

/// A security-scoped bookmark for a media path. Bookmarks exist only on
/// macOS; on every other platform there is none.
pub fn create_security_bookmark(_path: &str) -> (r: Option<String>)
    ensures
        r is None,
{
    None
}

/// The path a security-scoped bookmark resolves to. Bookmarks exist only on
/// macOS; on every other platform none resolves.
pub fn resolve_security_bookmark(_encoded: &str) -> (r: Option<String>)
    ensures
        r is None,
{
    None
}

} // verus!
