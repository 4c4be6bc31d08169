//! Identifiers.
use vstd::prelude::*;

verus! {

/// `uuid::Uuid::new_v4` draws a random identifier; its text has 36 characters.
#[verifier::external_body]
pub(crate) fn fresh_id() -> (r: String)
    ensures
        r@.len() == 36,
{
    uuid::Uuid::new_v4().to_string()
}

/// The text of the identifier that `uuid::Uuid::new_v5` derives from a name in
/// the URL namespace.
pub uninterp spec fn url_id(name: Seq<char>) -> Seq<char>;

/// `uuid::Uuid::new_v5` derives an identifier from a namespace and a name by
/// hashing both; the URL namespace is fixed here.
#[verifier::external_body]
pub(crate) fn named_id(name: &str) -> (r: String)
    ensures
        r@ == url_id(name@),
{
    uuid::Uuid::new_v5(&uuid::Uuid::NAMESPACE_URL, name.as_bytes()).to_string()
}

} // verus!
