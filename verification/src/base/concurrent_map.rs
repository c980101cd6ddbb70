//! The concurrent hash map that the registry and the caches keep their entries in.
use vstd::prelude::*;

verus! {

/// `dashmap::DashMap`, carried through verified code as an opaque value; what it holds
/// is named per use (see the registry and the caches).
#[verifier::external_type_specification]
#[verifier::external_body]
#[verifier::reject_recursive_types(K)]
#[verifier::reject_recursive_types(V)]
#[verifier::reject_recursive_types(S)]
pub struct ExDashMap<K, V, S>(dashmap::DashMap<K, V, S>);

} // verus!
