//! The host's vector of ids, as the yield manager keeps its active set.
//!
//! The vector lives in the host environment and is reached through it.
//! What is said of it here is taken from the host library's documentation
//! and is believed, not proved. The host does not check what a vector
//! holds when it hands one out, and reading an item that is no `u64`
//! fails; so the crate reads only vectors that it has made and filled
//! itself, and says so with `host_ids_readable`.

use vstd::prelude::*;

verus! {

/// The host environment, through which every host object is reached.
#[verifier::external_type_specification]
#[verifier::external_body]
pub struct ExEnv(soroban_sdk::Env);

/// The host's vector type.
#[verifier::external_type_specification]
#[verifier::external_body]
#[verifier::reject_recursive_types(T)]
pub struct ExHostVec<T>(soroban_sdk::Vec<T>);

/// The ids that a host vector holds, first to last.
pub uninterp spec fn host_ids(v: soroban_sdk::Vec<u64>) -> Seq<u64>;

/// Whether every item of the vector is a `u64`, so that each can be read.
pub uninterp spec fn host_ids_readable(v: soroban_sdk::Vec<u64>) -> bool;

/// `soroban_sdk::Vec::new`: creates an empty vector in the given
/// environment.
#[verifier::external_body]
pub(crate) fn host_vec_new(env: &soroban_sdk::Env) -> (v: soroban_sdk::Vec<u64>)
    ensures
        host_ids(v) == Seq::<u64>::empty(),
        host_ids_readable(v),
{
    soroban_sdk::Vec::new(env)
}

/// `soroban_sdk::Vec::len`: the number of items in the vector.
#[verifier::external_body]
pub(crate) fn host_vec_len(v: &soroban_sdk::Vec<u64>) -> (n: u32)
    ensures
        n == host_ids(*v).len(),
{
    v.len()
}

/// `soroban_sdk::Vec::get`: the item at the position, or nothing if the
/// position is past the end. It fails on an item that is no `u64`.
#[verifier::external_body]
pub(crate) fn host_vec_get(v: &soroban_sdk::Vec<u64>, i: u32) -> (item: Option<u64>)
    requires
        host_ids_readable(*v),
    ensures
        item == (if i < host_ids(*v).len() {
            Some(host_ids(*v)[i as int])
        } else {
            None
        }),
{
    v.get(i)
}

/// `soroban_sdk::Vec::push_back`: puts the item in the last position and
/// so makes the vector longer by one. The host counts items in 32 bits.
#[verifier::external_body]
pub(crate) fn host_vec_push_back(v: &mut soroban_sdk::Vec<u64>, id: u64)
    requires
        host_ids(*old(v)).len() < u32::MAX,
    ensures
        host_ids(*final(v)) == host_ids(*old(v)).push(id),
        host_ids_readable(*old(v)) ==> host_ids_readable(*final(v)),
{
    v.push_back(id)
}

} // verus!
