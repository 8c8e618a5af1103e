//! Reading the vectors that the host hands to the contract.
//!
//! A host vector is a handle to a sequence of values that the host keeps.
//! What it holds never changes, so reading it twice gives the same. The host
//! meters every call; nothing here is said of a host that has run out of its
//! budget.

use vstd::prelude::*;

verus! {

/// The host's vector type, declared so that it can stand in signatures.
#[verifier::external_type_specification]
#[verifier::external_body]
#[verifier::reject_recursive_types(T)]
pub struct ExHostVec<T>(soroban_sdk::Vec<T>);

/// What a host vector of amounts holds, in order. An entry is `None` where the
/// host value at that position is not a 128-bit signed integer.
pub uninterp spec fn host_amounts(v: soroban_sdk::Vec<i128>) -> Seq<Option<i128>>;

/// What a host vector of deadlines holds, in order. An entry is `None` where
/// the host value at that position is not a 64-bit unsigned integer.
pub uninterp spec fn host_deadlines(v: soroban_sdk::Vec<u64>) -> Seq<Option<u64>>;

/// `soroban_sdk::Vec::len` on a vector of amounts: the number of items that
/// the vector holds.
#[verifier::external_body]
fn amounts_len(v: &soroban_sdk::Vec<i128>) -> (n: u32)
    ensures
        n == host_amounts(*v).len(),
{
    v.len()
}

/// `soroban_sdk::Vec::try_get` on a vector of amounts. Past the end it gives
/// `Ok(None)`, here `Some(None)`; within the vector it gives the item at `i`,
/// or an error where the host value does not convert, here `None`.
#[verifier::external_body]
fn amounts_get(v: &soroban_sdk::Vec<i128>, i: u32) -> (r: Option<Option<i128>>)
    ensures
        i >= host_amounts(*v).len() ==> r == Some(None::<i128>),
        i < host_amounts(*v).len() ==> r == match host_amounts(*v)[i as int] {
            Some(x) => Some(Some(x)),
            None => None::<Option<i128>>,
        },
{
    v.try_get(i).ok()
}

/// `soroban_sdk::Vec::len` on a vector of deadlines: the number of items that
/// the vector holds.
#[verifier::external_body]
fn deadlines_len(v: &soroban_sdk::Vec<u64>) -> (n: u32)
    ensures
        n == host_deadlines(*v).len(),
{
    v.len()
}

/// `soroban_sdk::Vec::try_get` on a vector of deadlines. Past the end it gives
/// `Ok(None)`, here `Some(None)`; within the vector it gives the item at `i`,
/// or an error where the host value does not convert, here `None`.
#[verifier::external_body]
fn deadlines_get(v: &soroban_sdk::Vec<u64>, i: u32) -> (r: Option<Option<u64>>)
    ensures
        i >= host_deadlines(*v).len() ==> r == Some(None::<u64>),
        i < host_deadlines(*v).len() ==> r == match host_deadlines(*v)[i as int] {
            Some(x) => Some(Some(x)),
            None => None::<Option<u64>>,
        },
{
    v.try_get(i).ok()
}

/// Whether every entry is there.
pub open spec fn all_readable<T>(s: Seq<Option<T>>) -> bool {
    forall|i: int| 0 <= i < s.len() ==> (#[trigger] s[i]).is_some()
}

/// The entries themselves, where every entry is there.
pub open spec fn entries<T>(s: Seq<Option<T>>) -> Seq<T> {
    Seq::new(s.len(), |i: int| s[i].unwrap())
}

/// The amounts in the host vector, in order; `None` where an entry does not
/// read as an amount.
pub fn read_amounts(v: &soroban_sdk::Vec<i128>) -> (r: Option<Vec<i128>>)
    ensures
        r is Some <==> all_readable(host_amounts(*v)),
        r matches Some(out) ==> out@ == entries(host_amounts(*v)),
{
    let n: u32 = amounts_len(v);
    let mut out: Vec<i128> = Vec::new();
    let mut i: u32 = 0;
    while i < n
        invariant
            n == host_amounts(*v).len(),
            i <= n,
            out@.len() == i,
            forall|j: int| 0 <= j < i ==> #[trigger] host_amounts(*v)[j] == Some(out@[j]),
        decreases n - i,
    {
        match amounts_get(v, i) {
            Some(Some(x)) => {
                out.push(x);
            },
            _ => {
                assert(host_amounts(*v)[i as int].is_none());
                return None;
            },
        }
        i = i + 1;
    }
    assert(out@ =~= entries(host_amounts(*v)));
    Some(out)
}

/// The deadlines in the host vector, in order; `None` where an entry does not
/// read as a deadline.
pub fn read_deadlines(v: &soroban_sdk::Vec<u64>) -> (r: Option<Vec<u64>>)
    ensures
        r is Some <==> all_readable(host_deadlines(*v)),
        r matches Some(out) ==> out@ == entries(host_deadlines(*v)),
{
    let n: u32 = deadlines_len(v);
    let mut out: Vec<u64> = Vec::new();
    let mut i: u32 = 0;
    while i < n
        invariant
            n == host_deadlines(*v).len(),
            i <= n,
            out@.len() == i,
            forall|j: int| 0 <= j < i ==> #[trigger] host_deadlines(*v)[j] == Some(out@[j]),
        decreases n - i,
    {
        match deadlines_get(v, i) {
            Some(Some(x)) => {
                out.push(x);
            },
            _ => {
                assert(host_deadlines(*v)[i as int].is_none());
                return None;
            },
        }
        i = i + 1;
    }
    assert(out@ =~= entries(host_deadlines(*v)));
    Some(out)
}

} // verus!
