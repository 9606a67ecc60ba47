//! Sealing: the difficulty predicate on a block's hash text and the nonce
//! search over a range of nonces.

use vstd::prelude::*;
use vstd::string::StrSliceExecFns;

use crate::account::Account;
use crate::block::{accounts_view, strings_view};
use crate::digest::{calculate_hash, fields_hash_text, hash_to_binary};

verus! {

/// The difficulty prefix that blocks are sealed and checked against by default.
pub const DIFFICULTY_PREFIX: &'static str = "0";

/// A hash text meets the difficulty when it starts with the prefix.
pub open spec fn meets_difficulty(hash: Seq<char>, prefix: Seq<char>) -> bool {
    prefix.is_prefix_of(hash)
}

/// Whether `s` starts with `prefix`.
pub fn has_prefix(s: &str, prefix: &str) -> (r: bool)
    ensures
        r == prefix@.is_prefix_of(s@),
{
    let n = prefix.unicode_len();
    let m = s.unicode_len();
    if n > m {
        return false;
    }
    let mut i: usize = 0;
    while i < n
        invariant
            i <= n,
            n == prefix@.len(),
            m == s@.len(),
            n <= m,
            forall|j: int| 0 <= j < i ==> prefix@[j] == s@[j],
        decreases n - i,
    {
        if prefix.get_char(i) != s.get_char(i) {
            return false;
        }
        i = i + 1;
    }
    assert(prefix@ =~= s@.subrange(0, n as int));
    true
}

/// Tries the nonces `from, from + 1, ...` below `to` and returns the first whose
/// hash text meets the difficulty, with that hash text.
pub fn search_nonce(
    data: &Vec<Account>,
    id: u64,
    next_miner: &str,
    next_validators: &Vec<String>,
    previous_hash: &str,
    timestamp: u64,
    prefix: &str,
    from: u64,
    to: u64,
) -> (r: Option<(u64, String)>)
    ensures
        match r {
            Some((n, h)) => {
                &&& from <= n < to
                &&& h@ == fields_hash_text(
                    id,
                    previous_hash@,
                    accounts_view(data@),
                    timestamp,
                    n,
                    next_miner@,
                    strings_view(next_validators@),
                )
                &&& meets_difficulty(h@, prefix@)
                &&& forall|k: u64|
                    from <= k < n ==> !meets_difficulty(
                        #[trigger] fields_hash_text(
                            id,
                            previous_hash@,
                            accounts_view(data@),
                            timestamp,
                            k,
                            next_miner@,
                            strings_view(next_validators@),
                        ),
                        prefix@,
                    )
            },
            None => forall|k: u64|
                from <= k < to ==> !meets_difficulty(
                    #[trigger] fields_hash_text(
                        id,
                        previous_hash@,
                        accounts_view(data@),
                        timestamp,
                        k,
                        next_miner@,
                        strings_view(next_validators@),
                    ),
                    prefix@,
                ),
        },
{
    let mut nonce = from;
    while nonce < to
        invariant
            from <= nonce,
            forall|k: u64|
                from <= k < nonce ==> !meets_difficulty(
                    #[trigger] fields_hash_text(
                        id,
                        previous_hash@,
                        accounts_view(data@),
                        timestamp,
                        k,
                        next_miner@,
                        strings_view(next_validators@),
                    ),
                    prefix@,
                ),
        decreases to - nonce,
    {
        let digest = calculate_hash(
            data,
            id,
            next_miner,
            next_validators,
            nonce,
            previous_hash,
            timestamp,
        );
        let text = hash_to_binary(digest.as_slice());
        if has_prefix(text.as_str(), prefix) {
            return Some((nonce, text));
        }
        nonce = nonce + 1;
    }
    None
}

} // verus!
