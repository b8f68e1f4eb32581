//! The order of commits: by their timestamps, and by nothing else.

use crate::commit::Commit;
use std::cmp::Ordering;
use vstd::prelude::*;

verus! {

/// How `c1` stands to `c2` in the order of commits: before it where its
/// timestamp is less, after it where its timestamp is greater, and equal
/// to it where the two timestamps are the same.
pub fn sort_commits(c1: &Commit, c2: &Commit) -> (o: Ordering)
    ensures
        o == Ordering::Less <==> c1@.timestamp < c2@.timestamp,
        o == Ordering::Greater <==> c1@.timestamp > c2@.timestamp,
        o == Ordering::Equal <==> c1@.timestamp == c2@.timestamp,
{
    if c1.get_timestamp() < c2.get_timestamp() {
        Ordering::Less
    } else if c2.get_timestamp() < c1.get_timestamp() {
        Ordering::Greater
    } else {
        Ordering::Equal
    }
}

/// Whether `c1` comes after `c2` in the order of commits.
pub fn comes_after(c1: &Commit, c2: &Commit) -> (b: bool)
    ensures
        b == (c1@.timestamp > c2@.timestamp),
{
    match sort_commits(c1, c2) {
        Ordering::Greater => true,
        _ => false,
    }
}

} // verus!
