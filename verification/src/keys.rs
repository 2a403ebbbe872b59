//! Key names shared by the X11 and Windows providers: how a key name reads
//! as a function-key number.

use vstd::prelude::*;
use crate::nums::{parse_uint, parse_uint_chars};
use crate::text::sub_chars;

verus! {

/// The number of a function key name `f<n>` (already lowercased) for
/// `n` in 1..=24, read as `str::parse::<u32>` reads it.
pub open spec fn fkey_number(lower: Seq<char>) -> Option<nat> {
    if lower.len() > 0 && lower[0] == 'f' {
        match parse_uint(lower.drop_first(), 10, 0xffff_ffff) {
            Some(n) => if 1 <= n && n <= 24 { Some(n) } else { None },
            None => None,
        }
    } else {
        None
    }
}

/// Reads `f1` ..= `f24`.
pub fn fkey_of(lower: &[char]) -> (r: Option<u32>)
    ensures
        match fkey_number(lower@) {
            Some(n) => r == Some(n as u32),
            None => r is None,
        },
{
    if lower.len() == 0 || lower[0] != 'f' {
        return None;
    }
    let rest = sub_chars(lower, 1, lower.len());
    assert(rest@ =~= lower@.drop_first());
    match parse_uint_chars(rest.as_slice(), 10, 0xffff_ffff) {
        Some(n) => if 1 <= n && n <= 24 {
            Some(n as u32)
        } else {
            None
        },
        None => None,
    }
}

} // verus!
