//! Comparison and splitting of names.

use vstd::prelude::*;

verus! {

/// Whether two names are the same.
pub(crate) fn same(left: &str, right: &str) -> (equal: bool)
    ensures
        equal == (left@ == right@),
{
    left.to_owned() == right.to_owned()
}

/// Whether `name` starts with `prefix`.
pub(crate) fn starts_with(name: &str, prefix: &str) -> (found: bool)
    ensures
        found == prefix@.is_prefix_of(name@),
{
    let length: usize = prefix.unicode_len();
    if length > name.unicode_len() {
        false
    } else {
        same(name.substring_char(0, length), prefix)
    }
}

/// What stands before and after the last slash of `name`.
pub open spec fn split_name(name: Seq<char>) -> Option<(Seq<char>, Seq<char>)> {
    match name.index_of_last('/') {
        Some(at) => Some((name.take(at), name.skip(at + 1))),
        None => None,
    }
}

/// Splits `name` at its last slash.
pub(crate) fn split_at_last_slash(name: &str) -> (parts: Option<(&str, &str)>)
    ensures
        match parts {
            Some((front, back)) => split_name(name@) == Some((front@, back@)),
            None => split_name(name@) is None,
        },
{
    proof {
        name@.index_of_last_ensures('/');
    }
    let length: usize = name.unicode_len();
    let mut at: usize = length;
    while at > 0
        invariant
            at <= length,
            length == name@.len(),
            forall|i: int| at <= i < length ==> name@[i] != '/',
            match name@.index_of_last('/') {
                Some(index) => {
                    &&& 0 <= index < name@.len()
                    &&& name@[index] == '/'
                    &&& forall|j: int| 0 <= index < j < name@.len() ==> name@[j] != '/'
                },
                None => !name@.contains('/'),
            },
        decreases at,
    {
        at = at - 1;
        if name.get_char(at) == '/' {
            assert(name@.contains('/'));
            let front = name.substring_char(0, at);
            let back = name.substring_char(at + 1, length);
            assert(back@ == name@.skip(at + 1));
            return Some((front, back));
        }
    }
    None
}

} // verus!
