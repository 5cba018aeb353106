//! Hash tags of Redis keys.
use vstd::prelude::*;
use crate::text::{chars_of, string_of};

verus! {

/// The part of a key by which Redis Cluster chooses the slot: what stands between
/// the first opening brace and the next closing one, where that is not empty.
pub open spec fn hash_tag(key: Seq<char>) -> Option<Seq<char>> {
    match key.index_of_first('{') {
        Some(open) => {
            let rest = key.skip(open + 1);
            match rest.index_of_first('}') {
                Some(close) => if close > 0 {
                    Some(rest.take(close))
                } else {
                    None
                },
                None => None,
            }
        },
        None => None,
    }
}

/// The first place at or after `from` of a character.
fn find_from(chars: &Vec<char>, from: usize, c: char) -> (r: Option<usize>)
    requires
        from <= chars@.len(),
    ensures
        match r {
            Some(i) => chars@.skip(from as int).index_of_first(c) == Some((i - from) as int) && from
                <= i < chars@.len(),
            None => chars@.skip(from as int).index_of_first(c) is None,
        },
{
    let mut i: usize = from;
    let ghost tail = chars@.skip(from as int);
    proof {
        tail.index_of_first_ensures(c);
    }
    while i < chars.len()
        invariant
            from <= i <= chars@.len(),
            tail == chars@.skip(from as int),
            forall|j: int| 0 <= j < i - from ==> tail[j] != c,
        decreases chars@.len() - i,
    {
        assert(tail[i - from] == chars@[i as int]);
        if chars[i] == c {
            assert(tail.contains(c));
            proof {
                tail.index_of_first_ensures(c);
            }
            return Some(i);
        }
        i += 1;
    }
    assert(!tail.contains(c));
    None
}

/// The part of a key by which Redis Cluster chooses the slot.
pub fn redis_hash_tag(value: &str) -> (r: Option<String>)
    ensures
        match r {
            Some(tag) => hash_tag(value@) == Some(tag@),
            None => hash_tag(value@) is None,
        },
{
    let chars = chars_of(value);
    let n: usize = chars.len();
    assert(chars@.skip(0) == value@ && chars@.len() == n);
    match find_from(&chars, 0, '{') {
        None => None,
        Some(open) => match find_from(&chars, open + 1, '}') {
            None => None,
            Some(close) => {
                if close > open + 1 {
                    assert(value@.skip(open + 1).take(close - (open + 1)) =~= chars@.subrange(
                        open + 1,
                        close as int,
                    ));
                    Some(string_of(&chars, open + 1, close))
                } else {
                    None
                }
            },
        },
    }
}

} // verus!
