//! The lexical rules of an argument list.
//!
//! A token that starts with a dash is written as a flag; every other token
//! is a bare value. A flag with two leading dashes is a long one: the dashes
//! inside it separate the words of its name and are not part of the name.

use vstd::prelude::*;

verus! {

/// Whether `token` is written as a flag: it starts with a dash.
pub open spec fn is_flag(token: Seq<char>) -> bool {
    token.len() > 0 && token[0] == '-'
}

/// Whether `token` is written as a long flag: it starts with two dashes.
pub open spec fn is_long(token: Seq<char>) -> bool {
    token.len() > 1 && token[0] == '-' && token[1] == '-'
}

/// The characters of `s` that are no dashes, in their order.
pub open spec fn without_dashes(s: Seq<char>) -> Seq<char> {
    s.filter(|c: char| c != '-')
}

/// The name that `token` asks for, if it is written as a flag.
///
/// A short flag names what follows its dash. A long flag names what follows
/// its two dashes, with every further dash taken out.
pub open spec fn flag_name(token: Seq<char>) -> Option<Seq<char>> {
    if is_long(token) {
        Some(without_dashes(token.skip(2)))
    } else if is_flag(token) {
        Some(token.skip(1))
    } else {
        None
    }
}

/// Whether `token` is written as a flag.
pub fn starts_with_dash(token: &[char]) -> (r: bool)
    ensures
        r == is_flag(token@),
{
    token.len() > 0 && token[0] == '-'
}

/// The name that `token` asks for, if it is written as a flag.
pub fn name_of(token: &[char]) -> (r: Option<Vec<char>>)
    ensures
        match r {
            Some(name) => flag_name(token@) == Some(name@),
            None => flag_name(token@) is None,
        },
{
    if !starts_with_dash(token) {
        return None;
    }
    let long: bool = token.len() > 1 && token[1] == '-';
    let start: usize = if long {
        2
    } else {
        1
    };
    let ghost rest = token@.skip(start as int);
    let mut name: Vec<char> = Vec::new();
    let mut i: usize = start;
    while i < token.len()
        invariant
            start <= i <= token@.len(),
            rest == token@.skip(start as int),
            long ==> name@ == without_dashes(rest.take(i - start)),
            !long ==> name@ == rest.take(i - start),
        decreases token@.len() - i,
    {
        let c: char = token[i];
        proof {
            assert(rest.take(i - start + 1) =~= rest.take(i - start).push(c));
            rest.take(i - start).lemma_filter_push(c, |c: char| c != '-');
        }
        if !long || c != '-' {
            name.push(c);
        }
        i = i + 1;
    }
    proof {
        assert(rest.take(i - start) =~= rest);
    }
    Some(name)
}

} // verus!
