//! What parsing an argument list does to the registered flags.
//!
//! The argument list is walked once, from the token after the program's path
//! to the last one. A token that is written as a flag is looked up by the name
//! that it asks for. Where the next token is a bare value, the flag found
//! takes that value; else the flag found is toggled. The walk ends at the
//! first token that cannot be acted upon.

use crate::element::Entry;
use crate::token::{flag_name, is_flag};
use crate::error::ParseError;
use crate::value::{parse_text, Value};
use vstd::prelude::*;

verus! {

/// Whether the entry number `k` is the first one called `name`.
pub open spec fn is_first_named(entries: Seq<Entry>, name: Seq<char>, k: int) -> bool {
    &&& 0 <= k < entries.len()
    &&& entries[k].name == name
    &&& forall|j: int| 0 <= j < k ==> (#[trigger] entries[j]).name != name
}

/// The number of the first entry called `name`, if there is one.
pub open spec fn lookup(entries: Seq<Entry>, name: Seq<char>) -> Option<int> {
    if exists|k: int| is_first_named(entries, name, k) {
        Some(choose|k: int| is_first_named(entries, name, k))
    } else {
        None
    }
}

/// Whether `b` holds the flags of `a` in the same order, each with its name,
/// its description and a value of the kind that it had.
pub open spec fn same_shape(a: Seq<Entry>, b: Seq<Entry>) -> bool {
    &&& a.len() == b.len()
    &&& forall|k: int|
        0 <= k < a.len() ==> {
            &&& (#[trigger] b[k]).name == a[k].name
            &&& b[k].description == a[k].description
            &&& b[k].value.kind() == a[k].value.kind()
        }
}

/// Whether the token at position `i` is followed by a bare value.
pub open spec fn takes_value(args: Seq<Seq<char>>, i: int) -> bool {
    i + 1 < args.len() && !is_flag(args[i + 1])
}

/// The entries with the value of entry number `k` replaced.
pub open spec fn with_value(entries: Seq<Entry>, k: int, value: Value) -> Seq<Entry> {
    entries.update(k, Entry { value, ..entries[k] })
}

/// What the token at position `i` does to the entries.
pub open spec fn step(entries: Seq<Entry>, args: Seq<Seq<char>>, i: int) -> Result<
    Seq<Entry>,
    ParseError,
> {
    match flag_name(args[i]) {
        None => Ok(entries),
        Some(name) => match lookup(entries, name) {
            None => Ok(entries),
            Some(k) => {
                let kind = entries[k].value.kind();
                if takes_value(args, i) {
                    match parse_text(kind, args[i + 1]) {
                        Some(v) => Ok(with_value(entries, k, v)),
                        None => Err(
                            ParseError::Conversion {
                                flag: k as usize,
                                position: (i + 1) as usize,
                                kind,
                            },
                        ),
                    }
                } else {
                    match entries[k].value.toggled() {
                        Some(v) => Ok(with_value(entries, k, v)),
                        None => Err(
                            ParseError::NotBoolean { flag: k as usize, position: i as usize, kind },
                        ),
                    }
                }
            },
        },
    }
}

/// Where a walk stands: the entries as they are, and the error that ended
/// the walk, if one did.
pub struct Outcome {
    pub entries: Seq<Entry>,
    pub error: Option<ParseError>,
}

/// Where the walk stands before the token at position `n`.
///
/// The token at position 0 is the program's path and is passed over.
pub open spec fn run(entries: Seq<Entry>, args: Seq<Seq<char>>, n: int) -> Outcome
    decreases n,
{
    if n <= 1 {
        Outcome { entries, error: None }
    } else {
        let before = run(entries, args, n - 1);
        if before.error is Some {
            before
        } else {
            match step(before.entries, args, n - 1) {
                Ok(next) => Outcome { entries: next, error: None },
                Err(e) => Outcome { entries: before.entries, error: Some(e) },
            }
        }
    }
}

/// Where the walk over the whole of `args` ends.
pub open spec fn outcome(entries: Seq<Entry>, args: Seq<Seq<char>>) -> Outcome {
    run(entries, args, args.len() as int)
}

/// Among the entries up to number `j`, which is called `name`, one is the
/// first of that name.
proof fn lemma_first_named_exists(entries: Seq<Entry>, name: Seq<char>, j: int)
    requires
        0 <= j < entries.len(),
        entries[j].name == name,
    ensures
        exists|k: int| is_first_named(entries, name, k),
    decreases j,
{
    if exists|i: int| 0 <= i < j && (#[trigger] entries[i]).name == name {
        let i = choose|i: int| 0 <= i < j && (#[trigger] entries[i]).name == name;
        lemma_first_named_exists(entries, name, i);
    } else {
        assert(is_first_named(entries, name, j));
    }
}

/// `lookup` finds the first entry of the name, and nothing only where no
/// entry has the name.
pub proof fn lemma_lookup(entries: Seq<Entry>, name: Seq<char>)
    ensures
        match lookup(entries, name) {
            Some(k) => is_first_named(entries, name, k),
            None => forall|j: int| 0 <= j < entries.len() ==> (#[trigger] entries[j]).name != name,
        },
{
    if lookup(entries, name) is None {
        assert forall|j: int| 0 <= j < entries.len() implies (#[trigger] entries[j]).name
            != name by {
            if entries[j].name == name {
                lemma_first_named_exists(entries, name, j);
            }
        }
    }
}

/// The first entry of a name is the one that `lookup` finds.
pub proof fn lemma_lookup_first(entries: Seq<Entry>, name: Seq<char>, k: int)
    requires
        is_first_named(entries, name, k),
    ensures
        lookup(entries, name) == Some(k),
{
}

/// Once an error has ended the walk, nothing changes any more.
pub proof fn lemma_run_ended(entries: Seq<Entry>, args: Seq<Seq<char>>, m: int, n: int)
    requires
        m <= n,
        run(entries, args, m).error is Some,
    ensures
        run(entries, args, n) == run(entries, args, m),
    decreases n - m,
{
    if m < n {
        lemma_run_ended(entries, args, m, n - 1);
    }
}

} // verus!
