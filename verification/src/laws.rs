//! What holds of every walk over an argument list.

use crate::element::Entry;
use crate::error::ParseError;
use crate::number::decimal;
use crate::semantics::{
    is_first_named, lemma_lookup, lemma_lookup_first, lemma_run_ended, lookup, outcome, run,
    same_shape, step, takes_value, with_value, Outcome,
};
use crate::token::{flag_name, is_flag, without_dashes};
use crate::value::{parse_text, Kind, Value};
use vstd::prelude::*;

verus! {

/// Whether the token at position `i` asks for the flag number `k`.
pub open spec fn asks_for(entries: Seq<Entry>, args: Seq<Seq<char>>, i: int, k: int) -> bool {
    match flag_name(args[i]) {
        Some(name) => lookup(entries, name) == Some(k),
        None => false,
    }
}

/// A text that denotes a value of a kind denotes one of that kind.
pub proof fn lemma_parse_text_kind(kind: Kind, s: Seq<char>)
    ensures
        parse_text(kind, s) matches Some(v) ==> v.kind() == kind,
{
}

/// Flags of the same shape are found under the same names.
pub proof fn lemma_lookup_same_shape(a: Seq<Entry>, b: Seq<Entry>, name: Seq<char>)
    requires
        same_shape(a, b),
    ensures
        lookup(a, name) == lookup(b, name),
{
    lemma_lookup(a, name);
    lemma_lookup(b, name);
    match lookup(a, name) {
        Some(k) => {
            lemma_lookup_first(b, name, k);
        },
        None => {},
    }
}

/// A token changes no flag but the one that it asks for, and leaves every
/// flag its name, its description and the kind of its value.
pub proof fn lemma_step_frame(entries: Seq<Entry>, args: Seq<Seq<char>>, i: int)
    ensures
        match step(entries, args, i) {
            Ok(next) => {
                &&& same_shape(entries, next)
                &&& forall|k: int|
                    0 <= k < entries.len() && !asks_for(entries, args, i, k) ==> #[trigger] next[k]
                        == entries[k]
            },
            Err(_) => true,
        },
{
    match flag_name(args[i]) {
        Some(name) => {
            lemma_lookup(entries, name);
            match lookup(entries, name) {
                Some(k) => {
                    lemma_parse_text_kind(entries[k].value.kind(), args[i + 1]);
                },
                None => {},
            }
        },
        None => {},
    }
}

/// A walk leaves every flag its place, its name, its description and the
/// kind of its value: none is added, removed or moved.
pub proof fn law_walk_keeps_shape(entries: Seq<Entry>, args: Seq<Seq<char>>, n: int)
    ensures
        same_shape(entries, run(entries, args, n).entries),
    decreases n,
{
    if n > 1 {
        law_walk_keeps_shape(entries, args, n - 1);
        let before = run(entries, args, n - 1);
        if before.error is None {
            lemma_step_frame(before.entries, args, n - 1);
        }
    }
}

/// A walk changes no flag that none of the tokens walked over asks for.
pub proof fn lemma_walk_frame(entries: Seq<Entry>, args: Seq<Seq<char>>, n: int, k: int)
    requires
        0 <= k < entries.len(),
        forall|i: int| 1 <= i < n ==> !asks_for(entries, args, i, k),
    ensures
        run(entries, args, n).entries[k] == entries[k],
    decreases n,
{
    if n > 1 {
        lemma_walk_frame(entries, args, n - 1, k);
        let before = run(entries, args, n - 1);
        if before.error is None {
            law_walk_keeps_shape(entries, args, n - 1);
            lemma_step_frame(before.entries, args, n - 1);
            match flag_name(args[n - 1]) {
                Some(name) => {
                    lemma_lookup_same_shape(entries, before.entries, name);
                },
                None => {},
            }
            assert(!asks_for(entries, args, n - 1, k));
        }
    }
}

/// A flag whose name no token of the argument list asks for holds after the
/// walk what it held before.
pub proof fn law_flag_not_named_keeps_value(entries: Seq<Entry>, args: Seq<Seq<char>>, k: int)
    requires
        0 <= k < entries.len(),
        forall|i: int|
            1 <= i < args.len() ==> flag_name(#[trigger] args[i]) != Some(entries[k].name),
    ensures
        outcome(entries, args).entries[k] == entries[k],
{
    assert forall|i: int| 1 <= i < args.len() implies !asks_for(entries, args, i, k) by {
        match flag_name(args[i]) {
            Some(name) => {
                lemma_lookup(entries, name);
            },
            None => {},
        }
    }
    lemma_walk_frame(entries, args, args.len() as int, k);
}

/// Of two flags of one name, lookups find the one registered first, and the
/// other holds after any walk what it held before.
pub proof fn law_second_of_a_name_is_never_reached(
    entries: Seq<Entry>,
    args: Seq<Seq<char>>,
    j: int,
    k: int,
)
    requires
        0 <= j < k < entries.len(),
        entries[j].name == entries[k].name,
    ensures
        lookup(entries, entries[k].name) matches Some(first) && first <= j,
        outcome(entries, args).entries[k] == entries[k],
{
    lemma_lookup(entries, entries[k].name);
    assert forall|i: int| 1 <= i < args.len() implies !asks_for(entries, args, i, k) by {
        match flag_name(args[i]) {
            Some(name) => {
                lemma_lookup(entries, name);
            },
            None => {},
        }
    }
    lemma_walk_frame(entries, args, args.len() as int, k);
}

/// How many of the tokens before position `n` ask for the name `name`.
pub open spec fn times_named(args: Seq<Seq<char>>, name: Seq<char>, n: int) -> nat
    decreases n,
{
    if n <= 1 {
        0
    } else if flag_name(args[n - 1]) == Some(name) {
        times_named(args, name, n - 1) + 1
    } else {
        times_named(args, name, n - 1)
    }
}

/// A truth value that is only ever toggled holds, wherever the walk stands
/// without an error, its first value if it was asked for an even number of
/// times, and the opposite if the number was odd.
pub proof fn lemma_toggle_parity(entries: Seq<Entry>, args: Seq<Seq<char>>, k: int, n: int)
    requires
        0 <= k < entries.len(),
        is_first_named(entries, entries[k].name, k),
        entries[k].value is Bool,
        n <= args.len(),
        forall|i: int|
            1 <= i < n && flag_name(#[trigger] args[i]) == Some(entries[k].name) ==> !takes_value(
                args,
                i,
            ),
        run(entries, args, n).error is None,
    ensures
        run(entries, args, n).entries[k].value == Value::Bool(
            if times_named(args, entries[k].name, n) % 2 == 1 {
                !entries[k].value->Bool_0
            } else {
                entries[k].value->Bool_0
            },
        ),
    decreases n,
{
    if n > 1 {
        let before = run(entries, args, n - 1);
        if before.error is Some {
            lemma_run_ended(entries, args, n - 1, n);
        }
        lemma_toggle_parity(entries, args, k, n - 1);
        law_walk_keeps_shape(entries, args, n - 1);
        lemma_step_frame(before.entries, args, n - 1);
        lemma_lookup_first(entries, entries[k].name, k);
        match flag_name(args[n - 1]) {
            Some(name) => {
                lemma_lookup(entries, name);
                lemma_lookup_same_shape(entries, before.entries, name);
            },
            None => {},
        }
    }
}

/// A flag that holds a truth value and is given no value anywhere holds
/// after a walk without an error the opposite of what it held before if the
/// argument list asks for it an odd number of times, and the same if the
/// number is even.
pub proof fn law_toggle_parity(entries: Seq<Entry>, args: Seq<Seq<char>>, k: int)
    requires
        0 <= k < entries.len(),
        is_first_named(entries, entries[k].name, k),
        entries[k].value is Bool,
        forall|i: int|
            1 <= i < args.len() && flag_name(#[trigger] args[i]) == Some(entries[k].name)
                ==> !takes_value(args, i),
        outcome(entries, args).error is None,
    ensures
        outcome(entries, args).entries[k].value == Value::Bool(
            if times_named(args, entries[k].name, args.len() as int) % 2 == 1 {
                !entries[k].value->Bool_0
            } else {
                entries[k].value->Bool_0
            },
        ),
{
    lemma_toggle_parity(entries, args, k, args.len() as int);
}

/// A flag followed by a bare value takes the value that the text denotes,
/// and the walk passes over the text. Where the text denotes no value of the
/// flag's kind, the walk ends there with every flag as it stood.
pub proof fn law_flag_takes_value(entries: Seq<Entry>, args: Seq<Seq<char>>, i: int, k: int)
    requires
        1 <= i,
        i + 1 < args.len(),
        asks_for(entries, args, i, k),
        !is_flag(args[i + 1]),
        run(entries, args, i).error is None,
    ensures
        0 <= k < entries.len(),
        run(entries, args, i + 2) == match parse_text(entries[k].value.kind(), args[i + 1]) {
            Some(v) => (Outcome {
                entries: with_value(run(entries, args, i).entries, k, v),
                error: None,
            }),
            None => (Outcome {
                entries: run(entries, args, i).entries,
                error: Some(
                    ParseError::Conversion {
                        flag: k as usize,
                        position: (i + 1) as usize,
                        kind: entries[k].value.kind(),
                    },
                ),
            }),
        },
{
    let before = run(entries, args, i);
    let name = flag_name(args[i])->Some_0;
    lemma_lookup(entries, name);
    law_walk_keeps_shape(entries, args, i);
    lemma_lookup_same_shape(entries, before.entries, name);
    assert(run(entries, args, i + 2) == run(entries, args, i + 1)) by {
        reveal_with_fuel(run, 2);
    }
}

/// A token that is not written as a flag changes nothing.
pub proof fn law_bare_value_is_passed_over(entries: Seq<Entry>, args: Seq<Seq<char>>, i: int)
    requires
        !is_flag(args[i]),
    ensures
        step(entries, args, i) == Ok::<Seq<Entry>, ParseError>(entries),
{
}

/// A flag followed by a token that is written as a flag is toggled: the
/// token after it is never its value, whatever it looks like otherwise.
pub proof fn law_flag_before_flag_is_toggled(
    entries: Seq<Entry>,
    args: Seq<Seq<char>>,
    i: int,
    k: int,
)
    requires
        asks_for(entries, args, i, k),
        i + 1 < args.len(),
        is_flag(args[i + 1]),
    ensures
        step(entries, args, i) == match entries[k].value.toggled() {
            Some(v) => Ok::<Seq<Entry>, ParseError>(with_value(entries, k, v)),
            None => Err::<Seq<Entry>, ParseError>(
                ParseError::NotBoolean {
                    flag: k as usize,
                    position: i as usize,
                    kind: entries[k].value.kind(),
                },
            ),
        },
{
}

/// Where a token cannot be acted upon, the walk ends with what the tokens
/// before it did, and with the error of that token.
pub proof fn law_error_keeps_earlier_changes(entries: Seq<Entry>, args: Seq<Seq<char>>, i: int)
    requires
        1 <= i < args.len(),
        run(entries, args, i).error is None,
        step(run(entries, args, i).entries, args, i) is Err,
    ensures
        outcome(entries, args).entries == run(entries, args, i).entries,
        outcome(entries, args).error == Some(step(run(entries, args, i).entries, args, i)->Err_0),
{
    lemma_run_ended(entries, args, i + 1, args.len() as int);
}

/// Every integer kind reads the text `42` as the number 42.
pub proof fn law_forty_two(kind: Kind)
    requires
        kind != Kind::Bool,
    ensures
        parse_text(kind, "42"@) == Some(Value::number(kind, 42)),
{
    reveal_strlit("42");
    assert(decimal("42"@) == 42) by {
        reveal_with_fuel(decimal, 3);
    }
}

/// No kind reads the text `notanumber` as a value.
pub proof fn law_not_a_number(kind: Kind)
    ensures
        parse_text(kind, "notanumber"@) is None,
{
    reveal_strlit("notanumber");
}

/// An integer flag that is given the text `42` holds the number 42 from
/// then on.
pub proof fn law_integer_flag_takes_forty_two(
    entries: Seq<Entry>,
    args: Seq<Seq<char>>,
    i: int,
    k: int,
)
    requires
        1 <= i,
        i + 1 < args.len(),
        0 <= k < entries.len(),
        asks_for(entries, args, i, k),
        entries[k].value.kind() != Kind::Bool,
        args[i + 1] == "42"@,
        run(entries, args, i).error is None,
    ensures
        run(entries, args, i + 2) == (Outcome {
            entries: with_value(
                run(entries, args, i).entries,
                k,
                Value::number(entries[k].value.kind(), 42),
            ),
            error: None,
        }),
{
    reveal_strlit("42");
    lemma_lookup(entries, flag_name(args[i])->Some_0);
    law_forty_two(entries[k].value.kind());
    law_flag_takes_value(entries, args, i, k);
}

/// A flag that is given the text `notanumber` ends the walk: the outcome
/// holds what the tokens before the flag did and nothing more, and names the
/// flag, the text's position and the kind that it was to be read as.
pub proof fn law_flag_rejects_not_a_number(
    entries: Seq<Entry>,
    args: Seq<Seq<char>>,
    i: int,
    k: int,
)
    requires
        1 <= i,
        i + 1 < args.len(),
        0 <= k < entries.len(),
        asks_for(entries, args, i, k),
        args[i + 1] == "notanumber"@,
        run(entries, args, i).error is None,
    ensures
        outcome(entries, args) == (Outcome {
            entries: run(entries, args, i).entries,
            error: Some(
                ParseError::Conversion {
                    flag: k as usize,
                    position: (i + 1) as usize,
                    kind: entries[k].value.kind(),
                },
            ),
        }),
        outcome(entries, args).entries[k].value == run(entries, args, i).entries[k].value,
{
    reveal_strlit("notanumber");
    lemma_lookup(entries, flag_name(args[i])->Some_0);
    law_not_a_number(entries[k].value.kind());
    law_flag_takes_value(entries, args, i, k);
    lemma_run_ended(entries, args, i + 2, args.len() as int);
}

/// Whether `s` holds no dash.
pub open spec fn no_dash(s: Seq<char>) -> bool {
    forall|i: int| 0 <= i < s.len() ==> #[trigger] s[i] != '-'
}

/// The words of `words`, written one after the other with a dash between
/// each two.
pub open spec fn dashed(words: Seq<Seq<char>>) -> Seq<char>
    decreases words.len(),
{
    if words.len() == 0 {
        Seq::empty()
    } else if words.len() == 1 {
        words[0]
    } else {
        words.first() + seq!['-'] + dashed(words.drop_first())
    }
}

/// Taking the dashes out of a text that holds none leaves it as it is.
pub proof fn lemma_without_dashes_of_word(s: Seq<char>)
    requires
        no_dash(s),
    ensures
        without_dashes(s) == s,
    decreases s.len(),
{
    if s.len() == 0 {
        assert(without_dashes(s) =~= s) by {
            reveal_with_fuel(Seq::filter, 1);
        }
    } else {
        lemma_without_dashes_of_word(s.drop_last());
        assert(s =~= s.drop_last().push(s.last()));
        s.drop_last().lemma_filter_push(s.last(), |c: char| c != '-');
    }
}

/// Taking the dashes out of words joined by dashes leaves the words, one
/// after the other.
pub proof fn lemma_without_dashes_of_dashed(words: Seq<Seq<char>>)
    requires
        forall|w: int| 0 <= w < words.len() ==> no_dash(#[trigger] words[w]),
    ensures
        without_dashes(dashed(words)) == words.flatten(),
    decreases words.len(),
{
    let keep = |c: char| c != '-';
    if words.len() == 0 {
        lemma_without_dashes_of_word(Seq::<char>::empty());
    } else if words.len() == 1 {
        lemma_without_dashes_of_word(words[0]);
        words.lemma_flatten_one_element();
    } else {
        let rest = words.drop_first();
        assert forall|w: int| 0 <= w < rest.len() implies no_dash(#[trigger] rest[w]) by {
        }
        lemma_without_dashes_of_dashed(rest);
        lemma_without_dashes_of_word(words.first());
        let dash = seq!['-'];
        assert(without_dashes(dash) =~= Seq::<char>::empty()) by {
            Seq::<char>::empty().lemma_filter_push('-', keep);
            lemma_without_dashes_of_word(Seq::<char>::empty());
        }
        Seq::filter_distributes_over_add(words.first(), dash, keep);
        Seq::filter_distributes_over_add(words.first() + dash, dashed(rest), keep);
    }
}

/// A long flag whose words are joined by dashes asks for the name that the
/// words make up when written one after the other.
pub proof fn law_dashed_words_name_the_flag(words: Seq<Seq<char>>)
    requires
        forall|w: int| 0 <= w < words.len() ==> no_dash(#[trigger] words[w]),
    ensures
        flag_name(seq!['-', '-'] + dashed(words)) == Some(words.flatten()),
{
    let token = seq!['-', '-'] + dashed(words);
    assert(token.skip(2) =~= dashed(words));
    lemma_without_dashes_of_dashed(words);
}

} // verus!
