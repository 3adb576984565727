//! The store of registered flags, and the parser that fills it.

use crate::element::{Element, Entry};
use crate::laws::law_walk_keeps_shape;
use crate::error::{texts, ParseError};
use crate::semantics::{
    is_first_named, lemma_lookup, lemma_lookup_first, lemma_run_ended, lookup, outcome, run,
    same_shape, step, with_value,
};
use crate::text::{same_text, to_chars};
use crate::token::{name_of, starts_with_dash};
use crate::traits::Flag;
use crate::value::Value;
use vstd::prelude::*;

verus! {

/// The flags that a program has registered, in the order in which it did.
///
/// Flags are only ever added, at the end: none is removed or moved, so the
/// number under which a flag was registered stays good.
pub struct Flags<'a> {
    flags: Vec<Element<'a>>,
}

/// The texts of the tokens.
spec fn token_texts(tokens: Seq<Vec<char>>) -> Seq<Seq<char>> {
    tokens.map_values(|t: Vec<char>| t@)
}

impl<'a> View for Flags<'a> {
    type V = Seq<Entry>;

    closed spec fn view(&self) -> Seq<Entry> {
        self.flags@.map_values(|e: Element<'a>| e@)
    }
}

impl<'a> Flags<'a> {
    /// Makes a store that holds no flag.
    pub fn new() -> (s: Self)
        ensures
            s@ == Seq::<Entry>::empty(),
    {
        let s = Flags { flags: Vec::new() };
        s
    }

    /// The number of flags registered so far. It goes up by one with every
    /// registration and never down.
    pub fn count(&self) -> (n: usize)
        ensures
            n == self@.len(),
    {
        self.flags.len()
    }

    /// Registers a flag called `name` that holds `value` until an argument
    /// list says otherwise, and returns the number under which the store
    /// keeps it: the handle by which the value is read and written later.
    ///
    /// A name that is registered already is accepted, but the parser finds a
    /// flag by the first registration of its name and never reaches a later
    /// one.
    pub fn add<T: Flag>(&mut self, name: &'a str, description: &'a str, value: T) -> (handle: usize)
        ensures
            handle == old(self)@.len(),
            final(self)@ == old(self)@.push(
                Entry { name: name@, description: description@, value: value.as_value() },
            ),
    {
        let handle = self.flags.len();
        let flag = Element::new(name, description, value);
        self.flags.push(flag);
        handle
    }

    /// The number of the first flag called `name`, if there is one.
    pub fn find(&self, name: &str) -> (r: Option<usize>)
        ensures
            match r {
                Some(k) => lookup(self@, name@) == Some(k as int) && is_first_named(
                    self@,
                    name@,
                    k as int,
                ),
                None => lookup(self@, name@) is None && forall|j: int|
                    0 <= j < self@.len() ==> (#[trigger] self@[j]).name != name@,
            },
    {
        let name = to_chars(name);
        proof {
            lemma_lookup(self@, name@);
        }
        self.find_chars(name.as_slice())
    }

    fn find_chars(&self, name: &[char]) -> (r: Option<usize>)
        ensures
            match r {
                Some(k) => lookup(self@, name@) == Some(k as int),
                None => lookup(self@, name@) is None,
            },
    {
        let mut k: usize = 0;
        while k < self.flags.len()
            invariant
                k <= self@.len(),
                self@.len() == self.flags@.len(),
                forall|j: int| 0 <= j < k ==> (#[trigger] self@[j]).name != name@,
            decreases self@.len() - k,
        {
            let own = to_chars(self.flags[k].name);
            if same_text(own.as_slice(), name) {
                proof {
                    lemma_lookup_first(self@, name@, k as int);
                }
                return Some(k);
            }
            k = k + 1;
        }
        proof {
            lemma_lookup(self@, name@);
        }
        None
    }

    /// The flag number `handle`, if the store holds that many.
    pub fn element(&self, handle: usize) -> (r: Option<&Element<'a>>)
        ensures
            match r {
                Some(e) => handle < self@.len() && e@ == self@[handle as int],
                None => handle >= self@.len(),
            },
    {
        if handle < self.flags.len() {
            Some(&self.flags[handle])
        } else {
            None
        }
    }

    /// The value that flag number `handle` holds, if the store holds that
    /// many flags.
    pub fn value(&self, handle: usize) -> (r: Option<Value>)
        ensures
            r == if handle < self@.len() {
                Some(self@[handle as int].value)
            } else {
                None
            },
    {
        if handle < self.flags.len() {
            Some(self.flags[handle].value)
        } else {
            None
        }
    }

    /// The value that flag number `handle` holds, as one of type `T`;
    /// nothing where there is no such flag or it holds another kind of value.
    pub fn get<T: Flag>(&self, handle: usize) -> (r: Option<T>)
        ensures
            r is Some <==> handle < self@.len() && self@[handle as int].value.kind() == T::kind(),
            r matches Some(x) ==> x.as_value() == self@[handle as int].value,
    {
        if handle < self.flags.len() {
            T::from_value(self.flags[handle].value)
        } else {
            None
        }
    }

    /// Gives access to the value of flag number `handle` as one of type `T`,
    /// to read it or to put another in its place; nothing where there is no
    /// such flag or it holds another kind of value.
    pub fn get_mut<T: Flag>(&mut self, handle: usize) -> (r: Option<&mut T>)
        ensures
            r is Some <==> handle < old(self)@.len() && old(self)@[handle as int].value.kind()
                == T::kind(),
            match r {
                Some(x) => x.as_value() == old(self)@[handle as int].value && final(self)@
                    == with_value(old(self)@, handle as int, final(x).as_value()),
                None => final(self)@ == old(self)@,
            },
    {
        if handle < self.flags.len() {
            self.flags[handle].get::<T>()
        } else {
            None
        }
    }

    /// Acts on the token at position `i`.
    fn apply(&mut self, tokens: &Vec<Vec<char>>, i: usize) -> (r: Result<(), ParseError>)
        requires
            i < tokens@.len(),
        ensures
            match step(old(self)@, token_texts(tokens@), i as int) {
                Ok(next) => r is Ok && final(self)@ == next,
                Err(e) => r == Err::<(), ParseError>(e) && final(self)@ == old(self)@,
            },
    {
        let name = match name_of(tokens[i].as_slice()) {
            Some(name) => name,
            None => {
                return Ok(());
            },
        };
        let k = match self.find_chars(name.as_slice()) {
            Some(k) => k,
            None => {
                return Ok(());
            },
        };
        proof {
            lemma_lookup(self@, name@);
        }
        let current = self.flags[k].value;
        let kind = current.kind();
        let n = tokens.len();
        let next = if i + 1 < n && !starts_with_dash(tokens[i + 1].as_slice()) {
            match Value::parse(kind, tokens[i + 1].as_slice()) {
                Some(v) => v,
                None => {
                    return Err(ParseError::Conversion { flag: k, position: i + 1, kind });
                },
            }
        } else {
            match current.toggled() {
                Some(v) => v,
                None => {
                    return Err(ParseError::NotBoolean { flag: k, position: i, kind });
                },
            }
        };
        self.flags[k].value = next;
        Ok(())
    }

    /// Walks the argument list `args` and lets each flag that it names take
    /// the value given, or toggles it where none is given.
    ///
    /// The first of `args` is the program's path and is passed over. An
    /// argument that names no registered flag, and a bare value that no flag
    /// takes, are passed over too. The walk ends at the first argument that
    /// cannot be acted upon: a value that is none of the flag's kind, or a
    /// toggle of a flag that holds no truth value. What the arguments before
    /// it did stays done.
    pub fn parse(&mut self, args: &[String]) -> (r: Result<(), ParseError>)
        ensures
            same_shape(old(self)@, final(self)@),
            final(self)@ == outcome(old(self)@, texts(args@)).entries,
            r == match outcome(old(self)@, texts(args@)).error {
                Some(e) => Err::<(), ParseError>(e),
                None => Ok::<(), ParseError>(()),
            },
    {
        let tokens = tokenize(args);
        let ghost start = self@;
        let ghost all = texts(args@);
        let mut i: usize = 1;
        while i < tokens.len()
            invariant
                start == old(self)@,
                all == texts(args@),
                token_texts(tokens@) == all,
                tokens@.len() == all.len(),
                1 <= i,
                i <= all.len() || (all.len() == 0 && i == 1),
                run(start, all, i as int).error is None,
                self@ == run(start, all, i as int).entries,
            decreases tokens@.len() - i,
        {
            match self.apply(&tokens, i) {
                Ok(()) => {},
                Err(e) => {
                    proof {
                        lemma_run_ended(start, all, i + 1, all.len() as int);
                        law_walk_keeps_shape(start, all, all.len() as int);
                    }
                    return Err(e);
                },
            }
            i = i + 1;
        }
        proof {
            law_walk_keeps_shape(start, all, all.len() as int);
        }
        Ok(())
    }
}

/// Splits each of `args` into its characters.
fn tokenize(args: &[String]) -> (tokens: Vec<Vec<char>>)
    ensures
        token_texts(tokens@) == texts(args@),
{
    let mut tokens: Vec<Vec<char>> = Vec::new();
    let mut i: usize = 0;
    while i < args.len()
        invariant
            i <= args@.len(),
            tokens@.len() == i,
            forall|j: int| 0 <= j < i ==> (#[trigger] tokens@[j])@ == args@[j]@,
        decreases args@.len() - i,
    {
        tokens.push(to_chars(args[i].as_str()));
        i = i + 1;
    }
    tokens
}

} // verus!
