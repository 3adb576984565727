//! One registered flag.

use crate::traits::Flag;
use crate::value::Value;
use vstd::prelude::*;

verus! {

/// What a registered flag is, as the contracts see it.
pub struct Entry {
    pub name: Seq<char>,
    pub description: Seq<char>,
    pub value: Value,
}

/// A registered flag: its name, a description for the reader, and the value
/// that it holds at the moment.
pub struct Element<'a> {
    pub name: &'a str,
    pub description: &'a str,
    pub value: Value,
}

impl<'a> View for Element<'a> {
    type V = Entry;

    open spec fn view(&self) -> Entry {
        Entry { name: self.name@, description: self.description@, value: self.value }
    }
}

impl<'a> Element<'a> {
    /// Makes a flag called `name` that holds `value`.
    pub fn new<T: Flag>(name: &'a str, description: &'a str, value: T) -> (e: Self)
        ensures
            e@ == (Entry { name: name@, description: description@, value: value.as_value() }),
            e.value.kind() == T::kind(),
    {
        Element { name, description, value: value.into_value() }
    }

    /// Gives access to the value as one of type `T`, to read it or to put
    /// another in its place; nothing where the flag holds another kind of
    /// value.
    pub fn get<T: Flag>(&mut self) -> (r: Option<&mut T>)
        ensures
            r is Some <==> old(self).value.kind() == T::kind(),
            match r {
                Some(x) => x.as_value() == old(self).value && final(self)@ == (Entry {
                    value: final(x).as_value(),
                    ..old(self)@
                }),
                None => *final(self) == *old(self),
            },
    {
        T::slot(&mut self.value)
    }
}

} // verus!
