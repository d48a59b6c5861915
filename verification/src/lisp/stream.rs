//! The stream that the reader reads from: characters, each of which may
//! instead be a failure of the source, with a cursor that looks one item ahead.

use vstd::prelude::*;
use crate::lisp::grammar::Item;

verus! {

/// A failure of the stream itself, with the text that describes it.
#[derive(Debug)]
pub struct StreamError {
    pub message: String,
}

/// The model of an item as the stream holds it.
pub open spec fn item_of(item: Result<char, StreamError>) -> Item {
    match item {
        Ok(c) => Ok(c),
        Err(e) => Err(e.message@),
    }
}

/// A stream of characters with a cursor. Its view is what is still to be read.
pub struct CharStream {
    items: Vec<Result<char, StreamError>>,
    pos: usize,
}

impl View for CharStream {
    type V = Seq<Item>;

    closed spec fn view(&self) -> Seq<Item> {
        if self.pos <= self.items.len() {
            Seq::new((self.items.len() - self.pos) as nat, |i: int| item_of(self.items[self.pos + i]))
        } else {
            Seq::empty()
        }
    }
}

impl CharStream {
    /// A stream that yields `items` in order and then ends.
    pub fn new(items: Vec<Result<char, StreamError>>) -> (stream: CharStream)
        ensures
            stream@ == Seq::new(items.len() as nat, |i: int| item_of(items[i])),
    {
        let stream = CharStream { items, pos: 0 };
        assert(stream@ =~= Seq::new(items.len() as nat, |i: int| item_of(items[i])));
        stream
    }

    /// The next item, which stays in the stream; `None` at the end.
    pub fn peek(&self) -> (item: Option<Result<char, StreamError>>)
        ensures
            match item {
                None => self@.len() == 0,
                Some(it) => self@.len() > 0 && item_of(it) == self@[0],
            },
    {
        if self.pos < self.items.len() {
            match &self.items[self.pos] {
                Ok(c) => Some(Ok(*c)),
                Err(e) => Some(Err(StreamError { message: e.message.clone() })),
            }
        } else {
            None
        }
    }

    /// How many items are still to be read.
    pub fn remaining(&self) -> (n: usize)
        ensures
            n == self@.len(),
    {
        if self.pos <= self.items.len() {
            self.items.len() - self.pos
        } else {
            0
        }
    }

    /// Takes the next item out of the stream; `None` at the end, where the
    /// stream stays as it is.
    pub fn next(&mut self) -> (item: Option<Result<char, StreamError>>)
        ensures
            match item {
                None => old(self)@.len() == 0 && final(self)@ == old(self)@,
                Some(it) => old(self)@.len() > 0 && item_of(it) == old(self)@[0]
                    && final(self)@ == old(self)@.skip(1),
            },
    {
        let item = self.peek();
        if self.pos < self.items.len() {
            self.pos = self.pos + 1;
            assert(self@ =~= old(self)@.skip(1));
        }
        item
    }
}

} // verus!
