use crate::helpers::ByteOffset;
use std::ops::Range;
use vstd::prelude::*;

verus! {

/// What a syntax error says: a message and the bytes of the text it is about.
pub struct Fault {
    pub message: Seq<char>,
    pub start: nat,
    pub end: nat,
}

/// Whether every error of a list is about bytes of a text of the given
/// length: none ends before it starts, or behind the end of the text.
pub open spec fn faults_within(errors: Seq<Fault>, length: nat) -> bool {
    forall|i: int|
        0 <= i < errors.len() ==> (#[trigger] errors[i]).start <= errors[i].end <= length
}

/// Represents the result of unsuccessful tokenization, parsing
/// or tree validation.
#[derive(Debug, PartialEq, Eq, Hash)]
pub struct SyntaxError(String, Range<ByteOffset>);

impl View for SyntaxError {
    type V = Fault;

    closed spec fn view(&self) -> Fault {
        Fault { message: self.0@, start: self.1.start.0 as nat, end: self.1.end.0 as nat }
    }
}

impl Clone for SyntaxError {
    fn clone(&self) -> (copy: Self)
        ensures
            copy@ == self@,
    {
        SyntaxError(self.0.clone(), Range { start: self.1.start, end: self.1.end })
    }
}

impl SyntaxError {
    pub fn new(message: String, range: Range<ByteOffset>) -> (error: Self)
        ensures
            error@ == (Fault {
                message: message@,
                start: range.start.0 as nat,
                end: range.end.0 as nat,
            }),
    {
        Self(message, range)
    }

    /// An error about the empty range at `offset`.
    pub fn new_at_offset(message: String, offset: ByteOffset) -> (error: Self)
        ensures
            error@ == (Fault { message: message@, start: offset.0 as nat, end: offset.0 as nat }),
    {
        Self(message, Range { start: offset, end: offset })
    }

    pub fn range(&self) -> (range: Range<ByteOffset>)
        ensures
            range.start.0 == self@.start,
            range.end.0 == self@.end,
    {
        Range { start: self.1.start, end: self.1.end }
    }

    /// The same message about another range.
    pub fn with_range(self, range: Range<ByteOffset>) -> (error: Self)
        ensures
            error@ == (Fault {
                message: self@.message,
                start: range.start.0 as nat,
                end: range.end.0 as nat,
            }),
    {
        let mut error = self;
        error.1 = range;
        error
    }

    pub fn message(&self) -> (message: &str)
        ensures
            message@ == self@.message,
    {
        self.0.as_str()
    }

    /// The error as it is shown to a user: its message.
    pub fn to_string(&self) -> (shown: String)
        ensures
            shown@ == self@.message,
    {
        self.0.clone()
    }
}

} // verus!
