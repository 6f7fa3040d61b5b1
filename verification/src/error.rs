//! Errors in words, and a trace of the errors that were passed over.

use crate::text::names;
use vstd::prelude::*;

verus! {

/// An error that can say in words what went wrong.
pub trait Describe {
    /// What the error says.
    spec fn text(&self) -> Seq<char>;

    /// The error in words.
    fn describe(&self) -> (words: String)
        ensures
            words@ == self.text(),
    ;
}

/// The trace after a result went by: an error adds its text as a line, a
/// success adds nothing.
pub open spec fn traced<T, E: Describe>(trace: Seq<Seq<char>>, result: Result<T, E>) -> Seq<
    Seq<char>,
> {
    match result {
        Ok(_) => trace,
        Err(e) => trace.push(e.text()),
    }
}

/// Results whose error is noted in a trace instead of being handled.
pub trait TraceErr: Sized {
    /// The trace after this result went by.
    spec fn after(&self, trace: Seq<Seq<char>>) -> Seq<Seq<char>>;

    /// Drops the result; its error, if it is one, is added to `trace`.
    fn or_trace(self, trace: &mut Vec<String>)
        ensures
            names(final(trace)@) == self.after(names(old(trace)@)),
    ;

    /// Hands the result back as it is; its error, if it is one, is added to `trace`.
    fn trace_err(self, trace: &mut Vec<String>) -> (same: Self)
        ensures
            same == self,
            names(final(trace)@) == self.after(names(old(trace)@)),
    ;
}

impl<T, E: Describe> TraceErr for Result<T, E> {
    open spec fn after(&self, trace: Seq<Seq<char>>) -> Seq<Seq<char>> {
        traced(trace, *self)
    }

    fn or_trace(self, trace: &mut Vec<String>) {
        if let Err(e) = self {
            let ghost before = trace@;
            let line = e.describe();
            trace.push(line);
            assert(names(trace@) =~= names(before).push(line@));
        }
    }

    fn trace_err(self, trace: &mut Vec<String>) -> (same: Self) {
        if let Err(ref e) = self {
            let ghost before = trace@;
            let line = e.describe();
            trace.push(line);
            assert(names(trace@) =~= names(before).push(line@));
        }
        self
    }
}

/// What becomes of a result whose error is put into words: a success stays,
/// an error is replaced by its text.
pub open spec fn worded<T, E: Describe>(result: Result<T, E>, words: Result<T, String>) -> bool {
    match result {
        Ok(value) => words == Ok::<T, String>(value),
        Err(e) => words matches Err(text) && text@ == e.text(),
    }
}

/// Results whose error is noted in a trace and handed on in words.
pub trait ResultExt<T>: Sized {
    /// The trace after this result went by.
    spec fn noted(&self, trace: Seq<Seq<char>>) -> Seq<Seq<char>>;

    /// Whether `words` is this result with its error put into words.
    spec fn in_words(&self, words: Result<T, String>) -> bool;

    /// Drops the result; its error, if it is one, is added to `trace`.
    fn or_trace(self, trace: &mut Vec<String>)
        ensures
            names(final(trace)@) == self.noted(names(old(trace)@)),
    ;

    /// Hands the result on with its error put into words; the error, if it
    /// is one, is added to `trace`.
    fn trace_err(self, trace: &mut Vec<String>) -> (words: Result<T, String>)
        ensures
            self.in_words(words),
            names(final(trace)@) == self.noted(names(old(trace)@)),
    ;
}

impl<T, E: Describe> ResultExt<T> for Result<T, E> {
    open spec fn noted(&self, trace: Seq<Seq<char>>) -> Seq<Seq<char>> {
        traced(trace, *self)
    }

    open spec fn in_words(&self, words: Result<T, String>) -> bool {
        worded(*self, words)
    }

    fn or_trace(self, trace: &mut Vec<String>) {
        if let Err(e) = self {
            let ghost before = trace@;
            let line = e.describe();
            trace.push(line);
            assert(names(trace@) =~= names(before).push(line@));
        }
    }

    fn trace_err(self, trace: &mut Vec<String>) -> (words: Result<T, String>) {
        match self {
            Ok(value) => Ok(value),
            Err(e) => {
                let ghost before = trace@;
                let line = e.describe();
                trace.push(line.clone());
                assert(names(trace@) =~= names(before).push(line@));
                Err(line)
            },
        }
    }
}

} // verus!
