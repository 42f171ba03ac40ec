//! The files that scripts were read from.
use miette::{SourceCode, SourceSpan};
use vstd::prelude::*;
use vstd::utf8::encode_utf8;

use crate::duration::{format_duration, humantime_text};
use crate::grammar::statements as grammar;
use crate::parse_error::ParserError;
use crate::parser::statements::parse;
use crate::script::{Directive, DirectiveView, TimeSpan};
use crate::source::{Identifier, Script, SourceFileIdx};
use crate::text::{decimal, decimal_digits};

verus! {

impl index_vec::Idx for SourceFileIdx {
    fn from_usize(idx: usize) -> (r: Self)
        ensures
            r.0 == idx,
    {
        SourceFileIdx(idx)
    }

    fn index(self) -> (r: usize)
        ensures
            r == self.0,
    {
        self.0
    }
}

/// The list of all files.
#[verifier::external_body]
pub struct FileTable {
    list: index_vec::IndexVec<SourceFileIdx, (String, String)>,
}

/// The files of a table in the order of their numbers: the name of each, and its text.
pub uninterp spec fn file_contents(table: FileTable) -> Seq<(Seq<char>, Seq<char>)>;

impl FileTable {
    /// `IndexVec::new`: a table without files.
    #[verifier::external_body]
    fn new() -> (table: FileTable)
        ensures
            file_contents(table) == Seq::<(Seq<char>, Seq<char>)>::empty(),
    {
        FileTable { list: index_vec::IndexVec::new() }
    }

    /// `IndexVec::push`: puts a file behind the others. Its number is the number of files before
    /// it.
    #[verifier::external_body]
    fn push(&mut self, name: String, text: String) -> (file: SourceFileIdx)
        ensures
            file_contents(*final(self)) == file_contents(*old(self)).push((name@, text@)),
            file.0 == file_contents(*old(self)).len(),
    {
        self.list.push((name, text))
    }

    /// `IndexVec::get`: the file of a number, if there is one.
    #[verifier::external_body]
    fn get(&self, file: SourceFileIdx) -> (entry: Option<&(String, String)>)
        ensures
            match entry {
                Some(e) => file.0 < file_contents(*self).len() && (e.0@, e.1@) == file_contents(
                    *self,
                )[file.0 as int],
                None => file.0 >= file_contents(*self).len(),
            },
    {
        self.list.get(file)
    }
}

/// Whether a line ends with a byte: with a line feed, or with a carriage return that no line feed
/// follows.
pub open spec fn ends_line(bytes: Seq<u8>, i: int) -> bool {
    ||| bytes[i] == 10
    ||| bytes[i] == 13 && !(i + 1 < bytes.len() && bytes[i + 1] == 10)
}

/// The number of lines that end with one of the first `n` bytes.
pub open spec fn line_ends(bytes: Seq<u8>, n: nat) -> nat
    decreases n,
{
    if n == 0 {
        0
    } else {
        line_ends(bytes, (n - 1) as nat) + if ends_line(bytes, n - 1) {
            1nat
        } else {
            0
        }
    }
}

/// The line that miette's `SourceCode::read_span` gives for a span in a text, without lines before
/// or after it: the number of lines that end before the span. So the first line is zero. A text
/// takes `isize::MAX` bytes at most, so it has no more lines.
#[verifier::external_body]
fn get_span_line(text: &str, start: usize, len: usize) -> (line: usize)
    requires
        start + len <= encode_utf8(text@).len(),
    ensures
        line == line_ends(encode_utf8(text@), start as nat),
        line <= isize::MAX,
{
    SourceCode::read_span(text, &SourceSpan::from((start, len)), 0, 0).unwrap().line()
}

/// The files that were read so far, in the order in which they were read.
pub struct SourceFiles {
    table: FileTable,
}

impl View for SourceFiles {
    type V = Seq<(Seq<char>, Seq<char>)>;

    closed spec fn view(&self) -> Seq<(Seq<char>, Seq<char>)> {
        file_contents(self.table)
    }
}

/// The name and the text of a file. A file that was not read is called `unknown`.
pub open spec fn named_source(files: Seq<(Seq<char>, Seq<char>)>, file: SourceFileIdx) -> (
    Seq<char>,
    Seq<char>,
) {
    if file.0 < files.len() {
        files[file.0 as int]
    } else {
        ("unknown"@, ""@)
    }
}

/// Whether a name was read from one of the files.
pub open spec fn stands_in(files: Seq<(Seq<char>, Seq<char>)>, identifier: Identifier) -> bool {
    &&& identifier.source_file.0 < files.len()
    &&& identifier.span.start <= identifier.span.end <= encode_utf8(
        files[identifier.source_file.0 as int].1,
    ).len()
}

/// What is told of a dispatch that has run.
pub open spec fn dispatch_message(
    files: Seq<(Seq<char>, Seq<char>)>,
    identifier: Identifier,
) -> Seq<char> {
    let (name, text) = files[identifier.source_file.0 as int];
    let line = line_ends(encode_utf8(text), identifier.span.start as nat) + 1;
    "Dispatch from "@ + name + ":"@ + decimal_digits(line) + " finished"@
}

impl SourceFiles {
    /// No files.
    pub fn new() -> (files: SourceFiles)
        ensures
            files@ == Seq::<(Seq<char>, Seq<char>)>::empty(),
    {
        SourceFiles { table: FileTable::new() }
    }

    /// Keeps the text of a file and reads the script in it. Every name in the script knows the
    /// file that it is from.
    pub fn parse_stream(&mut self, name: String, text: String) -> (result: (
        SourceFileIdx,
        Result<Vec<Directive>, ParserError<String>>,
    ))
        ensures
            final(self)@ == old(self)@.push((name@, text@)),
            result.0.0 == old(self)@.len(),
            match result.1 {
                Ok(directives) => grammar::script(Script { text: text@, file: result.0 })
                    == Ok::<Seq<DirectiveView>, ParserError<Seq<char>>>(directives.deep_view()),
                Err(error) => grammar::script(Script { text: text@, file: result.0 }) == Err::<
                    Seq<DirectiveView>,
                    ParserError<Seq<char>>,
                >(error.deep_view()),
            },
    {
        let file = self.table.push(name, text);
        match self.table.get(file) {
            Some(entry) => {
                let result = parse(entry.1.as_str(), file);
                (file, result)
            },
            None => vstd::pervasive::unreached(),
        }
    }

    /// The name and the text of a file. A file that was not read is called `unknown`.
    pub fn get_named_source(&self, file: SourceFileIdx) -> (source: (&str, &str))
        ensures
            (source.0@, source.1@) == named_source(self@, file),
    {
        match self.table.get(file) {
            Some(entry) => (entry.0.as_str(), entry.1.as_str()),
            None => ("unknown", ""),
        }
    }

    /// What is told of a dispatch that has run: where it is, and how long it took.
    pub fn get_dispatch_message(&self, identifier: &Identifier, time: TimeSpan) -> (message: (
        String,
        String,
    ))
        requires
            stands_in(self@, *identifier),
            time.nanoseconds < 1_000_000_000,
        ensures
            message.0@ == dispatch_message(self@, *identifier),
            message.1@ == humantime_text(time.seconds, time.nanoseconds),
    {
        match self.table.get(identifier.source_file) {
            Some(entry) => {
                let start: usize = identifier.span.start;
                let len: usize = identifier.span.end - start;
                let line: usize = get_span_line(entry.1.as_str(), start, len) + 1;
                let mut text = String::from_str("Dispatch from ");
                text.append(entry.0.as_str());
                text.append(":");
                text.append(decimal(line as u64).as_str());
                text.append(" finished");
                (text, format_duration(time))
            },
            None => vstd::pervasive::unreached(),
        }
    }
}

} // verus!
