//! The source-location record that every error value carries.

use vstd::prelude::*;
use crate::decimal::{decimal, push_decimal};

verus! {

/// What a source-location record stands for: a path, a line and a column.
pub struct Location {
    pub file: Seq<char>,
    pub line: nat,
    pub col: nat,
}

/// How the standard record writes a location: the path, a space, the line, a colon, the column.
pub open spec fn location_text(place: Location) -> Seq<char> {
    place.file + seq![' '] + decimal(place.line) + seq![':'] + decimal(place.col)
}

/// A source-location record: stamped once where an error is raised, read back ever after.
///
/// Implement it for a record of your own when the standard one does not carry enough.
pub trait ErrorInfoTrait: Sized {
    /// The place this record points at.
    spec fn location(&self) -> Location;

    /// What this record looks like at the head of a message.
    spec fn rendering(&self) -> Seq<char>;

    /// A record of the given place.
    fn new(file: &'static str, line: u32, col: u32) -> (info: Self)
        ensures
            info.location() == (Location { file: file@, line: line as nat, col: col as nat }),
    ;

    /// The path of the source file.
    fn file(&self) -> (file: &'static str)
        ensures
            file@ == self.location().file,
    ;

    /// The line in that file.
    fn line(&self) -> (line: u32)
        ensures
            line as nat == self.location().line,
    ;

    /// The column in that line.
    fn col(&self) -> (col: u32)
        ensures
            col as nat == self.location().col,
    ;

    /// The record as text, for the head of a message.
    fn to_string(&self) -> (text: String)
        ensures
            text@ == self.rendering(),
    ;
}

/// The standard source-location record: the three parts of the place and nothing else.
#[derive(Clone, Copy, Debug, PartialEq, Eq)]
pub struct ErrorInfo {
    file: &'static str,
    line: u32,
    col: u32,
}

impl ErrorInfoTrait for ErrorInfo {
    closed spec fn location(&self) -> Location {
        Location { file: self.file@, line: self.line as nat, col: self.col as nat }
    }

    open spec fn rendering(&self) -> Seq<char> {
        location_text(self.location())
    }

    fn new(file: &'static str, line: u32, col: u32) -> (info: Self) {
        ErrorInfo { file, line, col }
    }

    fn file(&self) -> (file: &'static str) {
        self.file
    }

    fn line(&self) -> (line: u32) {
        self.line
    }

    fn col(&self) -> (col: u32) {
        self.col
    }

    fn to_string(&self) -> (text: String) {
        let mut text = String::from_str(self.file);
        text.push(' ');
        push_decimal(&mut text, self.line);
        text.push(':');
        push_decimal(&mut text, self.col);
        text
    }
}

} // verus!
