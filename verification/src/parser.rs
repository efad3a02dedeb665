//! The parser state machine: drives classification, accumulates the body of
//! an open `CREATE TABLE` statement across input lines, runs the rewrite
//! engine when the body closes, and exposes the current statement's
//! emittable pieces.

use vstd::prelude::*;

use crate::classify::{classify, classify_line, ClassifiedLine, LineShape};
use crate::rewrite::{convert_to_databend_create_table, rewrite_table_spec};
use crate::text::{push_all, CLOSE_PAREN};
use vstd::slice::slice_to_vec;
use vstd::utf8::{decode_utf8, valid_utf8};

verus! {

/// The statement currently held by the parser.
#[derive(Clone, Copy, PartialEq, Eq, Structural)]
pub enum Stmt {
    /// A `CREATE TABLE` body is being accumulated.
    InCreateTable,
    /// A finished, rewritten `CREATE TABLE` statement.
    CreateTable,
    /// A single-line `CREATE DATABASE` statement.
    CreateDatabase,
    /// A single-line `USE` statement.
    Use,
    /// A single-line `INSERT INTO` statement, passed through unmodified.
    InsertInto,
    /// Anything else: discarded, never emitted.
    Other,
}

/// A naming-context transition reported by [`Parser::parse`].
pub enum StateChange {
    /// A `CREATE DATABASE` statement named this database.
    CreateDatabase(String),
    /// A `USE` statement selected this database.
    UseDatabase(String),
    /// A `CREATE TABLE` statement opened this table.
    Table(String),
    /// No naming context changed.
    NoChange,
}

/// The single fatal parse error: a recognized statement keyword without a
/// well-formed delimited identifier.
#[derive(Debug)]
pub enum ParseError {
    MalformedStatement,
}

/// Relies on `String::from_utf8`: it succeeds exactly on valid UTF-8 input
/// and returns the string whose bytes are the input.
#[verifier::external_body]
pub(crate) fn bytes_to_string(v: Vec<u8>) -> (r: Option<String>)
    ensures
        r is Some <==> valid_utf8(v@),
        r matches Some(s) ==> s@ == decode_utf8(v@),
{
    String::from_utf8(v).ok()
}

/// The streaming statement parser.  Exactly one statement is current at any
/// time; it is replaced, never merged, each time a line is classified.
pub struct Parser {
    buf: Vec<u8>,
    current: Stmt,
}

impl Parser {
    /// The bytes of the current statement: a raw single-line statement, an
    /// accumulating `CREATE TABLE` body, or a finished rewritten statement.
    pub closed spec fn buf_model(&self) -> Seq<u8> {
        self.buf@
    }

    /// The kind of the current statement.
    pub closed spec fn stmt_model(&self) -> Stmt {
        self.current
    }

    pub fn new() -> (p: Parser)
        ensures
            p.buf_model() == Seq::<u8>::empty(),
            p.stmt_model() == Stmt::Other,
    {
        Parser { buf: Vec::new(), current: Stmt::Other }
    }

    /// Feed one raw input line (including its terminator) to the parser.
    ///
    /// While a `CREATE TABLE` body is open, a line whose first byte is the
    /// closing delimiter closes the body and runs the rewrite engine once;
    /// any other line is appended verbatim to the accumulation buffer.
    /// Otherwise the line is classified: a recognized single-line statement
    /// replaces the current statement and reports its naming transition; a
    /// `CREATE TABLE` header opens accumulation with the header line as the
    /// buffer's first line; a recognized keyword without a well-formed
    /// delimited identifier (or a name that is not valid UTF-8) fails with
    /// [`ParseError::MalformedStatement`].
    pub fn parse(&mut self, line: &[u8]) -> (r: Result<StateChange, ParseError>)
        requires
            line@.len() > 0,
        ensures
            parse_post(*old(self), *final(self), line@, r),
    {
        if let Stmt::InCreateTable = self.current {
            if line[0] == CLOSE_PAREN {
                self.current = Stmt::CreateTable;
                convert_to_databend_create_table(&mut self.buf);
            } else {
                push_all(&mut self.buf, line);
            }
            Ok(StateChange::NoChange)
        } else {
            self.buf = slice_to_vec(line);
            match classify_line(line) {
                ClassifiedLine::CreateDb(name) => {
                    self.current = Stmt::CreateDatabase;
                    match bytes_to_string(name) {
                        Some(s) => Ok(StateChange::CreateDatabase(s)),
                        None => {
                            self.current = Stmt::Other;
                            Err(ParseError::MalformedStatement)
                        },
                    }
                },
                ClassifiedLine::CreateTbl(name) => {
                    self.current = Stmt::InCreateTable;
                    match bytes_to_string(name) {
                        Some(s) => Ok(StateChange::Table(s)),
                        None => {
                            self.current = Stmt::Other;
                            Err(ParseError::MalformedStatement)
                        },
                    }
                },
                ClassifiedLine::UseDb(name) => {
                    self.current = Stmt::Use;
                    match bytes_to_string(name) {
                        Some(s) => Ok(StateChange::UseDatabase(s)),
                        None => {
                            self.current = Stmt::Other;
                            Err(ParseError::MalformedStatement)
                        },
                    }
                },
                ClassifiedLine::Insert => {
                    self.current = Stmt::InsertInto;
                    Ok(StateChange::NoChange)
                },
                ClassifiedLine::Other => {
                    self.current = Stmt::Other;
                    Ok(StateChange::NoChange)
                },
                ClassifiedLine::Malformed => {
                    self.current = Stmt::Other;
                    Err(ParseError::MalformedStatement)
                },
            }
        }
    }

    /// The raw bytes of the current statement if it is a database-context
    /// statement (`CREATE DATABASE` or `USE`); empty otherwise.
    pub fn output_database_statements(&self) -> (r: Vec<u8>)
        ensures
            r@ == emit_context(self.stmt_model(), self.buf_model()),
    {
        match self.current {
            Stmt::CreateDatabase | Stmt::Use => slice_to_vec(self.buf.as_slice()),
            _ => Vec::new(),
        }
    }

    /// The bytes of the current statement if it is a content statement
    /// (`INSERT INTO`, or a finished rewritten `CREATE TABLE`); empty
    /// otherwise.
    pub fn output_database_content(&self) -> (r: Vec<u8>)
        ensures
            r@ == emit_content(self.stmt_model(), self.buf_model()),
    {
        match self.current {
            Stmt::InsertInto | Stmt::CreateTable => slice_to_vec(self.buf.as_slice()),
            _ => Vec::new(),
        }
    }
}

/// A statement that establishes or changes the database naming context.
pub open spec fn is_context_stmt(st: Stmt) -> bool {
    st == Stmt::CreateDatabase || st == Stmt::Use
}

/// A statement carrying schema or data payload, ready for output.
pub open spec fn is_content_stmt(st: Stmt) -> bool {
    st == Stmt::InsertInto || st == Stmt::CreateTable
}

/// What [`Parser::output_database_statements`] returns.
pub open spec fn emit_context(st: Stmt, buf: Seq<u8>) -> Seq<u8> {
    if is_context_stmt(st) {
        buf
    } else {
        Seq::<u8>::empty()
    }
}

/// What [`Parser::output_database_content`] returns.
pub open spec fn emit_content(st: Stmt, buf: Seq<u8>) -> Seq<u8> {
    if is_content_stmt(st) {
        buf
    } else {
        Seq::<u8>::empty()
    }
}

/// The full contract of [`Parser::parse`]: how the statement kind, the
/// accumulation buffer and the reported transition follow from the previous
/// state and the classification of the line.
pub open spec fn parse_post(
    pre: Parser,
    post: Parser,
    line: Seq<u8>,
    r: Result<StateChange, ParseError>,
) -> bool {
    if pre.stmt_model() == Stmt::InCreateTable {
        &&& if line[0] == CLOSE_PAREN {
            &&& post.stmt_model() == Stmt::CreateTable
            &&& post.buf_model() == rewrite_table_spec(pre.buf_model())
        } else {
            &&& post.stmt_model() == Stmt::InCreateTable
            &&& post.buf_model() == pre.buf_model() + line
        }
        &&& r matches Ok(StateChange::NoChange)
    } else {
        &&& post.buf_model() == line
        &&& match classify(line) {
            LineShape::CreateDb { name } => {
                if valid_utf8(name) {
                    &&& post.stmt_model() == Stmt::CreateDatabase
                    &&& r matches Ok(StateChange::CreateDatabase(s)) && s@ == decode_utf8(name)
                } else {
                    &&& post.stmt_model() == Stmt::Other
                    &&& r matches Err(ParseError::MalformedStatement)
                }
            },
            LineShape::CreateTbl { name } => {
                if valid_utf8(name) {
                    &&& post.stmt_model() == Stmt::InCreateTable
                    &&& r matches Ok(StateChange::Table(s)) && s@ == decode_utf8(name)
                } else {
                    &&& post.stmt_model() == Stmt::Other
                    &&& r matches Err(ParseError::MalformedStatement)
                }
            },
            LineShape::UseDb { name } => {
                if valid_utf8(name) {
                    &&& post.stmt_model() == Stmt::Use
                    &&& r matches Ok(StateChange::UseDatabase(s)) && s@ == decode_utf8(name)
                } else {
                    &&& post.stmt_model() == Stmt::Other
                    &&& r matches Err(ParseError::MalformedStatement)
                }
            },
            LineShape::Insert => {
                &&& post.stmt_model() == Stmt::InsertInto
                &&& r matches Ok(StateChange::NoChange)
            },
            LineShape::Other => {
                &&& post.stmt_model() == Stmt::Other
                &&& r matches Ok(StateChange::NoChange)
            },
            LineShape::Malformed => {
                &&& post.stmt_model() == Stmt::Other
                &&& r matches Err(ParseError::MalformedStatement)
            },
        }
    }
}

} // verus!
