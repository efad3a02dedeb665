//! The data sent to and received from the query endpoint of a Databend
//! server, and the session state of the remote output sink: which database
//! statements are executed in, and how a statement is packaged into one
//! query request.

use vstd::prelude::*;

use crate::parser::bytes_to_string;
use crate::text::{class_run, lemma_run_len, run_len, ByteClass};
use std::collections::BTreeMap;
use vstd::slice::slice_subrange;
use vstd::slice::slice_to_vec;
use vstd::utf8::{decode_utf8, valid_utf8};

verus! {

/// The longest time, in seconds, the sink waits for a synchronous
/// execution result.
pub const MAX_EXECUTE_DURATION_SEC: u32 = 120;

/// One query submitted to the server.
pub struct HttpQueryRequest {
    pub session_id: Option<String>,
    pub session: Option<HttpSessionConf>,
    pub sql: String,
    pub pagination: Option<PaginationConf>,
    pub string_fields: Option<bool>,
}

/// How long the server may hold the request open and how results page.
pub struct PaginationConf {
    pub wait_time_secs: Option<u32>,
    pub max_rows_in_buffer: Option<usize>,
    pub max_rows_per_page: Option<usize>,
}

/// The session a query executes in, notably its database.
pub struct HttpSessionConf {
    pub database: Option<String>,
    pub keep_server_session_secs: Option<u64>,
    pub settings: Option<BTreeMap<String, String>>,
}

/// A query error reported by the server.
pub struct QueryError {
    pub code: u16,
    pub message: String,
}

/// The execution state the server reports for a submitted query.
#[derive(Clone, Copy, PartialEq, Eq, Structural, Debug)]
pub enum ExecuteStateKind {
    Running,
    Failed,
    Succeeded,
}

/// Progress counters of a query.
pub struct Progresses {
    pub scan_progress: ProgressValues,
    pub write_progress: ProgressValues,
    pub result_progress: ProgressValues,
}

/// Rows and bytes a query has processed.
pub struct ProgressValues {
    pub rows: usize,
    pub bytes: usize,
}

/// Whether a reported execution state is fatal: a failed execution aborts
/// the whole pipeline, since a later statement may depend on the failed one.
pub fn execution_failed(state: &ExecuteStateKind) -> (r: bool)
    ensures
        r == (*state == ExecuteStateKind::Failed),
{
    match state {
        ExecuteStateKind::Failed => true,
        _ => false,
    }
}

/// The view of an optional owned string.
pub open spec fn opt_str_view(o: Option<String>) -> Option<Seq<char>> {
    match o {
        Some(s) => Some(s@),
        None => None,
    }
}

/// The connection settings of the remote sink.
pub struct DatabendArgs {
    pub query_uri: String,
    pub user: String,
    pub password: Option<String>,
    pub default_database: Option<String>,
    pub force_database: Option<String>,
}

/// The remote sink's session state: the database statements execute in,
/// initialized from the configured default and overridden by every `USE`
/// statement the parser reports, unless a database is forced.
pub struct Output {
    database: Option<String>,
    config: DatabendArgs,
}

impl Output {
    /// The database last selected: the configured default until a `USE`
    /// statement overrides it.
    pub closed spec fn session_db(&self) -> Option<Seq<char>> {
        opt_str_view(self.database)
    }

    pub closed spec fn config_model(&self) -> DatabendArgs {
        self.config
    }

    /// The database queries are scoped to: the forced one when configured,
    /// else the session's.
    pub open spec fn scoped_db(&self) -> Option<Seq<char>> {
        match opt_str_view(self.config_model().force_database) {
            Some(f) => Some(f),
            None => self.session_db(),
        }
    }

    pub fn new(config: DatabendArgs) -> (o: Output)
        ensures
            o.session_db() == opt_str_view(config.default_database),
            o.config_model() == config,
    {
        let database = match &config.default_database {
            Some(d) => Some(d.clone()),
            None => None,
        };
        Output { database, config }
    }

    /// Record the database a `USE` statement selected.
    pub fn set_current_db(&mut self, db: &str)
        ensures
            final(self).session_db() == Some(db@),
            final(self).config_model() == old(self).config_model(),
    {
        self.database = Some(db.to_owned());
    }

    /// Package one SQL statement as a query request: the statement text,
    /// the scoped database when one is known, and a bounded synchronous
    /// wait for the result.
    pub fn build_query_request(&self, sql: String) -> (r: HttpQueryRequest)
        ensures
            r.sql == sql,
            r.session_id is None,
            r.string_fields is None,
            r.pagination matches Some(p) && p.wait_time_secs == Some(MAX_EXECUTE_DURATION_SEC)
                && p.max_rows_in_buffer is None && p.max_rows_per_page is None,
            match r.session {
                Some(c) => self.scoped_db() == opt_str_view(c.database)
                    && c.keep_server_session_secs is None && c.settings is None,
                None => self.scoped_db() is None,
            },
            r.session is Some <==> self.scoped_db() is Some,
    {
        let db: Option<String> = match &self.config.force_database {
            Some(f) => Some(f.clone()),
            None => match &self.database {
                Some(d) => Some(d.clone()),
                None => None,
            },
        };
        let session: Option<HttpSessionConf> = match db {
            Some(d) => Some(
                HttpSessionConf {
                    database: Some(d),
                    keep_server_session_secs: None,
                    settings: None,
                },
            ),
            None => None,
        };
        HttpQueryRequest {
            session_id: None,
            session,
            sql,
            pagination: Some(
                PaginationConf {
                    wait_time_secs: Some(MAX_EXECUTE_DURATION_SEC),
                    max_rows_in_buffer: None,
                    max_rows_per_page: None,
                },
            ),
            string_fields: None,
        }
    }
}

/// Length of the run of trailing whitespace of `s[..hi]`.
pub open spec fn trail_ws_len(s: Seq<u8>, hi: int) -> int
    decreases hi when 0 <= hi <= s.len()
{
    if hi <= 0 {
        0
    } else if in_class_ws(s[hi - 1]) {
        1 + trail_ws_len(s, hi - 1)
    } else {
        0
    }
}

/// ASCII whitespace, as the sink trims it from a statement's ends.
pub open spec fn in_class_ws(b: u8) -> bool {
    crate::text::in_class(ByteClass::Whitespace, b)
}

/// `s` with leading and trailing ASCII whitespace removed.
pub open spec fn trim_ws(s: Seq<u8>) -> Seq<u8> {
    let a = run_len(s, 0, ByteClass::Whitespace);
    if a == s.len() {
        Seq::<u8>::empty()
    } else {
        s.subrange(a, s.len() - trail_ws_len(s, s.len() as int))
    }
}

proof fn lemma_trail_ws_len(s: Seq<u8>, hi: int)
    requires
        0 <= hi <= s.len(),
    ensures
        0 <= trail_ws_len(s, hi) <= hi,
        forall|k: int| hi - trail_ws_len(s, hi) <= k < hi ==> in_class_ws(s[k]),
        hi - trail_ws_len(s, hi) > 0 ==> !in_class_ws(s[hi - trail_ws_len(s, hi) - 1]),
    decreases hi,
{
    if hi > 0 && in_class_ws(s[hi - 1]) {
        lemma_trail_ws_len(s, hi - 1);
    }
}

/// The statement text the sink submits: the emitted bytes, trimmed of
/// leading and trailing whitespace, decoded as UTF-8.  `None` exactly when
/// the trimmed bytes are not valid UTF-8.
pub fn prepare_statement(buf: &[u8]) -> (r: Option<String>)
    ensures
        r is Some <==> valid_utf8(trim_ws(buf@)),
        r matches Some(s) ==> s@ == decode_utf8(trim_ws(buf@)),
{
    let a = class_run(buf, 0, ByteClass::Whitespace);
    if a == buf.len() {
        return bytes_to_string(Vec::new());
    }
    proof {
        lemma_run_len(buf@, 0, ByteClass::Whitespace);
    }
    let hi = trim_end_ws(buf, a);
    proof {
        assert(buf@.subrange(a as int, hi as int) == trim_ws(buf@));
    }
    bytes_to_string(slice_to_vec(slice_subrange(buf, a, hi)))
}

/// Where the run of trailing whitespace of `buf` begins; `a` is a position
/// holding a non-whitespace byte, so the run ends above it.
fn trim_end_ws(buf: &[u8], a: usize) -> (hi: usize)
    requires
        a < buf@.len(),
        !in_class_ws(buf@[a as int]),
    ensures
        a < hi <= buf@.len(),
        hi == buf@.len() - trail_ws_len(buf@, buf@.len() as int),
{
    let mut hi: usize = buf.len();
    loop
        invariant
            a < hi <= buf@.len(),
            !in_class_ws(buf@[a as int]),
            trail_ws_len(buf@, buf@.len() as int) == buf@.len() - hi + trail_ws_len(
                buf@,
                hi as int,
            ),
        decreases hi,
    {
        let b = buf[hi - 1];
        if b == 32 || b == 9 || b == 10 || b == 13 {
            if hi - 1 == a {
                proof {
                    assert(in_class_ws(buf@[a as int]));
                    assert(false);
                }
            }
            hi -= 1;
        } else {
            proof {
                assert(trail_ws_len(buf@, hi as int) == 0);
            }
            return hi;
        }
    }
}

} // verus!
