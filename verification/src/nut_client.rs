//! The NUT protocol client: line grammars and the list-session state
//! machine.
//!
//! The caller owns the byte stream. It sends the command a helper here
//! hands it, reads reply lines, and feeds each line into a `ListSession`;
//! the session decides what the line means and when the reply is
//! complete. Everything is stated against a small step function over the
//! session model, so whole-session facts (one record per data line, no
//! partial results without `END`, server rejections carried verbatim) are
//! proved once about the model and hold for any driver.

use vstd::prelude::*;

use crate::metrics::{spec_insert, UpsVarMap, VarMap, UPS_DESCRIPTION_PSEUDOVAR};
use crate::strutil::{eq_str, is_prefix_of, split_spaces, starts_with, substring_copy};

verus! {

/// Whitespace between the tokens of a reply line.
pub open spec fn is_wsp(c: char) -> bool {
    c == ' ' || c == '\t' || c == '\r' || c == '\n' || c == '\u{b}' || c == '\u{c}'
}

fn is_wsp_exec(c: char) -> (r: bool)
    ensures
        r == is_wsp(c),
{
    c == ' ' || c == '\t' || c == '\r' || c == '\n' || c == '\u{b}' || c == '\u{c}'
}

/// First position at or after `i` that holds no whitespace.
pub open spec fn wsp_end(s: Seq<char>, i: int) -> int
    decreases s.len() - i,
{
    if i < 0 || i >= s.len() {
        i
    } else if is_wsp(s[i]) {
        wsp_end(s, i + 1)
    } else {
        i
    }
}

/// First position at or after `i` that holds whitespace.
pub open spec fn nonwsp_end(s: Seq<char>, i: int) -> int
    decreases s.len() - i,
{
    if i < 0 || i >= s.len() {
        i
    } else if !is_wsp(s[i]) {
        nonwsp_end(s, i + 1)
    } else {
        i
    }
}

proof fn lemma_wsp_end(s: Seq<char>, i: int)
    requires
        0 <= i <= s.len(),
    ensures
        i <= wsp_end(s, i) <= s.len(),
        i <= nonwsp_end(s, i) <= s.len(),
    decreases s.len() - i,
{
    if i < s.len() {
        lemma_wsp_end(s, i + 1);
    }
}

fn wsp_run(s: &str, start: usize) -> (r: usize)
    requires
        start <= s@.len(),
    ensures
        r == wsp_end(s@, start as int),
        start <= r <= s@.len(),
{
    proof {
        lemma_wsp_end(s@, start as int);
    }
    let len = s.unicode_len();
    let mut i: usize = start;
    while i < len
        invariant
            start <= i <= len,
            len == s@.len(),
            wsp_end(s@, i as int) == wsp_end(s@, start as int),
        decreases len - i,
    {
        if !is_wsp_exec(s.get_char(i)) {
            return i;
        }
        i += 1;
    }
    i
}

fn nonwsp_run(s: &str, start: usize) -> (r: usize)
    requires
        start <= s@.len(),
    ensures
        r == nonwsp_end(s@, start as int),
        start <= r <= s@.len(),
{
    proof {
        lemma_wsp_end(s@, start as int);
    }
    let len = s.unicode_len();
    let mut i: usize = start;
    while i < len
        invariant
            start <= i <= len,
            len == s@.len(),
            nonwsp_end(s@, i as int) == nonwsp_end(s@, start as int),
        decreases len - i,
    {
        if is_wsp_exec(s.get_char(i)) {
            return i;
        }
        i += 1;
    }
    i
}

/// The grammar of one device-list data line:
/// `UPS`, whitespace, an identifier, whitespace, then the description in
/// double quotes, which must close the line. The identifier is any
/// non-empty run free of whitespace; the description holds no quote.
pub open spec fn spec_parse_ups(s: Seq<char>) -> Option<(Seq<char>, Seq<char>)> {
    if !is_prefix_of("UPS"@, s) {
        None
    } else {
        let w1 = wsp_end(s, 3);
        let ide = nonwsp_end(s, w1);
        let w2 = wsp_end(s, ide);
        if w1 <= 3 || ide <= w1 || w2 <= ide || w2 >= s.len() || s[w2] != '"' || s.len() < w2 + 2
            || s.last() != '"' || (exists|j: int| w2 + 1 <= j < s.len() - 1 && s[j] == '"') {
            None
        } else {
            Some((s.subrange(w1, ide), s.subrange(w2 + 1, s.len() - 1)))
        }
    }
}

/// The grammar of one variable-list data line:
/// `VAR`, whitespace, the device identifier, whitespace, the variable
/// name, whitespace, then the value in double quotes closing the line.
pub open spec fn spec_parse_var(s: Seq<char>) -> Option<(Seq<char>, Seq<char>, Seq<char>)> {
    if !is_prefix_of("VAR"@, s) {
        None
    } else {
        let w1 = wsp_end(s, 3);
        let ide = nonwsp_end(s, w1);
        let w2 = wsp_end(s, ide);
        let vare = nonwsp_end(s, w2);
        let w3 = wsp_end(s, vare);
        if w1 <= 3 || ide <= w1 || w2 <= ide || vare <= w2 || w3 <= vare || w3 >= s.len() || s[w3]
            != '"' || s.len() < w3 + 2 || s.last() != '"' || (exists|j: int|
            w3 + 1 <= j < s.len() - 1 && s[j] == '"') {
            None
        } else {
            Some((s.subrange(w1, ide), s.subrange(w2, vare), s.subrange(w3 + 1, s.len() - 1)))
        }
    }
}

/// Scans the quoted tail `s[open..]`: true when `s[open]` is a quote, the
/// last character closes it, and nothing in between is a quote.
fn check_quoted_tail(s: &str, open: usize) -> (r: bool)
    requires
        open < s@.len(),
    ensures
        r == (s@[open as int] == '"' && s@.len() >= open + 2 && s@.last() == '"' && !(exists|j: int|
            open + 1 <= j < s@.len() - 1 && s@[j] == '"')),
{
    let len = s.unicode_len();
    if s.get_char(open) != '"' {
        return false;
    }
    if len - open < 2 {
        return false;
    }
    if s.get_char(len - 1) != '"' {
        return false;
    }
    let mut j: usize = open + 1;
    while j < len - 1
        invariant
            open + 1 <= j <= len - 1,
            len == s@.len(),
            len >= open + 2,
            forall|k: int| open + 1 <= k < j ==> s@[k] != '"',
        decreases len - 1 - j,
    {
        if s.get_char(j) == '"' {
            return false;
        }
        j += 1;
    }
    true
}

/// Parses a device-list data line into identifier and description.
pub fn parse_ups_line(line: &str) -> (r: Option<(String, String)>)
    ensures
        r is Some <==> spec_parse_ups(line@) is Some,
        r is Some ==> ((r->0).0@, (r->0).1@) == spec_parse_ups(line@)->0,
{
    if !starts_with(line, "UPS") {
        return None;
    }
    let len = line.unicode_len();
    proof {
        reveal_strlit("UPS");
    }
    let w1 = wsp_run(line, 3);
    let ide = nonwsp_run(line, w1);
    let w2 = wsp_run(line, ide);
    if w1 <= 3 || ide <= w1 || w2 <= ide || w2 >= len {
        return None;
    }
    if !check_quoted_tail(line, w2) {
        return None;
    }
    let ups = substring_copy(line, w1, ide);
    let desc = substring_copy(line, w2 + 1, len - 1);
    Some((ups, desc))
}

/// Parses a variable-list data line into identifier, variable and value.
pub fn parse_var_line(line: &str) -> (r: Option<(String, String, String)>)
    ensures
        r is Some <==> spec_parse_var(line@) is Some,
        r is Some ==> ((r->0).0@, (r->0).1@, (r->0).2@) == spec_parse_var(line@)->0,
{
    if !starts_with(line, "VAR") {
        return None;
    }
    let len = line.unicode_len();
    proof {
        reveal_strlit("VAR");
    }
    let w1 = wsp_run(line, 3);
    let ide = nonwsp_run(line, w1);
    let w2 = wsp_run(line, ide);
    let vare = nonwsp_run(line, w2);
    let w3 = wsp_run(line, vare);
    if w1 <= 3 || ide <= w1 || w2 <= ide || vare <= w2 || w3 <= vare || w3 >= len {
        return None;
    }
    if !check_quoted_tail(line, w3) {
        return None;
    }
    let ups = substring_copy(line, w1, ide);
    let var = substring_copy(line, w2, vare);
    let val = substring_copy(line, w3 + 1, len - 1);
    Some((ups, var, val))
}

/// Which list query a session serves.
#[derive(Debug, Copy, Clone, PartialEq, Eq, Structural)]
pub enum ListKind {
    /// `LIST UPS`: device identifier and description per line.
    Ups,
    /// `LIST VAR`: device, variable and value per line.
    Var,
}

/// One parsed data record. For a device-list line the variable is the
/// description pseudo-variable and the value the description text.
#[derive(Debug)]
pub struct Record {
    pub ups: String,
    pub var: String,
    pub val: String,
}

/// A record as character sequences.
pub open spec fn rec_view(r: Record) -> (Seq<char>, Seq<char>, Seq<char>) {
    (r.ups@, r.var@, r.val@)
}

/// A record list as character sequences.
pub open spec fn recs_view(s: Seq<Record>) -> Seq<(Seq<char>, Seq<char>, Seq<char>)> {
    s.map_values(|r: Record| rec_view(r))
}

/// What one data line of a session of kind `kind` means.
pub open spec fn spec_parse_record(kind: ListKind, line: Seq<char>) -> Option<
    (Seq<char>, Seq<char>, Seq<char>),
> {
    match kind {
        ListKind::Ups => match spec_parse_ups(line) {
            Some(p) => Some((p.0, "_description"@, p.1)),
            None => None,
        },
        ListKind::Var => spec_parse_var(line),
    }
}

/// Parses one data line into a record, by session kind.
pub fn parse_record(kind: ListKind, line: &str) -> (r: Option<Record>)
    ensures
        r is Some <==> spec_parse_record(kind, line@) is Some,
        r is Some ==> rec_view(r->0) == spec_parse_record(kind, line@)->0,
{
    match kind {
        ListKind::Ups => match parse_ups_line(line) {
            Some(p) => Some(Record { ups: p.0, var: UPS_DESCRIPTION_PSEUDOVAR.to_owned(), val: p.1 }),
            None => None,
        },
        ListKind::Var => match parse_var_line(line) {
            Some(p) => Some(Record { ups: p.0, var: p.1, val: p.2 }),
            None => None,
        },
    }
}

/// The states of a list session. `Ended` is the only success terminal;
/// `Error` carries a server rejection; `Malformed` any framing violation.
#[derive(Debug, Copy, Clone, PartialEq, Eq, Structural)]
pub enum ListState {
    Initial,
    Begun,
    Ended,
    Malformed,
    Error,
}

/// The session model: state, records so far, rejection message so far.
pub open spec fn spec_step(
    kind: ListKind,
    m: (ListState, Seq<(Seq<char>, Seq<char>, Seq<char>)>, Seq<char>),
    line: Seq<char>,
) -> (ListState, Seq<(Seq<char>, Seq<char>, Seq<char>)>, Seq<char>) {
    if m.0 != ListState::Initial && m.0 != ListState::Begun {
        m
    } else if line.len() == 0 {
        m
    } else if is_prefix_of("BEGIN "@, line) {
        if m.0 == ListState::Initial {
            (ListState::Begun, m.1, m.2)
        } else {
            (ListState::Malformed, m.1, m.2)
        }
    } else if is_prefix_of("END "@, line) {
        if m.0 == ListState::Begun {
            (ListState::Ended, m.1, m.2)
        } else {
            (ListState::Malformed, m.1, m.2)
        }
    } else if is_prefix_of("ERR "@, line) {
        (ListState::Error, m.1, line.subrange(4, line.len() as int))
    } else if m.0 != ListState::Begun {
        (ListState::Malformed, m.1, m.2)
    } else {
        match spec_parse_record(kind, line) {
            Some(t) => (ListState::Begun, m.1.push(t), m.2),
            None => (ListState::Malformed, m.1, m.2),
        }
    }
}

/// The model after feeding all of `lines`, in order, from `m`.
pub open spec fn spec_run(
    kind: ListKind,
    m: (ListState, Seq<(Seq<char>, Seq<char>, Seq<char>)>, Seq<char>),
    lines: Seq<Seq<char>>,
) -> (ListState, Seq<(Seq<char>, Seq<char>, Seq<char>)>, Seq<char>)
    decreases lines.len(),
{
    if lines.len() == 0 {
        m
    } else {
        spec_run(kind, spec_step(kind, m, lines[0]), lines.drop_first())
    }
}

/// The fresh session model.
pub open spec fn spec_initial() -> (ListState, Seq<(Seq<char>, Seq<char>, Seq<char>)>, Seq<char>) {
    (
        ListState::Initial,
        Seq::<(Seq<char>, Seq<char>, Seq<char>)>::empty(),
        Seq::<char>::empty(),
    )
}

/// The model of a whole session over `lines`.
pub open spec fn spec_session(kind: ListKind, lines: Seq<Seq<char>>) -> (
    ListState,
    Seq<(Seq<char>, Seq<char>, Seq<char>)>,
    Seq<char>,
) {
    spec_run(kind, spec_initial(), lines)
}

/// How a finished session fails.
#[derive(Debug)]
pub enum ListError {
    /// The server answered `ERR`, with its message; not a parsing fault.
    Rejected(String),
    /// A framing violation, an unparsable data line, or a close with no
    /// `END`.
    Malformed,
}

impl ListError {
    /// A human-readable account, naming the query that failed.
    pub fn describe(&self, query: &str) -> (r: String)
        ensures
            match self {
                ListError::Rejected(m) => r@ == "Received error for query \""@ + query@ + "\": "@
                    + m@,
                ListError::Malformed => r@ == "Malformed list for query \""@ + query@ + "\"."@,
            },
    {
        let mut out = String::new();
        match self {
            ListError::Rejected(m) => {
                out.append("Received error for query \"");
                out.append(query);
                out.append("\": ");
                out.append(m.as_str());
            },
            ListError::Malformed => {
                out.append("Malformed list for query \"");
                out.append(query);
                out.append("\".");
            },
        }
        out
    }
}

/// An in-flight list session. Feed each reply line in order; stop when a
/// feed reports the session done or the stream closes, then take the
/// outcome with `finish`.
pub struct ListSession {
    pub kind: ListKind,
    pub state: ListState,
    pub records: Vec<Record>,
    pub error_message: String,
}

impl ListSession {
    /// The session as its model triple.
    pub open spec fn model(&self) -> (ListState, Seq<(Seq<char>, Seq<char>, Seq<char>)>, Seq<char>) {
        (self.state, recs_view(self.records@), self.error_message@)
    }

    /// Still consuming lines.
    pub open spec fn active(&self) -> bool {
        self.state == ListState::Initial || self.state == ListState::Begun
    }

    pub fn new(kind: ListKind) -> (r: ListSession)
        ensures
            r.kind == kind,
            r.model() == spec_initial(),
            r.active(),
    {
        let r = ListSession {
            kind,
            state: ListState::Initial,
            records: Vec::new(),
            error_message: String::new(),
        };
        proof {
            assert(recs_view(r.records@) =~= Seq::<(Seq<char>, Seq<char>, Seq<char>)>::empty());
        }
        r
    }

    /// Consumes one reply line. Returns true when the session is done
    /// and no further line must be fed.
    pub fn feed_line(&mut self, line: &str) -> (done: bool)
        requires
            old(self).active(),
        ensures
            final(self).kind == old(self).kind,
            final(self).model() == spec_step(old(self).kind, old(self).model(), line@),
            done == !final(self).active(),
    {
        if line.is_empty() {
            return false;
        }
        if starts_with(line, "BEGIN ") {
            if self.state == ListState::Initial {
                self.state = ListState::Begun;
                return false;
            }
            self.state = ListState::Malformed;
            return true;
        }
        if starts_with(line, "END ") {
            if self.state == ListState::Begun {
                self.state = ListState::Ended;
                return true;
            }
            self.state = ListState::Malformed;
            return true;
        }
        if starts_with(line, "ERR ") {
            let len = line.unicode_len();
            proof {
                reveal_strlit("ERR ");
            }
            self.state = ListState::Error;
            self.error_message = substring_copy(line, 4, len);
            return true;
        }
        if !(self.state == ListState::Begun) {
            self.state = ListState::Malformed;
            return true;
        }
        match parse_record(self.kind, line) {
            Some(rec) => {
                let ghost before = recs_view(self.records@);
                let ghost rv = rec_view(rec);
                self.records.push(rec);
                proof {
                    assert(recs_view(self.records@) =~= before.push(rv));
                }
                false
            },
            None => {
                self.state = ListState::Malformed;
                true
            },
        }
    }

    /// The outcome: the records, exactly one per accepted data line and
    /// in line order, when `END` closed the session; the server's own
    /// message when it rejected the query; a malformed-protocol error
    /// otherwise — in particular when the stream closed before `END`, so
    /// no partial record set ever leaves the session.
    pub fn finish(self) -> (r: Result<Vec<Record>, ListError>)
        ensures
            self.state == ListState::Ended <==> r is Ok,
            r is Ok ==> r->Ok_0@ == self.records@,
            match r {
                Ok(_) => self.state == ListState::Ended,
                Err(ListError::Rejected(m)) => self.state == ListState::Error && m@
                    == self.error_message@,
                Err(ListError::Malformed) => self.state != ListState::Ended && self.state
                    != ListState::Error,
            },
    {
        if self.state == ListState::Ended {
            Ok(self.records)
        } else if self.state == ListState::Error {
            Err(ListError::Rejected(self.error_message))
        } else {
            Err(ListError::Malformed)
        }
    }
}

/// Feeding one more line steps the model once.
pub proof fn lemma_run_snoc(
    kind: ListKind,
    m: (ListState, Seq<(Seq<char>, Seq<char>, Seq<char>)>, Seq<char>),
    lines: Seq<Seq<char>>,
    line: Seq<char>,
)
    ensures
        spec_run(kind, m, lines.push(line)) == spec_step(kind, spec_run(kind, m, lines), line),
    decreases lines.len(),
{
    reveal_with_fuel(spec_run, 2);
    if lines.len() == 0 {
        assert(lines.push(line)[0] == line);
        assert(lines.push(line).drop_first() =~= Seq::<Seq<char>>::empty());
    } else {
        assert(lines.push(line)[0] == lines[0]);
        assert(lines.push(line).drop_first() =~= lines.drop_first().push(line));
        lemma_run_snoc(kind, spec_step(kind, m, lines[0]), lines.drop_first(), line);
    }
}

/// A data line of a well-formed session: not blank, no framing keyword,
/// and matching the record grammar of its kind.
pub open spec fn valid_data_line(kind: ListKind, line: Seq<char>) -> bool {
    line.len() > 0 && !is_prefix_of("BEGIN "@, line) && !is_prefix_of("END "@, line)
        && !is_prefix_of("ERR "@, line) && spec_parse_record(kind, line) is Some
}

/// The records of a run of valid data lines, one per line, in order.
pub open spec fn parsed_records(kind: ListKind, data: Seq<Seq<char>>) -> Seq<
    (Seq<char>, Seq<char>, Seq<char>),
> {
    data.map_values(|l: Seq<char>| spec_parse_record(kind, l)->0)
}

proof fn lemma_run_data(
    kind: ListKind,
    recs: Seq<(Seq<char>, Seq<char>, Seq<char>)>,
    err: Seq<char>,
    data: Seq<Seq<char>>,
)
    requires
        forall|i: int| 0 <= i < data.len() ==> valid_data_line(kind, #[trigger] data[i]),
    ensures
        spec_run(kind, (ListState::Begun, recs, err), data) == (
            ListState::Begun,
            recs + parsed_records(kind, data),
            err,
        ),
    decreases data.len(),
{
    if data.len() == 0 {
        assert(recs + parsed_records(kind, data) =~= recs);
    } else {
        let line = data[0];
        let stepped = spec_step(kind, (ListState::Begun, recs, err), line);
        assert(stepped == (
            ListState::Begun,
            recs.push(spec_parse_record(kind, line)->0),
            err,
        ));
        assert(forall|i: int|
            0 <= i < data.drop_first().len() ==> valid_data_line(
                kind,
                #[trigger] data.drop_first()[i],
            ));
        lemma_run_data(kind, recs.push(spec_parse_record(kind, line)->0), err, data.drop_first());
        assert(recs.push(spec_parse_record(kind, line)->0) + parsed_records(
            kind,
            data.drop_first(),
        ) =~= recs + parsed_records(kind, data));
    }
}

/// A well-formed list session — `BEGIN`, zero or more valid data lines,
/// `END` — ends in the success state with exactly one record per data
/// line, in data-line order.
pub proof fn lemma_well_formed_session(
    kind: ListKind,
    begin_line: Seq<char>,
    data: Seq<Seq<char>>,
    end_line: Seq<char>,
)
    requires
        is_prefix_of("BEGIN "@, begin_line),
        is_prefix_of("END "@, end_line),
        forall|i: int| 0 <= i < data.len() ==> valid_data_line(kind, #[trigger] data[i]),
    ensures
        spec_session(kind, seq![begin_line] + data + seq![end_line]) == (
            ListState::Ended,
            parsed_records(kind, data),
            Seq::<char>::empty(),
        ),
{
    let lines = seq![begin_line] + data + seq![end_line];
    let empty_recs = Seq::<(Seq<char>, Seq<char>, Seq<char>)>::empty();
    let begun = (ListState::Begun, empty_recs, Seq::<char>::empty());
    assert(begin_line.len() >= "BEGIN "@.len());
    reveal_strlit("BEGIN ");
    assert(begin_line.len() > 0);
    assert(spec_step(kind, spec_initial(), begin_line) == begun);
    assert(lines[0] == begin_line);
    assert(lines.drop_first() =~= data + seq![end_line]);
    lemma_run_snoc(kind, begun, data, end_line);
    assert(data.push(end_line) =~= data + seq![end_line]);
    lemma_run_data(kind, empty_recs, Seq::<char>::empty(), data);
    reveal_strlit("END ");
    reveal_strlit("ERR ");
    assert(end_line.len() > 0);
    assert(end_line.subrange(0, 4) == "END "@);
    assert(!is_prefix_of("BEGIN "@, end_line)) by {
        if is_prefix_of("BEGIN "@, end_line) {
            assert(end_line.subrange(0, 6)[0] == end_line[0]);
            assert(end_line.subrange(0, 4)[0] == end_line[0]);
            assert(end_line[0] == 'B' && end_line[0] == 'E');
        }
    }
    assert(!is_prefix_of("ERR "@, end_line)) by {
        if is_prefix_of("ERR "@, end_line) {
            assert(end_line.subrange(0, 4)[1] == end_line[1]);
            assert(end_line[1] == 'R' && end_line[1] == 'N');
        }
    }
    assert(spec_step(
        kind,
        (ListState::Begun, parsed_records(kind, data), Seq::<char>::empty()),
        end_line,
    ) == (ListState::Ended, parsed_records(kind, data), Seq::<char>::empty()));
    assert(empty_recs + parsed_records(kind, data) =~= parsed_records(kind, data));
}

/// A session whose lines never contain an `END` marker cannot reach the
/// success state: when the stream closes first, `finish` yields the
/// malformed-protocol error and never a partial record set.
pub proof fn lemma_no_end_no_success(kind: ListKind, lines: Seq<Seq<char>>)
    requires
        forall|i: int| 0 <= i < lines.len() ==> !is_prefix_of("END "@, #[trigger] lines[i]),
    ensures
        spec_session(kind, lines).0 != ListState::Ended,
{
    lemma_no_end_no_success_from(kind, spec_initial(), lines);
}

proof fn lemma_no_end_no_success_from(
    kind: ListKind,
    m: (ListState, Seq<(Seq<char>, Seq<char>, Seq<char>)>, Seq<char>),
    lines: Seq<Seq<char>>,
)
    requires
        m.0 != ListState::Ended,
        forall|i: int| 0 <= i < lines.len() ==> !is_prefix_of("END "@, #[trigger] lines[i]),
    ensures
        spec_run(kind, m, lines).0 != ListState::Ended,
    decreases lines.len(),
{
    if lines.len() > 0 {
        let stepped = spec_step(kind, m, lines[0]);
        assert(stepped.0 != ListState::Ended);
        assert(forall|i: int|
            0 <= i < lines.drop_first().len() ==> !is_prefix_of(
                "END "@,
                #[trigger] lines.drop_first()[i],
            ));
        lemma_no_end_no_success_from(kind, stepped, lines.drop_first());
    }
}

/// An `ERR reason` line received while the session is still consuming
/// lines moves it to the rejection state carrying exactly `reason` — a
/// server rejection, never a malformed-protocol error.
pub proof fn lemma_err_line_rejects(kind: ListKind, lines: Seq<Seq<char>>, reason: Seq<char>)
    requires
        spec_session(kind, lines).0 == ListState::Initial || spec_session(kind, lines).0
            == ListState::Begun,
    ensures
        spec_session(kind, lines.push("ERR "@ + reason)) == (
            ListState::Error,
            spec_session(kind, lines).1,
            reason,
        ),
{
    let line = "ERR "@ + reason;
    lemma_run_snoc(kind, spec_initial(), lines, line);
    reveal_strlit("ERR ");
    reveal_strlit("BEGIN ");
    reveal_strlit("END ");
    assert(is_prefix_of("ERR "@, line)) by {
        assert(line.subrange(0, 4) =~= "ERR "@);
    }
    assert(!is_prefix_of("BEGIN "@, line)) by {
        if is_prefix_of("BEGIN "@, line) {
            assert(line[0] == 'B');
            assert(line[0] == 'E');
        }
    }
    assert(!is_prefix_of("END "@, line)) by {
        if is_prefix_of("END "@, line) {
            assert(line[1] == 'N');
            assert(line[1] == 'R');
        }
    }
    assert(line.len() > 0);
    assert(line.subrange(4, line.len() as int) =~= reason);
}

/// First index at or after `i` whose token is a lone dash.
pub open spec fn first_dash(toks: Seq<Seq<char>>, i: int) -> int
    decreases toks.len() - i,
{
    if i < 0 || i >= toks.len() {
        i
    } else if toks[i] == "-"@ {
        i
    } else {
        first_dash(toks, i + 1)
    }
}

/// The version token of the server greeting: the space-separated token
/// standing just before the first lone dash, which must be non-empty.
pub open spec fn spec_parse_version(line: Seq<char>) -> Option<Seq<char>> {
    let toks = crate::strutil::spec_split_spaces(line);
    let k = first_dash(toks, 0);
    if 1 <= k < toks.len() && toks[k - 1].len() > 0 {
        Some(toks[k - 1])
    } else {
        None
    }
}

/// Extracts the server version from the `VER` reply line, if the line
/// matches the greeting pattern.
pub fn parse_version_reply(line: &str) -> (r: Option<String>)
    ensures
        r is Some <==> spec_parse_version(line@) is Some,
        r is Some ==> r->0@ == spec_parse_version(line@)->0,
{
    let toks = split_spaces(line);
    let ghost tv = crate::strutil::spec_split_spaces(line@);
    let n = toks.len();
    let mut i: usize = 0;
    while i < n
        invariant
            i <= n,
            n == toks@.len(),
            tv == toks@.map_values(|t: String| t@),
            tv == crate::strutil::spec_split_spaces(line@),
            forall|j: int| 0 <= j < i ==> #[trigger] tv[j] != "-"@,
            first_dash(tv, i as int) == first_dash(tv, 0),
        decreases n - i,
    {
        if eq_str(toks[i].as_str(), "-") {
            proof {
                assert(tv.len() == toks@.len());
                assert(tv[i as int] == toks@[i as int]@);
                assert(tv[i as int] == "-"@);
                assert(first_dash(tv, i as int) == i);
            }
            if i >= 1 {
                let prev = &toks[i - 1];
                if prev.as_str().unicode_len() > 0 {
                    proof {
                        assert(tv[i - 1] == toks@[i - 1]@);
                        assert(spec_parse_version(line@) == Some(tv[i - 1]));
                    }
                    return Some(prev.clone());
                }
                proof {
                    assert(tv[i - 1] == toks@[i - 1]@);
                    assert(tv[i - 1].len() == 0);
                }
                return None;
            }
            return None;
        }
        proof {
            assert(tv[i as int] == toks@[i as int]@);
            assert(tv[i as int] != "-"@);
        }
        i += 1;
    }
    proof {
        assert(tv.len() == toks@.len());
        assert(first_dash(tv, n as int) == n);
        assert(!(1 <= first_dash(tv, 0) < tv.len()));
    }
    None
}

/// The wire command asking for the server version.
pub fn version_command() -> (r: &'static str)
    ensures
        r@ == "VER"@,
{
    "VER"
}

/// The wire command asking for the device list.
pub fn list_ups_command() -> (r: &'static str)
    ensures
        r@ == "LIST UPS"@,
{
    "LIST UPS"
}

/// The wire command asking for the variables of one device.
pub fn list_var_command(ups: &str) -> (r: String)
    ensures
        r@ == "LIST VAR "@ + ups@,
{
    let mut out = String::new();
    out.append("LIST VAR ");
    out.append(ups);
    out
}

/// What the device registry holds after the device-listing records are
/// folded in, in record order: each device mapped to a one-entry variable
/// map seeding its description pseudo-variable.
pub open spec fn spec_registry(recs: Seq<(Seq<char>, Seq<char>, Seq<char>)>) -> Seq<
    (Seq<char>, Seq<(Seq<char>, Seq<char>)>),
>
    decreases recs.len(),
{
    if recs.len() == 0 {
        Seq::<(Seq<char>, Seq<(Seq<char>, Seq<char>)>)>::empty()
    } else {
        let last = recs.last();
        spec_insert(spec_registry(recs.drop_last()), last.0, seq![(last.1, last.2)])
    }
}

/// Builds the device registry from the device-list records: one entry
/// per distinct identifier, seeded with its description pseudo-variable,
/// a repeated identifier replacing the earlier entry.
pub fn registry_from_ups_records(records: &Vec<Record>) -> (r: UpsVarMap)
    ensures
        r.view_entries() == spec_registry(recs_view(records@)),
        r.wf(),
{
    let mut reg = UpsVarMap::new();
    let n = records.len();
    let mut i: usize = 0;
    proof {
        assert(recs_view(records@.subrange(0, 0)) =~= Seq::<(
            Seq<char>,
            Seq<char>,
            Seq<char>,
        )>::empty());
    }
    while i < n
        invariant
            i <= n,
            n == records@.len(),
            reg.view_entries() == spec_registry(recs_view(records@.subrange(0, i as int))),
            reg.wf(),
        decreases n - i,
    {
        let rec = &records[i];
        let mut vars = VarMap::new();
        vars.insert(rec.var.clone(), rec.val.clone());
        proof {
            assert(vars.view_entries() =~= seq![(rec.var@, rec.val@)]);
        }
        reg.insert_ups(rec.ups.clone(), vars);
        proof {
            let prefix = recs_view(records@.subrange(0, i + 1));
            assert(records@.subrange(0, i + 1).drop_last() =~= records@.subrange(0, i as int));
            assert(prefix.drop_last() =~= recs_view(records@.subrange(0, i as int)));
            assert(prefix.last() == rec_view(records@[i as int]));
        }
        i += 1;
    }
    proof {
        assert(records@.subrange(0, n as int) =~= records@);
    }
    reg
}

/// The variable map after the variable-list records are folded in, in
/// record order, later values overwriting earlier ones per variable —
/// except the reserved description pseudo-variable, which only the
/// device-listing query may populate.
pub open spec fn spec_apply_vars(
    m: Seq<(Seq<char>, Seq<char>)>,
    recs: Seq<(Seq<char>, Seq<char>, Seq<char>)>,
) -> Seq<(Seq<char>, Seq<char>)>
    decreases recs.len(),
{
    if recs.len() == 0 {
        m
    } else if recs.last().1 == "_description"@ {
        spec_apply_vars(m, recs.drop_last())
    } else {
        spec_insert(spec_apply_vars(m, recs.drop_last()), recs.last().1, recs.last().2)
    }
}

/// Folds the variable-list records of one device into its variable map,
/// overwriting any previous value per variable, but never the reserved
/// description pseudo-variable, which stays as the device listing set it.
pub fn apply_var_records(vars: &mut VarMap, records: &Vec<Record>)
    ensures
        final(vars).view_entries() == spec_apply_vars(
            old(vars).view_entries(),
            recs_view(records@),
        ),
        old(vars).wf() ==> final(vars).wf(),
{
    let n = records.len();
    let mut i: usize = 0;
    proof {
        assert(recs_view(records@.subrange(0, 0)) =~= Seq::<(
            Seq<char>,
            Seq<char>,
            Seq<char>,
        )>::empty());
    }
    while i < n
        invariant
            i <= n,
            n == records@.len(),
            vars.view_entries() == spec_apply_vars(
                old(vars).view_entries(),
                recs_view(records@.subrange(0, i as int)),
            ),
            old(vars).wf() ==> vars.wf(),
        decreases n - i,
    {
        let rec = &records[i];
        if !eq_str(rec.var.as_str(), "_description") {
            vars.insert(rec.var.clone(), rec.val.clone());
        }
        proof {
            let prefix = recs_view(records@.subrange(0, i + 1));
            assert(records@.subrange(0, i + 1).drop_last() =~= records@.subrange(0, i as int));
            assert(prefix.drop_last() =~= recs_view(records@.subrange(0, i as int)));
            assert(prefix.last() == rec_view(records@[i as int]));
        }
        i += 1;
    }
    proof {
        assert(records@.subrange(0, n as int) =~= records@);
    }
}

/// Law: the description pseudo-variable survives the variable-listing
/// query untouched — whatever records the server sends, folding them in
/// leaves the reserved entry exactly as the device listing seeded it.
pub proof fn lemma_description_never_overwritten(
    m: Seq<(Seq<char>, Seq<char>)>,
    recs: Seq<(Seq<char>, Seq<char>, Seq<char>)>,
)
    ensures
        crate::metrics::spec_lookup(spec_apply_vars(m, recs), "_description"@)
            == crate::metrics::spec_lookup(m, "_description"@),
    decreases recs.len(),
{
    if recs.len() > 0 {
        lemma_description_never_overwritten(m, recs.drop_last());
        if recs.last().1 != "_description"@ {
            crate::metrics::lemma_lookup_insert(
                spec_apply_vars(m, recs.drop_last()),
                recs.last().1,
                recs.last().2,
                "_description"@,
            );
        }
    }
}

/// Folds the variable-list records of the device at `idx` into the
/// registry, leaving every other device untouched.
pub fn apply_vars_at(reg: &mut UpsVarMap, idx: usize, records: &Vec<Record>)
    requires
        idx < old(reg).view_entries().len(),
    ensures
        final(reg).view_entries() == old(reg).view_entries().update(
            idx as int,
            (
                old(reg).view_entries()[idx as int].0,
                spec_apply_vars(old(reg).view_entries()[idx as int].1, recs_view(records@)),
            ),
        ),
        old(reg).wf() ==> final(reg).wf(),
{
    let ghost orig = reg.view_entries();
    let mut entry = reg.entries.remove(idx);
    let ghost name = entry.0@;
    apply_var_records(&mut entry.1, records);
    reg.entries.insert(idx, entry);
    proof {
        assert(reg.view_entries() =~= orig.update(
            idx as int,
            (orig[idx as int].0, spec_apply_vars(orig[idx as int].1, recs_view(records@))),
        ));
        if old(reg).wf() {
            assert(forall|a: int|
                0 <= a < reg.view_entries().len() ==> (#[trigger] reg.view_entries()[a]).0
                    == orig[a].0);
            assert(crate::metrics::unique_keys(reg.view_entries()));
            assert(forall|a: int|
                0 <= a < reg.entries@.len() && a != idx ==> (#[trigger] reg.entries@[a]).1
                    == old(reg).entries@[a].1);
        }
    }
}

/// The identifier of the device at `idx`, for the per-device query.
pub fn name_at(reg: &UpsVarMap, idx: usize) -> (r: String)
    requires
        idx < reg.view_entries().len(),
    ensures
        r@ == reg.view_entries()[idx as int].0,
{
    reg.entries[idx].0.clone()
}

} // verus!
