//! The whole scrape as one session: version query, device listing, then
//! one variable listing per device, in that fixed order.
//!
//! The caller owns the byte stream and does nothing else: it sends the
//! command this engine hands out, feeds the reply lines back, and closes
//! each list when the engine says the reply is done or the stream ends.
//! The engine decides every transition, accumulates the registry, and
//! hands the result out all-or-nothing: a failed scrape yields only a
//! message, never a partial registry.

use vstd::prelude::*;

use crate::metrics::{NutVersion, UpsVarMap};
use crate::nut_client::{
    apply_vars_at, list_var_command, name_at, parse_version_reply, recs_view,
    registry_from_ups_records, spec_apply_vars, spec_initial, spec_parse_version, spec_registry,
    spec_step, ListKind, ListSession, ListState,
};

verus! {

/// Where the session stands: which query is in flight, or how it ended.
#[derive(Debug, Copy, Clone, PartialEq, Eq, Structural)]
pub enum ScrapePhase {
    /// The version query is in flight.
    AwaitVersion,
    /// The device-listing query is in flight.
    UpsList,
    /// The variable-listing query of one device is in flight.
    VarList,
    /// Every query succeeded; the registry and version are ready.
    Complete,
    /// A query failed; only the failure message is ready.
    Failed,
}

/// The failure text of a list query, by how its session ended: the
/// server's own message for a rejection, a malformed-list report for
/// everything else.
pub open spec fn spec_list_failure_message(
    query: Seq<char>,
    m: (ListState, Seq<(Seq<char>, Seq<char>, Seq<char>)>, Seq<char>),
) -> Seq<char> {
    if m.0 == ListState::Error {
        "Received error for query \""@ + query + "\": "@ + m.2
    } else {
        "Malformed list for query \""@ + query + "\"."@
    }
}

/// One scrape in flight. See the module description for the driving
/// loop; `command` says what to send, `feed_list_line` and `end_list`
/// consume the replies, `result` hands the scrape out.
pub struct ScrapeSession {
    pub phase: ScrapePhase,
    pub var_index: usize,
    pub list: ListSession,
    pub registry: UpsVarMap,
    pub version: NutVersion,
    pub failure_message: String,
}

impl ScrapeSession {
    /// The session's structural invariant: the registry is well formed,
    /// the in-flight list session parses the right record kind, and the
    /// device index stays inside the registry.
    pub open spec fn wf(&self) -> bool {
        &&& self.registry.wf()
        &&& (self.phase == ScrapePhase::AwaitVersion ==> self.list.kind == ListKind::Ups)
        &&& (self.phase == ScrapePhase::UpsList ==> self.list.kind == ListKind::Ups)
        &&& (self.phase == ScrapePhase::VarList ==> self.list.kind == ListKind::Var
            && self.var_index < self.registry.view_entries().len())
    }

    /// A fresh session, about to ask for the server version.
    pub fn new() -> (r: ScrapeSession)
        ensures
            r.phase == ScrapePhase::AwaitVersion,
            r.version@ == Seq::<char>::empty(),
            r.registry.view_entries() == Seq::<(Seq<char>, Seq<(Seq<char>, Seq<char>)>)>::empty(),
            r.list.model() == spec_initial(),
            r.list.active(),
            r.wf(),
    {
        ScrapeSession {
            phase: ScrapePhase::AwaitVersion,
            var_index: 0,
            list: ListSession::new(ListKind::Ups),
            registry: UpsVarMap::new(),
            version: String::new(),
            failure_message: String::new(),
        }
    }

    /// The query the current phase stands for.
    pub open spec fn spec_query(&self) -> Seq<char> {
        if self.phase == ScrapePhase::UpsList {
            "LIST UPS"@
        } else {
            "LIST VAR "@ + self.registry.view_entries()[self.var_index as int].0
        }
    }

    /// The command to send for the current phase, `None` once the
    /// session is over.
    pub fn command(&self) -> (r: Option<String>)
        requires
            self.wf(),
        ensures
            r is Some <==> (self.phase == ScrapePhase::AwaitVersion || self.phase
                == ScrapePhase::UpsList || self.phase == ScrapePhase::VarList),
            self.phase == ScrapePhase::AwaitVersion ==> r->0@ == "VER"@,
            self.phase == ScrapePhase::UpsList ==> r->0@ == "LIST UPS"@,
            self.phase == ScrapePhase::VarList ==> r->0@ == self.spec_query(),
    {
        match self.phase {
            ScrapePhase::AwaitVersion => Some("VER".to_owned()),
            ScrapePhase::UpsList => Some("LIST UPS".to_owned()),
            ScrapePhase::VarList => {
                let name = name_at(&self.registry, self.var_index);
                Some(list_var_command(name.as_str()))
            },
            ScrapePhase::Complete => None,
            ScrapePhase::Failed => None,
        }
    }

    /// Consumes the one reply line of the version query. A missing line
    /// (stream gave none) leaves the version empty and moves on; a line
    /// that does not match the greeting pattern fails the scrape.
    pub fn on_version_reply(&mut self, line: Option<&str>)
        requires
            old(self).phase == ScrapePhase::AwaitVersion,
            old(self).wf(),
        ensures
            final(self).wf(),
            final(self).registry == old(self).registry,
            final(self).list == old(self).list,
            final(self).var_index == old(self).var_index,
            match line {
                None => final(self).phase == ScrapePhase::UpsList
                    && final(self).version == old(self).version,
                Some(l) => match spec_parse_version(l@) {
                    Some(v) => final(self).phase == ScrapePhase::UpsList && final(self).version@
                        == v,
                    None => final(self).phase == ScrapePhase::Failed
                        && final(self).failure_message@
                        == "Failed get NUT version from NUT query. Not a NUT server?"@,
                },
            },
    {
        match line {
            None => {
                self.phase = ScrapePhase::UpsList;
            },
            Some(l) => match parse_version_reply(l) {
                Some(v) => {
                    self.version = v;
                    self.phase = ScrapePhase::UpsList;
                },
                None => {
                    self.failure_message =
                        "Failed get NUT version from NUT query. Not a NUT server?".to_owned();
                    self.phase = ScrapePhase::Failed;
                },
            },
        }
    }

    /// Consumes one reply line of the list query in flight. Returns true
    /// when the list is done and `end_list` must follow; on a stream
    /// close, call `end_list` directly.
    pub fn feed_list_line(&mut self, line: &str) -> (done: bool)
        requires
            old(self).phase == ScrapePhase::UpsList || old(self).phase == ScrapePhase::VarList,
            old(self).list.active(),
            old(self).wf(),
        ensures
            final(self).wf(),
            final(self).phase == old(self).phase,
            final(self).var_index == old(self).var_index,
            final(self).registry == old(self).registry,
            final(self).version == old(self).version,
            final(self).list.kind == old(self).list.kind,
            final(self).list.model() == spec_step(
                old(self).list.kind,
                old(self).list.model(),
                line@,
            ),
            done == !final(self).list.active(),
    {
        self.list.feed_line(line)
    }

    /// Closes the list query in flight and moves the session on: a
    /// successful device listing seeds the registry and turns to the
    /// first device (or completes, when the server has none); a
    /// successful variable listing fills that device's map and turns to
    /// the next; any other outcome fails the scrape with the failure
    /// text of the query.
    pub fn end_list(&mut self)
        requires
            old(self).phase == ScrapePhase::UpsList || old(self).phase == ScrapePhase::VarList,
            old(self).wf(),
        ensures
            final(self).wf(),
            final(self).version == old(self).version,
            old(self).list.state != ListState::Ended ==> final(self).phase == ScrapePhase::Failed
                && final(self).failure_message@ == spec_list_failure_message(
                old(self).spec_query(),
                old(self).list.model(),
            ),
            old(self).list.state == ListState::Ended && old(self).phase == ScrapePhase::UpsList
                ==> {
                &&& final(self).registry.view_entries() == spec_registry(
                    recs_view(old(self).list.records@),
                )
                &&& final(self).var_index == 0
                &&& (final(self).registry.view_entries().len() == 0 ==> final(self).phase
                    == ScrapePhase::Complete)
                &&& (final(self).registry.view_entries().len() > 0 ==> final(self).phase
                    == ScrapePhase::VarList && final(self).list.model() == spec_initial()
                    && final(self).list.active())
            },
            old(self).list.state == ListState::Ended && old(self).phase == ScrapePhase::VarList
                ==> {
                &&& final(self).registry.view_entries() == old(self).registry.view_entries().update(
                    old(self).var_index as int,
                    (
                        old(self).registry.view_entries()[old(self).var_index as int].0,
                        spec_apply_vars(
                            old(self).registry.view_entries()[old(self).var_index as int].1,
                            recs_view(old(self).list.records@),
                        ),
                    ),
                )
                &&& (old(self).var_index + 1 < old(self).registry.view_entries().len()
                    ==> final(self).phase == ScrapePhase::VarList
                    && final(self).var_index == old(self).var_index + 1
                    && final(self).list.model() == spec_initial()
                    && final(self).list.active())
                &&& (old(self).var_index + 1 >= old(self).registry.view_entries().len()
                    ==> final(self).phase == ScrapePhase::Complete)
            },
    {
        let query = if self.phase == ScrapePhase::UpsList {
            "LIST UPS".to_owned()
        } else {
            let name = name_at(&self.registry, self.var_index);
            list_var_command(name.as_str())
        };
        let mut finished = ListSession::new(ListKind::Var);
        core::mem::swap(&mut self.list, &mut finished);
        match finished.finish() {
            Ok(records) => {
                if self.phase == ScrapePhase::UpsList {
                    self.registry = registry_from_ups_records(&records);
                    self.var_index = 0;
                    if self.registry.len() == 0 {
                        self.phase = ScrapePhase::Complete;
                    } else {
                        self.phase = ScrapePhase::VarList;
                    }
                } else {
                    apply_vars_at(&mut self.registry, self.var_index, &records);
                    let n = self.registry.len();
                    proof {
                        assert(self.var_index < self.registry.view_entries().len());
                    }
                    if self.var_index + 1 < n {
                        self.var_index = self.var_index + 1;
                    } else {
                        self.phase = ScrapePhase::Complete;
                    }
                }
            },
            Err(e) => {
                self.failure_message = e.describe(query.as_str());
                self.phase = ScrapePhase::Failed;
            },
        }
    }

    /// The scrape's outcome, all or nothing: the full registry with the
    /// captured version after a complete session, only the failure text
    /// after a failed one — a partial registry never leaves the session.
    pub fn result(self) -> (r: Result<(UpsVarMap, NutVersion), String>)
        requires
            self.phase == ScrapePhase::Complete || self.phase == ScrapePhase::Failed,
        ensures
            self.phase == ScrapePhase::Complete <==> r is Ok,
            r is Ok ==> (r->Ok_0).0 == self.registry && (r->Ok_0).1 == self.version,
            r is Err ==> r->Err_0 == self.failure_message,
    {
        if self.phase == ScrapePhase::Complete {
            Ok((self.registry, self.version))
        } else {
            Err(self.failure_message)
        }
    }
}

} // verus!
