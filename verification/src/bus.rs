//! Command bus: the ordered request/response pair between the foreground
//! loop and the single background worker. Commands are taken strictly in
//! submission order, responses are observed strictly in production order,
//! and a poll never reorders or drops a response — the model this module
//! proves those properties of is what the channel glue around the worker
//! must implement.

use vstd::prelude::*;
use crate::error::MoonlightError;
use crate::types::{
    Branch, DetectedInstall, DownloadedBranchInfo, DownloadedMap, InstallInfo, MoonlightBranch,
};

verus! {

/// An operation the foreground submits to the worker.
pub enum LogicCommand {
    GetInstalls,
    GetDownloadedVersions,
    GetLatestVersion(MoonlightBranch),
    UpdateMoonlight(MoonlightBranch),
    PatchInstall { branch: MoonlightBranch, install: DetectedInstall },
    UnpatchInstall(DetectedInstall),
    KillDiscord(Branch),
    ResetConfig(Branch),
}

/// The result of an operation, posted back by the worker.
pub enum LogicResponse {
    Installs(Vec<InstallInfo>),
    DownloadedVersions(DownloadedMap),
    LatestVersion(Result<(MoonlightBranch, String), MoonlightError>),
    UpdateComplete(Result<(MoonlightBranch, DownloadedBranchInfo), MoonlightError>),
    PatchComplete(Result<String, MoonlightError>),
    UnpatchComplete(Result<String, MoonlightError>),
}

/// The bus: the two queues, and the ghost history of everything that ever
/// passed through them, against which the ordering laws are stated.
pub struct CommandBus {
    /// The submitted commands the worker has not yet taken.
    pub cmd_queue: Vec<LogicCommand>,
    /// The produced responses the foreground has not yet drained.
    pub resp_queue: Vec<LogicResponse>,
    /// Every command ever submitted, in submission order.
    pub submitted: Ghost<Seq<LogicCommand>>,
    /// Every response the worker ever produced, in production order.
    pub produced: Ghost<Seq<LogicResponse>>,
    /// Every response the foreground ever drained, in the order it saw them.
    pub delivered: Ghost<Seq<LogicResponse>>,
}

impl CommandBus {
    /// How many commands the worker has taken so far.
    pub open spec fn spec_processed(self) -> int {
        self.submitted@.len() - self.cmd_queue@.len()
    }

    /// The bus's invariant: the pending commands are exactly the submitted
    /// ones not yet taken, in order; the worker has produced at most one
    /// response per taken command; and what was drained plus what is still
    /// queued is exactly what was produced, in order.
    pub open spec fn wf(self) -> bool {
        self.cmd_queue@ == self.submitted@.skip(self.spec_processed())
            && self.cmd_queue@.len() <= self.submitted@.len()
            && self.produced@.len() <= self.spec_processed()
            && self.delivered@ + self.resp_queue@ == self.produced@
    }

    /// An empty bus.
    pub fn new() -> (r: CommandBus)
        ensures
            r.wf(),
            r.submitted@ == Seq::<LogicCommand>::empty(),
            r.produced@ == Seq::<LogicResponse>::empty(),
            r.delivered@ == Seq::<LogicResponse>::empty(),
    {
        let r = CommandBus {
            cmd_queue: Vec::new(),
            resp_queue: Vec::new(),
            submitted: Ghost(Seq::empty()),
            produced: Ghost(Seq::empty()),
            delivered: Ghost(Seq::empty()),
        };
        proof {
            assert(r.cmd_queue@ =~= r.submitted@.skip(0));
            assert(r.delivered@ + r.resp_queue@ =~= r.produced@);
        }
        r
    }

    /// The foreground submits a command; nothing else moves.
    pub fn submit(&mut self, cmd: LogicCommand)
        requires
            old(self).wf(),
        ensures
            final(self).wf(),
            final(self).submitted@ == old(self).submitted@.push(cmd),
            final(self).produced@ == old(self).produced@,
            final(self).delivered@ == old(self).delivered@,
    {
        let ghost c = cmd;
        self.cmd_queue.push(cmd);
        proof {
            self.submitted@ = self.submitted@.push(c);
            assert(self.cmd_queue@ =~= self.submitted@.skip(self.spec_processed()));
        }
    }

    /// The worker takes the next command: always the earliest submitted one
    /// not yet taken — strictly serial, no reordering.
    pub fn take_command(&mut self) -> (r: Option<LogicCommand>)
        requires
            old(self).wf(),
        ensures
            final(self).wf(),
            final(self).submitted@ == old(self).submitted@,
            final(self).produced@ == old(self).produced@,
            final(self).delivered@ == old(self).delivered@,
            match r {
                Some(cmd) => old(self).spec_processed() < old(self).submitted@.len() && cmd == old(
                    self,
                ).submitted@[old(self).spec_processed()] && final(self).spec_processed() == old(
                    self,
                ).spec_processed() + 1,
                None => old(self).spec_processed() == old(self).submitted@.len() && *final(self)
                    == *old(self),
            },
    {
        if self.cmd_queue.len() == 0 {
            proof {
                assert(self.cmd_queue@ =~= Seq::<LogicCommand>::empty());
            }
            return None;
        }
        let cmd = self.cmd_queue.remove(0);
        proof {
            let p = old(self).spec_processed();
            assert(old(self).cmd_queue@[0] == old(self).submitted@.skip(p)[0]);
            assert(self.cmd_queue@ =~= self.submitted@.skip(p + 1));
        }
        Some(cmd)
    }

    /// The worker posts the response to the command it just handled. It can
    /// owe at most one response per taken command.
    pub fn push_response(&mut self, resp: LogicResponse)
        requires
            old(self).wf(),
            old(self).produced@.len() < old(self).spec_processed(),
        ensures
            final(self).wf(),
            final(self).submitted@ == old(self).submitted@,
            final(self).produced@ == old(self).produced@.push(resp),
            final(self).delivered@ == old(self).delivered@,
            final(self).spec_processed() == old(self).spec_processed(),
    {
        let ghost r = resp;
        self.resp_queue.push(resp);
        proof {
            self.produced@ = self.produced@.push(r);
            assert(self.delivered@ + self.resp_queue@ =~= self.produced@);
        }
    }

    /// The foreground drains every response currently available, in the
    /// order they were produced, without blocking for more.
    pub fn poll(&mut self) -> (r: Vec<LogicResponse>)
        requires
            old(self).wf(),
        ensures
            final(self).wf(),
            final(self).submitted@ == old(self).submitted@,
            final(self).produced@ == old(self).produced@,
            final(self).delivered@ == old(self).delivered@ + r@,
            final(self).delivered@ == final(self).produced@,
            r@ == old(self).produced@.skip(old(self).delivered@.len() as int),
    {
        let mut out: Vec<LogicResponse> = Vec::new();
        proof {
            assert(out@ + self.resp_queue@ =~= self.resp_queue@);
        }
        while self.resp_queue.len() > 0
            invariant
                out@ + self.resp_queue@ == old(self).resp_queue@,
                self.cmd_queue@ == old(self).cmd_queue@,
                self.submitted@ == old(self).submitted@,
                self.produced@ == old(self).produced@,
                self.delivered@ == old(self).delivered@,
            decreases self.resp_queue@.len(),
        {
            let x = self.resp_queue.remove(0);
            out.push(x);
            proof {
                assert(out@ + self.resp_queue@ =~= old(self).resp_queue@);
            }
        }
        proof {
            assert(self.resp_queue@ =~= Seq::<LogicResponse>::empty());
            self.delivered@ = self.delivered@ + out@;
            assert(self.delivered@ + self.resp_queue@ =~= self.produced@);
            assert(old(self).delivered@ + old(self).resp_queue@ =~= old(self).produced@);
            assert(out@ =~= old(self).resp_queue@);
            assert(out@ =~= old(self).produced@.skip(old(self).delivered@.len() as int)) by {
                assert(old(self).produced@ == old(self).delivered@ + old(self).resp_queue@);
                assert((old(self).delivered@ + old(self).resp_queue@).skip(
                    old(self).delivered@.len() as int,
                ) =~= old(self).resp_queue@);
            }
        }
        out
    }

    /// Ordering, for any sequence of submitted commands and arbitrarily
    /// spaced polls: the responses the foreground has observed are a prefix
    /// of the responses produced, in production order — the `k`-th observed
    /// response is the response to the `k`-th taken command, so no response
    /// for a later command is seen before one for an earlier command, and
    /// no more responses are observed than commands taken.
    pub proof fn lemma_bus_ordering(self, k: int)
        requires
            self.wf(),
            0 <= k < self.delivered@.len(),
        ensures
            self.delivered@[k] == self.produced@[k],
            self.delivered@.len() <= self.spec_processed(),
            self.spec_processed() <= self.submitted@.len(),
    {
        assert(self.delivered@[k] == (self.delivered@ + self.resp_queue@)[k]);
    }
}

} // verus!
