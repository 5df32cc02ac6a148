//! The log of a long-running task, line by line.
use vstd::prelude::*;
use vstd::string::*;

verus! {

/// What a task reports.
#[derive(Debug)]
pub enum Msg {
    Line(String),
    Done(Result<(), String>),
}

/// What a report adds to the log; `newline` is how the window ends a line.
pub open spec fn report_text(msg: Msg, newline: Seq<char>) -> Seq<char> {
    match msg {
        Msg::Line(line) => line@ + newline,
        Msg::Done(Ok(_)) => newline + "Done."@ + newline,
        Msg::Done(Err(e)) => newline + "Failed: "@ + e@ + newline,
    }
}

/// How a running task stands.
#[derive(Debug)]
pub struct Progress {
    pub log: String,
    pub finished: bool,
    pub succeeded: bool,
}

impl Progress {
    pub fn new() -> (r: Self)
        ensures
            r.log@.len() == 0,
            !r.finished,
            !r.succeeded,
    {
        Progress { log: String::new(), finished: false, succeeded: false }
    }

    /// Take a report in, and say what to append to what is shown.
    pub fn report(&mut self, msg: Msg, newline: &str) -> (r: String)
        ensures
            r@ == report_text(msg, newline@),
            final(self).log@ == old(self).log@ + r@,
            final(self).finished == (old(self).finished || msg is Done),
            final(self).succeeded == (match msg {
                Msg::Line(_) => old(self).succeeded,
                Msg::Done(result) => result is Ok,
            }),
    {
        let fresh = match msg {
            Msg::Line(line) => {
                let mut out = line;
                out.append(newline);
                out
            },
            Msg::Done(result) => {
                let mut out = newline.to_owned();
                match result {
                    Ok(_) => {
                        out.append("Done.");
                        self.succeeded = true;
                    },
                    Err(e) => {
                        out.append("Failed: ");
                        out.append(e.as_str());
                        self.succeeded = false;
                    },
                }
                out.append(newline);
                self.finished = true;
                out
            },
        };
        self.log.append(fresh.as_str());
        fresh
    }

    /// Whether the window may be closed: not on a half-finished task.
    pub fn may_close(&self) -> (r: bool)
        ensures
            r == self.finished,
    {
        self.finished
    }
}

impl Default for Progress {
    fn default() -> (r: Self)
        ensures
            r.log@.len() == 0,
            !r.finished,
            !r.succeeded,
    {
        Progress::new()
    }
}

/// A report is shown as it came, each on a line of its own, and a failure is
/// shown with its reason.
pub proof fn a_report_is_shown_as_it_came(msg: Msg, newline: Seq<char>)
    ensures
        newline.is_suffix_of(report_text(msg, newline)),
        match msg {
            Msg::Line(line) => line@.is_prefix_of(report_text(msg, newline)) && report_text(
                msg,
                newline,
            ).len() == line@.len() + newline.len(),
            Msg::Done(Ok(_)) => newline.is_prefix_of(report_text(msg, newline)),
            Msg::Done(Err(e)) => newline.is_prefix_of(report_text(msg, newline)) && (e@
                + newline).is_suffix_of(report_text(msg, newline)),
        },
{
    let t = report_text(msg, newline);
    let n = t.len() as int;
    assert(newline =~= t.subrange(n - newline.len(), n));
    match msg {
        Msg::Line(line) => {
            assert(line@ =~= t.take(line@.len() as int));
        },
        Msg::Done(Ok(_)) => {
            assert(newline =~= t.take(newline.len() as int));
        },
        Msg::Done(Err(e)) => {
            assert(newline =~= t.take(newline.len() as int));
            let back = e@ + newline;
            assert(back =~= t.subrange(n - back.len(), n));
        },
    }
}

} // verus!
