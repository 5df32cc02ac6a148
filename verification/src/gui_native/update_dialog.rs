//! Update available, and the download that follows.
//!
//! At startup the bots are held back until the user has answered, so every way
//! out of the dialog has to release them. Only a successful update does not,
//! because that relaunches into a fresh process.
use vstd::prelude::*;
use vstd::string::*;

use crate::text::{decimal, digits, replace, replaced, same};

verus! {

/// What the dialog says first.
pub fn heading(tag: &str, version: &str) -> (r: String)
    ensures
        r@ == "A new version ("@ + tag@ + ") is available. You have v"@ + version@ + "."@,
{
    let mut out = String::from_str("A new version (");
    out.append(tag);
    out.append(") is available. You have v");
    out.append(version);
    out.append(".");
    out
}

/// The release notes as an edit control takes them: each line feed with a
/// carriage return before it.
pub fn notes(changelog: &str) -> (r: String)
    ensures
        r@ == replaced(changelog@, "\n"@, "\r\n"@),
{
    proof {
        reveal_strlit("\n");
    }
    replace(changelog, "\n", "\r\n")
}

/// How much of a download is done, out of a hundred.
pub open spec fn percent_done(done: u64, total: Option<u64>) -> nat {
    match total {
        Some(t) => if t == 0 {
            0
        } else if done as nat * 100 / (t as nat) < 100 {
            done as nat * 100 / (t as nat)
        } else {
            100
        },
        None => 0,
    }
}

/// How much of a download is done, out of a hundred. Nothing is known where
/// the size is not.
pub fn percent(done: u64, total: Option<u64>) -> (r: u64)
    ensures
        r == percent_done(done, total),
        r <= 100,
{
    match total {
        Some(t) => {
            if t == 0 {
                return 0;
            }
            let p: u128 = done as u128 * 100 / t as u128;
            if p < 100 {
                p as u64
            } else {
                100
            }
        },
        None => 0,
    }
}

/// What is said while a download runs.
pub fn progress_label(percent: u64) -> (r: String)
    ensures
        r@ == "Downloading... "@ + digits(percent as nat) + "%"@,
{
    let mut out = String::from_str("Downloading... ");
    out.append(decimal(percent).as_str());
    out.append("%");
    out
}

/// What follows a download.
#[derive(Debug)]
pub enum AfterDownload {
    /// The program was replaced: start it anew.
    Relaunch,
    /// Carry on as normal, with a word about it where the user did not cancel.
    CarryOn { report: Option<String> },
}

/// What follows a download. A cancel is the user's own doing, so it needs no
/// report; any other failure does.
pub fn after_download(result: Result<(), String>) -> (r: AfterDownload)
    ensures
        match result {
            Ok(_) => r is Relaunch,
            Err(e) => match r {
                AfterDownload::CarryOn { report: Some(text) } => e@ != "Update cancelled"@ && text@
                    == e@,
                AfterDownload::CarryOn { report: None } => e@ == "Update cancelled"@,
                AfterDownload::Relaunch => false,
            },
        },
{
    match result {
        Ok(_) => AfterDownload::Relaunch,
        Err(e) => if same(e.as_str(), "Update cancelled") {
            AfterDownload::CarryOn { report: None }
        } else {
            AfterDownload::CarryOn { report: Some(e) }
        },
    }
}

/// What the download reports.
#[derive(Debug)]
pub enum DownloadMsg {
    /// So many bytes are there, of so many.
    Progress(u64, Option<u64>),
    Done(Result<(), String>),
}

/// What the window does about a report.
#[derive(Debug)]
pub enum DownloadStep {
    /// Show how far it is.
    Show { percent: u64, label: String },
    /// Close, and do this.
    Close(AfterDownload),
}

/// A download as the window shows it.
#[derive(Debug, Clone, Copy, PartialEq, Eq, Structural)]
pub struct Download {
    /// Whether the download was told to stop.
    pub cancelled: bool,
    /// Whether the caller carries on as normal afterwards.
    pub carry_on: bool,
    pub finished: bool,
}

/// What a report does to a download, and what the window does about it.
pub open spec fn report_taken(
    old: Download,
    new: Download,
    msg: DownloadMsg,
    step: DownloadStep,
) -> bool {
    match msg {
        DownloadMsg::Progress(done, total) => step matches DownloadStep::Show { percent, label }
            && percent == percent_done(done, total) && label@ == "Downloading... "@ + digits(
            percent as nat,
        ) + "%"@ && new == old,
        DownloadMsg::Done(Ok(_)) => step matches DownloadStep::Close(after) && after is Relaunch
            && new == (Download { carry_on: false, finished: true, ..old }),
        DownloadMsg::Done(Err(e)) => step matches DownloadStep::Close(
            AfterDownload::CarryOn { report },
        ) && (report is None) == (e@ == "Update cancelled"@) && (report matches Some(text)
            ==> text@ == e@) && new == (Download { finished: true, ..old }),
    }
}

impl Download {
    pub fn new() -> (r: Self)
        ensures
            r == (Download { cancelled: false, carry_on: true, finished: false }),
    {
        Download { cancelled: false, carry_on: true, finished: false }
    }

    /// Take a report in. Only where the program was replaced does the caller
    /// not carry on.
    pub fn report(&mut self, msg: DownloadMsg) -> (r: DownloadStep)
        ensures
            report_taken(*old(self), *final(self), msg, r),
    {
        match msg {
            DownloadMsg::Progress(done, total) => {
                let percent = percent(done, total);
                DownloadStep::Show { percent, label: progress_label(percent) }
            },
            DownloadMsg::Done(result) => {
                if result.is_ok() {
                    self.carry_on = false;
                }
                self.finished = true;
                DownloadStep::Close(after_download(result))
            },
        }
    }

    /// Cancel, by the button or by closing the window. The download stops at
    /// its next chunk, and the window stays until it says so: past that point
    /// it may be replacing the program.
    pub fn cancel(&mut self) -> (r: &'static str)
        ensures
            r@ == "Cancelling..."@,
            *final(self) == (Download { cancelled: true, ..*old(self) }),
    {
        self.cancelled = true;
        "Cancelling..."
    }
}

impl Default for Download {
    fn default() -> (r: Self)
        ensures
            r == (Download { cancelled: false, carry_on: true, finished: false }),
    {
        Download::new()
    }
}

/// What a manual check says where there is nothing newer.
pub fn up_to_date(version: &str) -> (r: String)
    ensures
        r@ == "You're up to date (v"@ + version@ + ")."@,
{
    let mut out = String::from_str("You're up to date (v");
    out.append(version);
    out.append(").");
    out
}

/// The share of a download that is shown is never more than is there, less
/// than one short of it, and the whole exactly where all of it is.
pub proof fn progress_is_rounded_down(done: u64, total: u64)
    requires
        total > 0,
    ensures
        ({
            let p = percent_done(done, Some(total));
            &&& p <= 100
            &&& p * total <= done * 100
            &&& p < 100 ==> done * 100 < (p + 1) * total
            &&& p == 100 <==> done >= total
        }),
{
    let d = done as int * 100;
    let t = total as int;
    vstd::arithmetic::div_mod::lemma_fundamental_div_mod(d, t);
    let q = d / t;
    assert(t * q <= d < t * q + t);
    assert(q * t == t * q) by (nonlinear_arith);
    assert((q + 1) * t == t * q + t) by (nonlinear_arith);
    if q >= 100 {
        assert(100 * t <= q * t) by (nonlinear_arith)
            requires
                q >= 100,
                t > 0,
        ;
    } else {
        assert((q + 1) * t <= 100 * t) by (nonlinear_arith)
            requires
                q + 1 <= 100,
                t > 0,
        ;
    }
}

/// Every way out of the window releases the bots, but for an update that is
/// there: only then does a new process take over. The window stays until then.
pub proof fn every_way_out_releases_the_bots(
    old: Download,
    new: Download,
    msg: DownloadMsg,
    step: DownloadStep,
)
    requires
        report_taken(old, new, msg, step),
        !old.finished,
        old.carry_on,
    ensures
        step is Close <==> msg is Done,
        new.finished <==> step is Close,
        !new.carry_on <==> (step matches DownloadStep::Close(after) && after is Relaunch),
        new.carry_on <==> !(msg matches DownloadMsg::Done(result) && result is Ok),
        new.cancelled == old.cancelled,
{
}

} // verus!
