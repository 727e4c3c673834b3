//! What the window keeps between frames, apart from what it draws: the queue,
//! the key, and the running count of files decoded and failed.

use vstd::prelude::*;

use crate::log::{spec_log_kind, LogKind};
use crate::key::{key_digits, key_text, parse_key, spec_parse_key};
use crate::pending::Pending;
use crate::text::{append_decimal, decimal, string_push, string_push_str};
use crate::xor::DEFAULT_XOR_KEY;

verus! {

/// What happened in a decode run, as the caller that does the file work
/// reports it.
pub enum DecodeEvent {
    /// The user asked for a decode.
    Requested,
    /// Reading the queued paths failed, with this error.
    ScanFailed(String),
    /// The queued paths gave this many jobs.
    Planned(usize),
    /// A job wrote this path.
    Written(String),
    /// The job reading this path failed with this error.
    Failed(String, String),
    /// Every job has been run.
    Finished,
}

/// What the caller does next.
#[derive(Debug, Clone, Copy, PartialEq, Eq)]
pub enum DecodeAction {
    /// Read the queued paths and plan the jobs.
    Scan,
    /// Run the planned jobs, reporting each outcome.
    RunJobs,
    /// The run is over.
    Stop,
}

/// The log line for an empty queue.
pub open spec fn nothing_queued_line() -> Seq<char> {
    "\u{26a0} Nothing queued yet."@
}

/// The log line for a failed scan.
pub open spec fn scan_failed_line(error: Seq<char>) -> Seq<char> {
    "\u{2717} Could not read inputs: "@ + error
}

/// The log line that starts running `n` jobs with `key`.
pub open spec fn planned_line(n: nat, key: u8) -> Seq<char> {
    "\u{2192} Decoding "@ + decimal(n) + " file(s) with key 0x"@ + key_text(key) + "\u{2026}"@
}

/// The log line for a file written.
pub open spec fn written_line(dest: Seq<char>) -> Seq<char> {
    "\u{2713} "@ + dest
}

/// The log line for a job that failed.
pub open spec fn failed_line(source: Seq<char>, error: Seq<char>) -> Seq<char> {
    "\u{2717} "@ + source + " \u{2014} "@ + error
}

/// The log line that closes a run, with the running totals.
pub open spec fn done_line(ok: nat, err: nat) -> Seq<char> {
    "Done: "@ + decimal(ok) + " decoded, "@ + decimal(err) + " failed."@
}

/// The log line a decode event gives, if any, with `queued` paths queued, the
/// key `key` and the totals `ok` and `err` after the event.
pub open spec fn decode_line(queued: nat, key: u8, ok: nat, err: nat, event: DecodeEvent) -> Option<
    Seq<char>,
> {
    match event {
        DecodeEvent::Requested => if queued == 0 {
            Some(nothing_queued_line())
        } else {
            None
        },
        DecodeEvent::ScanFailed(e) => Some(scan_failed_line(e@)),
        DecodeEvent::Planned(n) => Some(planned_line(n as nat, key)),
        DecodeEvent::Written(d) => Some(written_line(d@)),
        DecodeEvent::Failed(s, e) => Some(failed_line(s@, e@)),
        DecodeEvent::Finished => Some(done_line(ok, err)),
    }
}

/// What the caller does after a decode event, with `queued` paths queued.
pub open spec fn decode_action(queued: nat, event: DecodeEvent) -> DecodeAction {
    match event {
        DecodeEvent::Requested => if queued == 0 {
            DecodeAction::Stop
        } else {
            DecodeAction::Scan
        },
        DecodeEvent::ScanFailed(_) => DecodeAction::Stop,
        DecodeEvent::Planned(_) => DecodeAction::RunJobs,
        DecodeEvent::Written(_) => DecodeAction::RunJobs,
        DecodeEvent::Failed(_, _) => DecodeAction::RunJobs,
        DecodeEvent::Finished => DecodeAction::Stop,
    }
}

/// The text of an optional line.
pub open spec fn line_view(line: Option<String>) -> Option<Seq<char>> {
    match line {
        Some(l) => Some(l@),
        None => None,
    }
}

/// The state of one window.
pub struct Session {
    /// Files and folders queued but not yet processed.
    pub pending: Pending,
    /// Single-byte XOR key.
    pub key: u8,
    /// Files written since the log was last cleared.
    pub ok_count: usize,
    /// Files that failed since the log was last cleared.
    pub err_count: usize,
}

impl Session {
    /// A fresh window: nothing queued, the default key, nothing counted.
    pub fn new() -> (s: Self)
        ensures
            s.pending@.len() == 0,
            s.key == DEFAULT_XOR_KEY,
            s.ok_count == 0,
            s.err_count == 0,
    {
        Session { pending: Pending::new(), key: DEFAULT_XOR_KEY, ok_count: 0, err_count: 0 }
    }

    /// The user edited the key box to `text`: the key changes only when the
    /// text reads as a byte in hex. Returns whether it changed.
    pub fn set_key_text(&mut self, text: &str) -> (changed: bool)
        ensures
            changed == spec_parse_key(text@) is Some,
            final(self).key == match spec_parse_key(text@) {
                Some(k) => k,
                None => old(self).key,
            },
            final(self).pending@ == old(self).pending@,
            final(self).ok_count == old(self).ok_count,
            final(self).err_count == old(self).err_count,
    {
        match parse_key(text) {
            Some(k) => {
                self.key = k;
                true
            },
            None => false,
        }
    }

    /// The log was cleared: the counts start again from zero.
    pub fn clear_log(&mut self)
        ensures
            final(self).ok_count == 0,
            final(self).err_count == 0,
            final(self).key == old(self).key,
            final(self).pending@ == old(self).pending@,
    {
        self.ok_count = 0;
        self.err_count = 0;
    }
    /// One step of a decode run. A request with nothing queued only warns;
    /// otherwise the queued paths are scanned. A failed scan is logged and the
    /// queue kept for another try. Each job's outcome is counted and logged;
    /// the run ends with the totals, and the queue is emptied.
    pub fn on_decode_event(&mut self, event: DecodeEvent) -> (r: (Option<String>, DecodeAction))
        requires
            event is Written ==> old(self).ok_count < usize::MAX,
            event is Failed ==> old(self).err_count < usize::MAX,
        ensures
            final(self).ok_count == old(self).ok_count + if event is Written {
                1int
            } else {
                0int
            },
            final(self).err_count == old(self).err_count + if event is Failed {
                1int
            } else {
                0int
            },
            final(self).key == old(self).key,
            final(self).pending@ == if event is Finished {
                Seq::empty()
            } else {
                old(self).pending@
            },
            line_view(r.0) == decode_line(
                old(self).pending@.len(),
                old(self).key,
                final(self).ok_count as nat,
                final(self).err_count as nat,
                event,
            ),
            r.1 == decode_action(old(self).pending@.len(), event),
    {
        match event {
            DecodeEvent::Requested => {
                if self.pending.is_empty() {
                    let line = "\u{26a0} Nothing queued yet.".to_owned();
                    (Some(line), DecodeAction::Stop)
                } else {
                    (None, DecodeAction::Scan)
                }
            },
            DecodeEvent::ScanFailed(e) => {
                let mut line = "\u{2717} Could not read inputs: ".to_owned();
                string_push_str(&mut line, e.as_str());
                (Some(line), DecodeAction::Stop)
            },
            DecodeEvent::Planned(n) => {
                let mut line = "\u{2192} Decoding ".to_owned();
                append_decimal(&mut line, n);
                string_push_str(&mut line, " file(s) with key 0x");
                let (hi, lo) = key_digits(self.key);
                let ghost before = line@;
                string_push(&mut line, hi);
                string_push(&mut line, lo);
                assert(line@ =~= before + key_text(self.key));
                string_push_str(&mut line, "\u{2026}");
                (Some(line), DecodeAction::RunJobs)
            },
            DecodeEvent::Written(d) => {
                self.ok_count = self.ok_count + 1;
                let mut line = "\u{2713} ".to_owned();
                string_push_str(&mut line, d.as_str());
                (Some(line), DecodeAction::RunJobs)
            },
            DecodeEvent::Failed(s, e) => {
                self.err_count = self.err_count + 1;
                let mut line = "\u{2717} ".to_owned();
                string_push_str(&mut line, s.as_str());
                string_push_str(&mut line, " \u{2014} ");
                string_push_str(&mut line, e.as_str());
                (Some(line), DecodeAction::RunJobs)
            },
            DecodeEvent::Finished => {
                let mut line = "Done: ".to_owned();
                append_decimal(&mut line, self.ok_count);
                string_push_str(&mut line, " decoded, ");
                append_decimal(&mut line, self.err_count);
                string_push_str(&mut line, " failed.");
                self.pending.clear();
                (Some(line), DecodeAction::Stop)
            },
        }
    }
}


/// The kind of log line each decode event gives.
pub open spec fn event_kind(event: DecodeEvent) -> LogKind {
    match event {
        DecodeEvent::Requested => LogKind::Warning,
        DecodeEvent::ScanFailed(_) => LogKind::Failure,
        DecodeEvent::Planned(_) => LogKind::Progress,
        DecodeEvent::Written(_) => LogKind::Success,
        DecodeEvent::Failed(_, _) => LogKind::Failure,
        DecodeEvent::Finished => LogKind::Plain,
    }
}

/// The log shows every file written and anything that failed, each in its
/// own colour: the line of each decode event is of that event's kind (a
/// warning for an empty queue, a failure for a failed scan or job, progress
/// for the start of a run, success for a file written, plain for the totals).
pub proof fn lemma_decode_line_kinds(queued: nat, key: u8, ok: nat, err: nat, event: DecodeEvent)
    ensures
        decode_line(queued, key, ok, err, event) matches Some(l) ==> spec_log_kind(l)
            == event_kind(event),
{
    reveal_strlit("\u{26a0} Nothing queued yet.");
    reveal_strlit("\u{2717} Could not read inputs: ");
    reveal_strlit("\u{2192} Decoding ");
    reveal_strlit("\u{2713} ");
    reveal_strlit("\u{2717} ");
    reveal_strlit("Done: ");
    match event {
        DecodeEvent::Requested => {},
        DecodeEvent::ScanFailed(e) => {
            let a = "\u{2717} Could not read inputs: "@;
            assert((a + e@)[0] == a[0]);
        },
        DecodeEvent::Planned(n) => {
            let a = "\u{2192} Decoding "@;
            let l = planned_line(n as nat, key);
            assert(l =~= a + (decimal(n as nat) + " file(s) with key 0x"@ + key_text(key)
                + "\u{2026}"@));
            assert(l[0] == a[0]);
        },
        DecodeEvent::Written(d) => {
            let a = "\u{2713} "@;
            assert((a + d@)[0] == a[0]);
        },
        DecodeEvent::Failed(s, e) => {
            let a = "\u{2717} "@;
            let l = failed_line(s@, e@);
            assert(l =~= a + (s@ + " \u{2014} "@ + e@));
            assert(l[0] == a[0]);
        },
        DecodeEvent::Finished => {
            let a = "Done: "@;
            let l = done_line(ok, err);
            assert(l =~= a + (decimal(ok) + " decoded, "@ + decimal(err) + " failed."@));
            assert(l[0] == a[0]);
        },
    }
}

/// A batch is never decoded twice: a finished run empties the queue, and a
/// request with nothing queued only warns and stops.
pub proof fn lemma_finished_run_is_not_decoded_again(key: u8, ok: nat, err: nat)
    ensures
        decode_action(0, DecodeEvent::Requested) == DecodeAction::Stop,
        decode_line(0, key, ok, err, DecodeEvent::Requested) == Some(nothing_queued_line()),
{
}


/// A run stops only when there is nothing to decode, the scan failed, or every
/// job has run: after each job's outcome, written or failed, the remaining
/// jobs are still run.
pub proof fn lemma_job_outcomes_continue_the_run(queued: nat, event: DecodeEvent)
    ensures
        (event is Written || event is Failed) ==> decode_action(queued, event)
            == DecodeAction::RunJobs,
        event is Planned ==> decode_action(queued, event) == DecodeAction::RunJobs,
        (decode_action(queued, event) == DecodeAction::Stop) <==> ((event is Requested && queued
            == 0) || event is ScanFailed || event is Finished),
        (decode_action(queued, event) == DecodeAction::Scan) <==> (event is Requested && queued
            > 0),
{
}

} // verus!
