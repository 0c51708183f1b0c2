use vstd::prelude::*;
use crate::error::Error;
use crate::message::{spec_message, create_message};
use crate::payload::{spec_payload, WebhookPayload};
use crate::resolve::Configuration;

verus! {

/// The lifecycle of one monitoring run. The run walks forward through these
/// phases; any failure drops it into `Failed`, from which no transition
/// leads out.
#[derive(Clone, Copy, Debug, PartialEq, Eq, Structural)]
pub enum Phase {
    /// Waiting for the first look at the process table.
    Verifying,
    /// The process exists; the start notification is due.
    NotifyingStart,
    /// The start notification was handed out and awaits its send result.
    AwaitingStartSend,
    /// Watching the process until it disappears.
    Polling,
    /// The process is gone; the end notification is due.
    NotifyingEnd,
    /// The end notification was handed out and awaits its send result.
    AwaitingEndSend,
    /// Both notifications were sent; the run succeeded.
    Done,
    /// The run aborted.
    Failed,
}

/// The payload body of the start notification.
pub open spec fn spec_start_payload(pid: int, cmd: Seq<char>, t0: int) -> Seq<char> {
    spec_payload(spec_message(pid, cmd, t0, None))
}

/// The payload body of the end notification.
pub open spec fn spec_end_payload(pid: int, cmd: Seq<char>, t0: int, t1: int) -> Seq<char> {
    spec_payload(spec_message(pid, cmd, t0, Some(t1)))
}

/// The monitoring state machine. The surrounding binary drives it: it hands
/// in what it observed (the process's command line, the clock, a send
/// result) and performs the payload posts the machine hands out. `issued`
/// records every payload body handed out for posting, in order.
pub struct Monitor {
    pub config: Configuration,
    pub phase: Phase,
    pub cmd: Option<String>,
    pub started: Option<i64>,
    pub ended: Option<i64>,
    pub failure: Option<Error>,
    pub issued: Ghost<Seq<Seq<char>>>,
}

impl Monitor {
    /// What each phase guarantees about the recorded observations and the
    /// payloads handed out so far.
    pub open spec fn inv(self) -> bool {
        &&& (self.failure is Some <==> self.phase == Phase::Failed)
        &&& (self.started is Some ==> self.started->Some_0 >= 0)
        &&& (self.ended is Some ==> self.started is Some && self.ended->Some_0
            >= self.started->Some_0)
        &&& match self.phase {
            Phase::Verifying => self.cmd is None && self.started is None && self.ended is None
                && self.issued@.len() == 0,
            Phase::NotifyingStart => self.cmd is Some && self.started is None && self.ended is None
                && self.issued@.len() == 0,
            Phase::AwaitingStartSend | Phase::Polling | Phase::NotifyingEnd => self.cmd is Some
                && self.started is Some && self.ended is None && self.issued@ == seq![
                spec_start_payload(
                    self.config.pid as int,
                    self.cmd->Some_0@,
                    self.started->Some_0 as int,
                ),
            ],
            Phase::AwaitingEndSend | Phase::Done => self.cmd is Some && self.started is Some
                && self.ended is Some && self.issued@ == seq![
                spec_start_payload(
                    self.config.pid as int,
                    self.cmd->Some_0@,
                    self.started->Some_0 as int,
                ),
                spec_end_payload(
                    self.config.pid as int,
                    self.cmd->Some_0@,
                    self.started->Some_0 as int,
                    self.ended->Some_0 as int,
                ),
            ],
            Phase::Failed => self.failure == Some(Error::ProcessNotFound) ==> self.issued@.len()
                == 0,
        }
    }

    /// A fresh run over a resolved configuration, about to verify that the
    /// process exists.
    pub fn new(config: Configuration) -> (m: Monitor)
        ensures
            m.inv(),
            m.phase == Phase::Verifying,
            m.config == config,
            m.issued@.len() == 0,
    {
        Monitor {
            config,
            phase: Phase::Verifying,
            cmd: None,
            started: None,
            ended: None,
            failure: None,
            issued: Ghost(Seq::empty()),
        }
    }

    /// Takes the one verification look at the process table: the command
    /// line when the process exists, absent when it does not. An absent
    /// process aborts the run before anything was handed out for posting.
    pub fn verify(&mut self, cmd: Option<String>) -> (r: Result<(), Error>)
        requires
            old(self).inv(),
            old(self).phase == Phase::Verifying,
        ensures
            final(self).inv(),
            final(self).config == old(self).config,
            final(self).issued@.len() == 0,
            cmd is None ==> final(self).phase == Phase::Failed && final(self).failure == Some(
                Error::ProcessNotFound,
            ) && r == Err::<(), Error>(Error::ProcessNotFound),
            cmd matches Some(c) ==> final(self).phase == Phase::NotifyingStart && final(self).cmd
                == Some(c) && r == Ok::<(), Error>(()),
    {
        match cmd {
            None => {
                self.phase = Phase::Failed;
                self.failure = Some(Error::ProcessNotFound);
                Err(Error::ProcessNotFound)
            },
            Some(c) => {
                self.cmd = Some(c);
                self.phase = Phase::NotifyingStart;
                Ok(())
            },
        }
    }

    /// Captures the start time and hands out the start notification payload
    /// for posting to the webhook URL.
    pub fn notify_start(&mut self, now: i64) -> (body: String)
        requires
            old(self).inv(),
            old(self).phase == Phase::NotifyingStart,
            0 <= now,
        ensures
            final(self).inv(),
            final(self).phase == Phase::AwaitingStartSend,
            final(self).config == old(self).config,
            final(self).cmd == old(self).cmd,
            final(self).started == Some(now),
            body@ == spec_start_payload(
                old(self).config.pid as int,
                old(self).cmd->Some_0@,
                now as int,
            ),
            final(self).issued@ == old(self).issued@.push(body@),
    {
        let cmd_str = match &self.cmd {
            Some(c) => c.as_str(),
            None => "",
        };
        let msg = create_message(self.config.pid, cmd_str, now, None);
        let body = match WebhookPayload::create(msg.as_str()) {
            Ok(t) => t,
            Err(_) => String::new(),
        };
        self.started = Some(now);
        self.phase = Phase::AwaitingStartSend;
        proof {
            self.issued@ = self.issued@.push(body@);
            assert(self.issued@ =~= seq![
                spec_start_payload(self.config.pid as int, self.cmd->Some_0@, now as int),
            ]);
        }
        body
    }

    /// Records the transport outcome of the most recently handed-out
    /// notification. A failed send aborts the run.
    pub fn report_send(&mut self, ok: bool) -> (r: Result<(), Error>)
        requires
            old(self).inv(),
            old(self).phase == Phase::AwaitingStartSend || old(self).phase
                == Phase::AwaitingEndSend,
        ensures
            final(self).inv(),
            final(self).config == old(self).config,
            final(self).cmd == old(self).cmd,
            final(self).started == old(self).started,
            final(self).ended == old(self).ended,
            final(self).issued@ == old(self).issued@,
            ok && old(self).phase == Phase::AwaitingStartSend ==> final(self).phase
                == Phase::Polling && r == Ok::<(), Error>(()),
            ok && old(self).phase == Phase::AwaitingEndSend ==> final(self).phase == Phase::Done
                && r == Ok::<(), Error>(()),
            !ok ==> final(self).phase == Phase::Failed && final(self).failure == Some(
                Error::Network,
            ) && r == Err::<(), Error>(Error::Network),
    {
        if !ok {
            self.phase = Phase::Failed;
            self.failure = Some(Error::Network);
            return Err(Error::Network);
        }
        if matches!(self.phase, Phase::AwaitingStartSend) {
            self.phase = Phase::Polling;
        } else {
            self.phase = Phase::Done;
        }
        Ok(())
    }

    /// Takes one polling observation: whether the process still exists.
    /// The run keeps polling while it does and moves on when it is gone.
    pub fn poll(&mut self, present: bool)
        requires
            old(self).inv(),
            old(self).phase == Phase::Polling,
        ensures
            final(self).inv(),
            final(self).config == old(self).config,
            final(self).cmd == old(self).cmd,
            final(self).started == old(self).started,
            final(self).ended == old(self).ended,
            final(self).issued@ == old(self).issued@,
            present ==> final(self).phase == Phase::Polling,
            !present ==> final(self).phase == Phase::NotifyingEnd,
    {
        if !present {
            self.phase = Phase::NotifyingEnd;
        }
    }

    /// Captures the end time and hands out the end notification payload,
    /// with the elapsed duration, for posting to the webhook URL.
    pub fn notify_end(&mut self, now: i64) -> (body: String)
        requires
            old(self).inv(),
            old(self).phase == Phase::NotifyingEnd,
            old(self).started matches Some(t0) ==> now >= t0,
        ensures
            final(self).inv(),
            final(self).phase == Phase::AwaitingEndSend,
            final(self).config == old(self).config,
            final(self).cmd == old(self).cmd,
            final(self).started == old(self).started,
            final(self).ended == Some(now),
            body@ == spec_end_payload(
                old(self).config.pid as int,
                old(self).cmd->Some_0@,
                old(self).started->Some_0 as int,
                now as int,
            ),
            final(self).issued@ == old(self).issued@.push(body@),
    {
        let start = match self.started {
            Some(t) => t,
            None => 0,
        };
        let cmd_str = match &self.cmd {
            Some(c) => c.as_str(),
            None => "",
        };
        let msg = create_message(self.config.pid, cmd_str, start, Some(now));
        let body = match WebhookPayload::create(msg.as_str()) {
            Ok(t) => t,
            Err(_) => String::new(),
        };
        self.ended = Some(now);
        self.phase = Phase::AwaitingEndSend;
        proof {
            self.issued@ = self.issued@.push(body@);
            assert(self.issued@ =~= seq![
                spec_start_payload(
                    self.config.pid as int,
                    self.cmd->Some_0@,
                    self.started->Some_0 as int,
                ),
                spec_end_payload(
                    self.config.pid as int,
                    self.cmd->Some_0@,
                    self.started->Some_0 as int,
                    now as int,
                ),
            ]);
        }
        body
    }
}

/// When the watched process does not exist at verification time, the run
/// aborts with nothing handed out for posting: zero notifications.
pub proof fn lemma_absent_process_sends_nothing(m: Monitor)
    requires
        m.inv(),
        m.failure == Some(Error::ProcessNotFound),
    ensures
        m.issued@.len() == 0,
{
}

/// A run that reached `Done` handed out exactly two payloads: first the
/// start notification, then the end notification with its duration line.
pub proof fn lemma_done_sends_exactly_two(m: Monitor)
    requires
        m.inv(),
        m.phase == Phase::Done,
    ensures
        m.issued@.len() == 2,
        m.issued@[0] == spec_start_payload(
            m.config.pid as int,
            m.cmd->Some_0@,
            m.started->Some_0 as int,
        ),
        m.issued@[1] == spec_end_payload(
            m.config.pid as int,
            m.cmd->Some_0@,
            m.started->Some_0 as int,
            m.ended->Some_0 as int,
        ),
{
}

} // verus!
