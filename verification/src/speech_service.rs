//! The command loop of the speech service, as a state machine: each command
//! gives the action to perform, and the loop reports when the OpenAI
//! connection is open.

use vstd::prelude::*;

use crate::simulation::TTSProvider;

verus! {

/// A command sent to the speech service.
#[derive(Debug)]
pub enum SpeechCommand {
    /// Open the OpenAI realtime connection, when OpenAI is the provider.
    Initialize,
    /// Speak a message.
    SendMessage(String),
    /// Close the connection and stop.
    Close,
    /// Choose the provider.
    SetTTSProvider(TTSProvider),
}

/// What the loop does for a command.
#[derive(Debug)]
pub enum SpeechAction {
    /// Nothing to do.
    Idle,
    /// Connect to the OpenAI realtime API.
    ConnectOpenAI,
    /// Send the message over the open OpenAI connection and relay the audio.
    SendToOpenAI(String),
    /// OpenAI is the provider but no connection is open: report it.
    ReportNotConnected,
    /// Synthesize the message with the local Sonata process.
    RunSonata(String),
    /// Stop the loop, closing the OpenAI connection first when one is open.
    Shutdown { close_connection: bool },
}

/// The state of the speech loop: the provider, whether an OpenAI
/// connection is open, and whether the loop has stopped.
pub struct SpeechSession {
    provider: TTSProvider,
    connected: bool,
    closed: bool,
}

impl SpeechSession {
    pub closed spec fn provider(&self) -> TTSProvider {
        self.provider
    }

    pub closed spec fn connected(&self) -> bool {
        self.connected
    }

    pub closed spec fn closed(&self) -> bool {
        self.closed
    }

    /// A new loop: Sonata is the provider, nothing is connected.
    pub fn new() -> (res: SpeechSession)
        ensures
            res.provider() == TTSProvider::Sonata,
            !res.connected(),
            !res.closed(),
    {
        SpeechSession { provider: TTSProvider::Sonata, connected: false, closed: false }
    }

    /// The provider in use.
    pub fn current_provider(&self) -> (res: TTSProvider)
        ensures
            res == self.provider(),
    {
        self.provider
    }

    /// The action for `command`, and the state it leaves.
    pub fn handle(&mut self, command: SpeechCommand) -> (res: SpeechAction)
        requires
            !old(self).closed(),
        ensures
            *final(self) == session_after(*old(self), command),
            res == action_for(*old(self), command),
            match command {
                SpeechCommand::Initialize => {
                    &&& *final(self) == *old(self)
                    &&& (old(self).provider() == TTSProvider::OpenAI ==> res
                        is ConnectOpenAI)
                    &&& (old(self).provider() == TTSProvider::Sonata ==> res is Idle)
                },
                SpeechCommand::SendMessage(m) => {
                    &&& *final(self) == *old(self)
                    &&& match old(self).provider() {
                        TTSProvider::OpenAI => if old(self).connected() {
                            res matches SpeechAction::SendToOpenAI(t) && t == m
                        } else {
                            res is ReportNotConnected
                        },
                        TTSProvider::Sonata => res matches SpeechAction::RunSonata(t) && t == m,
                    }
                },
                SpeechCommand::Close => {
                    &&& final(self).closed()
                    &&& !final(self).connected()
                    &&& final(self).provider() == old(self).provider()
                    &&& res matches SpeechAction::Shutdown { close_connection } && close_connection
                        == old(self).connected()
                },
                SpeechCommand::SetTTSProvider(p) => {
                    &&& final(self).provider() == p
                    &&& final(self).connected() == old(self).connected()
                    &&& !final(self).closed()
                    &&& res is Idle
                },
            },
    {
        match command {
            SpeechCommand::Initialize => {
                match self.provider {
                    TTSProvider::OpenAI => SpeechAction::ConnectOpenAI,
                    TTSProvider::Sonata => SpeechAction::Idle,
                }
            },
            SpeechCommand::SendMessage(m) => {
                match self.provider {
                    TTSProvider::OpenAI => {
                        if self.connected {
                            SpeechAction::SendToOpenAI(m)
                        } else {
                            SpeechAction::ReportNotConnected
                        }
                    },
                    TTSProvider::Sonata => SpeechAction::RunSonata(m),
                }
            },
            SpeechCommand::Close => {
                let had = self.connected;
                self.connected = false;
                self.closed = true;
                SpeechAction::Shutdown { close_connection: had }
            },
            SpeechCommand::SetTTSProvider(p) => {
                self.provider = p;
                SpeechAction::Idle
            },
        }
    }

    /// Records that the OpenAI connection asked for by `ConnectOpenAI` is open.
    pub fn connection_opened(&mut self)
        requires
            !old(self).closed(),
        ensures
            *final(self) == opened_if(*old(self), true),
            final(self).connected(),
            final(self).provider() == old(self).provider(),
            !final(self).closed(),
    {
        self.connected = true;
    }
}

/// The state that handling `command` leaves.
pub closed spec fn session_after(s: SpeechSession, command: SpeechCommand) -> SpeechSession {
    match command {
        SpeechCommand::Close => SpeechSession { connected: false, closed: true, ..s },
        SpeechCommand::SetTTSProvider(p) => SpeechSession { provider: p, ..s },
        _ => s,
    }
}

/// The action for `command` in the state `s`.
pub closed spec fn action_for(s: SpeechSession, command: SpeechCommand) -> SpeechAction {
    match command {
        SpeechCommand::Initialize => match s.provider {
            TTSProvider::OpenAI => SpeechAction::ConnectOpenAI,
            TTSProvider::Sonata => SpeechAction::Idle,
        },
        SpeechCommand::SendMessage(m) => match s.provider {
            TTSProvider::OpenAI => if s.connected {
                SpeechAction::SendToOpenAI(m)
            } else {
                SpeechAction::ReportNotConnected
            },
            TTSProvider::Sonata => SpeechAction::RunSonata(m),
        },
        SpeechCommand::Close => SpeechAction::Shutdown { close_connection: s.connected },
        SpeechCommand::SetTTSProvider(_) => SpeechAction::Idle,
    }
}

/// The state after the OpenAI connection opened, when `opened` and the
/// loop still runs.
pub closed spec fn opened_if(s: SpeechSession, opened: bool) -> SpeechSession {
    if opened && !s.closed {
        SpeechSession { connected: true, ..s }
    } else {
        s
    }
}

/// The state after the queue `trace` is handled in order from `s0`: each
/// entry is a command and whether the OpenAI connection opened while it was
/// handled; once the loop has stopped, later commands are not handled.
pub open spec fn run_session(s0: SpeechSession, trace: Seq<(SpeechCommand, bool)>) -> SpeechSession
    decreases trace.len(),
{
    if trace.len() == 0 {
        s0
    } else {
        let s = run_session(s0, trace.drop_last());
        if s.closed() {
            s
        } else {
            opened_if(session_after(s, trace.last().0), trace.last().1)
        }
    }
}

/// The actions taken for the queue `trace`, one per handled command.
pub open spec fn run_actions(s0: SpeechSession, trace: Seq<(SpeechCommand, bool)>) -> Seq<SpeechAction>
    decreases trace.len(),
{
    if trace.len() == 0 {
        Seq::empty()
    } else {
        let s = run_session(s0, trace.drop_last());
        let a = run_actions(s0, trace.drop_last());
        if s.closed() {
            a
        } else {
            a.push(action_for(s, trace.last().0))
        }
    }
}

/// The provider chosen by the latest `SetTTSProvider` of `trace`, or `p0`
/// when there is none.
pub open spec fn latest_provider(p0: TTSProvider, trace: Seq<(SpeechCommand, bool)>) -> TTSProvider
    decreases trace.len(),
{
    if trace.len() == 0 {
        p0
    } else {
        match trace.last().0 {
            SpeechCommand::SetTTSProvider(p) => p,
            _ => latest_provider(p0, trace.drop_last()),
        }
    }
}

/// The commands of a queue are handled in queue order, up to and including
/// the first `Close` and no further. Each is handled under the provider of
/// the latest earlier `SetTTSProvider` (the starting one if none, Sonata for
/// a new loop): `Initialize` connects to OpenAI exactly when that provider
/// is OpenAI, and a message is spoken by Sonata under Sonata and sent to
/// OpenAI (or reported as not connected) under OpenAI. The loop has stopped
/// exactly when the queue holds a `Close`.
pub proof fn lemma_speech_queue(s0: SpeechSession, trace: Seq<(SpeechCommand, bool)>)
    requires
        !s0.closed(),
    ensures
        run_actions(s0, trace).len() <= trace.len(),
        run_session(s0, trace).closed() <==> exists|i: int|
            0 <= i < trace.len() && (#[trigger] trace[i]).0 is Close,
        !run_session(s0, trace).closed() ==> run_actions(s0, trace).len() == trace.len()
            && run_session(s0, trace).provider() == latest_provider(s0.provider(), trace),
        forall|i: int|
            0 <= i < trace.len() && (#[trigger] trace[i]).0 is Close && (forall|j: int|
                0 <= j < i ==> !(trace[j].0 is Close)) ==> run_actions(s0, trace).len() == i + 1,
        forall|i: int|
            0 <= i < run_actions(s0, trace).len() ==> {
                let p = latest_provider(s0.provider(), trace.take(i));
                let a = #[trigger] run_actions(s0, trace)[i];
                &&& a == action_for(run_session(s0, trace.take(i)), trace[i].0)
                &&& (trace[i].0 is Initialize ==> ((a is ConnectOpenAI) <==> p == TTSProvider::OpenAI)
                    && (p == TTSProvider::Sonata ==> a is Idle))
                &&& (trace[i].0 matches SpeechCommand::SendMessage(m) ==> (p == TTSProvider::Sonata
                    ==> a == SpeechAction::RunSonata(m)) && (p == TTSProvider::OpenAI ==> (a is SendToOpenAI
                    || a is ReportNotConnected)))
                &&& ((a is Shutdown) <==> trace[i].0 is Close)
            },
    decreases trace.len(),
{
    if trace.len() > 0 {
        let t = trace.drop_last();
        lemma_speech_queue(s0, t);
        let last = trace.len() - 1;
        assert(trace[last] == trace.last());
        assert forall|i: int| 0 <= i <= t.len() implies #[trigger] trace.take(i) == t.take(i) by {
            assert(trace.take(i) =~= t.take(i));
        }
        assert(trace.take(last) =~= t);
        assert forall|i: int| 0 <= i < t.len() implies #[trigger] trace[i] == t[i] by {}
        let sp = run_session(s0, t);
        if sp.closed() {
            let w = choose|w: int| 0 <= w < t.len() && (#[trigger] t[w]).0 is Close;
            assert(trace[w] == t[w]);
            assert forall|i: int|
                0 <= i < trace.len() && (#[trigger] trace[i]).0 is Close && (forall|j: int|
                    0 <= j < i ==> !(trace[j].0 is Close)) implies run_actions(s0, trace).len() == i + 1 by {
                if i == last {
                    assert(!(trace[w].0 is Close));
                } else {
                    assert(t[i] == trace[i]);
                    assert forall|j: int| 0 <= j < i implies !(t[j].0 is Close) by {
                        assert(t[j] == trace[j]);
                    }
                }
            }
            assert forall|i: int| 0 <= i < run_actions(s0, trace).len() implies {
                let p = latest_provider(s0.provider(), trace.take(i));
                let a = #[trigger] run_actions(s0, trace)[i];
                &&& a == action_for(run_session(s0, trace.take(i)), trace[i].0)
                &&& (trace[i].0 is Initialize ==> ((a is ConnectOpenAI) <==> p == TTSProvider::OpenAI)
                    && (p == TTSProvider::Sonata ==> a is Idle))
                &&& (trace[i].0 matches SpeechCommand::SendMessage(m) ==> (p == TTSProvider::Sonata
                    ==> a == SpeechAction::RunSonata(m)) && (p == TTSProvider::OpenAI ==> (a is SendToOpenAI
                    || a is ReportNotConnected)))
                &&& ((a is Shutdown) <==> trace[i].0 is Close)
            } by {
                assert(run_actions(s0, trace)[i] == run_actions(s0, t)[i]);
                assert(trace.take(i) == t.take(i));
                assert(trace[i] == t[i]);
            }
        } else {
            let c = trace.last().0;
            assert(forall|i: int| 0 <= i < t.len() ==> !((#[trigger] t[i]).0 is Close));
            assert forall|i: int|
                0 <= i < trace.len() && (#[trigger] trace[i]).0 is Close && (forall|j: int|
                    0 <= j < i ==> !(trace[j].0 is Close)) implies run_actions(s0, trace).len() == i + 1 by {
                if i < last {
                    assert(t[i] == trace[i]);
                }
            }
            if c is Close {
                assert(trace[last].0 is Close);
            } else {
                assert forall|i: int| 0 <= i < trace.len() implies !((#[trigger] trace[i]).0 is Close) by {
                    if i < last {
                        assert(t[i] == trace[i]);
                    }
                }
            }
            assert forall|i: int| 0 <= i < run_actions(s0, trace).len() implies {
                let p = latest_provider(s0.provider(), trace.take(i));
                let a = #[trigger] run_actions(s0, trace)[i];
                &&& a == action_for(run_session(s0, trace.take(i)), trace[i].0)
                &&& (trace[i].0 is Initialize ==> ((a is ConnectOpenAI) <==> p == TTSProvider::OpenAI)
                    && (p == TTSProvider::Sonata ==> a is Idle))
                &&& (trace[i].0 matches SpeechCommand::SendMessage(m) ==> (p == TTSProvider::Sonata
                    ==> a == SpeechAction::RunSonata(m)) && (p == TTSProvider::OpenAI ==> (a is SendToOpenAI
                    || a is ReportNotConnected)))
                &&& ((a is Shutdown) <==> trace[i].0 is Close)
            } by {
                if i < last {
                    assert(run_actions(s0, trace)[i] == run_actions(s0, t)[i]);
                    assert(trace.take(i) == t.take(i));
                    assert(trace[i] == t[i]);
                } else {
                    assert(run_actions(s0, trace)[i] == action_for(sp, c));
                }
            }
        }
    }
}

} // verus!
