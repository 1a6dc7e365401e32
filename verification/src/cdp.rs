//! The browser backend: its configuration and its connection.

use vstd::prelude::*;

use crate::chrome::{asked_enough, chosen_binary, resolve_chrome_binary, usual_places, Platform};
use crate::connect::{
    after_answers, connection, law_connection_has_both_domains, resolve_endpoint,
    ConnectAnswerView, ConnectStep, ConnectStepView,
};
use crate::json::Json;
use crate::reply::{read_result_text, result_text};
use crate::session::CdpSession;
use crate::text::{optional_str, optional_text};

verus! {

/// Connection mode for the CDP backend.
#[derive(Debug, Clone)]
pub enum CdpMode {
    /// Rove spawns Chrome headlessly and owns the process.
    ManagedLocal,
    /// Connect to an already-running Chrome via its CDP port.
    AttachExisting,
    /// Connect to a remote CDP WebSocket endpoint.
    RemoteCdp,
}

/// Configuration for a CDP backend instance.
#[derive(Debug, Clone)]
pub struct CdpConfig {
    pub mode: CdpMode,
    /// CDP URL (required for RemoteCdp, optional for AttachExisting).
    pub cdp_url: Option<String>,
    /// Override path to Chrome binary.
    pub browser: Option<String>,
    /// Chrome user data directory.
    pub user_data_dir: Option<String>,
    /// URL to open on launch.
    pub startup_url: Option<String>,
}

/// The content of a `CdpConfig`.
pub struct CdpConfigView {
    pub mode: CdpMode,
    pub cdp_url: Option<Seq<char>>,
    pub browser: Option<Seq<char>>,
    pub user_data_dir: Option<Seq<char>>,
    pub startup_url: Option<Seq<char>>,
}

impl View for CdpConfig {
    type V = CdpConfigView;

    open spec fn view(&self) -> CdpConfigView {
        CdpConfigView {
            mode: self.mode,
            cdp_url: optional_text(self.cdp_url),
            browser: optional_text(self.browser),
            user_data_dir: optional_text(self.user_data_dir),
            startup_url: optional_text(self.startup_url),
        }
    }
}

/// Chrome DevTools Protocol browser backend.
#[derive(Debug)]
pub struct CdpBackend {
    pub config: CdpConfig,
    /// The calling side of the connection, once it stands.
    pub session: Option<CdpSession>,
}

impl CdpBackend {
    /// A backend that is not connected yet.
    pub fn new(config: CdpConfig) -> (backend: CdpBackend)
        ensures
            backend.config == config,
            backend.session is None,
    {
        CdpBackend { config, session: None }
    }

    /// The name of the backend.
    pub fn backend_name(&self) -> (name: &'static str)
        ensures
            name@ == "Chrome CDP"@,
    {
        "Chrome CDP"
    }

    /// Whether the connection stands.
    pub fn is_connected(&self) -> (connected: bool)
        ensures
            connected == (self.session is Some),
    {
        self.session.is_some()
    }

    /// The first step towards a connection; nothing is left to do where it
    /// stands already. A managed browser is looked for first: whatever the file
    /// system answers, the step is the one that follows from those answers.
    pub fn ensure_connected(&self, platform: Platform, default_dir: &str) -> (step: ConnectStep)
        ensures
            step@.wf(),
            self.session is Some ==> step@ == (ConnectStepView::Done { outcome: Ok(()) }),
            self.session is None && !(self.config.mode is ManagedLocal) ==> step@ == connection(
                self.config@,
                None,
                default_dir@,
            ),
            self.session is None && self.config.mode is ManagedLocal ==> exists|
                there: bool,
                answers: Seq<bool>,
            |
                asked_enough(
                    self.config@.browser,
                    there,
                    usual_places(platform),
                    answers,
                ) && step@ == connection(
                    self.config@,
                    #[trigger] chosen_binary(
                        self.config@.browser,
                        there,
                        usual_places(platform),
                        answers,
                    ),
                    default_dir@,
                ),
    {
        if self.session.is_some() {
            return ConnectStep::Done { outcome: Ok(()) };
        }
        let binary = match self.config.mode {
            CdpMode::ManagedLocal => match &self.config.browser {
                Some(path) => resolve_chrome_binary(Some(path.as_str()), platform),
                None => resolve_chrome_binary(None, platform),
            },
            _ => None,
        };
        resolve_endpoint(&self.config, binary, default_dir)
    }

    /// Takes over a connection that stands.
    pub fn attach(&mut self, session: CdpSession)
        ensures
            final(self).session == Some(session),
            final(self).config == old(self).config,
    {
        self.session = Some(session);
    }

    /// Takes note of how getting connected ended: well, and the backend is
    /// connected from now on, or not. A connection that stands already stays as
    /// it is.
    pub fn conclude(&mut self, outcome: &Result<(), String>, session: CdpSession)
        ensures
            final(self).config == old(self).config,
            final(self).session == if old(self).session is None && outcome is Ok {
                Some(session)
            } else {
                old(self).session
            },
    {
        if self.session.is_none() && outcome.is_ok() {
            self.attach(session);
        }
    }
}

/// A call on a backend: what its connecting finds and is answered, and what it
/// comes to.
pub struct BackendCall {
    /// The binary of the browser, where it was looked for and found.
    pub binary: Option<Seq<char>>,
    /// The user data directory where the configuration names none.
    pub default_dir: Seq<char>,
    /// The answers to the steps of getting connected.
    pub answers: Seq<ConnectAnswerView>,
    /// The outcome of the call.
    pub outcome: Result<Seq<char>, Seq<char>>,
}

/// The connecting of a call ends well.
pub open spec fn gets_through(config: CdpConfigView, call: BackendCall) -> bool {
    after_answers(connection(config, call.binary, call.default_dir), call.answers) matches Some(
        ConnectStepView::Done { outcome: Ok(_) },
    )
}

/// Whether a backend with the configuration is connected after the calls: a
/// backend that is connected stays so, and one that is not is connected by a
/// call whose connecting ends well.
pub open spec fn connected_after(config: CdpConfigView, calls: Seq<BackendCall>) -> bool
    decreases calls.len(),
{
    if calls.len() == 0 {
        false
    } else {
        connected_after(config, calls.drop_last()) || gets_through(config, calls.last())
    }
}

/// A connecting that ends well has opened the WebSocket and then switched both
/// domains on.
proof fn lemma_getting_through(config: CdpConfigView, call: BackendCall)
    requires
        gets_through(config, call),
    ensures
        ({
            let n = call.answers.len() as int;
            &&& n >= 3
            &&& call.answers[n - 3] == ConnectAnswerView::Opened(true)
            &&& call.answers[n - 2] matches ConnectAnswerView::Called(Ok(_))
            &&& call.answers[n - 1] matches ConnectAnswerView::Called(Ok(_))
        }),
{
    let first = connection(config, call.binary, call.default_dir);
    let all = call.answers;
    let switched = all.drop_last();
    let opened = switched.drop_last();
    let before = opened.drop_last();
    if all.len() > 0 {
        if let Some(step) = after_answers(first, switched) {
            law_connection_has_both_domains(step, all.last());
        }
    }
    if switched.len() > 0 {
        if let Some(step) = after_answers(first, opened) {
            law_connection_has_both_domains(step, switched.last());
        }
    }
    if opened.len() > 0 {
        if let Some(step) = after_answers(first, before) {
            law_connection_has_both_domains(step, opened.last());
        }
    }
}

/// After any calls a new backend is connected exactly if the connecting of one
/// of them ended well: the WebSocket was opened and both domains were switched
/// on. Once connected it stays so, whatever the later calls come to.
pub proof fn law_connected_since_connecting_ended_well(
    config: CdpConfigView,
    calls: Seq<BackendCall>,
    more: Seq<BackendCall>,
)
    ensures
        connected_after(config, calls) <==> exists|i: int|
            0 <= i < calls.len() && #[trigger] gets_through(config, calls[i]),
        connected_after(config, calls) ==> connected_after(config, calls + more),
        forall|call: BackendCall| #[trigger]
            gets_through(config, call) ==> {
                let n = call.answers.len() as int;
                &&& n >= 3
                &&& call.answers[n - 3] == ConnectAnswerView::Opened(true)
                &&& call.answers[n - 2] matches ConnectAnswerView::Called(Ok(_))
                &&& call.answers[n - 1] matches ConnectAnswerView::Called(Ok(_))
            },
    decreases calls.len() + more.len(),
{
    if calls.len() > 0 {
        let before = calls.drop_last();
        law_connected_since_connecting_ended_well(config, before, Seq::empty());
        if connected_after(config, before) {
            let i = choose|i: int|
                0 <= i < before.len() && #[trigger] gets_through(config, before[i]);
            assert(gets_through(config, calls[i]));
        }
        if gets_through(config, calls.last()) {
            assert(gets_through(config, calls[calls.len() - 1]));
        }
        if exists|i: int| 0 <= i < calls.len() && #[trigger] gets_through(config, calls[i]) {
            let i = choose|i: int|
                0 <= i < calls.len() && #[trigger] gets_through(config, calls[i]);
            if i < before.len() {
                assert(gets_through(config, before[i]));
            }
        }
    }
    if more.len() > 0 {
        law_connected_since_connecting_ended_well(config, calls, more.drop_last());
        assert((calls + more).drop_last() == calls + more.drop_last());
    } else {
        assert(calls + more == calls);
    }
    assert forall|call: BackendCall| #[trigger] gets_through(config, call) implies ({
        let n = call.answers.len() as int;
        &&& n >= 3
        &&& call.answers[n - 3] == ConnectAnswerView::Opened(true)
        &&& call.answers[n - 2] matches ConnectAnswerView::Called(Ok(_))
        &&& call.answers[n - 1] matches ConnectAnswerView::Called(Ok(_))
    }) by {
        lemma_getting_through(config, call);
    }
}

/// The text that a script returned, read from the reply to its evaluation.
pub fn extract_string_value(res: &Json) -> (text: Option<&str>)
    ensures
        optional_str(text) == result_text(res@),
{
    read_result_text(res)
}

/// How far the page says that it is loaded.
pub fn ready_state_value(res: &Json) -> (state: Option<&str>)
    ensures
        optional_str(state) == result_text(res@),
{
    extract_string_value(res)
}

} // verus!
