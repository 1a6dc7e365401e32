//! What getting connected comes to: which browser is started how, which address
//! is asked, which page is taken.

use vstd::prelude::*;

use crate::cdp::CdpConfigView;
use crate::connect::{
    after_answer, after_answers, connection, first_page, http_base, is_socket,
    law_first_page_is_taken, managed_address, new_page, page_socket, reaching, ConnectAnswerView,
    ConnectStepView, Domain, FetchedView,
};
use crate::json::{json_parsed, JsonView};
use crate::step::Dialect;
use crate::text::{
    decimal, digit, found_at, law_first_match_is_replaced, law_replacing_nothing_changes_nothing,
    law_trimming_takes_the_last_run, occurs_in,
};

verus! {

proof fn lemma_port_is_written()
    ensures
        decimal(9222) == "9222"@,
{
    reveal_strlit("9222");
    reveal_with_fuel(decimal, 4);
    assert(digit(9) == '9' && digit(2) == '2');
    assert(decimal(9) == seq!['9']);
    assert(decimal(92) == seq!['9', '2']);
    assert(decimal(922) == seq!['9', '2', '2']);
    assert(decimal(9222) == seq!['9', '2', '2', '2']);
    assert("9222"@ == seq!['9', '2', '2', '2']);
}

/// A managed browser is started from the binary that was found, without a
/// window, on the port where it is then looked for, with the user data directory
/// of the configuration or, only where that names none, the default one, and
/// with the start page of the configuration behind all else.
pub proof fn law_managed_browser_is_started_as_configured(
    config: CdpConfigView,
    binary: Seq<char>,
    default_dir: Seq<char>,
)
    requires
        config.mode is ManagedLocal,
    ensures
        connection(config, Some(binary), default_dir) matches ConnectStepView::Spawn {
            binary: started,
            args,
        } && {
            &&& started == binary
            &&& args.len() == (if config.startup_url is Some {
                7int
            } else {
                6
            })
            &&& args[0] == "--remote-debugging-port=9222"@
            &&& args[1] == "--headless=new"@
            &&& args[2] == "--no-sandbox"@
            &&& args[3] == "--disable-gpu"@
            &&& args[4] == "--disable-dev-shm-usage"@
            &&& config.user_data_dir matches Some(dir) ==> args[5] == "--user-data-dir="@ + dir
            &&& config.user_data_dir is None ==> args[5] == "--user-data-dir="@ + default_dir
            &&& config.startup_url matches Some(url) ==> args[6] == url
        },
        connection(config, None, default_dir) == (ConnectStepView::Done {
            outcome: Err(
                "Chrome/Chromium not found. Install Google Chrome or set the browser path in config."@,
            ),
        }),
{
    lemma_port_is_written();
    reveal_strlit("9222");
    reveal_strlit("--remote-debugging-port=");
    reveal_strlit("--remote-debugging-port=9222");
    assert("--remote-debugging-port="@ + "9222"@ == "--remote-debugging-port=9222"@);
}

/// An endpoint is a WebSocket if it begins as one.
pub open spec fn begins_as_socket(endpoint: Seq<char>) -> bool {
    (endpoint.len() >= 5 && endpoint.take(5) == seq!['w', 's', ':', '/', '/']) || (endpoint.len()
        >= 6 && endpoint.take(6) == seq!['w', 's', 's', ':', '/', '/'])
}

proof fn lemma_begins_as_socket(endpoint: Seq<char>)
    ensures
        is_socket(endpoint) == begins_as_socket(endpoint),
{
    reveal_strlit("ws://");
    reveal_strlit("wss://");
    assert("ws://"@ == seq!['w', 's', ':', '/', '/']);
    assert("wss://"@ == seq!['w', 's', 's', ':', '/', '/']);
    assert(endpoint.len() >= 5 ==> endpoint.subrange(0, 5) == endpoint.take(5));
    assert(endpoint.len() >= 6 ==> endpoint.subrange(0, 6) == endpoint.take(6));
}

/// In the other modes the address of the configuration is used: one that begins
/// as a WebSocket is opened as it is, any other is asked for its targets. Where
/// there is none, an existing browser is looked for at its usual port, and a
/// remote one is an error.
pub proof fn law_configured_address_is_used(
    config: CdpConfigView,
    binary: Option<Seq<char>>,
    default_dir: Seq<char>,
)
    requires
        !(config.mode is ManagedLocal),
    ensures
        config.cdp_url matches Some(url) ==> {
            &&& begins_as_socket(url) ==> connection(config, binary, default_dir) == (
            ConnectStepView::Open { dialect: Dialect::Backend, ws_url: url })
            &&& !begins_as_socket(url) ==> connection(config, binary, default_dir) == (
            ConnectStepView::ListTargets { url: http_base(url) + "/json/list"@, endpoint: url })
        },
        config.cdp_url is None && config.mode is AttachExisting ==> connection(
            config,
            binary,
            default_dir,
        ) == (ConnectStepView::ListTargets {
            url: "http://127.0.0.1:9222/json/list"@,
            endpoint: "http://127.0.0.1:9222"@,
        }),
        config.cdp_url is None && config.mode is RemoteCdp ==> connection(
            config,
            binary,
            default_dir,
        ) == (ConnectStepView::Done { outcome: Err("RemoteCdp mode requires a cdp_url"@) }),
{
    if let Some(url) = config.cdp_url {
        lemma_begins_as_socket(url);
    }
    lemma_usual_address();
}

/// An address without a WebSocket in it is asked as it is, but for slashes at
/// its end.
pub proof fn law_plain_address_loses_only_its_slashes(address: Seq<char>, slashes: nat)
    requires
        address.len() > 0 ==> address.last() != '/',
        !occurs_in(address + Seq::new(slashes, |i: int| '/'), "ws://"@),
        !occurs_in(address + Seq::new(slashes, |i: int| '/'), "wss://"@),
    ensures
        http_base(address + Seq::new(slashes, |i: int| '/')) == address,
{
    let whole = address + Seq::new(slashes, |i: int| '/');
    law_replacing_nothing_changes_nothing(whole, "ws://"@, "http://"@);
    law_replacing_nothing_changes_nothing(whole, "wss://"@, "https://"@);
    law_trimming_takes_the_last_run(address, '/', slashes);
}

/// A WebSocket inside an address is asked over HTTP.
pub proof fn law_socket_inside_is_asked_over_http(before: Seq<char>, after: Seq<char>)
    requires
        forall|at: int| 0 <= at < before.len() ==> !found_at(before + "ws://"@ + after, "ws://"@, at),
        !occurs_in(after, "ws://"@),
        !occurs_in(before + "http://"@ + after, "wss://"@),
        after.len() > 0 && after.last() != '/',
    ensures
        http_base(before + "ws://"@ + after) == before + "http://"@ + after,
{
    reveal_strlit("ws://");
    law_first_match_is_replaced(before, after, "ws://"@, "http://"@);
    law_replacing_nothing_changes_nothing(after, "ws://"@, "http://"@);
    let plain = before + "http://"@ + after;
    law_replacing_nothing_changes_nothing(plain, "wss://"@, "https://"@);
    law_trimming_takes_the_last_run(plain, '/', 0);
    assert(plain + Seq::new(0, |i: int| '/') == plain);
}

/// The same for a WebSocket over TLS.
pub proof fn law_secure_socket_inside_is_asked_over_https(before: Seq<char>, after: Seq<char>)
    requires
        !occurs_in(before + "wss://"@ + after, "ws://"@),
        forall|at: int|
            0 <= at < before.len() ==> !found_at(before + "wss://"@ + after, "wss://"@, at),
        !occurs_in(after, "wss://"@),
        after.len() > 0 && after.last() != '/',
    ensures
        http_base(before + "wss://"@ + after) == before + "https://"@ + after,
{
    reveal_strlit("wss://");
    law_replacing_nothing_changes_nothing(before + "wss://"@ + after, "ws://"@, "http://"@);
    law_first_match_is_replaced(before, after, "wss://"@, "https://"@);
    law_replacing_nothing_changes_nothing(after, "wss://"@, "https://"@);
    let plain = before + "https://"@ + after;
    law_trimming_takes_the_last_run(plain, '/', 0);
    assert(plain + Seq::new(0, |i: int| '/') == plain);
}

proof fn lemma_usual_address()
    ensures
        managed_address() == "http://127.0.0.1:9222"@,
        reaching("http://127.0.0.1:9222"@) == (ConnectStepView::ListTargets {
            url: "http://127.0.0.1:9222/json/list"@,
            endpoint: "http://127.0.0.1:9222"@,
        }),
{
    let address = "http://127.0.0.1:9222"@;
    lemma_port_is_written();
    reveal_strlit("9222");
    reveal_strlit("http://127.0.0.1:");
    reveal_strlit("http://127.0.0.1:9222");
    reveal_strlit("ws://");
    reveal_strlit("wss://");
    reveal_strlit("/json/list");
    reveal_strlit("http://127.0.0.1:9222/json/list");
    assert(managed_address() == address);
    assert forall|i: int| 0 <= i < address.len() implies address[i] != 'w' by {}
    assert forall|at: int| !found_at(address, "ws://"@, at) by {
        if found_at(address, "ws://"@, at) {
            assert(address.subrange(at, at + "ws://"@.len())[0] == 'w');
            assert(address[at] == 'w');
        }
    }
    assert forall|at: int| !found_at(address, "wss://"@, at) by {
        if found_at(address, "wss://"@, at) {
            assert(address.subrange(at, at + "wss://"@.len())[0] == 'w');
            assert(address[at] == 'w');
        }
    }
    assert(address + Seq::new(0, |i: int| '/') == address);
    law_plain_address_loses_only_its_slashes(address, 0);
    assert(address + "/json/list"@ == "http://127.0.0.1:9222/json/list"@);
}

/// A browser that was started is asked every fifth of a second whether it
/// listens, at the usual port; when it does, it is asked for its targets.
pub proof fn law_started_browser_is_asked_whether_it_listens(
    binary: Seq<char>,
    args: Seq<Seq<char>>,
    url: Seq<char>,
    millis: u64,
    probes: u32,
)
    requires
        probes < 25,
    ensures
        after_answer(ConnectStepView::Spawn { binary, args }, ConnectAnswerView::Spawned(true))
            == Some(ConnectStepView::Pause { millis: 200, probes: 0 }),
        after_answer(ConnectStepView::Spawn { binary, args }, ConnectAnswerView::Spawned(false))
            == Some(
            ConnectStepView::Done { outcome: Err("Failed to spawn Chrome at "@ + binary) },
        ),
        after_answer(ConnectStepView::Pause { millis, probes }, ConnectAnswerView::Rested) == Some(
            ConnectStepView::Probe { url: "http://127.0.0.1:9222/json/version"@, probes },
        ),
        after_answer(ConnectStepView::Probe { url, probes }, ConnectAnswerView::Probed(true))
            == Some(
            ConnectStepView::ListTargets {
                url: "http://127.0.0.1:9222/json/list"@,
                endpoint: "http://127.0.0.1:9222"@,
            },
        ),
        probes < 24 ==> after_answer(
            ConnectStepView::Probe { url, probes },
            ConnectAnswerView::Probed(false),
        ) == Some(ConnectStepView::Pause { millis: 200, probes: (probes + 1) as u32 }),
        probes == 24 ==> after_answer(
            ConnectStepView::Probe { url, probes },
            ConnectAnswerView::Probed(false),
        ) == Some(
            ConnectStepView::Done {
                outcome: Err("Chrome did not respond on port 9222 within 5 seconds"@),
            },
        ),
{
    lemma_usual_address();
    lemma_port_is_written();
    reveal_strlit("http://127.0.0.1:9222");
    reveal_strlit("/json/version");
    reveal_strlit("http://127.0.0.1:9222/json/version");
    assert("http://127.0.0.1:9222"@ + "/json/version"@ == "http://127.0.0.1:9222/json/version"@);
    reveal_strlit("9222");
    reveal_strlit("Chrome did not respond on port ");
    reveal_strlit(" within 5 seconds");
    reveal_strlit("Chrome did not respond on port 9222 within 5 seconds");
    assert("Chrome did not respond on port "@ + "9222"@ + " within 5 seconds"@
        == "Chrome did not respond on port 9222 within 5 seconds"@);
}

/// The answers of a browser that stays silent: so many pauses, each with a probe
/// that fails.
pub open spec fn silence(probes: nat) -> Seq<ConnectAnswerView>
    decreases probes,
{
    if probes == 0 {
        seq![]
    } else {
        silence((probes - 1) as nat).push(ConnectAnswerView::Rested).push(
            ConnectAnswerView::Probed(false),
        )
    }
}

/// A browser that was started and stays silent is given up after exactly
/// twenty-five probes, that is after five seconds of pauses, and not before.
pub proof fn law_silent_browser_is_given_up(probes: nat)
    requires
        probes <= 25,
    ensures
        after_answers(
            ConnectStepView::Pause { millis: 200, probes: 0 },
            silence(probes),
        ) == Some(
            if probes < 25 {
                ConnectStepView::Pause { millis: 200, probes: probes as u32 }
            } else {
                ConnectStepView::Done {
                    outcome: Err("Chrome did not respond on port 9222 within 5 seconds"@),
                }
            },
        ),
    decreases probes,
{
    let start = ConnectStepView::Pause { millis: 200, probes: 0 };
    if probes > 0 {
        let fewer = (probes - 1) as nat;
        law_silent_browser_is_given_up(fewer);
        let rested = silence(fewer).push(ConnectAnswerView::Rested);
        assert(rested.drop_last() == silence(fewer));
        assert(silence(probes).drop_last() == rested);
        assert(silence(probes).last() == ConnectAnswerView::Probed(false));
        law_started_browser_is_asked_whether_it_listens(
            Seq::empty(),
            Seq::empty(),
            "http://127.0.0.1:9222/json/version"@,
            200,
            fewer as u32,
        );
        assert(after_answers(start, rested) == Some(
            ConnectStepView::Probe {
                url: "http://127.0.0.1:9222/json/version"@,
                probes: fewer as u32,
            },
        ));
    }
}

/// A target is a page that says where its WebSocket is.
pub open spec fn is_page_at(target: JsonView, ws_url: Seq<char>) -> bool {
    target.get("type"@) == Some(JsonView::Str("page"@)) && target.get("webSocketDebuggerUrl"@)
        == Some(JsonView::Str(ws_url))
}

/// From the list of targets the first page that says where its WebSocket is, is
/// opened there, exactly; where the list has none, or is none, a new page is
/// asked for.
pub proof fn law_first_listed_page_is_opened(
    url: Seq<char>,
    endpoint: Seq<char>,
    text: Seq<char>,
    targets: Seq<JsonView>,
    at: int,
    ws_url: Seq<char>,
)
    requires
        json_parsed(text) == Ok::<JsonView, Seq<char>>(JsonView::Array(targets)),
    ensures
        0 <= at < targets.len() && is_page_at(targets[at], ws_url) && (forall|i: int, other: Seq<
            char,
        >|
            0 <= i < at ==> !#[trigger] is_page_at(targets[i], other)) ==> after_answer(
            ConnectStepView::ListTargets { url, endpoint },
            ConnectAnswerView::Fetched(FetchedView::Text(text)),
        ) == Some(ConnectStepView::Open { dialect: Dialect::Backend, ws_url }),
        (forall|i: int, other: Seq<char>|
            0 <= i < targets.len() ==> !#[trigger] is_page_at(targets[i], other)) ==> after_answer(
            ConnectStepView::ListTargets { url, endpoint },
            ConnectAnswerView::Fetched(FetchedView::Text(text)),
        ) == Some(
            ConnectStepView::NewTarget { url: http_base(endpoint) + "/json/new"@, endpoint },
        ),
{
    law_first_page_is_taken(targets);
    assert forall|i: int, other: Seq<char>| 0 <= i < targets.len() implies (page_socket(
        targets[i],
    ) == Some(other)) == #[trigger] is_page_at(targets[i], other) by {}
    if let Some(found) = first_page(targets) {
        let i = choose|i: int|
            0 <= i < targets.len() && #[trigger] page_socket(targets[i]) == Some(found) && (forall|
                k: int,
            |
                0 <= k < i ==> #[trigger] page_socket(targets[k]) is None);
        assert(is_page_at(targets[i], found));
        if 0 <= at < targets.len() && is_page_at(targets[at], ws_url) {
            assert(page_socket(targets[at]) == Some(ws_url));
        }
    } else {
        if 0 <= at < targets.len() && is_page_at(targets[at], ws_url) {
            assert(page_socket(targets[at]) == Some(ws_url));
        }
    }
}

/// A list that cannot be had or is none leads to a new page, which is opened
/// where its description says, exactly. A page that cannot be had is an error
/// that names the endpoint.
pub proof fn law_new_page_is_opened_where_it_says(
    url: Seq<char>,
    endpoint: Seq<char>,
    text: Seq<char>,
    document: JsonView,
    ws_url: Seq<char>,
    fetched: FetchedView,
)
    ensures
        ({
            let list = ConnectStepView::ListTargets { url, endpoint };
            let page = ConnectStepView::NewTarget { url, endpoint };
            let new = ConnectStepView::NewTarget {
                url: http_base(endpoint) + "/json/new"@,
                endpoint,
            };
            let lost = ConnectStepView::Done {
                outcome: Err("Failed to get page WebSocket URL from "@ + endpoint),
            };
            let got = ConnectAnswerView::Fetched(FetchedView::Text(text));
            &&& !(fetched is Text) ==> after_answer(
                list,
                ConnectAnswerView::Fetched(fetched),
            ) == Some(new)
            &&& json_parsed(text) is Err ==> after_answer(list, got) == Some(new)
            &&& json_parsed(text) == Ok::<JsonView, Seq<char>>(document) && !(document is Array)
                ==> after_answer(list, got) == Some(new)
            &&& !(fetched is Text) ==> after_answer(
                page,
                ConnectAnswerView::Fetched(fetched),
            ) == Some(lost)
            &&& json_parsed(text) is Err ==> after_answer(page, got) == Some(lost)
            &&& json_parsed(text) == Ok::<JsonView, Seq<char>>(document) && document.get(
                "webSocketDebuggerUrl"@,
            ) == Some(JsonView::Str(ws_url)) ==> after_answer(page, got) == Some(
                ConnectStepView::Open { dialect: Dialect::Backend, ws_url },
            )
            &&& json_parsed(text) == Ok::<JsonView, Seq<char>>(document) && !(document.get(
                "webSocketDebuggerUrl"@,
            ) matches Some(JsonView::Str(_))) ==> after_answer(page, got) == Some(lost)
        }),
        new_page(url, FetchedView::Unreachable) == Err::<Seq<char>, Seq<char>>(
            "GET "@ + url + " failed — is Chrome running?"@,
        ),
        new_page(url, FetchedView::Unreadable) == Err::<Seq<char>, Seq<char>>(
            "Invalid /json/new response"@,
        ),
        json_parsed(text) is Err ==> new_page(url, FetchedView::Text(text)) == Err::<
            Seq<char>,
            Seq<char>,
        >("Invalid /json/new response"@),
        json_parsed(text) == Ok::<JsonView, Seq<char>>(document) && document.get(
            "webSocketDebuggerUrl"@,
        ) is None ==> new_page(url, FetchedView::Text(text)) == Err::<Seq<char>, Seq<char>>(
            "webSocketDebuggerUrl missing in /json/new response"@,
        ),
{
}

/// Behind an open WebSocket the page's events are switched on, then the
/// runtime's, and then the connection stands. What fails is told: by the
/// backend in its own words, on a session in the words of the call.
pub proof fn law_open_socket_gets_both_domains(
    dialect: Dialect,
    ws_url: Seq<char>,
    message: Seq<char>,
)
    ensures
        after_answer(
            ConnectStepView::Open { dialect, ws_url },
            ConnectAnswerView::Opened(true),
        ) == Some(ConnectStepView::Enable { dialect, domain: Domain::Page }),
        after_answer(
            ConnectStepView::Open { dialect, ws_url },
            ConnectAnswerView::Opened(false),
        ) == Some(
            ConnectStepView::Done {
                outcome: Err("Failed to connect CDP WebSocket at "@ + ws_url),
            },
        ),
        after_answer(
            ConnectStepView::Enable { dialect, domain: Domain::Page },
            ConnectAnswerView::Called(Ok(())),
        ) == Some(ConnectStepView::Enable { dialect, domain: Domain::Runtime }),
        after_answer(
            ConnectStepView::Enable { dialect, domain: Domain::Runtime },
            ConnectAnswerView::Called(Ok(())),
        ) == Some(ConnectStepView::Done { outcome: Ok(()) }),
        after_answer(
            ConnectStepView::Enable { dialect: Dialect::Backend, domain: Domain::Page },
            ConnectAnswerView::Called(Err(message)),
        ) == Some(ConnectStepView::Done { outcome: Err("Page.enable failed"@) }),
        after_answer(
            ConnectStepView::Enable { dialect: Dialect::Backend, domain: Domain::Runtime },
            ConnectAnswerView::Called(Err(message)),
        ) == Some(ConnectStepView::Done { outcome: Err("Runtime.enable failed"@) }),
        forall|domain: Domain|
            #![trigger crate::connect::enable_method(domain)]
            after_answer(
                ConnectStepView::Enable { dialect: Dialect::Session, domain },
                ConnectAnswerView::Called(Err(message)),
            ) == Some(ConnectStepView::Done { outcome: Err(message) }),
        crate::connect::enable_method(Domain::Page) == "Page.enable"@,
        crate::connect::enable_method(Domain::Runtime) == "Runtime.enable"@,
{
    reveal_strlit("Page.enable");
    reveal_strlit("Runtime.enable");
    reveal_strlit(" failed");
    reveal_strlit("Page.enable failed");
    reveal_strlit("Runtime.enable failed");
    assert("Page.enable"@ + " failed"@ == "Page.enable failed"@);
    assert("Runtime.enable"@ + " failed"@ == "Runtime.enable failed"@);
}

} // verus!
