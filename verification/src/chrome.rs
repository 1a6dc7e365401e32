//! Chrome on this machine: where its binary is found and how it is started.

use vstd::prelude::*;

use crate::text::{decimal, decimal_text, optional_str, optional_text, texts};

verus! {

/// The operating systems for which the usual places of the browser are known.
#[derive(Debug, Clone, Copy, PartialEq, Eq, Structural)]
pub enum Platform {
    MacOs,
    Linux,
    Windows,
    Other,
}

/// The port on which a managed browser listens for debuggers.
pub const DEBUG_PORT: u64 = 9222;

/// The usual places of the browser, the preferred first.
pub open spec fn usual_places(platform: Platform) -> Seq<Seq<char>> {
    match platform {
        Platform::MacOs => seq![
            "/Applications/Google Chrome.app/Contents/MacOS/Google Chrome"@,
            "/Applications/Chromium.app/Contents/MacOS/Chromium"@,
            "/Applications/Google Chrome Canary.app/Contents/MacOS/Google Chrome Canary"@,
        ],
        Platform::Linux => seq![
            "/usr/bin/google-chrome"@,
            "/usr/bin/google-chrome-stable"@,
            "/usr/bin/chromium-browser"@,
            "/usr/bin/chromium"@,
            "/usr/local/bin/google-chrome"@,
            "/snap/bin/chromium"@,
        ],
        Platform::Windows => seq![
            "C:\\Program Files\\Google\\Chrome\\Application\\chrome.exe"@,
            "C:\\Program Files (x86)\\Google\\Chrome\\Application\\chrome.exe"@,
        ],
        Platform::Other => seq![],
    }
}

/// The first place that was answered for with "there".
pub open spec fn first_there(places: Seq<Seq<char>>, answers: Seq<bool>) -> Option<Seq<char>>
    decreases places.len(),
{
    if places.len() == 0 || answers.len() == 0 {
        None
    } else if answers[0] {
        Some(places[0])
    } else {
        first_there(places.skip(1), answers.skip(1))
    }
}

/// The binary to start: the path from the configuration if it is there, else
/// the first of the usual places that is.
pub open spec fn chosen_binary(
    override_path: Option<Seq<char>>,
    override_there: bool,
    places: Seq<Seq<char>>,
    answers: Seq<bool>,
) -> Option<Seq<char>> {
    if override_path is Some && override_there {
        override_path
    } else {
        first_there(places, answers)
    }
}

/// Enough was asked to choose: the path from the configuration is there, or one
/// of the usual places is, or all of them were asked for.
pub open spec fn asked_enough(
    override_path: Option<Seq<char>>,
    override_there: bool,
    places: Seq<Seq<char>>,
    answers: Seq<bool>,
) -> bool {
    ||| override_path is Some && override_there
    ||| 0 < answers.len() <= places.len() && answers.last()
    ||| answers.len() == places.len()
}

/// Calls `Path::exists`, which asks the file system whether the path points at
/// an existing entity. The answer depends on the disk.
#[verifier::external_body]
fn path_exists(path: &str) -> (there: bool) {
    std::path::Path::new(path).exists()
}

/// The usual places of the browser.
fn list_usual_places(platform: Platform) -> (places: Vec<String>)
    ensures
        texts(places@) == usual_places(platform),
{
    let mut places: Vec<String> = Vec::new();
    match platform {
        Platform::MacOs => {
            places.push("/Applications/Google Chrome.app/Contents/MacOS/Google Chrome".to_owned());
            places.push("/Applications/Chromium.app/Contents/MacOS/Chromium".to_owned());
            places.push(
                "/Applications/Google Chrome Canary.app/Contents/MacOS/Google Chrome Canary".to_owned(),
            );
        },
        Platform::Linux => {
            places.push("/usr/bin/google-chrome".to_owned());
            places.push("/usr/bin/google-chrome-stable".to_owned());
            places.push("/usr/bin/chromium-browser".to_owned());
            places.push("/usr/bin/chromium".to_owned());
            places.push("/usr/local/bin/google-chrome".to_owned());
            places.push("/snap/bin/chromium".to_owned());
        },
        Platform::Windows => {
            places.push("C:\\Program Files\\Google\\Chrome\\Application\\chrome.exe".to_owned());
            places.push(
                "C:\\Program Files (x86)\\Google\\Chrome\\Application\\chrome.exe".to_owned(),
            );
        },
        Platform::Other => {},
    }
    assert(texts(places@) == usual_places(platform));
    places
}

/// Chooses the binary from what the file system answered: whether the path
/// from the configuration is there, and whether each of the usual places is. A
/// place without an answer counts as missing.
pub fn choose_binary(
    override_path: Option<&str>,
    override_there: bool,
    platform: Platform,
    answers: &Vec<bool>,
) -> (binary: Option<String>)
    ensures
        optional_text(binary) == chosen_binary(
            optional_str(override_path),
            override_there,
            usual_places(platform),
            answers@,
        ),
{
    if override_there {
        if let Some(path) = override_path {
            return Some(path.to_owned());
        }
    }
    let places = list_usual_places(platform);
    let ghost all = usual_places(platform);
    let mut i: usize = 0;
    assert(all.skip(0) == all);
    assert(answers@.skip(0) == answers@);
    while i < places.len() && i < answers.len()
        invariant
            i <= places@.len(),
            i <= answers@.len(),
            all == texts(places@),
            all == usual_places(platform),
            !(override_path is Some && override_there),
            first_there(all, answers@) == first_there(
                all.skip(i as int),
                answers@.skip(i as int),
            ),
        decreases places@.len() - i,
    {
        proof {
            assert(all.skip(i as int)[0] == places@[i as int]@);
            assert(answers@.skip(i as int)[0] == answers@[i as int]);
            assert(all.skip(i as int).skip(1) == all.skip(i + 1));
            assert(answers@.skip(i as int).skip(1) == answers@.skip(i + 1));
        }
        if answers[i] {
            return Some(places[i].clone());
        }
        i += 1;
    }
    None
}

/// Finds the browser's binary. Whatever the file system answers, the result is
/// the choice that `chosen_binary` makes from those answers.
pub fn resolve_chrome_binary(override_path: Option<&str>, platform: Platform) -> (binary: Option<
    String,
>)
    ensures
        exists|override_there: bool, answers: Seq<bool>|
            asked_enough(
                optional_str(override_path),
                override_there,
                usual_places(platform),
                answers,
            ) && optional_text(binary) == #[trigger] chosen_binary(
                optional_str(override_path),
                override_there,
                usual_places(platform),
                answers,
            ),
{
    let override_there = match override_path {
        Some(path) => path_exists(path),
        None => false,
    };
    let mut answers: Vec<bool> = Vec::new();
    if !override_there {
        let places = list_usual_places(platform);
        let mut found = false;
        while answers.len() < places.len() && !found
            invariant
                answers@.len() <= places@.len(),
                places@.len() == usual_places(platform).len(),
                found ==> answers@.len() > 0 && answers@.last(),
            decreases places@.len() - answers@.len(),
        {
            found = path_exists(places[answers.len()].as_str());
            answers.push(found);
        }
    }
    choose_binary(override_path, override_there, platform, &answers)
}

/// The arguments with which a managed browser is started.
pub open spec fn launch_arguments(user_data_dir: Seq<char>, startup_url: Option<Seq<char>>) -> Seq<
    Seq<char>,
> {
    let fixed = seq![
        "--remote-debugging-port="@ + decimal(9222),
        "--headless=new"@,
        "--no-sandbox"@,
        "--disable-gpu"@,
        "--disable-dev-shm-usage"@,
        "--user-data-dir="@ + user_data_dir,
    ];
    match startup_url {
        Some(url) => fixed.push(url),
        None => fixed,
    }
}

/// The arguments with which a managed browser is started.
pub fn launch_args(user_data_dir: &str, startup_url: Option<String>) -> (args: Vec<String>)
    ensures
        texts(args@) == launch_arguments(user_data_dir@, optional_text(startup_url)),
{
    let mut args: Vec<String> = Vec::new();
    args.push(
        "--remote-debugging-port=".to_owned().concat(decimal_text(DEBUG_PORT).as_str()),
    );
    args.push("--headless=new".to_owned());
    args.push("--no-sandbox".to_owned());
    args.push("--disable-gpu".to_owned());
    args.push("--disable-dev-shm-usage".to_owned());
    args.push("--user-data-dir=".to_owned().concat(user_data_dir));
    if let Some(url) = startup_url {
        args.push(url);
    }
    assert(texts(args@) == launch_arguments(user_data_dir@, optional_text(startup_url)));
    args
}

/// The binary that is chosen was answered for with "there": it is the path
/// from the configuration, or the first of the usual places that is there.
pub proof fn law_chosen_binary_is_there(
    override_path: Option<Seq<char>>,
    override_there: bool,
    places: Seq<Seq<char>>,
    answers: Seq<bool>,
)
    ensures
        match chosen_binary(override_path, override_there, places, answers) {
            Some(path) => (override_there && override_path == Some(path)) || exists|i: int|
                #![trigger answers[i]]
                0 <= i < places.len() && i < answers.len() && answers[i] && places[i] == path && (
                forall|k: int| 0 <= k < i ==> !answers[k]),
            None => !(override_path is Some && override_there) && forall|i: int|
                0 <= i < places.len() && i < answers.len() ==> !#[trigger] answers[i],
        },
{
    lemma_first_there(places, answers);
}

proof fn lemma_first_there(places: Seq<Seq<char>>, answers: Seq<bool>)
    ensures
        match first_there(places, answers) {
            Some(path) => exists|i: int|
                #![trigger answers[i]]
                0 <= i < places.len() && i < answers.len() && answers[i] && places[i] == path && (
                forall|k: int| 0 <= k < i ==> !answers[k]),
            None => forall|i: int|
                0 <= i < places.len() && i < answers.len() ==> !#[trigger] answers[i],
        },
    decreases places.len(),
{
    if places.len() > 0 && answers.len() > 0 && !answers[0] {
        lemma_first_there(places.skip(1), answers.skip(1));
        match first_there(places.skip(1), answers.skip(1)) {
            Some(path) => {
                let j = choose|j: int|
                    #![trigger answers.skip(1)[j]]
                    0 <= j < places.skip(1).len() && j < answers.skip(1).len() && answers.skip(1)[j]
                        && places.skip(1)[j] == path && (forall|k: int|
                        0 <= k < j ==> !answers.skip(1)[k]);
                assert(answers[j + 1] && places[j + 1] == path);
                assert forall|k: int| 0 <= k < j + 1 implies !answers[k] by {
                    if k > 0 {
                        assert(!answers.skip(1)[k - 1]);
                    }
                }
            },
            None => {
                assert forall|i: int|
                    0 <= i < places.len() && i < answers.len() implies !#[trigger] answers[i] by {
                    if i > 0 {
                        assert(!answers.skip(1)[i - 1]);
                    }
                }
            },
        }
    }
}

/// Where the browser is looked for on each system, the preferred place first.
pub proof fn law_usual_places_are_these()
    ensures
        usual_places(Platform::Linux).len() == 6,
        usual_places(Platform::Linux)[0] == "/usr/bin/google-chrome"@,
        usual_places(Platform::Linux)[1] == "/usr/bin/google-chrome-stable"@,
        usual_places(Platform::Linux)[2] == "/usr/bin/chromium-browser"@,
        usual_places(Platform::Linux)[3] == "/usr/bin/chromium"@,
        usual_places(Platform::Linux)[4] == "/usr/local/bin/google-chrome"@,
        usual_places(Platform::Linux)[5] == "/snap/bin/chromium"@,
        usual_places(Platform::MacOs).len() == 3,
        usual_places(Platform::MacOs)[0]
            == "/Applications/Google Chrome.app/Contents/MacOS/Google Chrome"@,
        usual_places(Platform::MacOs)[1] == "/Applications/Chromium.app/Contents/MacOS/Chromium"@,
        usual_places(Platform::MacOs)[2]
            == "/Applications/Google Chrome Canary.app/Contents/MacOS/Google Chrome Canary"@,
        usual_places(Platform::Windows).len() == 2,
        usual_places(Platform::Windows)[0]
            == "C:\\Program Files\\Google\\Chrome\\Application\\chrome.exe"@,
        usual_places(Platform::Windows)[1]
            == "C:\\Program Files (x86)\\Google\\Chrome\\Application\\chrome.exe"@,
        usual_places(Platform::Other).len() == 0,
{
}

/// A path from the configuration that is there is taken before all others; one
/// that is not there is never taken on its own account.
pub proof fn law_configured_path_comes_first(
    path: Seq<char>,
    there: bool,
    places: Seq<Seq<char>>,
    answers: Seq<bool>,
)
    ensures
        chosen_binary(Some(path), true, places, answers) == Some(path),
        chosen_binary(Some(path), false, places, answers) == chosen_binary(
            None,
            there,
            places,
            answers,
        ),
{
}

} // verus!
