//! The command protocol: parsing one request line into a command and
//! producing the response lines for each verb. The transport that carries
//! the lines stays outside; it hands each request line in and writes the
//! returned lines back, followed by a blank line.

use vstd::prelude::*;
use crate::manager::ScraperManager;
use crate::manager::has_key;
use crate::manager::idx_of;
use crate::manager::start_post;
use crate::manager::stop_post;
use crate::utils::normalize_url;
use crate::utils::spec_normalize;
use crate::utils::str_eq;
use crate::views_of;

verus! {

/// The separators between a request line's words.
pub open spec fn is_ws(c: char) -> bool {
    c == ' ' || c == '\t' || c == '\r' || c == '\n'
}

/// The first index at or after `i` holding a non-separator, or the end.
pub open spec fn skip_ws(s: Seq<char>, i: int) -> int
    decreases s.len() - i when 0 <= i <= s.len()
{
    if i >= s.len() {
        i
    } else if is_ws(s[i]) {
        skip_ws(s, i + 1)
    } else {
        i
    }
}

/// The first index at or after `i` holding a separator, or the end.
pub open spec fn scan_token(s: Seq<char>, i: int) -> int
    decreases s.len() - i when 0 <= i <= s.len()
{
    if i >= s.len() {
        i
    } else if !is_ws(s[i]) {
        scan_token(s, i + 1)
    } else {
        i
    }
}

/// The request line's first word.
pub open spec fn spec_verb(s: Seq<char>) -> Seq<char> {
    s.subrange(skip_ws(s, 0), scan_token(s, skip_ws(s, 0)))
}

/// Where the second word starts and ends.
pub open spec fn spec_arg_start(s: Seq<char>) -> int {
    skip_ws(s, scan_token(s, skip_ws(s, 0)))
}

pub open spec fn spec_arg_end(s: Seq<char>) -> int {
    scan_token(s, spec_arg_start(s))
}

/// The request line's second word, its URL argument.
pub open spec fn spec_arg(s: Seq<char>) -> Seq<char> {
    s.subrange(spec_arg_start(s), spec_arg_end(s))
}

pub open spec fn spec_has_arg(s: Seq<char>) -> bool {
    spec_arg_start(s) < spec_arg_end(s)
}

/// One parsed request line. Verbs that want a URL and got none carry
/// their own variant, since each answers differently.
pub enum Command {
    Start(String),
    StartNoUrl,
    Stop(String),
    StopNoUrl,
    List,
    Print(String),
    PrintNoUrl,
    Help,
    Quit,
    Unknown,
}

/// `r` is the command that the request line `s` denotes: its first word
/// picks the verb, its second word is the URL argument, further words are
/// ignored, and an unrecognized or missing verb is `Unknown`.
pub open spec fn parse_matches(s: Seq<char>, r: Command) -> bool {
    match r {
        Command::Start(u) => spec_verb(s) == "start"@ && spec_has_arg(s) && u@ == spec_arg(s),
        Command::StartNoUrl => spec_verb(s) == "start"@ && !spec_has_arg(s),
        Command::Stop(u) => spec_verb(s) == "stop"@ && spec_has_arg(s) && u@ == spec_arg(s),
        Command::StopNoUrl => spec_verb(s) == "stop"@ && !spec_has_arg(s),
        Command::List => spec_verb(s) == "list"@,
        Command::Print(u) => spec_verb(s) == "print"@ && spec_has_arg(s) && u@ == spec_arg(s),
        Command::PrintNoUrl => spec_verb(s) == "print"@ && !spec_has_arg(s),
        Command::Help => spec_verb(s) == "help"@,
        Command::Quit => spec_verb(s) == "exit"@ || spec_verb(s) == "quit"@,
        Command::Unknown => spec_verb(s) != "start"@ && spec_verb(s) != "stop"@ && spec_verb(s)
            != "list"@ && spec_verb(s) != "print"@ && spec_verb(s) != "help"@ && spec_verb(s)
            != "exit"@ && spec_verb(s) != "quit"@,
    }
}

/// The first non-separator index of `line` at or after `start`.
fn skip_ws_from(line: &str, start: usize) -> (r: usize)
    requires
        start <= line@.len(),
    ensures
        r == skip_ws(line@, start as int),
        start <= r <= line@.len(),
{
    let n = line.unicode_len();
    let mut i: usize = start;
    loop
        invariant
            start <= i <= n,
            n == line@.len(),
            skip_ws(line@, start as int) == skip_ws(line@, i as int),
        decreases n - i,
    {
        if i >= n {
            return i;
        }
        let c = line.get_char(i);
        if !(c == ' ' || c == '\t' || c == '\r' || c == '\n') {
            assert(!is_ws(line@[i as int]));
            return i;
        }
        i += 1;
    }
}

/// The end of the word starting at `start`.
fn scan_token_from(line: &str, start: usize) -> (r: usize)
    requires
        start <= line@.len(),
    ensures
        r == scan_token(line@, start as int),
        start <= r <= line@.len(),
{
    let n = line.unicode_len();
    let mut i: usize = start;
    loop
        invariant
            start <= i <= n,
            n == line@.len(),
            scan_token(line@, start as int) == scan_token(line@, i as int),
        decreases n - i,
    {
        if i >= n {
            return i;
        }
        let c = line.get_char(i);
        if c == ' ' || c == '\t' || c == '\r' || c == '\n' {
            assert(is_ws(line@[i as int]));
            return i;
        }
        i += 1;
    }
}

/// Parse one request line: the first word picks the verb, the second is
/// the URL argument where one is wanted, anything further is ignored.
pub fn parse_command(line: &str) -> (r: Command)
    ensures
        parse_matches(line@, r),
{
    let a = skip_ws_from(line, 0);
    let b = scan_token_from(line, a);
    let verb = line.substring_char(a, b);
    assert(verb@ == spec_verb(line@));
    let c = skip_ws_from(line, b);
    let d = scan_token_from(line, c);
    let has_arg = c < d;
    if str_eq(verb, "start") {
        if has_arg {
            Command::Start(line.substring_char(c, d).to_owned())
        } else {
            Command::StartNoUrl
        }
    } else if str_eq(verb, "stop") {
        if has_arg {
            Command::Stop(line.substring_char(c, d).to_owned())
        } else {
            Command::StopNoUrl
        }
    } else if str_eq(verb, "list") {
        Command::List
    } else if str_eq(verb, "print") {
        if has_arg {
            Command::Print(line.substring_char(c, d).to_owned())
        } else {
            Command::PrintNoUrl
        }
    } else if str_eq(verb, "help") {
        Command::Help
    } else if str_eq(verb, "exit") {
        Command::Quit
    } else if str_eq(verb, "quit") {
        Command::Quit
    } else {
        Command::Unknown
    }
}

/// Answer a `start` request: normalize the URL and start a job for it.
/// The second component is the key a worker must be spawned for, when one
/// must be: the caller spawns exactly one worker per `Some`.
pub fn handle_start(manager: &mut ScraperManager, raw_url: &str) -> (r: (String, Option<String>))
    requires
        old(manager).wf(),
    ensures
        final(manager).wf(),
        match spec_normalize(raw_url@) {
            Some(key) => {
                &&& r.0@ == "Started scraping"@
                &&& start_post(old(manager).jobs@, final(manager).jobs@, key, r.1 is Some)
                &&& (r.1 matches Some(k) ==> k@ == key)
            },
            None => {
                &&& r.0@ == "Missing URL"@
                &&& final(manager).jobs@ == old(manager).jobs@
                &&& r.1 is None
            },
        },
{
    match normalize_url(raw_url) {
        Some(key) => {
            let spawn_key = key.clone();
            let started = manager.start_scraping(key);
            if started {
                (String::from_str("Started scraping"), Some(spawn_key))
            } else {
                (String::from_str("Started scraping"), None)
            }
        },
        None => (String::from_str("Missing URL"), None),
    }
}

/// Answer a `stop` request: normalize the URL and request cancellation of
/// its job. The reply does not say whether a job existed, as the protocol
/// answers `Stopped scraping` either way.
pub fn handle_stop(manager: &mut ScraperManager, raw_url: &str) -> (r: String)
    requires
        old(manager).wf(),
    ensures
        final(manager).wf(),
        match spec_normalize(raw_url@) {
            Some(key) => {
                &&& r@ == "Stopped scraping"@
                &&& stop_post(
                    old(manager).jobs@,
                    final(manager).jobs@,
                    key,
                    has_key(old(manager).jobs@, key),
                )
            },
            None => {
                &&& r@ == "Invalid URL"@
                &&& final(manager).jobs@ == old(manager).jobs@
            },
        },
{
    match normalize_url(raw_url) {
        Some(key) => {
            let _ = manager.stop_scraping(key.as_str());
            String::from_str("Stopped scraping")
        },
        None => String::from_str("Invalid URL"),
    }
}

/// Answer a `print` request: one line per discovered link of the job, in
/// discovery order; an unknown or still-empty job gets the one-line
/// `No links found` notice, an unparsable URL the `Invalid URL` notice.
pub fn handle_print(manager: &ScraperManager, raw_url: &str) -> (lines: Vec<String>)
    requires
        manager.wf(),
    ensures
        match spec_normalize(raw_url@) {
            Some(key) => {
                if has_key(manager.jobs@, key) && manager.jobs@[idx_of(
                    manager.jobs@,
                    key,
                )].links@.len() > 0 {
                    views_of(lines@) == views_of(
                        manager.jobs@[idx_of(manager.jobs@, key)].links@,
                    )
                } else {
                    lines@.len() == 1 && lines@[0]@
                        == "No links found or scraping not completed."@
                }
            },
            None => lines@.len() == 1 && lines@[0]@ == "Invalid URL"@,
        },
{
    match normalize_url(raw_url) {
        Some(key) => {
            match manager.get_links(key.as_str()) {
                Some(links) => {
                    if links.len() > 0 {
                        links
                    } else {
                        let mut lines: Vec<String> = Vec::new();
                        lines.push(String::from_str("No links found or scraping not completed."));
                        lines
                    }
                },
                None => {
                    let mut lines: Vec<String> = Vec::new();
                    lines.push(String::from_str("No links found or scraping not completed."));
                    lines
                },
            }
        },
        None => {
            let mut lines: Vec<String> = Vec::new();
            lines.push(String::from_str("Invalid URL"));
            lines
        },
    }
}

/// Answer a `list` request: one line `<key>: <status>` per job, in
/// registry order.
pub fn handle_list(manager: &ScraperManager) -> (lines: Vec<String>)
    ensures
        lines@.len() == manager.jobs@.len(),
        forall|i: int|
            0 <= i < lines@.len() ==> (#[trigger] lines@[i])@ == manager.jobs@[i].key@ + ": "@
                + manager.jobs@[i].status.spec_text(),
{
    let tasks = manager.list_tasks();
    let mut lines: Vec<String> = Vec::new();
    let mut i: usize = 0;
    while i < tasks.len()
        invariant
            0 <= i <= tasks@.len(),
            tasks@.len() == manager.jobs@.len(),
            forall|j: int|
                0 <= j < tasks@.len() ==> (#[trigger] tasks@[j]).0@ == manager.jobs@[j].key@
                    && tasks@[j].1 == manager.jobs@[j].status,
            lines@.len() == i,
            forall|j: int|
                0 <= j < i ==> (#[trigger] lines@[j])@ == manager.jobs@[j].key@ + ": "@
                    + manager.jobs@[j].status.spec_text(),
        decreases tasks@.len() - i,
    {
        let key = tasks[i].0.clone();
        let status_word = tasks[i].1.text();
        let line = key.concat(": ").concat(status_word);
        lines.push(line);
        i += 1;
    }
    lines
}

/// The reply to a `start`, `stop` or `print` request whose URL argument
/// is missing.
pub fn missing_url_reply() -> (r: String)
    ensures
        r@ == "Missing URL"@,
{
    String::from_str("Missing URL")
}

/// The reply to a request whose verb is not recognized.
pub fn unknown_command_reply() -> (r: String)
    ensures
        r@ == "Unknown command"@,
{
    String::from_str("Unknown command")
}

/// The static command summary a `help` request is answered with.
pub fn help_text() -> (r: &'static str)
    ensures
        r@ == "Available commands:
                    start <url> - Start scraping the specified URL
                    stop <url>  - Stop scraping the specified URL
                    list        - List current scraping tasks
                    print <url> - Print links found for the specified URL
                    exit        - Exit the CLI"@,
{
    "Available commands:
                    start <url> - Start scraping the specified URL
                    stop <url>  - Stop scraping the specified URL
                    list        - List current scraping tasks
                    print <url> - Print links found for the specified URL
                    exit        - Exit the CLI"
}

} // verus!
