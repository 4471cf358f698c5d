use vstd::prelude::*;
use crate::resolver::ServeError;
use crate::text::{chars_of, contains, occurs_at, occurs_at_exec, push_char, push_range};

verus! {

#[verifier::external_type_specification]
#[verifier::external_body]
pub struct ExJsonError(serde_json::Error);

/// The JSON string literal that serde_json writes for a string.
pub uninterp spec fn json_string_of(s: Seq<char>) -> Seq<char>;

/// Relies on `serde_json::to_string` on a `str`: its JSON string literal,
/// which depends on the characters alone. It is written into a `Vec`, which
/// gives no write error, and a `str` serializes without any other failure.
#[verifier::external_body]
fn encode_json_str(s: &str) -> (r: Result<String, serde_json::Error>)
    ensures
        r is Ok,
        r matches Ok(t) ==> t@ == json_string_of(s@),
{
    serde_json::to_string(s)
}

/// The endpoint of the push connection.
pub const WS_PATH: &'static str = "/_live/ws";

/// The id that marks a page as already carrying the live client.
pub const CLIENT_MARKER: &'static str = "__web_dev_server_client";

pub const CONFIG_OPEN: &'static str = "{\"wsPath\":";

pub const CONFIG_MODE: &'static str = ",\"diffMode\":";

pub const SNIPPET_OPEN: &'static str = "<script id=\"__web_dev_server_config\">window.__WEB_DEV_SERVER_CONFIG__ = ";

pub const SNIPPET_MID: &'static str = ";</script><script id=\"";

pub const SNIPPET_CLOSE: &'static str = "\" defer src=\"/_live/script.js\"></script>";

pub const HEAD_CLOSE: &'static str = "</head>";

pub open spec fn bool_text(b: bool) -> Seq<char> {
    if b {
        "true"@
    } else {
        "false"@
    }
}

/// The client configuration object, with `ws_json` the JSON text of the
/// push endpoint.
pub open spec fn config_text(ws_json: Seq<char>, diff_mode: bool) -> Seq<char> {
    CONFIG_OPEN@ + ws_json + CONFIG_MODE@ + bool_text(diff_mode) + seq!['}']
}

/// The block that loads the live client with configuration `cfg`.
pub open spec fn snippet(cfg: Seq<char>) -> Seq<char> {
    SNIPPET_OPEN@ + cfg + SNIPPET_MID@ + CLIENT_MARKER@ + SNIPPET_CLOSE@
}

/// The last position at or below `n` where `t` occurs in `s`.
pub open spec fn last_occurrence_below(s: Seq<char>, t: Seq<char>, n: int) -> Option<int>
    decreases n + 1,
{
    if n < 0 {
        None
    } else if occurs_at(s, t, n) {
        Some(n)
    } else {
        last_occurrence_below(s, t, n - 1)
    }
}

pub open spec fn last_occurrence(s: Seq<char>, t: Seq<char>) -> Option<int> {
    last_occurrence_below(s, t, s.len() - t.len())
}

/// `page` with the live client loaded with configuration `cfg`: unchanged
/// where it carries the marker already; else the block goes, between line
/// breaks, before the last `</head>`, or at the end after a line break.
pub open spec fn injected(page: Seq<char>, cfg: Seq<char>) -> Seq<char> {
    if contains(page, CLIENT_MARKER@) {
        page
    } else {
        match last_occurrence(page, HEAD_CLOSE@) {
            Some(i) => page.take(i) + seq!['\n'] + snippet(cfg) + seq!['\n'] + page.skip(i),
            None => if page.len() > 0 && page.last() == '\n' {
                page + snippet(cfg)
            } else {
                page.push('\n') + snippet(cfg)
            },
        }
    }
}

/// Whether `t` occurs in `s`.
pub fn contains_exec(s: &Vec<char>, t: &Vec<char>) -> (r: bool)
    ensures
        r == contains(s@, t@),
{
    if t.len() > s.len() {
        return false;
    }
    let last = s.len() - t.len();
    let mut i: usize = 0;
    while i < last
        invariant
            last == s@.len() - t@.len(),
            i <= last,
            forall|j: int| 0 <= j < i ==> !occurs_at(s@, t@, j),
        decreases last - i,
    {
        if occurs_at_exec(s, t, i) {
            return true;
        }
        i += 1;
    }
    occurs_at_exec(s, t, last)
}

proof fn lemma_last_occurrence_occurs(s: Seq<char>, t: Seq<char>, n: int)
    ensures
        last_occurrence_below(s, t, n) matches Some(i) ==> occurs_at(s, t, i),
    decreases n + 1,
{
    if n >= 0 && !occurs_at(s, t, n) {
        lemma_last_occurrence_occurs(s, t, n - 1);
    }
}

fn last_occurrence_exec(s: &Vec<char>, t: &Vec<char>) -> (r: Option<usize>)
    ensures
        match r {
            Some(i) => last_occurrence(s@, t@) == Some(i as int),
            None => last_occurrence(s@, t@) is None,
        },
{
    if t.len() > s.len() {
        return None;
    }
    let mut n: usize = s.len() - t.len();
    loop
        invariant
            t@.len() <= s@.len(),
            n <= s@.len() - t@.len(),
            last_occurrence(s@, t@) == last_occurrence_below(s@, t@, n as int),
        decreases n,
    {
        if occurs_at_exec(s, t, n) {
            return Some(n);
        }
        if n == 0 {
            return None;
        }
        n -= 1;
    }
}

/// The configuration object for the live client, with `ws_json` the JSON
/// text of the push endpoint.
pub fn client_config(ws_json: &str, diff_mode: bool) -> (r: String)
    ensures
        r@ == config_text(ws_json@, diff_mode),
{
    let mut out = String::from_str(CONFIG_OPEN);
    out.append(ws_json);
    out.append(CONFIG_MODE);
    out.append(if diff_mode {
        "true"
    } else {
        "false"
    });
    push_char(&mut out, '}');
    out
}

fn push_snippet(out: &mut String, cfg: &str)
    ensures
        final(out)@ == old(out)@ + snippet(cfg@),
{
    out.append(SNIPPET_OPEN);
    out.append(cfg);
    out.append(SNIPPET_MID);
    out.append(CLIENT_MARKER);
    out.append(SNIPPET_CLOSE);
    assert(final(out)@ =~= old(out)@ + snippet(cfg@));
}

/// `page` with the live client loaded with the configuration object `cfg`.
pub fn inject_with_config(page: &str, cfg: &str) -> (r: String)
    ensures
        r@ == injected(page@, cfg@),
{
    let v = chars_of(page);
    let marker = chars_of(CLIENT_MARKER);
    if contains_exec(&v, &marker) {
        return String::from_str(page);
    }
    let head = chars_of(HEAD_CLOSE);
    let mut out = String::new();
    match last_occurrence_exec(&v, &head) {
        Some(i) => {
            proof {
                lemma_last_occurrence_occurs(v@, head@, v@.len() - head@.len());
            }
            push_range(&mut out, &v, 0, i);
            push_char(&mut out, '\n');
            push_snippet(&mut out, cfg);
            push_char(&mut out, '\n');
            push_range(&mut out, &v, i, v.len());
            assert(v@.subrange(0, i as int) =~= v@.take(i as int));
            assert(v@.subrange(i as int, v@.len() as int) =~= v@.skip(i as int));
            assert(out@ =~= injected(page@, cfg@));
        },
        None => {
            out.append(page);
            if !(v.len() > 0 && v[v.len() - 1] == '\n') {
                push_char(&mut out, '\n');
            }
            push_snippet(&mut out, cfg);
        },
    }
    out
}

/// `page` with the live client loaded for the given mode (unchanged where
/// it carries the marker already). It always succeeds: the configuration
/// object always encodes.
pub fn inject_live_client(page: &str, diff_mode: bool) -> (r: Result<String, ServeError>)
    ensures
        contains(page@, CLIENT_MARKER@) ==> (r matches Ok(out) && out@ == page@),
        r matches Ok(out) && out@ == injected(page@, config_text(json_string_of(WS_PATH@), diff_mode)),
{
    let v = chars_of(page);
    let marker = chars_of(CLIENT_MARKER);
    if contains_exec(&v, &marker) {
        return Ok(String::from_str(page));
    }
    match encode_json_str(WS_PATH) {
        Ok(ws_json) => {
            let cfg = client_config(ws_json.as_str(), diff_mode);
            Ok(inject_with_config(page, cfg.as_str()))
        },
        Err(_) => Err(ServeError::InternalError),
    }
}

/// A page that went through injection carries the marker, so injecting
/// again leaves it as it is.
pub proof fn law_inject_idempotent(page: Seq<char>, cfg: Seq<char>)
    ensures
        contains(injected(page, cfg), CLIENT_MARKER@),
        injected(injected(page, cfg), cfg) == injected(page, cfg),
{
    let out = injected(page, cfg);
    if !contains(page, CLIENT_MARKER@) {
        let m = CLIENT_MARKER@;
        let pre = SNIPPET_OPEN@ + cfg + SNIPPET_MID@;
        let post = SNIPPET_CLOSE@;
        assert(snippet(cfg) =~= pre + m + post);
        let (a, b) = match last_occurrence(page, HEAD_CLOSE@) {
            Some(i) => (page.take(i) + seq!['\n'], seq!['\n'] + page.skip(i)),
            None => if page.len() > 0 && page.last() == '\n' {
                (page, Seq::<char>::empty())
            } else {
                (page.push('\n'), Seq::<char>::empty())
            },
        };
        assert(out =~= (a + pre) + m + (post + b));
        let k = (a + pre).len() as int;
        assert(out.subrange(k, k + m.len()) =~= m);
        assert(occurs_at(out, m, k));
    }
}

} // verus!
