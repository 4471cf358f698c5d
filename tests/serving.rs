use web_dev_server::banner::{colorize, ValueTone};
use web_dev_server::config::DEFAULT_PORT;
use web_dev_server::inject::{client_config, inject_live_client, inject_with_config};
use web_dev_server::port::{allows_fallback, next_bind_step, BindError, BindOutcome, BindStep};
use web_dev_server::resolver::{
    index_path, join_path, locate_file, sanitize_path, FileKind, ServeError,
};

const BASE: &str = "/srv/site";

fn snippet(diff_mode: bool) -> String {
    format!(
        "<script id=\"__web_dev_server_config\">window.__WEB_DEV_SERVER_CONFIG__ = {{\"wsPath\":\"/_live/ws\",\"diffMode\":{}}};</script><script id=\"__web_dev_server_client\" defer src=\"/_live/script.js\"></script>",
        diff_mode
    )
}

#[test]
fn parent_segments_are_refused() {
    for tail in ["..", "../etc/passwd", "a/../../b", "/a/b/..", "./..", "x/../"] {
        assert_eq!(sanitize_path(BASE, tail), Err(ServeError::InvalidPath), "{tail}");
    }
}

#[test]
fn leading_slashes_stay_under_root() {
    assert_eq!(sanitize_path(BASE, "//etc/passwd").unwrap(), "/srv/site/etc/passwd");
    assert_eq!(sanitize_path(BASE, "/a//b/./c.txt").unwrap(), "/srv/site/a/b/c.txt");
}

#[test]
fn empty_tails_name_the_index() {
    assert_eq!(sanitize_path(BASE, "").unwrap(), "/srv/site/index.html");
    assert_eq!(sanitize_path(BASE, "/").unwrap(), "/srv/site/index.html");
    assert_eq!(sanitize_path(BASE, "./").unwrap(), "/srv/site/index.html");
    assert_eq!(sanitize_path(BASE, ".").unwrap(), "/srv/site");
    assert_eq!(sanitize_path(BASE, "docs/").unwrap(), "/srv/site/docs");
    assert_eq!(sanitize_path("/", "a.css").unwrap(), "/a.css");
}

#[test]
fn directory_without_index_is_not_found() {
    let target = sanitize_path(BASE, "docs").unwrap();
    assert_eq!(locate_file(&target, Some(FileKind::Dir), false), Err(ServeError::NotFound));
    assert_eq!(locate_file(&target, Some(FileKind::Dir), true).unwrap(), "/srv/site/docs/index.html");
}

#[test]
fn locating_files() {
    assert_eq!(locate_file("/srv/site/a.css", Some(FileKind::File), false).unwrap(), "/srv/site/a.css");
    assert_eq!(locate_file("/srv/site/a.css", None, false), Err(ServeError::NotFound));
    assert_eq!(locate_file("/srv/site/fifo", Some(FileKind::Other), true), Err(ServeError::NotFound));
    assert_eq!(index_path("/"), "/index.html");
    assert_eq!(join_path("/srv", "x"), "/srv/x");
    assert_eq!(join_path("/srv", "/abs"), "/abs");
}

#[test]
fn injection_goes_before_head_close() {
    let page = "<html><head><title>t</title></head><body></body></html>";
    let out = inject_live_client(page, true).unwrap();
    assert_eq!(
        out,
        format!("<html><head><title>t</title>\n{}\n</head><body></body></html>", snippet(true))
    );
}

#[test]
fn injection_uses_last_head_close() {
    let page = "<p></head></p></head>x";
    let out = inject_with_config(page, "{}");
    assert!(out.starts_with("<p></head></p>\n<script"));
    assert!(out.ends_with("</script>\n</head>x"));
}

#[test]
fn injection_without_head_appends() {
    assert_eq!(inject_live_client("<p>hi</p>", false).unwrap(), format!("<p>hi</p>\n{}", snippet(false)));
    assert_eq!(inject_live_client("<p>hi</p>\n", false).unwrap(), format!("<p>hi</p>\n{}", snippet(false)));
    assert_eq!(inject_live_client("", false).unwrap(), format!("\n{}", snippet(false)));
}

#[test]
fn injecting_twice_equals_injecting_once() {
    for page in ["<html><head></head></html>", "plain", ""] {
        let once = inject_live_client(page, true).unwrap();
        let twice = inject_live_client(&once, true).unwrap();
        assert_eq!(once, twice);
    }
}

#[test]
fn client_config_object() {
    assert_eq!(client_config("\"/_live/ws\"", true), "{\"wsPath\":\"/_live/ws\",\"diffMode\":true}");
    assert_eq!(client_config("\"/x\"", false), "{\"wsPath\":\"/x\",\"diffMode\":false}");
}

#[test]
fn default_port_falls_back() {
    assert!(allows_fallback(DEFAULT_PORT));
    assert!(!allows_fallback(8080));
    assert_eq!(
        next_bind_step(DEFAULT_PORT, allows_fallback(DEFAULT_PORT), BindOutcome::AddrInUse),
        BindStep::Retry(DEFAULT_PORT + 1)
    );
    assert_eq!(
        next_bind_step(DEFAULT_PORT + 1, true, BindOutcome::Bound),
        BindStep::Listen(DEFAULT_PORT + 1)
    );
}

#[test]
fn explicit_port_in_use_fails() {
    assert_eq!(
        next_bind_step(8080, allows_fallback(8080), BindOutcome::AddrInUse),
        BindStep::Fail(BindError::Refused)
    );
    assert_eq!(next_bind_step(DEFAULT_PORT, true, BindOutcome::Failed), BindStep::Fail(BindError::Refused));
    assert_eq!(next_bind_step(u16::MAX, true, BindOutcome::AddrInUse), BindStep::Fail(BindError::Exhausted));
}

#[test]
fn colorize_tones() {
    assert_eq!(colorize("x", ValueTone::Primary), "\x1b[97m\x1b[1mx\x1b[0m\x1b[39m");
    assert_eq!(colorize("x", ValueTone::Success), "\x1b[92m\x1b[1mx\x1b[0m\x1b[39m");
    assert_eq!(colorize("x", ValueTone::Warning), "\x1b[93mx\x1b[39m");
    assert_eq!(colorize("x", ValueTone::Danger), "\x1b[91m\x1b[1mx\x1b[0m\x1b[39m");
    assert_eq!(colorize("x", ValueTone::Accent), "\x1b[96mx\x1b[39m");
    assert_eq!(colorize("x", ValueTone::Muted), "\x1b[2mx\x1b[0m");
}
