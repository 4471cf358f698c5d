use web_dev_server::events::{
    allows_diff, handle_fs_event, normalize_event_path, should_ignore_event,
    should_reload_when_no_diff, EventKind, FsEvent, ModifyKind, RenameMode,
};
use web_dev_server::message::{DiffResource, LiveMessage};
use web_dev_server::paths::{classify_path, is_html, to_web_path};

const BASE: &str = "/srv/site";

fn event(kind: EventKind, paths: &[&str]) -> FsEvent {
    FsEvent {
        kind,
        need_rescan: false,
        paths: paths.iter().map(|p| p.to_string()).collect(),
    }
}

fn diff(path: &str, resource: DiffResource) -> LiveMessage {
    LiveMessage::Diff {
        path: path.to_string(),
        resource,
    }
}

#[test]
fn access_events_are_ignored_for_diff_mode() {
    assert!(should_ignore_event(&EventKind::Access));
}

#[test]
fn rename_from_events_are_ignored() {
    let event = EventKind::Modify(ModifyKind::Name(RenameMode::From));
    assert!(should_ignore_event(&event));
}

#[test]
fn modify_data_events_allow_diff() {
    let event = EventKind::Modify(ModifyKind::Data);
    assert!(allows_diff(&event));
}

#[test]
fn metadata_events_allow_diff() {
    let event = EventKind::Modify(ModifyKind::Metadata);
    assert!(allows_diff(&event));
}

#[test]
fn remove_events_force_reload_when_no_diff() {
    let event = EventKind::Remove;
    assert!(should_reload_when_no_diff(&event));
}

#[test]
fn relative_paths_are_classified_within_base_dir() {
    let base_dir = "/tmp/web_dev_server_test_1";
    let normalized = normalize_event_path(base_dir, "index.html", None, None);
    assert_eq!(normalized, "/tmp/web_dev_server_test_1/index.html");
    let message = classify_path(base_dir, &normalized).expect("expected diff message for html file");

    if let LiveMessage::Diff { path, resource } = message {
        assert_eq!(path, "/");
        assert!(matches!(resource, DiffResource::Html));
    } else {
        panic!("expected diff message");
    }
}

#[test]
fn other_kinds_are_not_ignored_and_rename_to_allows_diff() {
    assert!(!should_ignore_event(&EventKind::Create));
    assert!(!should_ignore_event(&EventKind::Modify(ModifyKind::Data)));
    assert!(allows_diff(&EventKind::Modify(ModifyKind::Name(RenameMode::To))));
    assert!(allows_diff(&EventKind::Modify(ModifyKind::Name(RenameMode::Both))));
    assert!(!allows_diff(&EventKind::Modify(ModifyKind::Name(RenameMode::From))));
    assert!(!allows_diff(&EventKind::Modify(ModifyKind::Other)));
    assert!(!allows_diff(&EventKind::Remove));
    assert!(!should_reload_when_no_diff(&EventKind::Create));
    assert!(!should_reload_when_no_diff(&EventKind::Modify(ModifyKind::Data)));
    assert!(should_reload_when_no_diff(&EventKind::Modify(ModifyKind::Other)));
    assert!(should_reload_when_no_diff(&EventKind::Any));
}

#[test]
fn full_reload_mode_gives_one_reload_per_event() {
    for kind in [EventKind::Create, EventKind::Remove, EventKind::Modify(ModifyKind::Data), EventKind::Other] {
        let out = handle_fs_event(BASE, false, &event(kind, &["/srv/site/a.css", "/srv/site/b.html"]));
        assert_eq!(out, vec![LiveMessage::Reload]);
    }
}

#[test]
fn css_data_change_gives_css_diff() {
    let out = handle_fs_event(
        BASE,
        true,
        &event(EventKind::Modify(ModifyKind::Data), &["/srv/site/styles/app.css"]),
    );
    assert_eq!(out, vec![diff("/styles/app.css", DiffResource::Css)]);
}

#[test]
fn index_creation_gives_directory_diff() {
    let root = handle_fs_event(BASE, true, &event(EventKind::Create, &["/srv/site/index.html"]));
    assert_eq!(root, vec![diff("/", DiffResource::Html)]);
    let about = handle_fs_event(BASE, true, &event(EventKind::Create, &["/srv/site/about/index.html"]));
    assert_eq!(about, vec![diff("/about/", DiffResource::Html)]);
}

#[test]
fn access_and_rename_from_are_dropped_in_both_modes() {
    for mode in [true, false] {
        let a = handle_fs_event(BASE, mode, &event(EventKind::Access, &["/srv/site/index.html"]));
        assert!(a.is_empty());
        let r = handle_fs_event(
            BASE,
            mode,
            &event(EventKind::Modify(ModifyKind::Name(RenameMode::From)), &["/srv/site/a.css"]),
        );
        assert!(r.is_empty());
    }
}

#[test]
fn removing_script_reloads_in_diff_mode() {
    let out = handle_fs_event(BASE, true, &event(EventKind::Remove, &["/srv/site/app.js"]));
    assert_eq!(out, vec![LiveMessage::Reload]);
}

#[test]
fn removing_stylesheet_falls_back_to_reload() {
    let out = handle_fs_event(BASE, true, &event(EventKind::Remove, &["/srv/site/a.css"]));
    assert_eq!(out, vec![LiveMessage::Reload]);
}

#[test]
fn script_data_change_gives_nothing() {
    let out = handle_fs_event(
        BASE,
        true,
        &event(EventKind::Modify(ModifyKind::Data), &["/srv/site/app.js"]),
    );
    assert!(out.is_empty());
}

#[test]
fn rescan_gives_reload() {
    let mut e = event(EventKind::Other, &[]);
    e.need_rescan = true;
    assert_eq!(handle_fs_event(BASE, true, &e), vec![LiveMessage::Reload]);
}

#[test]
fn several_paths_give_one_diff_each() {
    let out = handle_fs_event(
        BASE,
        true,
        &event(
            EventKind::Modify(ModifyKind::Any),
            &["/srv/site/a.css", "/srv/site/x.js", "/srv/site/docs/Page.HTM"],
        ),
    );
    assert_eq!(
        out,
        vec![diff("/a.css", DiffResource::Css), diff("/docs/Page.HTM", DiffResource::Html)]
    );
}

#[test]
fn paths_outside_root_are_dropped() {
    assert_eq!(classify_path(BASE, "/srv/other/a.css"), None);
    assert_eq!(classify_path(BASE, "/srv/sitex/a.css"), None);
    assert_eq!(to_web_path(BASE, "/elsewhere/a.css", &DiffResource::Css), None);
}

#[test]
fn web_paths() {
    assert_eq!(to_web_path(BASE, "/srv/site", &DiffResource::Html).unwrap(), "/");
    assert_eq!(to_web_path(BASE, "/srv/site/docs/index.htm", &DiffResource::Html).unwrap(), "/docs/");
    assert_eq!(to_web_path(BASE, "/srv/site/docs/myindex.html", &DiffResource::Html).unwrap(), "/docs/myindex.html");
    assert_eq!(to_web_path(BASE, "/srv/site/docs/index.html", &DiffResource::Css).unwrap(), "/docs/index.html");
    assert_eq!(to_web_path(BASE, "/srv/site/a\\b.css", &DiffResource::Css).unwrap(), "/a/b.css");
    assert_eq!(to_web_path("/", "/x/index.html", &DiffResource::Html).unwrap(), "/x/");
}

#[test]
fn html_detection() {
    assert!(is_html("/srv/site/index.html"));
    assert!(is_html("/srv/site/PAGE.HtM"));
    assert!(!is_html("/srv/site/style.css"));
    assert!(!is_html("/srv/site/.html"));
    assert!(!is_html("/srv/site.html/readme"));
}

#[test]
fn normalization_prefers_canonical_forms() {
    assert_eq!(
        normalize_event_path(BASE, "a.css", Some("/real/a.css".to_string()), None),
        "/real/a.css"
    );
    assert_eq!(
        normalize_event_path(BASE, "a.css", None, Some("/real/b.css".to_string())),
        "/real/b.css"
    );
    assert_eq!(normalize_event_path(BASE, "/abs/a.css", None, None), "/abs/a.css");
    assert_eq!(normalize_event_path("/", "a.css", None, None), "/a.css");
}
