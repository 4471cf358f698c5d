use vstd::prelude::*;
use crate::message::{LiveMessage, LiveMessageView};
use crate::paths::{classified, classify_path, resource_of};
use crate::resolver::{join_path, joined};

verus! {

/// Which side of a rename an event reports.
#[derive(Clone, Copy, Debug, PartialEq, Eq, Structural)]
pub enum RenameMode {
    Any,
    To,
    From,
    Both,
    Other,
}

/// What kind of modification an event reports.
#[derive(Clone, Copy, Debug, PartialEq, Eq, Structural)]
pub enum ModifyKind {
    Any,
    Data,
    Metadata,
    Name(RenameMode),
    Other,
}

/// The category of a raw filesystem change notification.
#[derive(Clone, Copy, Debug, PartialEq, Eq, Structural)]
pub enum EventKind {
    Any,
    Access,
    Create,
    Modify(ModifyKind),
    Remove,
    Other,
}

/// Events that carry nothing actionable: pure accesses and the old name of a
/// rename.
pub open spec fn ignored(kind: EventKind) -> bool {
    kind is Access || kind == EventKind::Modify(ModifyKind::Name(RenameMode::From))
}

/// Event kinds after which a targeted update of the file is safe.
pub open spec fn diff_safe(kind: EventKind) -> bool {
    match kind {
        EventKind::Create => true,
        EventKind::Modify(m) => match m {
            ModifyKind::Name(r) => r != RenameMode::From,
            _ => m != ModifyKind::Other,
        },
        _ => false,
    }
}

/// Event kinds that call for a reload even when no file could be classified.
pub open spec fn reload_without_diff(kind: EventKind) -> bool {
    match kind {
        EventKind::Remove | EventKind::Other | EventKind::Any => true,
        EventKind::Modify(ModifyKind::Name(r)) => r != RenameMode::From,
        EventKind::Modify(ModifyKind::Other) => true,
        _ => false,
    }
}

pub fn should_ignore_event(kind: &EventKind) -> (r: bool)
    ensures
        r == ignored(*kind),
{
    match kind {
        EventKind::Access => true,
        EventKind::Modify(ModifyKind::Name(RenameMode::From)) => true,
        _ => false,
    }
}

pub fn allows_diff(kind: &EventKind) -> (r: bool)
    ensures
        r == diff_safe(*kind),
{
    match kind {
        EventKind::Create => true,
        EventKind::Modify(ModifyKind::Data) => true,
        EventKind::Modify(ModifyKind::Metadata) => true,
        EventKind::Modify(ModifyKind::Any) => true,
        EventKind::Modify(ModifyKind::Name(mode)) => match mode {
            RenameMode::From => false,
            _ => true,
        },
        _ => false,
    }
}

pub fn should_reload_when_no_diff(kind: &EventKind) -> (r: bool)
    ensures
        r == reload_without_diff(*kind),
{
    match kind {
        EventKind::Remove | EventKind::Other | EventKind::Any => true,
        EventKind::Modify(ModifyKind::Name(mode)) => match mode {
            RenameMode::From => false,
            _ => true,
        },
        EventKind::Modify(ModifyKind::Other) => true,
        _ => false,
    }
}

/// A filesystem change as the classifier sees it: its kind, whether the
/// watch lost track and needs a rescan, and the affected paths, already
/// made absolute.
pub struct FsEvent {
    pub kind: EventKind,
    pub need_rescan: bool,
    pub paths: Vec<String>,
}

pub open spec fn strs_view(v: Seq<String>) -> Seq<Seq<char>> {
    v.map_values(|s: String| s@)
}

pub open spec fn msgs_view(v: Seq<LiveMessage>) -> Seq<LiveMessageView> {
    v.map_values(|m: LiveMessage| m@)
}

/// The targeted updates for those of `paths` that are HTML or CSS files
/// under `base`, in order.
pub open spec fn classified_all(base: Seq<char>, paths: Seq<Seq<char>>) -> Seq<LiveMessageView>
    decreases paths.len(),
{
    if paths.len() == 0 {
        Seq::empty()
    } else {
        let pre = classified_all(base, paths.drop_last());
        match classified(base, paths.last()) {
            Some(m) => pre.push(m),
            None => pre,
        }
    }
}

/// The messages that one filesystem change gives, in order of precedence:
/// ignored kinds give none; full-reload mode and rescans give one reload;
/// classified files give one update each where the kind is safe for that,
/// else one reload; with nothing classified, removals and unclear kinds give
/// one reload, and the rest nothing.
pub open spec fn event_messages(
    base: Seq<char>,
    diff_mode: bool,
    kind: EventKind,
    need_rescan: bool,
    paths: Seq<Seq<char>>,
) -> Seq<LiveMessageView> {
    if ignored(kind) {
        Seq::empty()
    } else if !diff_mode || need_rescan {
        seq![LiveMessageView::Reload]
    } else {
        let diffs = classified_all(base, paths);
        if diffs.len() > 0 {
            if diff_safe(kind) {
                diffs
            } else {
                seq![LiveMessageView::Reload]
            }
        } else if reload_without_diff(kind) {
            seq![LiveMessageView::Reload]
        } else {
            Seq::empty()
        }
    }
}

/// The messages to broadcast for one filesystem change, with `base_dir` the
/// served root.
pub fn handle_fs_event(base_dir: &str, diff_mode: bool, event: &FsEvent) -> (r: Vec<LiveMessage>)
    ensures
        msgs_view(r@) == event_messages(
            base_dir@,
            diff_mode,
            event.kind,
            event.need_rescan,
            strs_view(event.paths@),
        ),
{
    let mut out: Vec<LiveMessage> = Vec::new();
    if should_ignore_event(&event.kind) {
        assert(msgs_view(out@) =~= Seq::empty());
        return out;
    }
    if !diff_mode || event.need_rescan {
        out.push(LiveMessage::Reload);
        assert(msgs_view(out@) =~= seq![LiveMessageView::Reload]);
        return out;
    }
    let ghost paths = strs_view(event.paths@);
    let mut i: usize = 0;
    while i < event.paths.len()
        invariant
            i <= event.paths@.len(),
            paths == strs_view(event.paths@),
            msgs_view(out@) == classified_all(base_dir@, paths.take(i as int)),
        decreases event.paths@.len() - i,
    {
        let found = classify_path(base_dir, event.paths[i].as_str());
        assert(paths.take(i + 1).drop_last() =~= paths.take(i as int));
        assert(paths.take(i + 1).last() == event.paths@[i as int]@);
        match found {
            Some(m) => {
                out.push(m);
                assert(msgs_view(out@) =~= classified_all(base_dir@, paths.take(i as int)).push(
                    m@,
                ));
            },
            None => {},
        }
        i += 1;
    }
    assert(paths.take(event.paths@.len() as int) =~= paths);
    if out.len() > 0 {
        if allows_diff(&event.kind) {
            return out;
        }
        let mut reload: Vec<LiveMessage> = Vec::new();
        reload.push(LiveMessage::Reload);
        assert(msgs_view(reload@) =~= seq![LiveMessageView::Reload]);
        return reload;
    }
    if should_reload_when_no_diff(&event.kind) {
        out.push(LiveMessage::Reload);
        assert(msgs_view(out@) =~= seq![LiveMessageView::Reload]);
    } else {
        assert(msgs_view(out@) =~= Seq::empty());
    }
    out
}

/// The absolute form of an event path: its canonical form where that could
/// be had (`canonical`, for the path itself, else `canonical_joined`, for the
/// path joined onto the served root), else the joined path as it stands.
pub fn normalize_event_path(
    base_dir: &str,
    path: &str,
    canonical: Option<String>,
    canonical_joined: Option<String>,
) -> (r: String)
    ensures
        r@ == match canonical {
            Some(c) => c@,
            None => match canonical_joined {
                Some(c) => c@,
                None => joined(base_dir@, path@),
            },
        },
{
    match canonical {
        Some(c) => c,
        None => match canonical_joined {
            Some(c) => c,
            None => join_path(base_dir, path),
        },
    }
}

proof fn lemma_unclassified(base: Seq<char>, paths: Seq<Seq<char>>)
    requires
        forall|i: int| 0 <= i < paths.len() ==> resource_of(#[trigger] paths[i]) is None,
    ensures
        classified_all(base, paths).len() == 0,
    decreases paths.len(),
{
    if paths.len() > 0 {
        let d = paths.drop_last();
        assert forall|i: int| 0 <= i < d.len() implies resource_of(#[trigger] d[i]) is None by {
            assert(d[i] == paths[i]);
        }
        lemma_unclassified(base, d);
        assert(resource_of(paths[paths.len() - 1]) is None);
    }
}

/// In full-reload mode every event that is not ignored gives exactly one
/// reload.
pub proof fn law_full_reload(
    base: Seq<char>,
    kind: EventKind,
    need_rescan: bool,
    paths: Seq<Seq<char>>,
)
    ensures
        !ignored(kind) ==> event_messages(base, false, kind, need_rescan, paths) == seq![
            LiveMessageView::Reload,
        ],
{
}

/// Pure accesses and the old half of a rename give no message, in either
/// mode.
pub proof fn law_ignored_dropped(
    base: Seq<char>,
    diff_mode: bool,
    need_rescan: bool,
    paths: Seq<Seq<char>>,
)
    ensures
        event_messages(base, diff_mode, EventKind::Access, need_rescan, paths).len() == 0,
        event_messages(
            base,
            diff_mode,
            EventKind::Modify(ModifyKind::Name(RenameMode::From)),
            need_rescan,
            paths,
        ).len() == 0,
{
}

/// In diff mode a removal of files that are neither HTML nor CSS gives one
/// reload and no targeted update.
pub proof fn law_unclassified_removal_reloads(base: Seq<char>, paths: Seq<Seq<char>>)
    requires
        forall|i: int| 0 <= i < paths.len() ==> resource_of(#[trigger] paths[i]) is None,
    ensures
        event_messages(base, true, EventKind::Remove, false, paths) == seq![LiveMessageView::Reload],
{
    lemma_unclassified(base, paths);
}

} // verus!
