//! What holds of the browser whatever happens.

use vstd::prelude::*;

verus! {

use crate::app_model::{
    Action,
    AppModel,
    Key,
    KeyCommand,
    OutcomeModel,
    ProgressModel,
    command_action,
    scanned_reports,
    warning_reports,
};
use crate::model::{NodeKind, NodeModel, ScanResultModel, millis_text};
use crate::path::plainly_in;
use crate::scanner::ScanEventModel;
use crate::tree::{child_at, find, recalculated, total, without_child};
use crate::tree_laws::{
    law_found,
    law_found_below,
    law_recalculated,
    law_recalculated_keeps_entries,
    law_removed,
    law_removed_from,
    law_removed_is_gone,
    law_removed_total,
    law_settled_stays,
    occurrences,
    proper,
    settled,
};

/// What can happen to the browser.
pub enum AppEvent {
    /// A key, where `parent` is the parent of the current directory's path.
    Key { key: Key, parent: Option<Seq<char>> },
    /// The waiting deletion was done on the disk, or failed.
    Deleted { failure: Option<Seq<char>> },
    /// A scan was started.
    ScanStarted { target: Seq<char> },
    /// The root of the disk could not be found.
    DiskRootFailed { error: Seq<char> },
    /// There was nothing to save.
    NothingToSave,
    /// The result was saved, or could not be.
    Saved { file: Seq<char>, failure: Option<Seq<char>> },
    /// A result was loaded, or could not be.
    Loaded { file: Seq<char>, loaded: Result<ScanResultModel, Seq<char>> },
    /// Reports of the running scan and its end were looked for.
    Polled { events: Seq<ScanEventModel>, outcome: Option<OutcomeModel> },
}

impl AppModel {
    /// The state after something happened.
    pub open spec fn after(self, event: AppEvent) -> AppModel {
        match event {
            AppEvent::Key { key, parent } => self.after_command(self.key_command(key), parent),
            AppEvent::Deleted { failure } => self.after_delete(failure),
            AppEvent::ScanStarted { target } => self.after_start_scan(target),
            AppEvent::DiskRootFailed { error } => self.with_status(
                "Failed to resolve disk root: "@ + error,
            ),
            AppEvent::NothingToSave => self.with_status("No scan result to save"@),
            AppEvent::Saved { file, failure } => self.after_save(file, failure),
            AppEvent::Loaded { file, loaded } => self.after_load(file, loaded),
            AppEvent::Polled { events, outcome } => self.after_poll(events, outcome),
        }
    }

    /// The state after several things happened, one after the other.
    pub open spec fn after_all(self, events: Seq<AppEvent>) -> AppModel
        decreases events.len(),
    {
        if events.len() == 0 {
            self
        } else {
            self.after_all(events.drop_last()).after(events.last())
        }
    }

    /// Whether the state is valid; the current directory is in the result and is the current
    /// place of the history; and a deletion that waits is that of the selected entry, while no
    /// scan is running.
    pub open spec fn consistent(self) -> bool {
        &&& self.valid()
        &&& self.result is Some ==> self.current_dir() is Some
        &&& self.result is Some ==> self.current_dir_path == Some(
            self.history[self.history_index as int],
        )
        &&& self.pending_delete matches Some(pending) ==> {
            &&& !self.is_scanning()
            &&& self.current_dir_path == Some(pending.dir_path)
            &&& self.selected == pending.child_index
            &&& self.entry() matches Some(entry) && entry.name == pending.name && entry.path
                == pending.path && entry.kind == pending.kind
        }
    }
}

proof fn lemma_root_found(root: NodeModel)
    ensures
        find(root, root.path) == Some(root),
{
}

proof fn lemma_with_result(app: AppModel, result: ScanResultModel)
    ensures
        app.valid() ==> app.with_result(result).valid(),
        app.valid() ==> app.with_result(result).consistent(),
{
    lemma_root_found(result.root);
}

proof fn lemma_navigated(app: AppModel, path: Seq<char>)
    requires
        app.consistent(),
        app.pending_delete is None,
        app.result matches Some(result) && find(result.root, path) is Some,
    ensures
        app.navigated(path).consistent(),
        app.navigated(path).current_dir() == find(app.result->0.root, path),
        app.navigated(path).history == app.past().push(path),
        app.navigated(path).history_index == app.past().len(),
        app.navigated(path).current_dir_path == Some(path),
        app.navigated(path).result == app.result,
        app.past().len() == app.history_index + 1,
        app.past()[app.history_index as int] == app.history[app.history_index as int],
{
}

proof fn lemma_restored(app: AppModel, index: nat)
    requires
        app.consistent(),
        app.pending_delete is None,
        index < app.history.len(),
    ensures
        app.restored(index).consistent(),
        app.restored(index).history_index == index,
        app.restored(index).history.len() == app.history.len(),
        app.restored(index).result == app.result,
        app.restored(index).selected == 0,
        app.restored(index).pending_delete is None,
        forall|i: int|
            0 <= i < app.history.len() && i != index ==> (#[trigger] app.restored(
                index,
            ).history[i]) == app.history[i],
{
    lemma_root_found(app.result->0.root);
}

proof fn lemma_command(app: AppModel, command: KeyCommand, parent: Option<Seq<char>>)
    requires
        app.consistent(),
        app.pending_delete is None || command == KeyCommand::CancelDelete || command
            == KeyCommand::ConfirmDelete || command == KeyCommand::Ignore,
        command == KeyCommand::RequestDelete ==> !app.is_scanning(),
    ensures
        app.after_command(command, parent).consistent(),
{
    match command {
        KeyCommand::Open => {
            if let Some(entry) = app.entry() {
                law_found_below(
                    app.result->0.root,
                    app.current_dir_path->0,
                    app.selected as int,
                );
                if entry.kind == NodeKind::Directory {
                    lemma_navigated(app, entry.path);
                }
            }
        },
        KeyCommand::Parent => {
            if let Some(result) = app.result {
                lemma_root_found(result.root);
                lemma_navigated(app, result.root.path);
                if let Some(p) = parent {
                    if find(result.root, p) is Some {
                        lemma_navigated(app, p);
                    }
                }
            }
        },
        KeyCommand::Back => {
            if app.history_index > 0 {
                lemma_restored(app, (app.history_index - 1) as nat);
            }
        },
        KeyCommand::Forward => {
            if app.history_index + 1 < app.history.len() {
                lemma_restored(app, app.history_index + 1);
            }
        },
        _ => {},
    }
}

proof fn lemma_deleted(app: AppModel, failure: Option<Seq<char>>)
    requires
        app.consistent(),
    ensures
        app.after_delete(failure).consistent(),
{
    if let Some(pending) = app.pending_delete {
        let root = app.result->0.root;
        if child_at(root, pending.dir_path, pending.child_index as int) is Some {
            law_removed_from(root, pending.dir_path, pending.child_index as int);
            law_recalculated_keeps_entries(
                without_child(root, pending.dir_path, pending.child_index as int),
                pending.dir_path,
            );
        }
    }
}

proof fn lemma_events(app: AppModel, events: Seq<ScanEventModel>)
    requires
        app.consistent(),
    ensures
        app.after_events(events).consistent(),
        app.scan_progress is None ==> app.after_events(events) == app,
    decreases events.len(),
{
    if events.len() > 0 {
        lemma_events(app, events.drop_last());
        let before = app.after_events(events.drop_last());
        assert(before.after_event(events.last()).current_dir() == before.current_dir());
    }
}

/// Whatever happens keeps the state consistent.
pub proof fn law_stays_consistent(app: AppModel, event: AppEvent)
    requires
        app.consistent(),
    ensures
        app.after(event).consistent(),
{
    match event {
        AppEvent::Key { key, parent } => {
            lemma_command(app, app.key_command(key), parent);
        },
        AppEvent::Deleted { failure } => {
            lemma_deleted(app, failure);
        },
        AppEvent::Loaded { file, loaded } => {
            if let Ok(result) = loaded {
                lemma_with_result(app, result);
            }
        },
        AppEvent::Polled { events, outcome } => {
            lemma_events(app, events);
            let reported = app.after_events(events);
            if reported.is_scanning() {
                if let Some(end) = outcome {
                    let ended = AppModel { scan_progress: None, ..reported };
                    assert(ended.current_dir() == reported.current_dir());
                    if let OutcomeModel::Finished(result) = end {
                        lemma_with_result(ended, result);
                    }
                }
            }
        },
        _ => {},
    }
}

/// The state is consistent at the beginning, with or without a first result.
pub proof fn law_begins_consistent(result: ScanResultModel)
    ensures
        AppModel::initial().consistent(),
        AppModel::initial().with_result(result).consistent(),
{
    lemma_with_result(AppModel::initial(), result);
}

/// The state is consistent at all times.
pub proof fn law_always_consistent(app: AppModel, events: Seq<AppEvent>)
    requires
        app.consistent(),
    ensures
        app.after_all(events).consistent(),
    decreases events.len(),
{
    if events.len() > 0 {
        law_always_consistent(app, events.drop_last());
        law_stays_consistent(app.after_all(events.drop_last()), events.last());
    }
}

/// Opening a directory and going back leads to the directory before, with its first entry
/// selected, and the opened directory lies ahead in the history.
pub proof fn law_open_then_back(app: AppModel)
    requires
        app.consistent(),
        app.pending_delete is None,
        app.entry() matches Some(entry) && entry.kind == NodeKind::Directory,
    ensures
        app.after_open().current_dir_path == Some(app.entry()->0.path),
        app.after_open().after_back().current_dir_path == app.current_dir_path,
        app.after_open().after_back().current_dir() == app.current_dir(),
        app.after_open().after_back().selected == 0,
        app.after_open().after_back().history_index == app.history_index,
        app.after_open().after_back().after_forward().current_dir_path
            == app.after_open().current_dir_path,
{
    let entry = app.entry()->0;
    law_found_below(app.result->0.root, app.current_dir_path->0, app.selected as int);
    lemma_navigated(app, entry.path);
    let opened = app.after_open();
    lemma_restored(opened, app.history_index);
    law_back_then_forward(opened);
}

/// Going back and then forward leads to the directory before.
pub proof fn law_back_then_forward(app: AppModel)
    requires
        app.consistent(),
        app.pending_delete is None,
        app.history_index > 0,
    ensures
        app.after_back().after_forward().current_dir_path == app.current_dir_path,
        app.after_back().after_forward().current_dir() == app.current_dir(),
        app.after_back().after_forward().history_index == app.history_index,
{
    let back = app.after_back();
    lemma_restored(app, (app.history_index - 1) as nat);
    assert(back.history[app.history_index as int] == app.history[app.history_index as int]);
    lemma_restored(back, app.history_index);
}

/// Going forward and then back leads to the directory before.
pub proof fn law_forward_then_back(app: AppModel)
    requires
        app.consistent(),
        app.pending_delete is None,
        app.history_index + 1 < app.history.len(),
    ensures
        app.after_forward().after_back().current_dir_path == app.current_dir_path,
        app.after_forward().after_back().current_dir() == app.current_dir(),
        app.after_forward().after_back().history_index == app.history_index,
{
    let forward = app.after_forward();
    lemma_restored(app, app.history_index + 1);
    assert(forward.history[app.history_index as int] == app.history[app.history_index as int]);
    lemma_restored(forward, app.history_index);
}

/// Opening a directory forgets what lay ahead in the history: there is nothing newer to go to.
pub proof fn law_open_forgets_the_future(app: AppModel)
    requires
        app.consistent(),
        app.pending_delete is None,
        app.entry() matches Some(entry) && entry.kind == NodeKind::Directory,
    ensures
        app.after_open().history == app.history.take(app.history_index as int + 1).push(
            app.entry()->0.path,
        ),
        app.after_open().after_forward() == app.after_open().with_status("No newer history"@),
{
    law_found_below(app.result->0.root, app.current_dir_path->0, app.selected as int);
    lemma_navigated(app, app.entry()->0.path);
    assert(app.past() =~= app.history.take(app.history_index as int + 1));
}

/// Going up leads to the parent if it is in the result, and else to the root; at the root it leads
/// nowhere.
pub proof fn law_up(app: AppModel, parent: Option<Seq<char>>)
    requires
        app.consistent(),
        app.pending_delete is None,
        app.result is Some,
    ensures
        ({
            let root = app.result->0.root;
            let up = app.after_parent(parent);
            if app.current_dir_path == Some(root.path) {
                up == app.with_status("Already at root"@)
            } else if parent matches Some(p) && p.len() > 0 && find(root, p) is Some {
                &&& up.current_dir() == find(root, parent->0)
                &&& up.current_dir_path == parent
                &&& up == app.navigated(parent->0)
            } else {
                &&& up.current_dir() == Some(root)
                &&& up.current_dir_path == Some(root.path)
                &&& up == app.navigated(root.path)
            }
        }),
{
    let root = app.result->0.root;
    lemma_root_found(root);
    lemma_navigated(app, root.path);
    if let Some(p) = parent {
        if find(root, p) is Some {
            lemma_navigated(app, p);
        }
    }
}

/// Opening a directory that is plainly an entry of the current one and going up leads back, with
/// the first entry selected; so it does unless the opened path is that of the root, where going up
/// leads nowhere, or the path before is empty.
pub proof fn law_open_then_up(app: AppModel, name: Seq<char>)
    requires
        app.consistent(),
        app.pending_delete is None,
        app.entry() matches Some(entry) && entry.kind == NodeKind::Directory && plainly_in(
            entry.path,
            app.current_dir_path->0,
            name,
        ),
        app.entry()->0.path != app.result->0.root.path,
        app.current_dir_path->0.len() > 0,
    ensures
        app.after_open().current_dir_path == Some(app.entry()->0.path),
        app.after_open().after_parent(app.current_dir_path).current_dir_path
            == app.current_dir_path,
        app.after_open().after_parent(app.current_dir_path).current_dir() == app.current_dir(),
        app.after_open().after_parent(app.current_dir_path).selected == 0,
{
    let entry = app.entry()->0;
    law_found_below(app.result->0.root, app.current_dir_path->0, app.selected as int);
    lemma_navigated(app, entry.path);
    lemma_navigated(app.after_open(), app.current_dir_path->0);
}

/// While a deletion waits, every key but `y`, `n` and Esc does nothing.
pub proof fn law_waiting_deletion_comes_first(
    app: AppModel,
    key: Key,
    parent: Option<Seq<char>>,
)
    requires
        app.pending_delete is Some,
        key != Key::Char('y'),
        key != Key::Char('n'),
        key != Key::Esc,
    ensures
        app.after(AppEvent::Key { key, parent }) == app,
        command_action(app.key_command(key)) == Action::Continue,
{
}

/// While a scan is running and no deletion waits, every key but `q` does nothing.
pub proof fn law_running_scan_refuses_keys(app: AppModel, key: Key, parent: Option<Seq<char>>)
    requires
        app.is_scanning(),
        app.pending_delete is None,
        key != Key::Char('q'),
    ensures
        app.after(AppEvent::Key { key, parent }) == app,
        command_action(app.key_command(key)) == Action::Continue,
{
}

/// A deletion that is asked for and called off changes nothing but the status line.
pub proof fn law_canceled_deletion(app: AppModel)
    requires
        app.pending_delete is None,
    ensures
        app.after_request_delete().after_cancel_delete() == app.with_status("Delete canceled"@),
{
}

/// A deletion that fails on the disk leaves the result and the place in it as they were.
pub proof fn law_failed_deletion(app: AppModel, error: Seq<char>)
    requires
        app.pending_delete is Some,
    ensures
        app.after_delete(Some(error)) == (AppModel {
            pending_delete: None,
            status: "Delete failed: "@ + error,
            ..app
        }),
{
}

/// A deletion that is asked for and confirmed removes the selected entry with all that lies below
/// it, and nothing else; every size in the result is then the sum of what it is made of, in listing
/// order; the place in the result stays.
pub proof fn law_confirmed_deletion(app: AppModel, path: Seq<char>)
    requires
        app.consistent(),
        app.pending_delete is None,
        app.entry() is Some,
        app.current_dir()->0.kind == NodeKind::Directory,
    ensures
        ({
            let after = app.after_request_delete().after_delete(None);
            let before_root = app.result->0.root;
            let entry = app.entry()->0;
            &&& after.result matches Some(result)
            &&& occurrences(result.root, path) + occurrences(entry, path) == occurrences(
                before_root,
                path,
            )
            &&& occurrences(before_root, entry.path) == 1 ==> find(result.root, entry.path) is None
            &&& settled(result.root)
            &&& result == (ScanResultModel { root: result.root, ..app.result->0 })
            &&& after.current_dir_path == app.current_dir_path
            &&& after.history == app.history
            &&& after.history_index == app.history_index
            &&& after.pending_delete is None
            &&& after.status == "Deleted "@ + entry.name
        }),
{
    let root = app.result->0.root;
    let dir = app.current_dir_path->0;
    let index = app.selected as int;
    let rest = without_child(root, dir, index);
    assert(child_at(root, dir, index) == app.entry());
    law_removed(root, dir, index, path);
    law_recalculated_keeps_entries(rest, path);
    law_recalculated(rest);
    if occurrences(root, app.entry()->0.path) == 1 {
        law_removed_is_gone(root, dir, index);
        law_recalculated_keeps_entries(rest, app.entry()->0.path);
    }
    let after = app.after_request_delete().after_delete(None);
    assert(after.result->0.root == recalculated(rest));
}

/// A scan cannot be started while another is running: the running one goes on as it was.
pub proof fn law_one_scan_at_a_time(app: AppModel, first: Seq<char>, second: Seq<char>)
    ensures
        app.after_start_scan(first).is_scanning(),
        app.after_start_scan(first).after_start_scan(second).scan_progress
            == app.after_start_scan(first).scan_progress,
{
}

/// What a running scan reports is counted: each scanned entry once, and once by its kind, and
/// each warning once.
pub proof fn law_reports_are_counted(app: AppModel, target: Seq<char>, events: Seq<ScanEventModel>)
    requires
        !app.is_scanning(),
    ensures
        app.after_start_scan(target).after_events(events).scan_progress matches Some(progress) && {
            &&& progress.scanned_nodes == scanned_reports(events)
            &&& progress.warnings == warning_reports(events)
            &&& progress.scanned_nodes == progress.scanned_dirs + progress.scanned_files
                + progress.scanned_symlinks
        },
    decreases events.len(),
{
    if events.len() > 0 {
        law_reports_are_counted(app, target, events.drop_last());
    }
}

/// A scan or a load that fails leaves the result and the place in it as they were.
pub proof fn law_failures_keep_the_result(app: AppModel, file: Seq<char>, error: Seq<char>)
    ensures
        app.after_load(file, Err(error)) == app.with_status("Load failed: "@ + error),
        app.after_scan(OutcomeModel::Failed(error)) == (AppModel {
            scan_progress: None,
            status: "Scan failed: "@ + error,
            ..app
        }),
        app.after_scan(OutcomeModel::Lost) == (AppModel {
            scan_progress: None,
            status: "Scan task ended unexpectedly"@,
            ..app
        }),
{
}

/// Reports and an end that come while no scan is running change nothing.
pub proof fn law_nothing_to_poll(
    app: AppModel,
    events: Seq<ScanEventModel>,
    outcome: Option<OutcomeModel>,
)
    requires
        !app.is_scanning(),
    ensures
        app.after_poll(events, outcome) == app,
    decreases events.len(),
{
    if events.len() > 0 {
        law_nothing_to_poll(app, events.drop_last(), None);
    }
}

/// Moving the selection never leaves the listed entries: down is to the next entry, if there is
/// one, and up again leads back; the last entry can be reached at once, and so can the first.
pub proof fn law_selection(app: AppModel)
    requires
        app.valid(),
        app.entries().len() > 0,
    ensures
        app.selected + 1 < app.entries().len() ==> app.after_next().entry() == Some(
            app.entries()[app.selected as int + 1],
        ) && app.after_next().after_previous() == app,
        app.selected + 1 == app.entries().len() ==> app.after_next() == app,
        app.after_previous().entry() is Some,
        app.after_first().entry() == Some(app.entries()[0]),
        app.after_last().entry() == Some(app.entries().last()),
{
}

/// At the beginning nothing is loaded, selected, waiting or running.
pub proof fn law_initial()
    ensures
        AppModel::initial().result is None,
        AppModel::initial().current_dir_path is None,
        AppModel::initial().entries().len() == 0,
        AppModel::initial().selected == 0,
        AppModel::initial().history.len() == 0,
        AppModel::initial().pending_delete is None,
        !AppModel::initial().is_scanning(),
        AppModel::initial().status
            == "s: scan current dir / a: full disk scan / o: load / p: save"@,
{
}

/// What is shown is the directory at the current path, what is listed are its children, and the
/// selected entry is the one at the place of the selection.
pub proof fn law_shown(app: AppModel)
    requires
        app.consistent(),
        app.result is Some,
    ensures
        app.current_dir() is Some,
        Some(app.current_dir()->0.path) == app.current_dir_path,
        app.current_dir() == find(app.result->0.root, app.current_dir_path->0),
        app.entries() == app.current_dir()->0.children,
        app.selected < app.entries().len() ==> app.entry() == Some(
            app.entries()[app.selected as int],
        ),
        app.selected >= app.entries().len() ==> app.entry() is None,
        app.current_dir_path == Some(app.history[app.history_index as int]),
{
    law_found(app.result->0.root, app.current_dir_path->0);
}

/// A scan starts from the directory that is shown; without a result it starts where the program
/// runs. So it does after opening a directory: from that directory.
pub proof fn law_scan_target(app: AppModel)
    requires
        app.consistent(),
    ensures
        app.result is Some ==> app.scan_target() == app.current_dir_path,
        app.result is None ==> app.scan_target() is None,
        app.entry() matches Some(entry) ==> (entry.kind == NodeKind::Directory
            && app.pending_delete is None ==> app.after_open().scan_target() == Some(entry.path)),
{
    if app.result is Some {
        law_shown(app);
    }
    if let Some(entry) = app.entry() {
        if entry.kind == NodeKind::Directory && app.pending_delete is None {
            law_found_below(app.result->0.root, app.current_dir_path->0, app.selected as int);
            lemma_navigated(app, entry.path);
            law_shown(app.after_open());
        }
    }
}

/// A result is shown from its root, with the first entry selected and a history of its own; nothing
/// waits to be deleted, and a running scan goes on.
pub proof fn law_result_shown(app: AppModel, result: ScanResultModel)
    ensures
        ({
            let shown = app.with_result(result);
            &&& shown.result == Some(result)
            &&& shown.current_dir_path == Some(result.root.path)
            &&& shown.current_dir() == Some(result.root)
            &&& shown.entries() == result.root.children
            &&& shown.selected == 0
            &&& shown.history.len() == 1
            &&& shown.history[0] == result.root.path
            &&& shown.history_index == 0
            &&& shown.pending_delete is None
            &&& shown.scan_progress == app.scan_progress
            &&& shown.status == "Scan loaded. Duration: "@ + millis_text(result.scan_duration_ms)
        }),
{
    lemma_root_found(result.root);
}

/// Only a directory is opened: opening anything else, or nothing, changes the status line alone.
pub proof fn law_open(app: AppModel)
    requires
        app.consistent(),
        app.pending_delete is None,
    ensures
        app.entry() is None ==> app.after_open() == app.with_status("No entry selected"@),
        app.entry() matches Some(entry) ==> (entry.kind != NodeKind::Directory ==> app.after_open()
            == app.with_status("Selected entry is not a directory"@)),
        app.entry() matches Some(entry) ==> (entry.kind == NodeKind::Directory ==> {
            let opened = app.after_open();
            &&& opened.current_dir_path == Some(entry.path)
            &&& opened.current_dir() == find(app.result->0.root, entry.path)
            &&& opened.status == "Browsing "@ + entry.path
            &&& opened.selected == 0
            &&& opened.result == app.result
            &&& opened.history.last() == entry.path
            &&& opened.history.len() == app.history_index + 2
            &&& opened.history_index == app.history_index + 1
            &&& opened.pending_delete is None
            &&& opened.scan_progress == app.scan_progress
        }),
{
    if let Some(entry) = app.entry() {
        if entry.kind == NodeKind::Directory {
            law_found_below(app.result->0.root, app.current_dir_path->0, app.selected as int);
            lemma_navigated(app, entry.path);
            law_found(app.result->0.root, entry.path);
        }
    }
}

/// Going to a directory of the result shows it with its first entry selected, and writes it behind
/// the current place of the history, whatever its length; what lay ahead is forgotten. Nothing else
/// changes.
pub proof fn law_navigated(app: AppModel, path: Seq<char>)
    requires
        app.consistent(),
        app.result matches Some(result) && find(result.root, path) is Some,
    ensures
        app.navigated(path) == (AppModel {
            current_dir_path: Some(path),
            selected: 0,
            history: app.history.take(app.history_index as int + 1) + seq![path],
            history_index: app.history_index + 1,
            status: "Browsing "@ + path,
            ..app
        }),
        app.navigated(path).current_dir() == find(app.result->0.root, path),
{
    law_found(app.result->0.root, path);
    assert(app.past() =~= app.history.take(app.history_index as int + 1));
    assert(app.past().push(path) =~= app.past() + seq![path]);
}

/// A change of the status line is a change of nothing else.
pub proof fn law_status(app: AppModel, status: Seq<char>)
    ensures
        app.with_status(status).status == status,
        app.with_status(status).with_status(app.status) == app,
        app.with_status(status).current_dir() == app.current_dir(),
        app.with_status(status).entry() == app.entry(),
{
}

/// Going to a place of the history leads to the directory there; if it is gone from the result, it
/// leads to the root, which takes that place.
pub proof fn law_history(app: AppModel, index: nat)
    requires
        app.consistent(),
        app.pending_delete is None,
        index < app.history.len(),
    ensures
        ({
            let target = app.history[index as int];
            let root = app.result->0.root;
            let there = app.restored(index);
            &&& there.history_index == index
            &&& there.selected == 0
            &&& there.result == app.result
            &&& there.scan_progress == app.scan_progress
            &&& there.current_dir_path == Some(there.history[index as int])
            &&& find(root, target) is Some ==> {
                &&& there.history == app.history
                &&& there.current_dir() == find(root, target)
                &&& there.status == "Browsing "@ + target
            }
            &&& find(root, target) is None ==> {
                &&& there.history == app.history.update(index as int, root.path)
                &&& there.current_dir() == Some(root)
                &&& there.status == "History target no longer exists; moved to root"@
            }
        }),
        app.history_index > 0 && index + 1 == app.history_index ==> app.after_back()
            == app.restored(index),
        index == app.history_index + 1 ==> app.after_forward() == app.restored(index),
        app.history_index == 0 ==> app.after_back() == app.with_status("No older history"@),
        app.history_index + 1 == app.history.len() ==> app.after_forward() == app.with_status(
            "No newer history"@,
        ),
{
    lemma_root_found(app.result->0.root);
    law_found(app.result->0.root, app.history[index as int]);
}

/// What is asked to be deleted is the selected entry, in the directory that is shown; nothing is
/// deleted yet.
pub proof fn law_request_delete(app: AppModel)
    requires
        app.consistent(),
    ensures
        app.entry() is None ==> app.after_request_delete() == app.with_status(
            "No entry selected"@,
        ),
        app.entry() matches Some(entry) ==> {
            let asked = app.after_request_delete();
            &&& asked.pending_delete matches Some(pending)
            &&& pending.path == entry.path
            &&& pending.name == entry.name
            &&& pending.kind == entry.kind
            &&& app.current_dir_path == Some(pending.dir_path)
            &&& pending.child_index == app.selected
            &&& asked == (AppModel { pending_delete: asked.pending_delete, ..app })
        },
{
}

/// After a deletion the selection stays where it was, or moves to the last entry where there is none
/// left at its place.
pub proof fn law_selection_after_deletion(app: AppModel)
    requires
        app.consistent(),
        app.pending_delete is None,
        app.entry() is Some,
        app.current_dir()->0.kind == NodeKind::Directory,
    ensures
        ({
            let after = app.after_request_delete().after_delete(None);
            let left = after.entries().len();
            &&& left > app.selected ==> after.selected == app.selected
            &&& 0 < left <= app.selected ==> after.selected == left - 1
            &&& left == 0 ==> after.selected == 0
            &&& after.scan_progress == app.scan_progress
            &&& after.result->0.scan_duration_ms == app.result->0.scan_duration_ms
            &&& after.result->0.root.size == total(after.result->0.root)
        }),
{
    let rest = without_child(app.result->0.root, app.current_dir_path->0, app.selected as int);
    law_confirmed_deletion(app, app.current_dir_path->0);
    law_recalculated(rest);
    let after = app.after_request_delete().after_delete(None);
    law_settled_stays(after.result->0.root);
}

/// A deletion that is done on the disk but finds nothing to remove in the result leaves it alone.
pub proof fn law_nothing_to_remove(app: AppModel)
    requires
        app.pending_delete is Some,
        app.result matches Some(result) && child_at(
            result.root,
            app.pending_delete->0.dir_path,
            app.pending_delete->0.child_index as int,
        ) is None,
    ensures
        app.after_delete(None) == (AppModel {
            pending_delete: None,
            status: "Deleted on disk, but in-memory tree update failed"@,
            ..app
        }),
{
}

/// A deletion fits exactly if nothing is removed by it, or what is left can be held together.
pub proof fn law_deletion_fits_exactly(app: AppModel)
    requires
        app.result is Some,
        app.pending_delete is Some,
    ensures
        ({
            let root = app.result->0.root;
            let dir = app.pending_delete->0.dir_path;
            let index = app.pending_delete->0.child_index as int;
            app.deletion_fits() <==> child_at(root, dir, index) is None || total(
                without_child(root, dir, index),
            ) <= 0xffff_ffff_ffff_ffff
        }),
{
}

/// A deletion can always be done in a result whose sizes can be held together, where only
/// directories have children.
pub proof fn law_deletion_fits(app: AppModel)
    requires
        app.result matches Some(result) && proper(result.root) && total(result.root) <= u64::MAX,
    ensures
        app.deletion_fits(),
{
    if let Some(pending) = app.pending_delete {
        let root = app.result->0.root;
        if child_at(root, pending.dir_path, pending.child_index as int) is Some {
            law_removed_total(root, pending.dir_path, pending.child_index as int);
        }
    }
}

/// A scan that is started has counted nothing yet, stands at its target, and leaves the result and
/// the place in it as they are.
pub proof fn law_scan_started(app: AppModel, target: Seq<char>)
    requires
        !app.is_scanning(),
    ensures
        ({
            let started = app.after_start_scan(target);
            &&& started.scan_progress matches Some(progress)
            &&& progress.root == target
            &&& progress.current_path == target
            &&& progress.scanned_nodes == 0
            &&& progress.scanned_dirs == 0
            &&& progress.scanned_files == 0
            &&& progress.scanned_symlinks == 0
            &&& progress.warnings == 0
            &&& started.status == "Scanning started: "@ + target
            &&& started == (AppModel {
                scan_progress: started.scan_progress,
                status: started.status,
                pending_delete: None,
                ..app
            })
        }),
{
}

/// How many of a list of reports are of scanned entries of one kind.
pub open spec fn reports_of_kind(events: Seq<ScanEventModel>, kind: NodeKind) -> nat {
    events.filter(
        |event: ScanEventModel|
            event matches ScanEventModel::Scanned { kind: reported, .. } && reported == kind,
    ).len()
}

/// How many of a list of reports are warnings.
pub open spec fn reports_of_warnings(events: Seq<ScanEventModel>) -> nat {
    events.filter(|event: ScanEventModel| event is Warning).len()
}

/// A running scan has counted as many directories, files and links as were reported of each kind,
/// all of them together as scanned entries, and as many warnings as were reported.
pub proof fn law_counts_by_kind(app: AppModel, target: Seq<char>, events: Seq<ScanEventModel>)
    requires
        !app.is_scanning(),
    ensures
        app.after_start_scan(target).after_events(events).scan_progress matches Some(progress) && {
            &&& progress.scanned_dirs == reports_of_kind(events, NodeKind::Directory)
            &&& progress.scanned_files == reports_of_kind(events, NodeKind::File)
            &&& progress.scanned_symlinks == reports_of_kind(events, NodeKind::Symlink)
            &&& progress.scanned_nodes == reports_of_kind(events, NodeKind::Directory)
                + reports_of_kind(events, NodeKind::File) + reports_of_kind(
                events,
                NodeKind::Symlink,
            )
            &&& progress.warnings == reports_of_warnings(events)
        },
    decreases events.len(),
{
    reveal(Seq::filter);
    if events.len() > 0 {
        law_counts_by_kind(app, target, events.drop_last());
    }
}

/// A report of a running scan tells where the scan is and is counted once; a warning is told in the
/// status line. Nothing else changes.
pub proof fn law_report(app: AppModel, event: ScanEventModel)
    requires
        app.is_scanning(),
    ensures
        ({
            let before = app.scan_progress->0;
            let told = app.after_event(event);
            &&& told.scan_progress matches Some(after)
            &&& told == (AppModel {
                scan_progress: told.scan_progress,
                status: told.status,
                ..app
            })
            &&& match event {
                ScanEventModel::Started { root } => {
                    &&& told.status == app.status
                    &&& after == (ProgressModel { root, current_path: root, ..before })
                },
                ScanEventModel::Scanned { path, kind } => {
                    &&& told.status == app.status
                    &&& after.root == before.root
                    &&& after.current_path == path
                    &&& after.warnings == before.warnings
                    &&& after.scanned_nodes == before.scanned_nodes + 1
                    &&& after.scanned_dirs - before.scanned_dirs == if kind == NodeKind::Directory {
                        1int
                    } else {
                        0int
                    }
                    &&& after.scanned_files - before.scanned_files == if kind == NodeKind::File {
                        1int
                    } else {
                        0int
                    }
                    &&& after.scanned_symlinks - before.scanned_symlinks == if kind
                        == NodeKind::Symlink {
                        1int
                    } else {
                        0int
                    }
                },
                ScanEventModel::Warning { message } => {
                    &&& told.status == "Warning: "@ + message
                    &&& after == (ProgressModel { warnings: before.warnings + 1, ..before })
                },
            }
        }),
{
}

/// Reports are taken in one after the other, and then the end of the scan.
pub proof fn law_poll(
    app: AppModel,
    first: Seq<ScanEventModel>,
    then: Seq<ScanEventModel>,
    end: OutcomeModel,
)
    requires
        app.is_scanning(),
    ensures
        app.after_events(first + then) == app.after_events(first).after_events(then),
        app.after_events(first).is_scanning(),
        app.after_poll(first, None) == app.after_events(first),
        app.after_poll(first, Some(end)) == app.after_events(first).after_scan(end),
        !app.after_poll(first, Some(end)).is_scanning(),
    decreases then.len(), first.len(),
{
    if then.len() == 0 {
        assert(first + then =~= first);
        if first.len() > 0 {
            law_poll(app, first.drop_last(), Seq::empty(), end);
        }
    } else {
        law_poll(app, first, then.drop_last(), end);
        assert((first + then).drop_last() =~= first + then.drop_last());
    }
}

/// A scan that ends with a result shows it from its root and tells how long it took.
pub proof fn law_scan_completed(app: AppModel, result: ScanResultModel)
    ensures
        ({
            let done = app.after_scan(OutcomeModel::Finished(result));
            &&& done.scan_progress is None
            &&& done.result == Some(result)
            &&& done.current_dir() == Some(result.root)
            &&& done.selected == 0
            &&& done.history == seq![result.root.path]
            &&& done.history_index == 0
            &&& done.pending_delete is None
            &&& done.status == "Scan completed in "@ + millis_text(result.scan_duration_ms)
        }),
{
    lemma_root_found(result.root);
}

/// Saving changes nothing but the status line, which tells the file or what went wrong.
pub proof fn law_saved(app: AppModel, file: Seq<char>, error: Seq<char>)
    ensures
        app.after_save(file, None) == app.with_status("Saved: "@ + file),
        app.after_save(file, Some(error)) == app.with_status("Save failed: "@ + error),
{
}

/// A result that is loaded is shown from its root, and the status line tells the file.
pub proof fn law_loaded(app: AppModel, file: Seq<char>, result: ScanResultModel)
    ensures
        ({
            let shown = app.after_load(file, Ok(result));
            &&& shown.result == Some(result)
            &&& shown.current_dir() == Some(result.root)
            &&& shown.selected == 0
            &&& shown.history == seq![result.root.path]
            &&& shown.history_index == 0
            &&& shown.pending_delete is None
            &&& shown.scan_progress == app.scan_progress
            &&& shown.status == "Loaded: "@ + file
        }),
{
    lemma_root_found(result.root);
}

/// What each key does while nothing waits and no scan runs.
pub proof fn law_keys(app: AppModel)
    requires
        app.pending_delete is None,
        !app.is_scanning(),
    ensures
        app.key_command(Key::Char('q')) == KeyCommand::Quit,
        app.key_command(Key::Char('s')) == KeyCommand::ScanCurrentDir,
        app.key_command(Key::Char('a')) == KeyCommand::ScanFullDisk,
        app.key_command(Key::Char('p')) == KeyCommand::Save,
        app.key_command(Key::Char('o')) == KeyCommand::Load,
        app.key_command(Key::Char('j')) == KeyCommand::Next,
        app.key_command(Key::Down) == KeyCommand::Next,
        app.key_command(Key::Char('k')) == KeyCommand::Previous,
        app.key_command(Key::Up) == KeyCommand::Previous,
        app.key_command(Key::Home) == KeyCommand::First,
        app.key_command(Key::End) == KeyCommand::Last,
        app.key_command(Key::Enter) == KeyCommand::Open,
        app.key_command(Key::Char('l')) == KeyCommand::Open,
        app.key_command(Key::Backspace) == KeyCommand::Parent,
        app.key_command(Key::Char('u')) == KeyCommand::Parent,
        app.key_command(Key::Char('h')) == KeyCommand::Parent,
        app.key_command(Key::Left) == KeyCommand::Back,
        app.key_command(Key::Char('b')) == KeyCommand::Back,
        app.key_command(Key::Char('[')) == KeyCommand::Back,
        app.key_command(Key::Right) == KeyCommand::Forward,
        app.key_command(Key::Char('f')) == KeyCommand::Forward,
        app.key_command(Key::Char(']')) == KeyCommand::Forward,
        app.key_command(Key::Char('d')) == KeyCommand::RequestDelete,
        app.key_command(Key::Esc) == KeyCommand::Ignore,
        app.key_command(Key::Other) == KeyCommand::Ignore,
        forall|c: char|
            c != 'q' && c != 's' && c != 'a' && c != 'p' && c != 'o' && c != 'j' && c != 'k' && c
                != 'l' && c != 'u' && c != 'h' && c != 'b' && c != '[' && c != 'f' && c != ']' && c
                != 'd' ==> #[trigger] app.key_command(Key::Char(c)) == KeyCommand::Ignore,
{
}

/// While a deletion waits, `y` does it and `n` and Esc call it off; while a scan runs, `q` quits.
pub proof fn law_other_keys(app: AppModel)
    ensures
        app.pending_delete is Some ==> {
            &&& app.key_command(Key::Char('y')) == KeyCommand::ConfirmDelete
            &&& app.key_command(Key::Char('n')) == KeyCommand::CancelDelete
            &&& app.key_command(Key::Esc) == KeyCommand::CancelDelete
        },
        app.pending_delete is None && app.is_scanning() ==> app.key_command(Key::Char('q'))
            == KeyCommand::Quit,
{
}

/// Each command does what it is called, and what has to be done outside is left to do and nothing
/// else.
pub proof fn law_commands(app: AppModel, parent: Option<Seq<char>>)
    ensures
        app.after_command(KeyCommand::Next, parent) == app.after_next(),
        app.after_command(KeyCommand::Previous, parent) == app.after_previous(),
        app.after_command(KeyCommand::First, parent) == app.after_first(),
        app.after_command(KeyCommand::Last, parent) == app.after_last(),
        app.after_command(KeyCommand::Open, parent) == app.after_open(),
        app.after_command(KeyCommand::Parent, parent) == app.after_parent(parent),
        app.after_command(KeyCommand::Back, parent) == app.after_back(),
        app.after_command(KeyCommand::Forward, parent) == app.after_forward(),
        app.after_command(KeyCommand::RequestDelete, parent) == app.after_request_delete(),
        app.after_command(KeyCommand::CancelDelete, parent) == app.after_cancel_delete(),
        app.after_command(KeyCommand::Ignore, parent) == app,
        forall|command: KeyCommand| #[trigger]
            command_action(command) != Action::Continue ==> app.after_command(command, parent)
                == app,
        command_action(KeyCommand::Quit) == Action::Quit,
        command_action(KeyCommand::ConfirmDelete) == Action::Delete,
        command_action(KeyCommand::ScanCurrentDir) == Action::ScanCurrentDir,
        command_action(KeyCommand::ScanFullDisk) == Action::ScanFullDisk,
        command_action(KeyCommand::Save) == Action::Save,
        command_action(KeyCommand::Load) == Action::Load,
        command_action(KeyCommand::Ignore) == Action::Continue,
        command_action(KeyCommand::Open) == Action::Continue,
        command_action(KeyCommand::RequestDelete) == Action::Continue,
        command_action(KeyCommand::CancelDelete) == Action::Continue,
{
}

/// Moving the selection changes nothing but the selection.
pub proof fn law_selection_only(app: AppModel)
    ensures
        app.after_next() == (AppModel { selected: app.after_next().selected, ..app }),
        app.after_previous() == (AppModel { selected: app.after_previous().selected, ..app }),
        app.after_first() == (AppModel { selected: 0, ..app }),
        app.after_last() == (AppModel { selected: app.after_last().selected, ..app }),
        app.selected > 0 ==> app.after_previous().selected == app.selected - 1,
        app.selected == 0 ==> app.after_previous() == app,
        app.normalized() == (AppModel { selected: app.normalized().selected, ..app }),
        app.selected < app.entries().len() ==> app.normalized() == app,
        0 < app.entries().len() <= app.selected ==> app.normalized().selected + 1
            == app.entries().len(),
        app.entries().len() == 0 ==> app.normalized().selected == 0 && app.after_last().selected
            == 0,
{
}

/// Reports can be counted as long as no counter would pass what it can hold.
pub proof fn law_can_count(app: AppModel, events: Seq<ScanEventModel>)
    ensures
        app.scan_progress is None ==> app.can_count(events),
        app.scan_progress matches Some(progress) ==> (app.can_count(events) <==> {
            &&& progress.scanned_nodes + reports_of_kind(events, NodeKind::Directory)
                + reports_of_kind(events, NodeKind::File) + reports_of_kind(
                events,
                NodeKind::Symlink,
            ) <= u64::MAX
            &&& progress.warnings + reports_of_warnings(events) <= u64::MAX
        }),
{
    lemma_reports(events);
}

proof fn lemma_reports(events: Seq<ScanEventModel>)
    ensures
        scanned_reports(events) == reports_of_kind(events, NodeKind::Directory) + reports_of_kind(
            events,
            NodeKind::File,
        ) + reports_of_kind(events, NodeKind::Symlink),
        warning_reports(events) == reports_of_warnings(events),
    decreases events.len(),
{
    reveal(Seq::filter);
    if events.len() > 0 {
        lemma_reports(events.drop_last());
    }
}

} // verus!
