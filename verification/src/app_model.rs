//! The state of the browser as mathematical values, and what every event makes of it.

use vstd::prelude::*;

verus! {

use crate::model::{NodeKind, NodeModel, ScanResultModel, millis_text};
use crate::scanner::ScanEventModel;
use crate::tree::{child_at, find, recalculated, total, without_child};

/// The deletion that waits for a confirmation: the child `child_index` of the directory at
/// `dir_path`.
#[verifier::ext_equal]
pub struct PendingModel {
    pub dir_path: Seq<char>,
    pub child_index: nat,
    pub name: Seq<char>,
    pub path: Seq<char>,
    pub kind: NodeKind,
}

/// How far a running scan has come.
#[verifier::ext_equal]
pub struct ProgressModel {
    pub root: Seq<char>,
    pub current_path: Seq<char>,
    pub scanned_nodes: nat,
    pub scanned_dirs: nat,
    pub scanned_files: nat,
    pub scanned_symlinks: nat,
    pub warnings: nat,
}

/// How a scan ended.
#[verifier::ext_equal]
pub enum OutcomeModel {
    Finished(ScanResultModel),
    Failed(Seq<char>),
    Lost,
}

/// A key.
#[derive(Debug, Clone, Copy, PartialEq, Eq, Structural)]
pub enum Key {
    Char(char),
    Enter,
    Esc,
    Backspace,
    Up,
    Down,
    Left,
    Right,
    Home,
    End,
    Other,
}

/// What a key asks for.
#[derive(Debug, Clone, Copy, PartialEq, Eq, Structural)]
pub enum KeyCommand {
    Ignore,
    Quit,
    ConfirmDelete,
    CancelDelete,
    ScanCurrentDir,
    ScanFullDisk,
    Save,
    Load,
    Next,
    Previous,
    First,
    Last,
    Open,
    Parent,
    Back,
    Forward,
    RequestDelete,
}

/// What is left to do outside once a key has been handled.
#[derive(Debug, Clone, Copy, PartialEq, Eq, Structural)]
pub enum Action {
    /// Nothing.
    Continue,
    /// End the program.
    Quit,
    /// Delete the entry that waits for it from the disk, and report how that went.
    Delete,
    /// Scan the current directory.
    ScanCurrentDir,
    /// Scan the disk that the current directory lies on.
    ScanFullDisk,
    /// Save the result.
    Save,
    /// Load the saved result.
    Load,
}

/// The command of a key while nothing else is going on.
pub open spec fn browsing_command(key: Key) -> KeyCommand {
    match key {
        Key::Char(c) => if c == 'q' {
            KeyCommand::Quit
        } else if c == 's' {
            KeyCommand::ScanCurrentDir
        } else if c == 'a' {
            KeyCommand::ScanFullDisk
        } else if c == 'p' {
            KeyCommand::Save
        } else if c == 'o' {
            KeyCommand::Load
        } else if c == 'j' {
            KeyCommand::Next
        } else if c == 'k' {
            KeyCommand::Previous
        } else if c == 'l' {
            KeyCommand::Open
        } else if c == 'u' || c == 'h' {
            KeyCommand::Parent
        } else if c == 'b' || c == '[' {
            KeyCommand::Back
        } else if c == 'f' || c == ']' {
            KeyCommand::Forward
        } else if c == 'd' {
            KeyCommand::RequestDelete
        } else {
            KeyCommand::Ignore
        },
        Key::Down => KeyCommand::Next,
        Key::Up => KeyCommand::Previous,
        Key::Home => KeyCommand::First,
        Key::End => KeyCommand::Last,
        Key::Enter => KeyCommand::Open,
        Key::Backspace => KeyCommand::Parent,
        Key::Left => KeyCommand::Back,
        Key::Right => KeyCommand::Forward,
        Key::Esc => KeyCommand::Ignore,
        Key::Other => KeyCommand::Ignore,
    }
}

/// The command of a key while a deletion waits for a confirmation.
pub open spec fn confirming_command(key: Key) -> KeyCommand {
    if key == Key::Char('y') {
        KeyCommand::ConfirmDelete
    } else if key == Key::Char('n') || key == Key::Esc {
        KeyCommand::CancelDelete
    } else {
        KeyCommand::Ignore
    }
}

/// The state of the browser.
#[verifier::ext_equal]
pub struct AppModel {
    pub result: Option<ScanResultModel>,
    pub current_dir_path: Option<Seq<char>>,
    pub selected: nat,
    pub history: Seq<Seq<char>>,
    pub history_index: nat,
    pub status: Seq<char>,
    pub pending_delete: Option<PendingModel>,
    pub scan_progress: Option<ProgressModel>,
}

impl AppModel {
    /// The state at the beginning, with nothing loaded.
    pub open spec fn initial() -> AppModel {
        AppModel {
            result: None,
            current_dir_path: None,
            selected: 0,
            history: Seq::empty(),
            history_index: 0,
            status: "s: scan current dir / a: full disk scan / o: load / p: save"@,
            pending_delete: None,
            scan_progress: None,
        }
    }

    /// Whether a scan is running.
    pub open spec fn is_scanning(self) -> bool {
        self.scan_progress is Some
    }

    /// The directory that is shown.
    pub open spec fn current_dir(self) -> Option<NodeModel> {
        match self.result {
            Some(result) => find(
                result.root,
                match self.current_dir_path {
                    Some(path) => path,
                    None => result.root.path,
                },
            ),
            None => None,
        }
    }

    /// The entries that are listed.
    pub open spec fn entries(self) -> Seq<NodeModel> {
        match self.current_dir() {
            Some(dir) => dir.children,
            None => Seq::empty(),
        }
    }

    /// The entry that is selected.
    pub open spec fn entry(self) -> Option<NodeModel> {
        if self.selected < self.entries().len() {
            Some(self.entries()[self.selected as int])
        } else {
            None
        }
    }

    /// Whether the parts of the state fit together: a result comes with a current directory and
    /// a history that the history index points into; the selection is among the listed entries;
    /// every scanned entry was counted by its kind.
    pub open spec fn valid(self) -> bool {
        &&& self.result is Some <==> self.current_dir_path is Some
        &&& self.result is Some <==> self.history.len() > 0
        &&& self.history_index == 0 || self.history_index < self.history.len()
        &&& self.selected == 0 || self.selected < self.entries().len()
        &&& self.scan_progress matches Some(progress) ==> progress.scanned_nodes
            == progress.scanned_dirs + progress.scanned_files + progress.scanned_symlinks
    }

    /// The state with another status line.
    pub open spec fn with_status(self, status: Seq<char>) -> AppModel {
        AppModel { status, ..self }
    }

    /// The state after a result was loaded.
    pub open spec fn with_result(self, result: ScanResultModel) -> AppModel {
        AppModel {
            result: Some(result),
            current_dir_path: Some(result.root.path),
            selected: 0,
            history: seq![result.root.path],
            history_index: 0,
            pending_delete: None,
            status: "Scan loaded. Duration: "@ + millis_text(result.scan_duration_ms),
            ..self
        }
    }

    /// The state with a selection that is among the listed entries.
    pub open spec fn normalized(self) -> AppModel {
        let len = self.entries().len();
        AppModel {
            selected: if len == 0 {
                0
            } else if self.selected >= len {
                (len - 1) as nat
            } else {
                self.selected
            },
            ..self
        }
    }

    /// The state after moving the selection down.
    pub open spec fn after_next(self) -> AppModel {
        if self.selected + 1 < self.entries().len() {
            AppModel { selected: self.selected + 1, ..self }
        } else {
            self
        }
    }

    /// The state after moving the selection up.
    pub open spec fn after_previous(self) -> AppModel {
        if self.selected > 0 {
            AppModel { selected: (self.selected - 1) as nat, ..self }
        } else {
            self
        }
    }

    /// The state after moving the selection to the first entry.
    pub open spec fn after_first(self) -> AppModel {
        AppModel { selected: 0, ..self }
    }

    /// The state after moving the selection to the last entry.
    pub open spec fn after_last(self) -> AppModel {
        AppModel {
            selected: if self.entries().len() == 0 {
                0
            } else {
                (self.entries().len() - 1) as nat
            },
            ..self
        }
    }

    /// The state with the status line that tells the current directory, if there is one.
    pub open spec fn browsing(self) -> AppModel {
        match self.current_dir() {
            Some(dir) => self.with_status("Browsing "@ + dir.path),
            None => self,
        }
    }

    /// The history up to the current place.
    pub open spec fn past(self) -> Seq<Seq<char>> {
        if self.history_index + 1 < self.history.len() {
            self.history.take(self.history_index as int + 1)
        } else {
            self.history
        }
    }

    /// The state after going to `path`, which is written behind the current place of the history.
    pub open spec fn navigated(self, path: Seq<char>) -> AppModel {
        AppModel {
            current_dir_path: Some(path),
            selected: 0,
            history: self.past().push(path),
            history_index: self.past().len(),
            ..self
        }.browsing()
    }

    /// The state after opening the selected entry.
    pub open spec fn after_open(self) -> AppModel {
        match self.entry() {
            None => self.with_status("No entry selected"@),
            Some(entry) => if entry.kind == NodeKind::Directory {
                self.navigated(entry.path)
            } else {
                self.with_status("Selected entry is not a directory"@)
            },
        }
    }

    /// The state after going up, where `parent` is the parent of the current directory's path.
    pub open spec fn after_parent(self, parent: Option<Seq<char>>) -> AppModel {
        match (self.result, self.current_dir_path) {
            (None, _) => self.with_status("No scan data. Press s or a to start scanning."@),
            (Some(_), None) => self,
            (Some(result), Some(path)) => if path == result.root.path {
                self.with_status("Already at root"@)
            } else if parent matches Some(p) && p.len() > 0 && find(result.root, p) is Some {
                self.navigated(parent->0)
            } else {
                self.navigated(result.root.path)
            },
        }
    }

    /// The state after going to the place `index` of the history.
    pub open spec fn restored(self, index: nat) -> AppModel {
        let moved = AppModel { history_index: index, ..self };
        match self.result {
            None => moved,
            Some(result) => if index >= self.history.len() {
                moved
            } else if find(result.root, self.history[index as int]) is Some {
                AppModel {
                    current_dir_path: Some(self.history[index as int]),
                    selected: 0,
                    ..moved
                }.browsing()
            } else {
                AppModel {
                    current_dir_path: Some(result.root.path),
                    selected: 0,
                    history: self.history.update(index as int, result.root.path),
                    status: "History target no longer exists; moved to root"@,
                    ..moved
                }
            },
        }
    }

    /// The state after going back in the history.
    pub open spec fn after_back(self) -> AppModel {
        if self.history_index == 0 {
            self.with_status("No older history"@)
        } else {
            self.restored((self.history_index - 1) as nat)
        }
    }

    /// The state after going forward in the history.
    pub open spec fn after_forward(self) -> AppModel {
        if self.history_index + 1 >= self.history.len() {
            self.with_status("No newer history"@)
        } else {
            self.restored(self.history_index + 1)
        }
    }

    /// The state after the deletion of the selected entry was asked for.
    pub open spec fn after_request_delete(self) -> AppModel {
        match (self.entry(), self.current_dir_path) {
            (None, _) => self.with_status("No entry selected"@),
            (Some(_), None) => self.with_status("No directory selected"@),
            (Some(entry), Some(path)) => AppModel {
                pending_delete: Some(
                    PendingModel {
                        dir_path: path,
                        child_index: self.selected,
                        name: entry.name,
                        path: entry.path,
                        kind: entry.kind,
                    },
                ),
                ..self
            },
        }
    }

    /// The state after a deletion was called off.
    pub open spec fn after_cancel_delete(self) -> AppModel {
        AppModel { pending_delete: None, status: "Delete canceled"@, ..self }
    }

    /// Whether the sizes that are left once the waiting deletion is done can be held.
    pub open spec fn deletion_fits(self) -> bool {
        match (self.pending_delete, self.result) {
            (Some(pending), Some(result)) => child_at(
                result.root,
                pending.dir_path,
                pending.child_index as int,
            ) is Some ==> total(
                without_child(result.root, pending.dir_path, pending.child_index as int),
            ) <= u64::MAX,
            _ => true,
        }
    }

    /// The state after the waiting deletion, where `failure` says why the entry could not be
    /// deleted from the disk.
    pub open spec fn after_delete(self, failure: Option<Seq<char>>) -> AppModel {
        match self.pending_delete {
            None => self,
            Some(pending) => {
                let done = AppModel { pending_delete: None, ..self };
                match (failure, self.result) {
                    (Some(error), _) => done.with_status("Delete failed: "@ + error),
                    (None, None) => done.with_status(
                        "Deleted on disk, but no loaded tree to update"@,
                    ),
                    (None, Some(result)) => if child_at(
                        result.root,
                        pending.dir_path,
                        pending.child_index as int,
                    ) is Some {
                        let root = recalculated(
                            without_child(
                                result.root,
                                pending.dir_path,
                                pending.child_index as int,
                            ),
                        );
                        AppModel {
                            result: Some(ScanResultModel { root, ..result }),
                            ..done
                        }.normalized().with_status("Deleted "@ + pending.name)
                    } else {
                        done.with_status("Deleted on disk, but in-memory tree update failed"@)
                    },
                }
            },
        }
    }

    /// The directory to scan, or none for the one that the program runs in.
    pub open spec fn scan_target(self) -> Option<Seq<char>> {
        match self.current_dir() {
            Some(dir) => Some(dir.path),
            None => None,
        }
    }

    /// The state after a scan of `target` was started.
    pub open spec fn after_start_scan(self, target: Seq<char>) -> AppModel {
        if self.is_scanning() {
            self.with_status("Scan is already running"@)
        } else {
            AppModel {
                scan_progress: Some(
                    ProgressModel {
                        root: target,
                        current_path: target,
                        scanned_nodes: 0,
                        scanned_dirs: 0,
                        scanned_files: 0,
                        scanned_symlinks: 0,
                        warnings: 0,
                    },
                ),
                pending_delete: None,
                status: "Scanning started: "@ + target,
                ..self
            }
        }
    }

    /// The state after the result was written to the file `file`, or why it could not be.
    pub open spec fn after_save(self, file: Seq<char>, failure: Option<Seq<char>>) -> AppModel {
        match failure {
            None => self.with_status("Saved: "@ + file),
            Some(error) => self.with_status("Save failed: "@ + error),
        }
    }

    /// The state after a result was read from the file `file`, or why it could not be.
    pub open spec fn after_load(
        self,
        file: Seq<char>,
        outcome: Result<ScanResultModel, Seq<char>>,
    ) -> AppModel {
        match outcome {
            Ok(result) => self.with_result(result).with_status("Loaded: "@ + file),
            Err(error) => self.with_status("Load failed: "@ + error),
        }
    }

    /// The state after a report of the running scan.
    pub open spec fn after_event(self, event: ScanEventModel) -> AppModel {
        match self.scan_progress {
            None => self,
            Some(progress) => match event {
                ScanEventModel::Started { root } => AppModel {
                    scan_progress: Some(ProgressModel { root, current_path: root, ..progress }),
                    ..self
                },
                ScanEventModel::Scanned { path, kind } => AppModel {
                    scan_progress: Some(
                        ProgressModel {
                            current_path: path,
                            scanned_nodes: progress.scanned_nodes + 1,
                            scanned_dirs: progress.scanned_dirs + (if kind == NodeKind::Directory {
                                1nat
                            } else {
                                0nat
                            }),
                            scanned_files: progress.scanned_files + (if kind == NodeKind::File {
                                1nat
                            } else {
                                0nat
                            }),
                            scanned_symlinks: progress.scanned_symlinks + (if kind
                                == NodeKind::Symlink {
                                1nat
                            } else {
                                0nat
                            }),
                            ..progress
                        },
                    ),
                    ..self
                },
                ScanEventModel::Warning { message } => AppModel {
                    scan_progress: Some(
                        ProgressModel { warnings: progress.warnings + 1, ..progress },
                    ),
                    status: "Warning: "@ + message,
                    ..self
                },
            },
        }
    }

    /// The state after reports of the running scan, one after the other.
    pub open spec fn after_events(self, events: Seq<ScanEventModel>) -> AppModel
        decreases events.len(),
    {
        if events.len() == 0 {
            self
        } else {
            self.after_events(events.drop_last()).after_event(events.last())
        }
    }

    /// Whether the reports can be counted.
    pub open spec fn can_count(self, events: Seq<ScanEventModel>) -> bool {
        self.scan_progress matches Some(progress) ==> {
            &&& progress.scanned_nodes + scanned_reports(events) <= u64::MAX
            &&& progress.warnings + warning_reports(events) <= u64::MAX
        }
    }

    /// The state after the running scan ended.
    pub open spec fn after_scan(self, outcome: OutcomeModel) -> AppModel {
        let ended = AppModel { scan_progress: None, ..self };
        match outcome {
            OutcomeModel::Finished(result) => ended.with_result(result).with_status(
                "Scan completed in "@ + millis_text(result.scan_duration_ms),
            ),
            OutcomeModel::Failed(error) => ended.with_status("Scan failed: "@ + error),
            OutcomeModel::Lost => ended.with_status("Scan task ended unexpectedly"@),
        }
    }

    /// The state after looking for reports of the running scan and for its end.
    pub open spec fn after_poll(
        self,
        events: Seq<ScanEventModel>,
        outcome: Option<OutcomeModel>,
    ) -> AppModel {
        let reported = self.after_events(events);
        match outcome {
            Some(end) => if reported.is_scanning() {
                reported.after_scan(end)
            } else {
                reported
            },
            None => reported,
        }
    }

    /// What a key asks for: while a deletion waits, only whether to do it; while a scan runs,
    /// only to quit.
    pub open spec fn key_command(self, key: Key) -> KeyCommand {
        if self.pending_delete is Some {
            confirming_command(key)
        } else if self.is_scanning() {
            if key == Key::Char('q') {
                KeyCommand::Quit
            } else {
                KeyCommand::Ignore
            }
        } else {
            browsing_command(key)
        }
    }

    /// The state after a command, where `parent` is the parent of the current directory's path.
    pub open spec fn after_command(
        self,
        command: KeyCommand,
        parent: Option<Seq<char>>,
    ) -> AppModel {
        match command {
            KeyCommand::CancelDelete => self.after_cancel_delete(),
            KeyCommand::Next => self.after_next(),
            KeyCommand::Previous => self.after_previous(),
            KeyCommand::First => self.after_first(),
            KeyCommand::Last => self.after_last(),
            KeyCommand::Open => self.after_open(),
            KeyCommand::Parent => self.after_parent(parent),
            KeyCommand::Back => self.after_back(),
            KeyCommand::Forward => self.after_forward(),
            KeyCommand::RequestDelete => self.after_request_delete(),
            _ => self,
        }
    }
}

/// What is left to do outside once a command has been handled.
pub open spec fn command_action(command: KeyCommand) -> Action {
    match command {
        KeyCommand::Quit => Action::Quit,
        KeyCommand::ConfirmDelete => Action::Delete,
        KeyCommand::ScanCurrentDir => Action::ScanCurrentDir,
        KeyCommand::ScanFullDisk => Action::ScanFullDisk,
        KeyCommand::Save => Action::Save,
        KeyCommand::Load => Action::Load,
        _ => Action::Continue,
    }
}

/// How many of a list of reports are of scanned entries.
pub open spec fn scanned_reports(events: Seq<ScanEventModel>) -> nat
    decreases events.len(),
{
    if events.len() == 0 {
        0
    } else {
        scanned_reports(events.drop_last()) + (if events.last() is Scanned {
            1nat
        } else {
            0nat
        })
    }
}

/// How many of a list of reports are warnings.
pub open spec fn warning_reports(events: Seq<ScanEventModel>) -> nat
    decreases events.len(),
{
    if events.len() == 0 {
        0
    } else {
        warning_reports(events.drop_last()) + (if events.last() is Warning {
            1nat
        } else {
            0nat
        })
    }
}

} // verus!
