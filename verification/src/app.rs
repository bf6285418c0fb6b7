//! The browser: a loaded result, a place in it, and what keys and running scans do to them.

use vstd::prelude::*;
use vstd::string::*;

use crate::app_model::{Action, Key, KeyCommand};
use crate::model::{format_duration_ms, Node, NodeKind, ScanResult};
use crate::path::parent_path;
use crate::scanner::ScanProgressEvent;
use crate::storage::{parse_result, result_to_json, MAX_SAVED_HEIGHT};
use crate::text::{same_text, text2};
use crate::tree::{
    find_node_by_path,
    recalculate_sizes_and_sort,
    remove_child_by_dir_path,
    tree_total,
};

verus! {

use crate::app_model::{
    AppModel,
    OutcomeModel,
    PendingModel,
    ProgressModel,
    browsing_command,
    command_action,
    confirming_command,
    scanned_reports,
    warning_reports,
};
use crate::model::ScanResultModel;
use crate::path::{law_plain_parent, parent_by, plainly_in, Separators};
use crate::scanner::{ScanEventModel, event_models};
use crate::storage::{height, loaded, numbers_fit, result_text};
use crate::text::{optional_text, texts};

/// An entry without the entries below it.
#[derive(Debug)]
pub struct FlatNode {
    pub name: String,
    pub path: String,
    pub kind: NodeKind,
    pub size: u64,
    pub child_count: usize,
}

/// A deletion that waits for a confirmation.
#[derive(Debug)]
pub struct PendingDelete {
    pub dir_path: String,
    pub child_index: usize,
    pub name: String,
    pub path: String,
    pub kind: NodeKind,
}

impl View for PendingDelete {
    type V = PendingModel;

    open spec fn view(&self) -> PendingModel {
        PendingModel {
            dir_path: self.dir_path@,
            child_index: self.child_index as nat,
            name: self.name@,
            path: self.path@,
            kind: self.kind,
        }
    }
}

/// How far a running scan has come.
#[derive(Debug)]
pub struct ScanProgressState {
    pub root: String,
    pub current_path: String,
    pub scanned_nodes: u64,
    pub scanned_dirs: u64,
    pub scanned_files: u64,
    pub scanned_symlinks: u64,
    pub warnings: u64,
}

impl View for ScanProgressState {
    type V = ProgressModel;

    open spec fn view(&self) -> ProgressModel {
        ProgressModel {
            root: self.root@,
            current_path: self.current_path@,
            scanned_nodes: self.scanned_nodes as nat,
            scanned_dirs: self.scanned_dirs as nat,
            scanned_files: self.scanned_files as nat,
            scanned_symlinks: self.scanned_symlinks as nat,
            warnings: self.warnings as nat,
        }
    }
}

/// How a scan ended.
#[derive(Debug)]
pub enum ScanOutcome {
    /// With a result.
    Finished(ScanResult),
    /// With an error.
    Failed(String),
    /// Without a word.
    Lost,
}

impl View for ScanOutcome {
    type V = OutcomeModel;

    open spec fn view(&self) -> OutcomeModel {
        match self {
            ScanOutcome::Finished(result) => OutcomeModel::Finished(result@),
            ScanOutcome::Failed(error) => OutcomeModel::Failed(error@),
            ScanOutcome::Lost => OutcomeModel::Lost,
        }
    }
}

/// The content of an end that may not have come.
pub open spec fn optional_outcome(outcome: Option<ScanOutcome>) -> Option<OutcomeModel> {
    match outcome {
        Some(end) => Some(end@),
        None => None,
    }
}

/// The browser.
#[derive(Debug)]
pub struct App {
    result: Option<ScanResult>,
    current_dir_path: Option<String>,
    selected: usize,
    history: Vec<String>,
    history_index: usize,
    status: String,
    pending_delete: Option<PendingDelete>,
    scan_progress: Option<ScanProgressState>,
}

impl View for App {
    type V = AppModel;

    closed spec fn view(&self) -> AppModel {
        AppModel {
            result: match self.result {
                Some(result) => Some(result@),
                None => None,
            },
            current_dir_path: optional_text(self.current_dir_path),
            selected: self.selected as nat,
            history: texts(self.history@),
            history_index: self.history_index as nat,
            status: self.status@,
            pending_delete: match self.pending_delete {
                Some(pending) => Some(pending@),
                None => None,
            },
            scan_progress: match self.scan_progress {
                Some(progress) => Some(progress@),
                None => None,
            },
        }
    }
}

impl App {
    /// The browser with a first result, if there is one.
    pub fn new(initial_result: Option<ScanResult>) -> (app: App)
        ensures
            app@.valid(),
            app@ == match initial_result {
                Some(result) => AppModel::initial().with_result(result@),
                None => AppModel::initial(),
            },
    {
        let mut app = App {
            result: None,
            current_dir_path: None,
            selected: 0,
            history: Vec::new(),
            history_index: 0,
            status: String::from_str("s: scan current dir / a: full disk scan / o: load / p: save"),
            pending_delete: None,
            scan_progress: None,
        };
        assert(app@ =~= AppModel::initial());
        if let Some(result) = initial_result {
            app.set_result(result);
        }
        app
    }

    /// Shows a result, from its root.
    pub fn set_result(&mut self, result: ScanResult)
        requires
            old(self)@.valid(),
        ensures
            final(self)@.valid(),
            final(self)@ == old(self)@.with_result(result@),
    {
        let root_path = result.root.path.clone();
        let duration = format_duration_ms(result.scan_duration_ms);
        self.result = Some(result);
        self.current_dir_path = Some(root_path.clone());
        self.selected = 0;
        let mut history: Vec<String> = Vec::new();
        history.push(root_path);
        self.history = history;
        self.history_index = 0;
        self.pending_delete = None;
        self.status = text2("Scan loaded. Duration: ", duration.as_str());
        assert(self@ =~= old(self)@.with_result(result@));
    }

    /// Whether a scan is running.
    pub fn is_scanning(&self) -> (scanning: bool)
        ensures
            scanning == self@.is_scanning(),
    {
        self.scan_progress.is_some()
    }

    /// The result that is shown.
    pub fn result(&self) -> (result: Option<&ScanResult>)
        ensures
            match result {
                Some(r) => self@.result == Some(r@),
                None => self@.result is None,
            },
    {
        match &self.result {
            Some(result) => Some(result),
            None => None,
        }
    }

    /// The status line.
    pub fn status(&self) -> (status: &str)
        ensures
            status@ == self@.status,
    {
        self.status.as_str()
    }

    /// The place of the selection among the listed entries.
    pub fn selected(&self) -> (selected: usize)
        ensures
            selected == self@.selected,
    {
        self.selected
    }

    /// The current place in the history.
    pub fn history_index(&self) -> (index: usize)
        ensures
            index == self@.history_index,
    {
        self.history_index
    }

    /// The number of places in the history.
    pub fn history_len(&self) -> (len: usize)
        ensures
            len == self@.history.len(),
    {
        self.history.len()
    }

    /// The deletion that waits for a confirmation.
    pub fn pending_delete(&self) -> (pending: Option<&PendingDelete>)
        ensures
            match pending {
                Some(p) => self@.pending_delete == Some(p@),
                None => self@.pending_delete is None,
            },
    {
        match &self.pending_delete {
            Some(pending) => Some(pending),
            None => None,
        }
    }

    /// How far the running scan has come.
    pub fn scan_progress(&self) -> (progress: Option<&ScanProgressState>)
        ensures
            match progress {
                Some(p) => self@.scan_progress == Some(p@),
                None => self@.scan_progress is None,
            },
    {
        match &self.scan_progress {
            Some(progress) => Some(progress),
            None => None,
        }
    }

    /// The directory that is shown.
    pub fn current_dir(&self) -> (dir: Option<&Node>)
        ensures
            match dir {
                Some(node) => self@.current_dir() == Some(node@),
                None => self@.current_dir() is None,
            },
    {
        match &self.result {
            None => None,
            Some(result) => match &self.current_dir_path {
                Some(path) => find_node_by_path(&result.root, path.as_str()),
                None => find_node_by_path(&result.root, result.root.path.as_str()),
            },
        }
    }

    fn entry(&self) -> (entry: Option<&Node>)
        ensures
            match entry {
                Some(node) => self@.entry() == Some(node@),
                None => self@.entry() is None,
            },
    {
        match self.current_dir() {
            None => None,
            Some(dir) => if self.selected < dir.children.len() {
                assert(dir@.children[self.selected as int] == dir.children@[self.selected as int]@);
                Some(&dir.children[self.selected])
            } else {
                None
            },
        }
    }

    /// The entry that is selected.
    pub fn selected_node(&self) -> (entry: Option<FlatNode>)
        ensures
            match entry {
                Some(flat) => self@.entry() matches Some(node) && flat.name@ == node.name
                    && flat.path@ == node.path && flat.kind == node.kind && flat.size == node.size
                    && flat.child_count == node.children.len(),
                None => self@.entry() is None,
            },
    {
        match self.entry() {
            None => None,
            Some(node) => Some(
                FlatNode {
                    name: node.name.clone(),
                    path: node.path.clone(),
                    kind: node.kind,
                    size: node.size,
                    child_count: node.child_count(),
                },
            ),
        }
    }

    /// The number of listed entries.
    pub fn current_children_len(&self) -> (len: usize)
        ensures
            len == self@.entries().len(),
    {
        match self.current_dir() {
            Some(dir) => dir.children.len(),
            None => 0,
        }
    }

    fn normalize_selection(&mut self)
        ensures
            final(self)@ == old(self)@.normalized(),
    {
        let len: usize = self.current_children_len();
        if len == 0 {
            self.selected = 0;
        } else if self.selected >= len {
            self.selected = len - 1;
        }
    }

    /// Moves the selection down.
    pub fn next(&mut self)
        requires
            old(self)@.valid(),
        ensures
            final(self)@.valid(),
            final(self)@ == old(self)@.after_next(),
    {
        let len: usize = self.current_children_len();
        if len == 0 {
            return;
        }
        if self.selected + 1 < len {
            self.selected = self.selected + 1;
        }
    }

    /// Moves the selection up.
    pub fn previous(&mut self)
        requires
            old(self)@.valid(),
        ensures
            final(self)@.valid(),
            final(self)@ == old(self)@.after_previous(),
    {
        if self.selected > 0 {
            self.selected = self.selected - 1;
        }
    }

    /// Moves the selection to the first entry.
    pub fn select_first(&mut self)
        requires
            old(self)@.valid(),
        ensures
            final(self)@.valid(),
            final(self)@ == old(self)@.after_first(),
    {
        self.selected = 0;
    }

    /// Moves the selection to the last entry.
    pub fn select_last(&mut self)
        requires
            old(self)@.valid(),
        ensures
            final(self)@.valid(),
            final(self)@ == old(self)@.after_last(),
    {
        let len: usize = self.current_children_len();
        self.selected = if len == 0 {
            0
        } else {
            len - 1
        };
    }

    /// Opens the selected entry, if it is a directory.
    pub fn open_selected_directory(&mut self)
        requires
            old(self)@.valid(),
        ensures
            final(self)@.valid(),
            final(self)@ == old(self)@.after_open(),
    {
        let target: Option<(NodeKind, String)> = match self.entry() {
            Some(node) => Some((node.kind, node.path.clone())),
            None => None,
        };
        match target {
            None => {
                self.status = String::from_str("No entry selected");
            },
            Some((kind, path)) => {
                if kind != NodeKind::Directory {
                    self.status = String::from_str("Selected entry is not a directory");
                } else {
                    self.navigate_to(path);
                }
            },
        }
    }

    /// Goes to the parent of the current directory if it is in the result, and else to the root.
    pub fn go_parent(&mut self)
        requires
            old(self)@.valid(),
        ensures
            final(self)@.valid(),
            old(self)@.current_dir_path matches Some(path) ==> forall|
                dir: Seq<char>,
                name: Seq<char>,
            | #[trigger]
                plainly_in(path, dir, name) ==> final(self)@ == old(self)@.after_parent(Some(dir)),
            old(self)@.current_dir_path matches Some(path) ==> exists|
                separators: Separators,
                parent: Option<Seq<char>>,
            | #[trigger]
                parent_by(separators, path, parent) && final(self)@ == old(self)@.after_parent(
                    parent,
                ),
            old(self)@.current_dir_path is None ==> final(self)@ == old(self)@.after_parent(None),
    {
        let parent = match &self.current_dir_path {
            Some(path) => parent_path(path.as_str()),
            None => None,
        };
        let ghost found = optional_text(parent);
        self.go_parent_to(parent);
        proof {
            if let Some(path) = old(self)@.current_dir_path {
                let separators = choose|separators: Separators| #[trigger]
                    parent_by(separators, path, found);
                assert forall|dir: Seq<char>, name: Seq<char>| #[trigger]
                    plainly_in(path, dir, name) implies self@ == old(self)@.after_parent(
                    Some(dir),
                ) by {
                    law_plain_parent(separators, path, found, dir, name);
                }
                assert(parent_by(separators, path, found));
            }
        }
    }

    /// Goes to `parent` if it is in the result, and else to the root.
    pub fn go_parent_to(&mut self, parent: Option<String>)
        requires
            old(self)@.valid(),
        ensures
            final(self)@.valid(),
            final(self)@ == old(self)@.after_parent(optional_text(parent)),
    {
        let target: Option<String> = match (&self.result, &self.current_dir_path) {
            (Some(result), Some(path)) => {
                if same_text(path.as_str(), result.root.path.as_str()) {
                    self.status = String::from_str("Already at root");
                    return;
                }
                match parent {
                    Some(p) => if !p.as_str().is_empty() && find_node_by_path(
                        &result.root,
                        p.as_str(),
                    ).is_some() {
                        Some(p)
                    } else {
                        Some(result.root.path.clone())
                    },
                    None => Some(result.root.path.clone()),
                }
            },
            _ => None,
        };
        match target {
            None => {
                self.status = String::from_str("No scan data. Press s or a to start scanning.");
            },
            Some(path) => {
                self.navigate_to(path);
            },
        }
    }

    /// Goes back in the history.
    pub fn history_back(&mut self)
        requires
            old(self)@.valid(),
        ensures
            final(self)@.valid(),
            final(self)@ == old(self)@.after_back(),
    {
        if self.history_index == 0 {
            self.status = String::from_str("No older history");
            return;
        }
        let index: usize = self.history_index - 1;
        self.restore_history_path(index);
    }

    /// Goes forward in the history.
    pub fn history_forward(&mut self)
        requires
            old(self)@.valid(),
        ensures
            final(self)@.valid(),
            final(self)@ == old(self)@.after_forward(),
    {
        if self.history.len() <= 1 || self.history_index >= self.history.len() - 1 {
            self.status = String::from_str("No newer history");
            return;
        }
        let index: usize = self.history_index + 1;
        self.restore_history_path(index);
    }

    fn tell_current_dir(&mut self)
        ensures
            final(self)@ == old(self)@.browsing(),
    {
        let status: Option<String> = match self.current_dir() {
            Some(dir) => Some(text2("Browsing ", dir.path.as_str())),
            None => None,
        };
        if let Some(text) = status {
            self.status = text;
        }
    }

    fn navigate_to(&mut self, next_path: String)
        requires
            old(self)@.valid(),
            old(self)@.result is Some,
        ensures
            final(self)@.valid(),
            final(self)@ == old(self)@.navigated(next_path@),
    {
        self.current_dir_path = Some(next_path.clone());
        self.selected = 0;
        if self.history_index < self.history.len() - 1 {
            self.history.truncate(self.history_index + 1);
        }
        assert(texts(self.history@) =~= old(self)@.past());
        let ghost past = self.history@;
        self.history.push(next_path);
        self.history_index = self.history.len() - 1;
        proof {
            assert(texts(past.push(next_path)) =~= texts(past).push(next_path@));
        }
        self.tell_current_dir();
    }

    fn restore_history_path(&mut self, index: usize)
        requires
            old(self)@.valid(),
            index < old(self)@.history.len(),
        ensures
            final(self)@.valid(),
            final(self)@ == old(self)@.restored(index as nat),
    {
        self.history_index = index;
        let path = self.history[index].clone();
        let root_path: Option<String> = match &self.result {
            None => {
                return;
            },
            Some(result) => if find_node_by_path(&result.root, path.as_str()).is_some() {
                None
            } else {
                Some(result.root.path.clone())
            },
        };
        match root_path {
            None => {
                self.current_dir_path = Some(path);
                self.selected = 0;
                self.tell_current_dir();
            },
            Some(root) => {
                let ghost before = self.history@;
                self.current_dir_path = Some(root.clone());
                self.selected = 0;
                self.history.set(index, root);
                self.status = String::from_str("History target no longer exists; moved to root");
                assert(texts(self.history@) =~= texts(before).update(index as int, root@));
            },
        }
    }

    /// Asks whether to delete the selected entry.
    pub fn request_delete(&mut self)
        requires
            old(self)@.valid(),
        ensures
            final(self)@.valid(),
            final(self)@ == old(self)@.after_request_delete(),
    {
        let pending: Option<PendingDelete> = match (self.entry(), &self.current_dir_path) {
            (Some(node), Some(path)) => Some(
                PendingDelete {
                    dir_path: path.clone(),
                    child_index: self.selected,
                    name: node.name.clone(),
                    path: node.path.clone(),
                    kind: node.kind,
                },
            ),
            _ => None,
        };
        match pending {
            Some(p) => {
                self.pending_delete = Some(p);
            },
            None => {
                self.status = String::from_str("No entry selected");
            },
        }
    }

    /// Calls the waiting deletion off.
    pub fn cancel_delete(&mut self)
        requires
            old(self)@.valid(),
        ensures
            final(self)@.valid(),
            final(self)@ == old(self)@.after_cancel_delete(),
    {
        self.pending_delete = None;
        self.status = String::from_str("Delete canceled");
    }

    /// Whether the sizes that are left once the waiting deletion is done can be held.
    pub fn deletion_fits(&self) -> (fits: bool)
        ensures
            fits == self@.deletion_fits(),
    {
        match (&self.pending_delete, &self.result) {
            (Some(pending), Some(result)) => {
                let mut root = result.root.clone();
                match remove_child_by_dir_path(
                    &mut root,
                    pending.dir_path.as_str(),
                    pending.child_index,
                ) {
                    None => true,
                    Some(_) => tree_total(&root).is_some(),
                }
            },
            _ => true,
        }
    }

    /// Does the waiting deletion in the result, where `failure` says why the entry could not be
    /// deleted from the disk.
    pub fn confirm_delete(&mut self, failure: Option<String>)
        requires
            old(self)@.valid(),
            failure is None ==> old(self)@.deletion_fits(),
        ensures
            final(self)@.valid(),
            final(self)@ == old(self)@.after_delete(optional_text(failure)),
    {
        let pending = match self.pending_delete.take() {
            None => {
                return;
            },
            Some(pending) => pending,
        };
        if let Some(error) = failure {
            self.status = text2("Delete failed: ", error.as_str());
            return;
        }
        match self.result.take() {
            None => {
                self.status = String::from_str("Deleted on disk, but no loaded tree to update");
            },
            Some(mut result) => {
                let removed = remove_child_by_dir_path(
                    &mut result.root,
                    pending.dir_path.as_str(),
                    pending.child_index,
                );
                if removed.is_none() {
                    self.result = Some(result);
                    self.status = String::from_str(
                        "Deleted on disk, but in-memory tree update failed",
                    );
                    return;
                }
                recalculate_sizes_and_sort(&mut result.root);
                self.result = Some(result);
                self.normalize_selection();
                self.status = text2("Deleted ", pending.name.as_str());
            },
        }
    }

    /// The directory to scan, or none for the one that the program runs in.
    pub fn scan_target(&self) -> (target: Option<String>)
        ensures
            optional_text(target) == self@.scan_target(),
    {
        match self.current_dir() {
            Some(dir) => Some(dir.path.clone()),
            None => None,
        }
    }

    /// Notes that the root of the disk could not be found.
    pub fn disk_root_failed(&mut self, error: &str)
        requires
            old(self)@.valid(),
        ensures
            final(self)@.valid(),
            final(self)@ == old(self)@.with_status("Failed to resolve disk root: "@ + error@),
    {
        self.status = text2("Failed to resolve disk root: ", error);
    }

    /// Notes that a scan of `target` begins. Returns whether it is to begin: while a scan is
    /// running there is no second one.
    pub fn start_scan(&mut self, target: &str) -> (begins: bool)
        requires
            old(self)@.valid(),
        ensures
            final(self)@.valid(),
            final(self)@ == old(self)@.after_start_scan(target@),
            begins == !old(self)@.is_scanning(),
    {
        if self.is_scanning() {
            self.status = String::from_str("Scan is already running");
            return false;
        }
        self.scan_progress = Some(
            ScanProgressState {
                root: String::from_str(target),
                current_path: String::from_str(target),
                scanned_nodes: 0,
                scanned_dirs: 0,
                scanned_files: 0,
                scanned_symlinks: 0,
                warnings: 0,
            },
        );
        self.pending_delete = None;
        self.status = text2("Scanning started: ", target);
        true
    }

    /// The text to save, if there is a result.
    pub fn save_default(&mut self) -> (text: Option<String>)
        requires
            old(self)@.valid(),
        ensures
            final(self)@.valid(),
            match text {
                Some(t) => old(self)@.result matches Some(result) && t@ == result_text(result)
                    && final(self)@ == old(self)@,
                None => old(self)@.result is None && final(self)@ == old(self)@.with_status(
                    "No scan result to save"@,
                ),
            },
    {
        let text: Option<String> = match &self.result {
            Some(result) => Some(result_to_json(result)),
            None => None,
        };
        if text.is_none() {
            self.status = String::from_str("No scan result to save");
        }
        text
    }

    /// Notes that the text to save was written to the file `file`, or why it could not be.
    pub fn save_finished(&mut self, file: &str, failure: Option<String>)
        requires
            old(self)@.valid(),
        ensures
            final(self)@.valid(),
            final(self)@ == old(self)@.after_save(file@, optional_text(failure)),
    {
        match failure {
            None => {
                self.status = text2("Saved: ", file);
            },
            Some(error) => {
                self.status = text2("Save failed: ", error.as_str());
            },
        }
    }

    /// Shows the result that the file `file` holds, from its text or why it could not be read.
    pub fn load_default(&mut self, file: &str, content: Result<String, String>)
        requires
            old(self)@.valid(),
        ensures
            final(self)@.valid(),
            final(self)@ == old(self)@.after_load(
                file@,
                match content {
                    Ok(text) => loaded(text@),
                    Err(error) => Err(error@),
                },
            ),
            content matches Ok(text) ==> forall|saved: ScanResultModel| #[trigger]
                result_text(saved) == text@ && numbers_fit(saved) && height(saved.root)
                    <= MAX_SAVED_HEIGHT ==> final(self)@ == old(self)@.after_load(file@, Ok(saved)),
    {
        let outcome = match content {
            Ok(text) => parse_result(text.as_str()),
            Err(error) => Err(error),
        };
        self.load_finished(file, outcome);
    }

    /// Shows a result that the file `file` held, or notes why there is none.
    pub fn load_finished(&mut self, file: &str, outcome: Result<ScanResult, String>)
        requires
            old(self)@.valid(),
        ensures
            final(self)@.valid(),
            final(self)@ == old(self)@.after_load(
                file@,
                match outcome {
                    Ok(result) => Ok(result@),
                    Err(error) => Err(error@),
                },
            ),
    {
        match outcome {
            Ok(result) => {
                self.set_result(result);
                self.status = text2("Loaded: ", file);
            },
            Err(error) => {
                self.status = text2("Load failed: ", error.as_str());
            },
        }
    }

    /// Whether the reports can be counted.
    pub fn can_count(&self, events: &Vec<ScanProgressEvent>) -> (fits: bool)
        ensures
            fits == self@.can_count(event_models(events@)),
    {
        match &self.scan_progress {
            None => true,
            Some(progress) => {
                let ghost all = event_models(events@);
                let mut scanned: u64 = progress.scanned_nodes;
                let mut warnings: u64 = progress.warnings;
                let mut i: usize = 0;
                while i < events.len()
                    invariant
                        i <= events.len(),
                        all == event_models(events@),
                        self@.scan_progress == Some(progress@),
                        scanned == progress.scanned_nodes + scanned_reports(all.take(i as int)),
                        warnings == progress.warnings + warning_reports(all.take(i as int)),
                    decreases events.len() - i,
                {
                    proof {
                        lemma_reports_prefix(all, i as int);
                    }
                    match &events[i] {
                        ScanProgressEvent::Started { .. } => {},
                        ScanProgressEvent::Scanned { .. } => {
                            if scanned == u64::MAX {
                                return false;
                            }
                            scanned = scanned + 1;
                        },
                        ScanProgressEvent::Warning { .. } => {
                            if warnings == u64::MAX {
                                return false;
                            }
                            warnings = warnings + 1;
                        },
                    }
                    i += 1;
                }
                assert(all.take(i as int) =~= all);
                true
            },
        }
    }

    /// Takes in the reports of the running scan that have come and its end, if it has come.
    pub fn poll_background(&mut self, events: Vec<ScanProgressEvent>, outcome: Option<ScanOutcome>)
        requires
            old(self)@.valid(),
            old(self)@.can_count(event_models(events@)),
        ensures
            final(self)@.valid(),
            final(self)@ == old(self)@.after_poll(event_models(events@), optional_outcome(outcome)),
    {
        let ghost all = event_models(events@);
        let mut i: usize = 0;
        assert(all.take(0) =~= Seq::empty());
        while i < events.len()
            invariant
                i <= events.len(),
                all == event_models(events@),
                self@.valid(),
                self@ == old(self)@.after_events(all.take(i as int)),
                old(self)@.can_count(all),
            decreases events.len() - i,
        {
            proof {
                lemma_reports_prefix(all, i as int);
                lemma_counted(old(self)@, all.take(i as int));
                assert(all.take(i + 1).drop_last() =~= all.take(i as int));
            }
            self.apply_progress_event(&events[i]);
            i += 1;
        }
        assert(all.take(i as int) =~= all);
        if let Some(end) = outcome {
            if self.is_scanning() {
                self.scan_progress = None;
                match end {
                    ScanOutcome::Finished(result) => {
                        let duration = format_duration_ms(result.scan_duration_ms);
                        self.set_result(result);
                        self.status = text2("Scan completed in ", duration.as_str());
                    },
                    ScanOutcome::Failed(error) => {
                        self.status = text2("Scan failed: ", error.as_str());
                    },
                    ScanOutcome::Lost => {
                        self.status = String::from_str("Scan task ended unexpectedly");
                    },
                }
            }
        }
    }

    /// Takes in a report of the running scan.
    pub fn apply_progress_event(&mut self, event: &ScanProgressEvent)
        requires
            old(self)@.valid(),
            old(self)@.scan_progress matches Some(progress) ==> {
                &&& event@ is Scanned ==> progress.scanned_nodes < u64::MAX
                &&& event@ is Warning ==> progress.warnings < u64::MAX
            },
        ensures
            final(self)@.valid(),
            final(self)@ == old(self)@.after_event(event@),
    {
        let mut progress = match self.scan_progress.take() {
            None => {
                return;
            },
            Some(progress) => progress,
        };
        match event {
            ScanProgressEvent::Started { root } => {
                progress.root = root.clone();
                progress.current_path = root.clone();
            },
            ScanProgressEvent::Scanned { path, kind } => {
                progress.current_path = path.clone();
                progress.scanned_nodes = progress.scanned_nodes + 1;
                match kind {
                    NodeKind::Directory => {
                        progress.scanned_dirs = progress.scanned_dirs + 1;
                    },
                    NodeKind::File => {
                        progress.scanned_files = progress.scanned_files + 1;
                    },
                    NodeKind::Symlink => {
                        progress.scanned_symlinks = progress.scanned_symlinks + 1;
                    },
                }
            },
            ScanProgressEvent::Warning { message } => {
                progress.warnings = progress.warnings + 1;
                self.status = text2("Warning: ", message.as_str());
            },
        }
        self.scan_progress = Some(progress);
    }

    /// What a key asks for.
    pub fn key_command(&self, key: Key) -> (command: KeyCommand)
        ensures
            command == self@.key_command(key),
    {
        if self.pending_delete.is_some() {
            confirming_key(key)
        } else if self.is_scanning() {
            if key == Key::Char('q') {
                KeyCommand::Quit
            } else {
                KeyCommand::Ignore
            }
        } else {
            browsing_key(key)
        }
    }

    /// Does what a key asks for, and returns what is left to do outside.
    pub fn handle_key(&mut self, key: Key) -> (action: Action)
        requires
            old(self)@.valid(),
        ensures
            final(self)@.valid(),
            action == command_action(old(self)@.key_command(key)),
            old(self)@.current_dir_path matches Some(path) ==> forall|
                dir: Seq<char>,
                name: Seq<char>,
            | #[trigger]
                plainly_in(path, dir, name) ==> final(self)@ == old(self)@.after_command(
                    old(self)@.key_command(key),
                    Some(dir),
                ),
            old(self)@.key_command(key) == KeyCommand::Parent ==> (
            old(self)@.current_dir_path matches Some(path) ==> exists|
                separators: Separators,
                parent: Option<Seq<char>>,
            | #[trigger]
                parent_by(separators, path, parent) && final(self)@ == old(self)@.after_parent(
                    parent,
                )),
            old(self)@.key_command(key) != KeyCommand::Parent || old(self)@.current_dir_path is None
                ==> final(self)@ == old(self)@.after_command(old(self)@.key_command(key), None),
    {
        let command = self.key_command(key);
        let mut action = Action::Continue;
        match command {
            KeyCommand::Ignore => {},
            KeyCommand::Quit => {
                action = Action::Quit;
            },
            KeyCommand::ConfirmDelete => {
                action = Action::Delete;
            },
            KeyCommand::CancelDelete => {
                self.cancel_delete();
            },
            KeyCommand::ScanCurrentDir => {
                action = Action::ScanCurrentDir;
            },
            KeyCommand::ScanFullDisk => {
                action = Action::ScanFullDisk;
            },
            KeyCommand::Save => {
                action = Action::Save;
            },
            KeyCommand::Load => {
                action = Action::Load;
            },
            KeyCommand::Next => {
                self.next();
            },
            KeyCommand::Previous => {
                self.previous();
            },
            KeyCommand::First => {
                self.select_first();
            },
            KeyCommand::Last => {
                self.select_last();
            },
            KeyCommand::Open => {
                self.open_selected_directory();
            },
            KeyCommand::Parent => {
                self.go_parent();
            },
            KeyCommand::Back => {
                self.history_back();
            },
            KeyCommand::Forward => {
                self.history_forward();
            },
            KeyCommand::RequestDelete => {
                self.request_delete();
            },
        }
        action
    }
}

/// How an entry is deleted from the disk.
#[derive(Debug, Clone, Copy, PartialEq, Eq, Structural)]
pub enum DiskDeletion {
    /// As a file.
    File,
    /// As a file, and as an empty directory if that fails.
    FileOrEmptyDirectory,
    /// As a directory with everything in it.
    Tree,
}

/// How an entry of a kind is deleted from the disk.
pub open spec fn deletion_of(kind: NodeKind) -> DiskDeletion {
    match kind {
        NodeKind::File => DiskDeletion::File,
        NodeKind::Symlink => DiskDeletion::FileOrEmptyDirectory,
        NodeKind::Directory => DiskDeletion::Tree,
    }
}

/// Only a directory is deleted together with what is in it; a link never is.
pub proof fn law_deletion_of(kind: NodeKind)
    ensures
        deletion_of(kind) == DiskDeletion::Tree <==> kind == NodeKind::Directory,
        deletion_of(kind) == DiskDeletion::FileOrEmptyDirectory <==> kind == NodeKind::Symlink,
        deletion_of(kind) == DiskDeletion::File <==> kind == NodeKind::File,
{
}

/// How an entry of the kind `kind` is deleted from the disk: a link never together with what it
/// points to.
pub fn disk_deletion(kind: NodeKind) -> (deletion: DiskDeletion)
    ensures
        deletion == deletion_of(kind),
        deletion == match kind {
            NodeKind::File => DiskDeletion::File,
            NodeKind::Symlink => DiskDeletion::FileOrEmptyDirectory,
            NodeKind::Directory => DiskDeletion::Tree,
        },
{
    match kind {
        NodeKind::File => DiskDeletion::File,
        NodeKind::Symlink => DiskDeletion::FileOrEmptyDirectory,
        NodeKind::Directory => DiskDeletion::Tree,
    }
}

fn confirming_key(key: Key) -> (command: KeyCommand)
    ensures
        command == confirming_command(key),
{
    if key == Key::Char('y') {
        KeyCommand::ConfirmDelete
    } else if key == Key::Char('n') || key == Key::Esc {
        KeyCommand::CancelDelete
    } else {
        KeyCommand::Ignore
    }
}

fn browsing_key(key: Key) -> (command: KeyCommand)
    ensures
        command == browsing_command(key),
{
    match key {
        Key::Char(c) => match c {
            'q' => KeyCommand::Quit,
            's' => KeyCommand::ScanCurrentDir,
            'a' => KeyCommand::ScanFullDisk,
            'p' => KeyCommand::Save,
            'o' => KeyCommand::Load,
            'j' => KeyCommand::Next,
            'k' => KeyCommand::Previous,
            'l' => KeyCommand::Open,
            'u' => KeyCommand::Parent,
            'h' => KeyCommand::Parent,
            'b' => KeyCommand::Back,
            '[' => KeyCommand::Back,
            'f' => KeyCommand::Forward,
            ']' => KeyCommand::Forward,
            'd' => KeyCommand::RequestDelete,
            _ => KeyCommand::Ignore,
        },
        Key::Down => KeyCommand::Next,
        Key::Up => KeyCommand::Previous,
        Key::Home => KeyCommand::First,
        Key::End => KeyCommand::Last,
        Key::Enter => KeyCommand::Open,
        Key::Backspace => KeyCommand::Parent,
        Key::Left => KeyCommand::Back,
        Key::Right => KeyCommand::Forward,
        Key::Esc => KeyCommand::Ignore,
        Key::Other => KeyCommand::Ignore,
    }
}

proof fn lemma_reports_prefix(events: Seq<ScanEventModel>, k: int)
    requires
        0 <= k < events.len(),
    ensures
        scanned_reports(events.take(k + 1)) == scanned_reports(events.take(k)) + (if events[k]
            is Scanned {
            1nat
        } else {
            0nat
        }),
        warning_reports(events.take(k + 1)) == warning_reports(events.take(k)) + (if events[k]
            is Warning {
            1nat
        } else {
            0nat
        }),
        scanned_reports(events.take(k + 1)) <= scanned_reports(events),
        warning_reports(events.take(k + 1)) <= warning_reports(events),
    decreases events.len() - k,
{
    assert(events.take(k + 1).drop_last() =~= events.take(k));
    if k + 1 < events.len() {
        lemma_reports_prefix(events, k + 1);
    } else {
        assert(events.take(k + 1) =~= events);
    }
}

proof fn lemma_counted(app: AppModel, events: Seq<ScanEventModel>)
    ensures
        app.after_events(events).scan_progress is Some <==> app.scan_progress is Some,
        app.after_events(events).scan_progress matches Some(after) ==> {
            &&& after.scanned_nodes == app.scan_progress->0.scanned_nodes + scanned_reports(events)
            &&& after.warnings == app.scan_progress->0.warnings + warning_reports(events)
        },
    decreases events.len(),
{
    if events.len() > 0 {
        lemma_counted(app, events.drop_last());
    }
}

} // verus!
