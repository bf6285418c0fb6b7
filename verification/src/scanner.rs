//! Scanning: what becomes of the things that the file system says, one directory at a time.

use vstd::prelude::*;
use vstd::string::*;

use crate::model::{Node, NodeKind};
use crate::order::sort_entries;
use crate::path::path_file_name;
use crate::text::text2;

verus! {

use crate::model::NodeModel;
use crate::order::{listed, models};
use crate::path::{file_name_by, law_plain_file_name, plainly_in, Separators};
use crate::text::{optional_text, texts};
use crate::tree::sum_of_sizes;

/// What a running scan reports.
#[derive(Debug)]
pub enum ScanProgressEvent {
    Started { root: String },
    Scanned { path: String, kind: NodeKind },
    Warning { message: String },
}

/// The mathematical content of a [`ScanProgressEvent`].
pub enum ScanEventModel {
    Started { root: Seq<char> },
    Scanned { path: Seq<char>, kind: NodeKind },
    Warning { message: Seq<char> },
}

impl View for ScanProgressEvent {
    type V = ScanEventModel;

    open spec fn view(&self) -> ScanEventModel {
        match self {
            ScanProgressEvent::Started { root } => ScanEventModel::Started { root: root@ },
            ScanProgressEvent::Scanned { path, kind } => ScanEventModel::Scanned {
                path: path@,
                kind: *kind,
            },
            ScanProgressEvent::Warning { message } => ScanEventModel::Warning { message: message@ },
        }
    }
}

impl Clone for ScanProgressEvent {
    fn clone(&self) -> (copy: Self)
        ensures
            copy@ == self@,
    {
        match self {
            ScanProgressEvent::Started { root } => ScanProgressEvent::Started {
                root: root.clone(),
            },
            ScanProgressEvent::Scanned { path, kind } => ScanProgressEvent::Scanned {
                path: path.clone(),
                kind: *kind,
            },
            ScanProgressEvent::Warning { message } => ScanProgressEvent::Warning {
                message: message.clone(),
            },
        }
    }
}

/// The contents of a list of reports.
pub open spec fn event_models(events: Seq<ScanProgressEvent>) -> Seq<ScanEventModel> {
    events.map_values(|event: ScanProgressEvent| event@)
}

/// What the file system says of an entry itself, not of what a link points to.
#[derive(Debug, Clone, Copy)]
pub struct EntryStat {
    pub is_symlink: bool,
    pub is_dir: bool,
    pub len: u64,
}

impl EntryStat {
    /// What the entry is.
    pub open spec fn node_kind(self) -> NodeKind {
        if self.is_symlink {
            NodeKind::Symlink
        } else if self.is_dir {
            NodeKind::Directory
        } else {
            NodeKind::File
        }
    }

    /// The size that an entry without children counts with: only files have one.
    pub open spec fn own_size(self) -> nat {
        if self.node_kind() == NodeKind::File {
            self.len as nat
        } else {
            0
        }
    }

    /// What the entry is.
    pub fn kind(&self) -> (kind: NodeKind)
        ensures
            kind == self.node_kind(),
    {
        if self.is_symlink {
            NodeKind::Symlink
        } else if self.is_dir {
            NodeKind::Directory
        } else {
            NodeKind::File
        }
    }
}

/// The name that an entry is shown with: the last part of its path, or the path itself where
/// that has no last part or an empty one.
pub open spec fn shown_name(path: Seq<char>, file_name: Option<Seq<char>>) -> Seq<char> {
    match file_name {
        Some(name) => if name.len() > 0 {
            name
        } else {
            path
        },
        None => path,
    }
}

/// The name that an entry is shown with: the last part of its path, or the path itself where that
/// has none.
pub fn display_name(path: &str) -> (name: String)
    ensures
        forall|dir: Seq<char>, part: Seq<char>| #[trigger]
            plainly_in(path@, dir, part) ==> name@ == if part == seq!['.', '.'] {
                path@
            } else {
                part
            },
        exists|separators: Separators, file_name: Option<Seq<char>>| #[trigger]
            file_name_by(separators, path@, file_name) && name@ == shown_name(path@, file_name),
{
    let file_name = path_file_name(path);
    let name = name_or_path(path, file_name);
    proof {
        lemma_shown(path@, optional_text(file_name));
    }
    name
}

/// The name that an entry is shown with, from the last part of its path.
pub fn name_or_path(path: &str, file_name: Option<String>) -> (name: String)
    ensures
        name@ == shown_name(path@, optional_text(file_name)),
{
    match file_name {
        Some(name) => if name.as_str().is_empty() {
            String::from_str(path)
        } else {
            name
        },
        None => String::from_str(path),
    }
}

proof fn lemma_shown(path: Seq<char>, file_name: Option<Seq<char>>)
    requires
        exists|separators: Separators| #[trigger] file_name_by(separators, path, file_name),
    ensures
        forall|dir: Seq<char>, part: Seq<char>| #[trigger]
            plainly_in(path, dir, part) ==> shown_name(path, file_name) == if part == seq![
                '.',
                '.',
            ] {
                path
            } else {
                part
            },
{
    let separators = choose|separators: Separators| #[trigger]
        file_name_by(separators, path, file_name);
    assert forall|dir: Seq<char>, part: Seq<char>| #[trigger]
        plainly_in(path, dir, part) implies shown_name(path, file_name) == if part == seq![
        '.',
        '.',
    ] {
        path
    } else {
        part
    } by {
        law_plain_file_name(separators, path, file_name, dir, part);
    }
}

/// An entry without children.
pub open spec fn leaf(name: Seq<char>, path: Seq<char>, stat: EntryStat) -> NodeModel {
    NodeModel {
        name,
        path,
        kind: stat.node_kind(),
        size: stat.own_size(),
        children: Seq::empty(),
    }
}

fn leaf_node(name: String, path: String, stat: EntryStat) -> (node: Node)
    ensures
        node@ == leaf(name@, path@, stat),
{
    let kind = stat.kind();
    let size: u64 = if kind == NodeKind::File {
        stat.len
    } else {
        0
    };
    let node = Node { name, path, kind, size, children: Vec::new() };
    assert(node@.children =~= Seq::empty());
    node
}

/// What was learned of one entry of a directory.
#[derive(Debug)]
pub enum EntryReading {
    /// The entry itself could not be read.
    Unreadable { error: String },
    /// The entry is there, but the file system says nothing of it.
    NoMetadata { path: String, error: String },
    /// An entry.
    Found { name: String, path: String, stat: EntryStat },
}

/// The mathematical content of an [`EntryReading`].
pub enum EntryModel {
    Unreadable { error: Seq<char> },
    NoMetadata { path: Seq<char>, error: Seq<char> },
    Found { name: Seq<char>, path: Seq<char>, stat: EntryStat },
}

impl View for EntryReading {
    type V = EntryModel;

    open spec fn view(&self) -> EntryModel {
        match self {
            EntryReading::Unreadable { error } => EntryModel::Unreadable { error: error@ },
            EntryReading::NoMetadata { path, error } => EntryModel::NoMetadata {
                path: path@,
                error: error@,
            },
            EntryReading::Found { name, path, stat } => EntryModel::Found {
                name: name@,
                path: path@,
                stat: *stat,
            },
        }
    }
}

/// The contents of a list of readings.
pub open spec fn entry_models(entries: Seq<EntryReading>) -> Seq<EntryModel> {
    entries.map_values(|entry: EntryReading| entry@)
}

/// Whether an entry is a directory that has to be scanned in turn.
pub open spec fn is_subdirectory(entry: EntryModel) -> bool {
    entry matches EntryModel::Found { stat, .. } && stat.node_kind() == NodeKind::Directory
}

/// The entries of a directory that are not directories themselves, in the order of reading.
pub open spec fn file_nodes(entries: Seq<EntryModel>) -> Seq<NodeModel>
    decreases entries.len(),
{
    if entries.len() == 0 {
        Seq::empty()
    } else {
        let rest = file_nodes(entries.drop_last());
        match entries.last() {
            EntryModel::Found { name, path, stat } => if stat.node_kind() != NodeKind::Directory {
                rest.push(leaf(name, path, stat))
            } else {
                rest
            },
            _ => rest,
        }
    }
}

/// The places of the subdirectories among the entries of a directory.
pub open spec fn subdirectories(entries: Seq<EntryModel>) -> Seq<int>
    decreases entries.len(),
{
    if entries.len() == 0 {
        Seq::empty()
    } else {
        let rest = subdirectories(entries.drop_last());
        if is_subdirectory(entries.last()) {
            rest.push(entries.len() - 1)
        } else {
            rest
        }
    }
}

/// The warning that an entry gives rise to.
pub open spec fn entry_warning(dir: Seq<char>, entry: EntryModel) -> Option<Seq<char>> {
    match entry {
        EntryModel::Unreadable { error } => Some(
            "failed to read entry under "@ + dir + ": "@ + error,
        ),
        EntryModel::NoMetadata { path, error } => Some(
            "failed to read metadata for "@ + path + ": "@ + error,
        ),
        EntryModel::Found { .. } => None,
    }
}

/// The warnings that the entries of a directory give rise to.
pub open spec fn entry_warnings(dir: Seq<char>, entries: Seq<EntryModel>) -> Seq<Seq<char>>
    decreases entries.len(),
{
    if entries.len() == 0 {
        Seq::empty()
    } else {
        let rest = entry_warnings(dir, entries.drop_last());
        match entry_warning(dir, entries.last()) {
            Some(warning) => rest.push(warning),
            None => rest,
        }
    }
}

/// The entries of a directory: what is finished, which entries have to be scanned in turn, and
/// what went wrong.
#[derive(Debug)]
pub struct DirReadResult {
    pub files: Vec<Node>,
    pub directories: Vec<usize>,
    pub warnings: Vec<String>,
}

/// Places among entries as mathematical integers.
pub open spec fn places(list: Seq<usize>) -> Seq<int> {
    list.map_values(|i: usize| i as int)
}

/// Sorts out the entries of a directory.
pub fn read_directory_entries(dir: &str, entries: &Vec<EntryReading>) -> (listing: DirReadResult)
    ensures
        models(listing.files@) == file_nodes(entry_models(entries@)),
        places(listing.directories@) == subdirectories(entry_models(entries@)),
        texts(listing.warnings@) == entry_warnings(dir@, entry_models(entries@)),
{
    let ghost all = entry_models(entries@);
    let mut files: Vec<Node> = Vec::new();
    let mut directories: Vec<usize> = Vec::new();
    let mut warnings: Vec<String> = Vec::new();
    let mut i: usize = 0;
    proof {
        assert(models(files@) =~= Seq::empty());
        assert(places(directories@) =~= Seq::empty());
        assert(texts(warnings@) =~= Seq::empty());
    }
    while i < entries.len()
        invariant
            i <= entries.len(),
            all == entry_models(entries@),
            models(files@) == file_nodes(all.take(i as int)),
            places(directories@) == subdirectories(all.take(i as int)),
            texts(warnings@) == entry_warnings(dir@, all.take(i as int)),
        decreases entries.len() - i,
    {
        let ghost f = files@;
        let ghost d = directories@;
        let ghost w = warnings@;
        proof {
            assert(all.take(i + 1).drop_last() =~= all.take(i as int));
            assert(all.take(i + 1).last() == entries@[i as int]@);
        }
        match &entries[i] {
            EntryReading::Unreadable { error } => {
                let mut warning = text2("failed to read entry under ", dir);
                warning.append(": ");
                warning.append(error.as_str());
                warnings.push(warning);
                assert(texts(warnings@) =~= texts(w).push(warning@));
            },
            EntryReading::NoMetadata { path, error } => {
                let mut warning = text2("failed to read metadata for ", path.as_str());
                warning.append(": ");
                warning.append(error.as_str());
                warnings.push(warning);
                assert(texts(warnings@) =~= texts(w).push(warning@));
            },
            EntryReading::Found { name, path, stat } => {
                if stat.kind() == NodeKind::Directory {
                    directories.push(i);
                    assert(places(directories@) =~= places(d).push(i as int));
                } else {
                    let node = leaf_node(name.clone(), path.clone(), *stat);
                    files.push(node);
                    assert(models(files@) =~= models(f).push(node@));
                }
            },
        }
        i += 1;
    }
    assert(all.take(i as int) =~= all);
    DirReadResult { files, directories, warnings }
}

/// A directory whose scan is under way.
#[derive(Debug)]
pub struct DirectoryScan {
    pub name: String,
    pub path: String,
    pub children: Vec<Node>,
    pub warnings: Vec<String>,
}

/// The mathematical content of a [`DirectoryScan`].
#[verifier::ext_equal]
pub struct DirectoryScanModel {
    pub name: Seq<char>,
    pub path: Seq<char>,
    pub children: Seq<NodeModel>,
    pub warnings: Seq<Seq<char>>,
}

impl View for DirectoryScan {
    type V = DirectoryScanModel;

    open spec fn view(&self) -> DirectoryScanModel {
        DirectoryScanModel {
            name: self.name@,
            path: self.path@,
            children: models(self.children@),
            warnings: texts(self.warnings@),
        }
    }
}

/// What is to be done with an entry once the file system has said what it is.
#[derive(Debug)]
pub enum ScanStart {
    /// The entry is finished, and its report has to be sent.
    Finished { node: Node, event: ScanProgressEvent },
    /// The entry is a directory whose entries have to be read.
    ReadEntries { scan: DirectoryScan },
}

/// What became of the scan of a subdirectory.
#[derive(Debug)]
pub enum ChildOutcome {
    /// It was scanned.
    Scanned { node: Node, warnings: Vec<String> },
    /// It could not be scanned.
    Failed { error: String },
    /// The task that scanned it did not come to its end.
    Lost { error: String },
}

/// The mathematical content of a [`ChildOutcome`].
pub enum ChildModel {
    Scanned { node: NodeModel, warnings: Seq<Seq<char>> },
    Failed { error: Seq<char> },
    Lost { error: Seq<char> },
}

impl View for ChildOutcome {
    type V = ChildModel;

    open spec fn view(&self) -> ChildModel {
        match self {
            ChildOutcome::Scanned { node, warnings } => ChildModel::Scanned {
                node: node@,
                warnings: texts(warnings@),
            },
            ChildOutcome::Failed { error } => ChildModel::Failed { error: error@ },
            ChildOutcome::Lost { error } => ChildModel::Lost { error: error@ },
        }
    }
}

impl ChildModel {
    /// The warning that an outcome itself gives rise to.
    pub open spec fn warning(self) -> Option<Seq<char>> {
        match self {
            ChildModel::Scanned { .. } => None,
            ChildModel::Failed { error } => Some(error),
            ChildModel::Lost { error } => Some("scan task join error: "@ + error),
        }
    }
}

impl DirectoryScanModel {
    /// The scan with the entries that are finished and the warnings of reading them.
    pub open spec fn with_entries(
        self,
        files: Seq<NodeModel>,
        warnings: Seq<Seq<char>>,
    ) -> DirectoryScanModel {
        DirectoryScanModel {
            children: self.children + files,
            warnings: self.warnings + warnings,
            ..self
        }
    }

    /// The scan with the outcome of one more subdirectory.
    pub open spec fn with_child(self, outcome: ChildModel) -> DirectoryScanModel {
        match outcome {
            ChildModel::Scanned { node, warnings } => DirectoryScanModel {
                children: self.children.push(node),
                warnings: self.warnings + warnings,
                ..self
            },
            _ => DirectoryScanModel {
                warnings: self.warnings.push(outcome.warning()->0),
                ..self
            },
        }
    }

    /// The scan with the outcomes of subdirectories, one after the other.
    pub open spec fn with_children(self, outcomes: Seq<ChildModel>) -> DirectoryScanModel
        decreases outcomes.len(),
    {
        if outcomes.len() == 0 {
            self
        } else {
            self.with_children(outcomes.drop_last()).with_child(outcomes.last())
        }
    }

    /// The directory that the scan ends with.
    pub open spec fn node(self) -> NodeModel {
        NodeModel {
            name: self.name,
            path: self.path,
            kind: NodeKind::Directory,
            size: sum_of_sizes(self.children),
            children: listed(self.children),
        }
    }
}

/// The report that a scan of `path` begins.
pub fn scan_started(path: &str) -> (event: ScanProgressEvent)
    ensures
        event@ == (ScanEventModel::Started { root: path@ }),
{
    ScanProgressEvent::Started { root: String::from_str(path) }
}

impl ScanStart {
    /// Whether an entry of the name `name` is finished, or its entries have to be read, as the
    /// file system says what it is.
    pub open spec fn begins(self, name: Seq<char>, path: Seq<char>, stat: EntryStat) -> bool {
        match self {
            ScanStart::Finished { node, event } => {
                &&& stat.node_kind() != NodeKind::Directory
                &&& node@ == leaf(name, path, stat)
                &&& event@ == (ScanEventModel::Scanned { path, kind: stat.node_kind() })
            },
            ScanStart::ReadEntries { scan } => {
                &&& stat.node_kind() == NodeKind::Directory
                &&& scan@ == (DirectoryScanModel {
                    name,
                    path,
                    children: Seq::empty(),
                    warnings: Seq::empty(),
                })
            },
        }
    }
}

/// Decides what to do with an entry once the file system has said what it is.
pub fn scan_node(path: String, stat: EntryStat) -> (start: ScanStart)
    ensures
        forall|dir: Seq<char>, part: Seq<char>| #[trigger]
            plainly_in(path@, dir, part) ==> start.begins(
                if part == seq!['.', '.'] {
                    path@
                } else {
                    part
                },
                path@,
                stat,
            ),
        exists|separators: Separators, file_name: Option<Seq<char>>| #[trigger]
            file_name_by(separators, path@, file_name) && start.begins(
                shown_name(path@, file_name),
                path@,
                stat,
            ),
{
    let name = display_name(path.as_str());
    scan_named_node(name, path, stat)
}

/// Decides what to do with an entry of the name `name` once the file system has said what it is.
pub fn scan_named_node(name: String, path: String, stat: EntryStat) -> (start: ScanStart)
    ensures
        start.begins(name@, path@, stat),
{
    let kind = stat.kind();
    if kind != NodeKind::Directory {
        let event = ScanProgressEvent::Scanned { path: path.clone(), kind };
        ScanStart::Finished { node: leaf_node(name, path, stat), event }
    } else {
        let scan = DirectoryScan { name, path, children: Vec::new(), warnings: Vec::new() };
        proof {
            assert(models(scan.children@) =~= Seq::empty());
            assert(texts(scan.warnings@) =~= Seq::empty());
        }
        ScanStart::ReadEntries { scan }
    }
}

/// A report for each of a list of warnings.
pub open spec fn warning_events(warnings: Seq<Seq<char>>) -> Seq<ScanEventModel> {
    warnings.map_values(|message: Seq<char>| ScanEventModel::Warning { message })
}

proof fn lemma_texts_append(a: Seq<String>, b: Seq<String>)
    ensures
        texts(a + b) == texts(a) + texts(b),
{
    assert(texts(a + b) =~= texts(a) + texts(b));
}

impl DirectoryScan {
    /// Takes in the entries that are finished and the warnings. Returns the reports to send.
    pub fn entries_read(&mut self, files: Vec<Node>, warnings: Vec<String>) -> (events: Vec<
        ScanProgressEvent,
    >)
        ensures
            final(self)@ == (DirectoryScanModel {
                children: old(self)@.children + models(files@),
                warnings: old(self)@.warnings + texts(warnings@),
                ..old(self)@
            }),
            final(self)@ == old(self)@.with_entries(models(files@), texts(warnings@)),
            event_models(events@) == warning_events(texts(warnings@)),
    {
        let ghost children_before = self.children@;
        let ghost warnings_before = self.warnings@;
        let mut events: Vec<ScanProgressEvent> = Vec::new();
        let mut i: usize = 0;
        while i < warnings.len()
            invariant
                i <= warnings.len(),
                events@.len() == i,
                forall|j: int|
                    0 <= j < i ==> (#[trigger] events@[j])@ == (ScanEventModel::Warning {
                        message: warnings@[j]@,
                    }),
            decreases warnings.len() - i,
        {
            events.push(ScanProgressEvent::Warning { message: warnings[i].clone() });
            i += 1;
        }
        assert(event_models(events@) =~= warning_events(texts(warnings@)));
        let ghost new_files = files@;
        let ghost new_warnings = warnings@;
        let mut new_children = files;
        let mut more_warnings = warnings;
        self.children.append(&mut new_children);
        self.warnings.append(&mut more_warnings);
        proof {
            assert(models(self.children@) =~= models(children_before) + models(new_files));
            lemma_texts_append(warnings_before, new_warnings);
        }
        events
    }

    /// Takes in what became of a subdirectory. Returns the report to send, if there is one.
    pub fn child_done(&mut self, outcome: ChildOutcome) -> (event: Option<ScanProgressEvent>)
        ensures
            final(self)@ == old(self)@.with_child(outcome@),
            match event {
                Some(e) => outcome@.warning() is Some && e@ == (ScanEventModel::Warning {
                    message: outcome@.warning()->0,
                }),
                None => outcome@.warning() is None,
            },
    {
        let ghost children_before = self.children@;
        let ghost warnings_before = self.warnings@;
        match outcome {
            ChildOutcome::Scanned { node, warnings } => {
                let ghost new_warnings = warnings@;
                let mut more_warnings = warnings;
                self.children.push(node);
                self.warnings.append(&mut more_warnings);
                proof {
                    assert(models(self.children@) =~= models(children_before).push(node@));
                    lemma_texts_append(warnings_before, new_warnings);
                }
                None
            },
            ChildOutcome::Failed { error } => {
                let event = ScanProgressEvent::Warning { message: error.clone() };
                self.warnings.push(error);
                assert(texts(self.warnings@) =~= texts(warnings_before).push(error@));
                Some(event)
            },
            ChildOutcome::Lost { error } => {
                let warning = text2("scan task join error: ", error.as_str());
                let event = ScanProgressEvent::Warning { message: warning.clone() };
                self.warnings.push(warning);
                assert(texts(self.warnings@) =~= texts(warnings_before).push(warning@));
                Some(event)
            },
        }
    }

    /// The sum of the sizes of the children so far, if it can be held.
    pub fn total_size(&self) -> (sum: Option<u64>)
        ensures
            match sum {
                Some(size) => size == sum_of_sizes(self@.children),
                None => sum_of_sizes(self@.children) > u64::MAX,
            },
    {
        let ghost all = self@.children;
        let mut sum: u64 = 0;
        let mut i: usize = 0;
        while i < self.children.len()
            invariant
                i <= self.children.len(),
                all == models(self.children@),
                sum == sum_of_sizes(all.take(i as int)),
            decreases self.children.len() - i,
        {
            proof {
                lemma_sum_prefix(all, i as int);
                assert(all[i as int] == self.children@[i as int]@);
            }
            match sum.checked_add(self.children[i].size) {
                None => {
                    return None;
                },
                Some(next) => {
                    sum = next;
                },
            }
            i += 1;
        }
        assert(all.take(i as int) =~= all);
        Some(sum)
    }

    /// Ends the scan of a directory. Returns the directory, its warnings and the report to send.
    pub fn finish(self) -> (done: (Node, Vec<String>, ScanProgressEvent))
        requires
            sum_of_sizes(self@.children) <= u64::MAX,
        ensures
            done.0@ == self@.node(),
            texts(done.1@) == self@.warnings,
            done.2@ == (ScanEventModel::Scanned { path: self@.path, kind: NodeKind::Directory }),
    {
        let size: u64 = match self.total_size() {
            Some(size) => size,
            None => 0,
        };
        let event = ScanProgressEvent::Scanned {
            path: self.path.clone(),
            kind: NodeKind::Directory,
        };
        let node = Node {
            name: self.name,
            path: self.path,
            kind: NodeKind::Directory,
            size,
            children: sort_entries(self.children),
        };
        proof {
            crate::order::lemma_models_of_children(node);
        }
        (node, self.warnings, event)
    }
}

proof fn lemma_sum_prefix(nodes: Seq<NodeModel>, k: int)
    requires
        0 <= k < nodes.len(),
    ensures
        sum_of_sizes(nodes.take(k + 1)) == sum_of_sizes(nodes.take(k)) + nodes[k].size,
        sum_of_sizes(nodes.take(k + 1)) <= sum_of_sizes(nodes),
    decreases nodes.len() - k,
{
    assert(nodes.take(k + 1).drop_last() =~= nodes.take(k));
    if k + 1 < nodes.len() {
        lemma_sum_prefix(nodes, k + 1);
    } else {
        assert(nodes.take(k + 1) =~= nodes);
    }
}

/// The duration of a scan in milliseconds, as far as 64 bits can hold it.
pub open spec fn held_duration(elapsed_ms: nat) -> nat {
    if elapsed_ms > u64::MAX {
        u64::MAX as nat
    } else {
        elapsed_ms
    }
}

/// The duration of a scan in milliseconds, as far as it can be held.
pub fn scan_duration(elapsed_ms: u128) -> (ms: u64)
    ensures
        ms == held_duration(elapsed_ms as nat),
        ms as int == if elapsed_ms > u64::MAX {
            u64::MAX as int
        } else {
            elapsed_ms as int
        },
{
    if elapsed_ms > u64::MAX as u128 {
        u64::MAX
    } else {
        elapsed_ms as u64
    }
}

/// How many directories are read at a time when the machine does not say how many processors it
/// has.
pub const MIN_PARALLELISM: usize = 8;

/// How many directories are read at a time.
pub open spec fn parallelism(processors: Option<usize>) -> int {
    match processors {
        Some(n) => if n * 8 > MIN_PARALLELISM {
            n * 8
        } else {
            MIN_PARALLELISM as int
        },
        None => MIN_PARALLELISM as int,
    }
}

/// How many directories are read at a time: eight for each processor.
pub fn default_parallelism(processors: Option<usize>) -> (count: usize)
    requires
        processors matches Some(n) ==> n * 8 <= usize::MAX,
    ensures
        count == parallelism(processors),
        count as int == match processors {
            Some(n) => if n * 8 > MIN_PARALLELISM {
                n * 8
            } else {
                MIN_PARALLELISM as int
            },
            None => MIN_PARALLELISM as int,
        },
{
    match processors {
        Some(n) => if n * 8 > MIN_PARALLELISM {
            n * 8
        } else {
            MIN_PARALLELISM
        },
        None => MIN_PARALLELISM,
    }
}

/// Whether the first `n` ancestors lie on the device.
pub open spec fn same_device(device: u64, ancestors: Seq<Option<u64>>, n: int) -> bool {
    forall|i: int| 0 <= i < n ==> (#[trigger] ancestors[i]) == Some(device)
}

/// How many steps up from a directory lead to the root of its disk, from the device of the
/// directory and the devices of its ancestors, the nearest first. An ancestor whose device cannot
/// be told, below the first on another device, is the error.
pub fn current_disk_root_from(device: u64, ancestors: &Vec<Option<u64>>) -> (steps: Result<
    usize,
    usize,
>)
    ensures
        match steps {
            Ok(n) => {
                &&& n <= ancestors@.len()
                &&& same_device(device, ancestors@, n as int)
                &&& n < ancestors@.len() ==> ancestors@[n as int] is Some && ancestors@[n as int]->0
                    != device
            },
            Err(n) => {
                &&& n < ancestors@.len()
                &&& same_device(device, ancestors@, n as int)
                &&& ancestors@[n as int] is None
            },
        },
{
    let mut n: usize = 0;
    while n < ancestors.len()
        invariant
            n <= ancestors@.len(),
            same_device(device, ancestors@, n as int),
        decreases ancestors.len() - n,
    {
        match ancestors[n] {
            None => {
                return Err(n);
            },
            Some(other) => {
                if other != device {
                    return Ok(n);
                }
            },
        }
        n += 1;
    }
    Ok(n)
}

/// The parts of a path that tell where a drive ends.
#[derive(Debug, Clone, Copy, PartialEq, Eq, Structural)]
pub enum PathPart {
    Prefix,
    RootDir,
    Other,
}

/// How many of the first parts of a path are prefixes.
pub open spec fn leading_prefixes(parts: Seq<PathPart>) -> nat
    decreases parts.len(),
{
    if parts.len() > 0 && parts[0] == PathPart::Prefix {
        1 + leading_prefixes(parts.drop_first())
    } else {
        0
    }
}

/// How many of the first parts of a path are the root of its drive: the prefixes, and the root
/// directory behind them.
pub open spec fn drive_root_parts(parts: Seq<PathPart>) -> nat {
    let n = leading_prefixes(parts);
    if n < parts.len() && parts[n as int] == PathPart::RootDir {
        n + 1
    } else {
        n
    }
}

/// How many of the first parts of a path are the root of its drive, if there are any.
pub fn drive_root(parts: &Vec<PathPart>) -> (count: Option<usize>)
    ensures
        match count {
            Some(n) => n == drive_root_parts(parts@) && n > 0,
            None => drive_root_parts(parts@) == 0,
        },
{
    let mut n: usize = 0;
    assert(parts@.skip(0) =~= parts@);
    while n < parts.len() && parts[n] == PathPart::Prefix
        invariant
            n <= parts@.len(),
            leading_prefixes(parts@) == n + leading_prefixes(parts@.skip(n as int)),
        decreases parts.len() - n,
    {
        proof {
            assert(parts@.skip(n as int)[0] == parts@[n as int]);
            assert(parts@.skip(n as int).drop_first() =~= parts@.skip(n + 1));
        }
        n += 1;
    }
    proof {
        if n < parts@.len() {
            assert(parts@.skip(n as int)[0] == parts@[n as int]);
        }
    }
    if n < parts.len() && parts[n] == PathPart::RootDir {
        n += 1;
    }
    if n == 0 {
        None
    } else {
        Some(n)
    }
}

} // verus!
