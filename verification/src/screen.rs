//! What the screen says.

use vstd::prelude::*;
use vstd::string::*;

use crate::app::{App, ScanProgressState};
use crate::model::{format_bytes, format_duration, format_duration_ms, Node, NodeKind};
use crate::text::{align_left, align_right, decimal_text, text2};

verus! {

use crate::app_model::{AppModel, PendingModel, ProgressModel};
use crate::model::{NodeModel, bytes_text, duration_text, millis_text};
use crate::text::{decimal, left_aligned, right_aligned, texts};

/// What a kind of entry is called.
pub open spec fn label(kind: NodeKind) -> Seq<char> {
    match kind {
        NodeKind::Directory => "Directory"@,
        NodeKind::File => "File"@,
        NodeKind::Symlink => "Symlink"@,
    }
}

/// What a kind of entry is called.
pub fn kind_label(kind: NodeKind) -> (text: &'static str)
    ensures
        text@ == label(kind),
{
    match kind {
        NodeKind::Directory => "Directory",
        NodeKind::File => "File",
        NodeKind::Symlink => "Symlink",
    }
}

/// The line with the status.
pub open spec fn status_line(app: AppModel) -> Seq<char> {
    "Status: "@ + app.status
}

fn status_text(app: &App) -> (line: String)
    ensures
        line@ == status_line(app@),
{
    text2("Status: ", app.status())
}

/// The screen while a scan is running.
#[derive(Debug)]
pub struct ScanningScreen {
    pub header: String,
    pub body: Vec<String>,
    pub footer: Vec<String>,
}

/// The header while a scan is running.
pub open spec fn scanning_header(progress: ProgressModel, secs: nat, millis: nat) -> Seq<char> {
    "SCAN RUNNING | Root: "@ + progress.root + " | Elapsed: "@ + duration_text(secs, millis)
}

/// How far the scan has come, line by line.
pub open spec fn scanning_body(progress: ProgressModel) -> Seq<Seq<char>> {
    seq![
        "Current path: "@ + progress.current_path,
        ""@,
        "Scanned nodes: "@ + decimal(progress.scanned_nodes),
        "Directories: "@ + decimal(progress.scanned_dirs),
        "Files: "@ + decimal(progress.scanned_files),
        "Symlinks: "@ + decimal(progress.scanned_symlinks),
        "Warnings: "@ + decimal(progress.warnings),
    ]
}

/// The footer while a scan is running.
pub open spec fn scanning_footer(app: AppModel) -> Seq<Seq<char>> {
    seq![status_line(app), "Scanning in background... q: quit"@]
}

fn numbered(name: &str, n: u64) -> (line: String)
    ensures
        line@ == name@ + decimal(n as nat),
{
    text2(name, decimal_text(n).as_str())
}

impl ScanningScreen {
    /// Whether the screen says what there is to say of the state `app` and the progress of its
    /// scan.
    pub open spec fn tells(
        self,
        app: AppModel,
        progress: ProgressModel,
        secs: nat,
        millis: nat,
    ) -> bool {
        &&& self.header@ == scanning_header(progress, secs, millis)
        &&& texts(self.body@) == scanning_body(progress)
        &&& texts(self.footer@) == scanning_footer(app)
    }
}

/// The screen while a scan is running, for `secs` seconds and `millis` milliseconds.
pub fn scanning_screen(app: &App, progress: &ScanProgressState, secs: u64, millis: u32) -> (screen:
    ScanningScreen)
    ensures
        screen.tells(app@, progress@, secs as nat, millis as nat),
{
    let mut header = text2("SCAN RUNNING | Root: ", progress.root.as_str());
    header.append(" | Elapsed: ");
    header.append(format_duration(secs, millis).as_str());
    let mut body: Vec<String> = Vec::new();
    body.push(text2("Current path: ", progress.current_path.as_str()));
    body.push(String::from_str(""));
    body.push(numbered("Scanned nodes: ", progress.scanned_nodes));
    body.push(numbered("Directories: ", progress.scanned_dirs));
    body.push(numbered("Files: ", progress.scanned_files));
    body.push(numbered("Symlinks: ", progress.scanned_symlinks));
    body.push(numbered("Warnings: ", progress.warnings));
    let mut footer: Vec<String> = Vec::new();
    footer.push(status_text(app));
    footer.push(String::from_str("Scanning in background... q: quit"));
    proof {
        assert(texts(body@) =~= scanning_body(progress@));
        assert(texts(footer@) =~= scanning_footer(app@));
    }
    ScanningScreen { header, body, footer }
}

/// The screen while nothing is loaded.
#[derive(Debug)]
pub struct EmptyScreen {
    pub welcome: Vec<String>,
    pub footer: Vec<String>,
}

/// What can be done while nothing is loaded, line by line.
pub open spec fn welcome_lines() -> Seq<Seq<char>> {
    seq![
        "No scan data loaded."@,
        ""@,
        "s: scan current directory"@,
        "a: scan current disk (full scan)"@,
        "o: load ./diskanalyzer-result.json"@,
        "q: quit"@,
    ]
}

/// The footer while nothing is loaded.
pub open spec fn empty_footer(app: AppModel) -> Seq<Seq<char>> {
    seq![status_line(app), "TUI-first mode: scanning and load/save from keyboard."@]
}

impl EmptyScreen {
    /// Whether the screen says what there is to say of the state `app`.
    pub open spec fn tells(self, app: AppModel) -> bool {
        &&& texts(self.welcome@) == welcome_lines()
        &&& texts(self.footer@) == empty_footer(app)
    }
}

/// The screen while nothing is loaded.
pub fn empty_screen(app: &App) -> (screen: EmptyScreen)
    ensures
        screen.tells(app@),
{
    let mut welcome: Vec<String> = Vec::new();
    welcome.push(String::from_str("No scan data loaded."));
    welcome.push(String::from_str(""));
    welcome.push(String::from_str("s: scan current directory"));
    welcome.push(String::from_str("a: scan current disk (full scan)"));
    welcome.push(String::from_str("o: load ./diskanalyzer-result.json"));
    welcome.push(String::from_str("q: quit"));
    let mut footer: Vec<String> = Vec::new();
    footer.push(status_text(app));
    footer.push(String::from_str("TUI-first mode: scanning and load/save from keyboard."));
    proof {
        assert(texts(welcome@) =~= welcome_lines());
        assert(texts(footer@) =~= empty_footer(app@));
    }
    EmptyScreen { welcome, footer }
}

/// The colour of an entry's mark.
#[derive(Debug, Clone, Copy, PartialEq, Eq, Structural)]
pub enum MarkColor {
    Cyan,
    White,
    Magenta,
}

/// One listed entry: a coloured mark, the name and the size in columns, and the size as a number.
#[derive(Debug)]
pub struct Row {
    pub mark: String,
    pub color: MarkColor,
    pub name: String,
    pub size: String,
    pub bytes: u64,
}

/// The mathematical content of a [`Row`].
#[verifier::ext_equal]
pub struct RowModel {
    pub mark: Seq<char>,
    pub color: MarkColor,
    pub name: Seq<char>,
    pub size: Seq<char>,
    pub bytes: nat,
}

impl View for Row {
    type V = RowModel;

    open spec fn view(&self) -> RowModel {
        RowModel {
            mark: self.mark@,
            color: self.color,
            name: self.name@,
            size: self.size@,
            bytes: self.bytes as nat,
        }
    }
}

/// The contents of a list of rows.
pub open spec fn row_models(rows: Seq<Row>) -> Seq<RowModel> {
    rows.map_values(|row: Row| row@)
}

/// The mark of a kind of entry.
pub open spec fn mark(kind: NodeKind) -> Seq<char> {
    match kind {
        NodeKind::Directory => "[D] "@,
        NodeKind::File => "[F] "@,
        NodeKind::Symlink => "[L] "@,
    }
}

/// The colour of the mark of a kind of entry.
pub open spec fn mark_color(kind: NodeKind) -> MarkColor {
    match kind {
        NodeKind::Directory => MarkColor::Cyan,
        NodeKind::File => MarkColor::White,
        NodeKind::Symlink => MarkColor::Magenta,
    }
}

/// The row of an entry.
pub open spec fn row(node: NodeModel) -> RowModel {
    RowModel {
        mark: mark(node.kind),
        color: mark_color(node.kind),
        name: left_aligned(node.name, 36),
        size: right_aligned(bytes_text(node.size), 10),
        bytes: node.size,
    }
}

/// The rows of entries.
pub open spec fn rows(nodes: Seq<NodeModel>) -> Seq<RowModel> {
    nodes.map_values(|node: NodeModel| row(node))
}

fn entry_row(node: &Node) -> (r: Row)
    ensures
        r@ == row(node@),
{
    let (icon, color) = match node.kind {
        NodeKind::Directory => ("[D] ", MarkColor::Cyan),
        NodeKind::File => ("[F] ", MarkColor::White),
        NodeKind::Symlink => ("[L] ", MarkColor::Magenta),
    };
    Row {
        mark: String::from_str(icon),
        color,
        name: align_left(node.name.as_str(), 36),
        size: align_right(format_bytes(node.size).as_str(), 10),
        bytes: node.size,
    }
}

/// The screen while a result is browsed. `whole` is what the sizes of the rows are parts of.
#[derive(Debug)]
pub struct BrowsingScreen {
    pub header: String,
    pub rows: Vec<Row>,
    pub whole: u64,
    pub selected: Option<usize>,
    pub details: Vec<String>,
    pub footer: Vec<String>,
}

/// The header while a result is browsed.
pub open spec fn browsing_header(app: AppModel, dir: NodeModel) -> Seq<char> {
    "Disk: "@ + (match app.result {
        Some(result) => result.root.path,
        None => "-"@,
    }) + " | Current: "@ + dir.path + " | Entries: "@ + decimal(dir.children.len())
        + " | Size: "@ + bytes_text(dir.size) + " | Scan time: "@ + (match app.result {
        Some(result) => millis_text(result.scan_duration_ms),
        None => "-"@,
    })
}

/// What there is to say of the selected entry, line by line.
pub open spec fn details(app: AppModel) -> Seq<Seq<char>> {
    match app.entry() {
        Some(entry) => seq![
            "Name: "@ + entry.name,
            "Path: "@ + entry.path,
            "Type: "@ + label(entry.kind),
            "Size: "@ + bytes_text(entry.size),
            "Children: "@ + decimal(entry.children.len()),
            "History: "@ + decimal(app.history_index + 1) + "/"@ + decimal(app.history.len()),
            "Enter: open dir | u: up | b/f: back/forward"@,
            "d: delete file/dir/symlink (confirm y/n)"@,
        ],
        None => seq![
            "No entries in this directory"@,
            ""@,
            "Use u to go parent, b/f for history"@,
            "s: rescan current dir | a: full scan"@,
            "p: save | o: load | q: quit"@,
            ""@,
            ""@,
            ""@,
        ],
    }
}

/// The footer while a result is browsed.
pub open spec fn browsing_footer(app: AppModel) -> Seq<Seq<char>> {
    seq![
        status_line(app),
        "s scan-dir | a full-scan | p save | o load | j/k move | Enter open | u up | d delete | q quit"@,
    ]
}

fn browsing_header_text(app: &App, dir: &Node) -> (header: String)
    ensures
        header@ == browsing_header(app@, dir@),
{
    let mut header = String::from_str("Disk: ");
    match app.result() {
        Some(result) => {
            header.append(result.root.path.as_str());
        },
        None => {
            header.append("-");
        },
    }
    header.append(" | Current: ");
    header.append(dir.path.as_str());
    header.append(" | Entries: ");
    header.append(decimal_text(dir.children.len() as u64).as_str());
    header.append(" | Size: ");
    header.append(format_bytes(dir.size).as_str());
    header.append(" | Scan time: ");
    match app.result() {
        Some(result) => {
            header.append(format_duration_ms(result.scan_duration_ms).as_str());
        },
        None => {
            header.append("-");
        },
    }
    header
}

fn entry_rows(dir: &Node) -> (list: Vec<Row>)
    ensures
        row_models(list@) == rows(dir@.children),
{
    let mut list: Vec<Row> = Vec::new();
    let mut i: usize = 0;
    while i < dir.children.len()
        invariant
            i <= dir.children.len(),
            list@.len() == i,
            forall|j: int| 0 <= j < i ==> (#[trigger] list@[j])@ == row(dir.children@[j]@),
        decreases dir.children.len() - i,
    {
        list.push(entry_row(&dir.children[i]));
        i += 1;
    }
    assert(row_models(list@) =~= rows(dir@.children));
    list
}

fn detail_lines(app: &App) -> (lines: Vec<String>)
    requires
        app@.valid(),
    ensures
        texts(lines@) == details(app@),
{
    let mut lines: Vec<String> = Vec::new();
    match app.selected_node() {
        Some(node) => {
            lines.push(text2("Name: ", node.name.as_str()));
            lines.push(text2("Path: ", node.path.as_str()));
            lines.push(text2("Type: ", kind_label(node.kind)));
            lines.push(text2("Size: ", format_bytes(node.size).as_str()));
            lines.push(numbered("Children: ", node.child_count as u64));
            let index: usize = app.history_index();
            let len: usize = app.history_len();
            let mut place = numbered("History: ", (index + 1) as u64);
            place.append("/");
            place.append(decimal_text(len as u64).as_str());
            lines.push(place);
            lines.push(String::from_str("Enter: open dir | u: up | b/f: back/forward"));
            lines.push(String::from_str("d: delete file/dir/symlink (confirm y/n)"));
        },
        None => {
            lines.push(String::from_str("No entries in this directory"));
            lines.push(String::from_str(""));
            lines.push(String::from_str("Use u to go parent, b/f for history"));
            lines.push(String::from_str("s: rescan current dir | a: full scan"));
            lines.push(String::from_str("p: save | o: load | q: quit"));
            lines.push(String::from_str(""));
            lines.push(String::from_str(""));
            lines.push(String::from_str(""));
        },
    }
    assert(texts(lines@) =~= details(app@));
    lines
}

impl BrowsingScreen {
    /// Whether the screen says what there is to say of the state `app` and its current directory
    /// `dir`.
    pub open spec fn tells(self, app: AppModel, dir: NodeModel) -> bool {
        &&& self.header@ == browsing_header(app, dir)
        &&& row_models(self.rows@) == rows(dir.children)
        &&& self.whole as int == if dir.size == 0 {
            1int
        } else {
            dir.size as int
        }
        &&& match self.selected {
            Some(place) => dir.children.len() > 0 && place == app.selected,
            None => dir.children.len() == 0,
        }
        &&& texts(self.details@) == details(app)
        &&& texts(self.footer@) == browsing_footer(app)
    }
}

/// What is selected on the screen is one of its rows, and the row is that of the selected entry.
pub proof fn law_selected_row(screen: BrowsingScreen, app: AppModel, dir: NodeModel)
    requires
        app.valid(),
        app.current_dir() == Some(dir),
        screen.tells(app, dir),
    ensures
        screen.selected is Some <==> app.entry() is Some,
        screen.selected matches Some(place) ==> place < screen.rows@.len()
            && screen.rows@[place as int]@ == row(app.entry()->0),
{
    let shown = rows(dir.children);
    assert(row_models(screen.rows@).len() == screen.rows@.len());
    assert(shown.len() == dir.children.len());
    if let Some(place) = screen.selected {
        assert(row_models(screen.rows@)[place as int] == screen.rows@[place as int]@);
        assert(shown[place as int] == row(dir.children[place as int]));
    }
}

/// The screen while the directory `dir` of a result is browsed.
pub fn browsing_screen(app: &App, dir: &Node) -> (screen: BrowsingScreen)
    requires
        app@.valid(),
        app@.current_dir() == Some(dir@),
    ensures
        screen.tells(app@, dir@),
{
    let mut footer: Vec<String> = Vec::new();
    footer.push(status_text(app));
    footer.push(
        String::from_str(
            "s scan-dir | a full-scan | p save | o load | j/k move | Enter open | u up | d delete | q quit",
        ),
    );
    assert(texts(footer@) =~= browsing_footer(app@));
    BrowsingScreen {
        header: browsing_header_text(app, dir),
        rows: entry_rows(dir),
        whole: if dir.size == 0 {
            1
        } else {
            dir.size
        },
        selected: if app.current_children_len() > 0 {
            Some(app.selected())
        } else {
            None
        },
        details: detail_lines(app),
        footer,
    }
}

/// What is shown.
#[derive(Debug)]
pub enum Screen {
    Scanning(ScanningScreen),
    Browsing(BrowsingScreen),
    Empty(EmptyScreen),
}

/// The screen, where a running scan has taken `secs` seconds and `millis` milliseconds: a running
/// scan comes first, then the current directory.
pub fn screen(app: &App, secs: u64, millis: u32) -> (shown: Screen)
    requires
        app@.valid(),
    ensures
        match shown {
            Screen::Scanning(s) => app@.scan_progress matches Some(progress) && s.tells(
                app@,
                progress,
                secs as nat,
                millis as nat,
            ),
            Screen::Browsing(s) => {
                &&& app@.scan_progress is None
                &&& app@.current_dir() matches Some(dir)
                &&& s.tells(app@, dir)
            },
            Screen::Empty(s) => {
                &&& app@.scan_progress is None
                &&& app@.current_dir() is None
                &&& s.tells(app@)
            },
        },
{
    match app.scan_progress() {
        Some(progress) => Screen::Scanning(scanning_screen(app, progress, secs, millis)),
        None => match app.current_dir() {
            Some(dir) => Screen::Browsing(browsing_screen(app, dir)),
            None => Screen::Empty(empty_screen(app)),
        },
    }
}

/// The question whether to delete an entry, line by line.
pub open spec fn delete_question(pending: PendingModel) -> Seq<Seq<char>> {
    seq![
        "Delete selected entry?"@,
        ""@,
        "Name: "@ + pending.name,
        "Path: "@ + pending.path,
        "Type: "@ + label(pending.kind),
        ""@,
        "Press y to delete, n or Esc to cancel."@,
    ]
}

/// The question that is shown while a deletion waits.
pub fn delete_prompt(app: &App) -> (lines: Option<Vec<String>>)
    ensures
        match lines {
            Some(l) => app@.pending_delete matches Some(pending) && texts(l@) == delete_question(
                pending,
            ),
            None => app@.pending_delete is None,
        },
{
    match app.pending_delete() {
        None => None,
        Some(pending) => {
            let mut lines: Vec<String> = Vec::new();
            lines.push(String::from_str("Delete selected entry?"));
            lines.push(String::from_str(""));
            lines.push(text2("Name: ", pending.name.as_str()));
            lines.push(text2("Path: ", pending.path.as_str()));
            lines.push(text2("Type: ", kind_label(pending.kind)));
            lines.push(String::from_str(""));
            lines.push(String::from_str("Press y to delete, n or Esc to cancel."));
            assert(texts(lines@) =~= delete_question(pending@));
            Some(lines)
        },
    }
}

} // verus!
