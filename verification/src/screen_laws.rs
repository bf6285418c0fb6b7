//! What every screen says, part by part.

use vstd::prelude::*;

verus! {

use crate::app::{PendingDelete, ScanProgressState};
use crate::app_model::{AppModel, PendingModel, ProgressModel};
use crate::model::{NodeKind, NodeModel, bytes_text, millis_text};
use crate::screen::{
    BrowsingScreen,
    EmptyScreen,
    MarkColor,
    ScanningScreen,
    browsing_header,
    delete_question,
    details,
    row,
    row_models,
    rows,
    scanning_body,
};
use crate::text::{decimal, texts, three_digits};
use crate::text_laws::law_columns;

/// The header tells the path of the result's root, then the path of the directory whose entries are
/// listed, how many they are, how large the directory is, and how long the scan took.
pub proof fn law_header(screen: BrowsingScreen, app: AppModel, dir: NodeModel)
    requires
        screen.tells(app, dir),
        app.result is Some,
    ensures
        ("Disk: "@ + app.result->0.root.path + " | Current: "@ + dir.path).is_prefix_of(
            screen.header@,
        ),
        screen.header@ == "Disk: "@ + app.result->0.root.path + " | Current: "@ + dir.path
            + " | Entries: "@ + decimal(dir.children.len()) + " | Size: "@ + bytes_text(dir.size)
            + " | Scan time: "@ + millis_text(app.result->0.scan_duration_ms),
        screen.rows@.len() == dir.children.len(),
{
    let begun = "Disk: "@ + app.result->0.root.path + " | Current: "@ + dir.path;
    let whole = browsing_header(app, dir);
    assert(begun =~= whole.subrange(0, begun.len() as int));
    assert(row_models(screen.rows@).len() == screen.rows@.len());
    assert(rows(dir.children).len() == dir.children.len());
}

/// Each entry has its row, in order: a mark and a colour for its kind, its name at the left of a
/// column of 36, its size at the right of a column of 10, and its size as a number to the last byte,
/// as a part of the size of the directory.
pub proof fn law_rows(screen: BrowsingScreen, app: AppModel, dir: NodeModel, i: int)
    requires
        screen.tells(app, dir),
        0 <= i < dir.children.len(),
    ensures
        screen.rows@.len() == dir.children.len(),
        ({
            let shown = screen.rows@[i];
            let entry = dir.children[i];
            let size = bytes_text(entry.size);
            &&& shown.bytes == entry.size
            &&& shown.name@.len() == if entry.name.len() > 36 {
                entry.name.len()
            } else {
                36
            }
            &&& shown.name@.take(entry.name.len() as int) == entry.name
            &&& forall|k: int|
                entry.name.len() <= k < shown.name@.len() ==> #[trigger] shown.name@[k] == ' '
            &&& shown.size@.len() == if size.len() > 10 {
                size.len()
            } else {
                10
            }
            &&& shown.size@.skip(shown.size@.len() - size.len()) == size
            &&& entry.kind == NodeKind::Directory ==> shown.mark@ == "[D] "@ && shown.color
                == MarkColor::Cyan
            &&& entry.kind == NodeKind::File ==> shown.mark@ == "[F] "@ && shown.color
                == MarkColor::White
            &&& entry.kind == NodeKind::Symlink ==> shown.mark@ == "[L] "@ && shown.color
                == MarkColor::Magenta
        }),
        dir.size > 0 ==> screen.whole == dir.size,
        dir.size == 0 ==> screen.whole == 1,
{
    assert(row_models(screen.rows@).len() == screen.rows@.len());
    assert(rows(dir.children).len() == dir.children.len());
    assert(row_models(screen.rows@)[i] == screen.rows@[i]@);
    assert(rows(dir.children)[i] == row(dir.children[i]));
    law_columns(dir.children[i].name, 36);
    law_columns(bytes_text(dir.children[i].size), 10);
}

/// The details are those of the selected entry, and tell the place in the history, counted from one,
/// and how many places there are.
pub proof fn law_details(screen: BrowsingScreen, app: AppModel, dir: NodeModel)
    requires
        screen.tells(app, dir),
    ensures
        screen.details@.len() == 8,
        app.entry() matches Some(entry) ==> {
            &&& screen.details@[0]@ == "Name: "@ + entry.name
            &&& screen.details@[1]@ == "Path: "@ + entry.path
            &&& entry.kind == NodeKind::Directory ==> screen.details@[2]@ == "Type: "@
                + "Directory"@
            &&& entry.kind == NodeKind::File ==> screen.details@[2]@ == "Type: "@ + "File"@
            &&& entry.kind == NodeKind::Symlink ==> screen.details@[2]@ == "Type: "@ + "Symlink"@
            &&& screen.details@[3]@ == "Size: "@ + bytes_text(entry.size)
            &&& screen.details@[4]@ == "Children: "@ + decimal(entry.children.len())
            &&& screen.details@[5]@ == "History: "@ + decimal(app.history_index + 1) + "/"@
                + decimal(app.history.len())
            &&& screen.details@[6]@ == "Enter: open dir | u: up | b/f: back/forward"@
            &&& screen.details@[7]@ == "d: delete file/dir/symlink (confirm y/n)"@
        },
        app.entry() is None ==> screen.details@[0]@ == "No entries in this directory"@,
{
    let lines = texts(screen.details@);
    assert(lines.len() == screen.details@.len());
    assert(forall|i: int|
        0 <= i < screen.details@.len() ==> #[trigger] screen.details@[i]@ == lines[i]);
    assert(lines == details(app));
}

/// Every screen tells the status, and under it the keys.
pub proof fn law_status_is_told(
    browsing: BrowsingScreen,
    scanning: ScanningScreen,
    empty: EmptyScreen,
    app: AppModel,
    dir: NodeModel,
    progress: ProgressModel,
    secs: nat,
    millis: nat,
)
    requires
        browsing.tells(app, dir),
        scanning.tells(app, progress, secs, millis),
        empty.tells(app),
    ensures
        browsing.footer@.len() == 2,
        browsing.footer@[0]@ == "Status: "@ + app.status,
        scanning.footer@.len() == 2,
        scanning.footer@[0]@ == "Status: "@ + app.status,
        scanning.footer@[1]@ == "Scanning in background... q: quit"@,
        empty.footer@.len() == 2,
        empty.footer@[0]@ == "Status: "@ + app.status,
        empty.welcome@.len() == 6,
        empty.welcome@[0]@ == "No scan data loaded."@,
{
    assert(texts(browsing.footer@).len() == browsing.footer@.len());
    assert(texts(scanning.footer@).len() == scanning.footer@.len());
    assert(texts(empty.footer@).len() == empty.footer@.len());
    assert(texts(empty.welcome@).len() == empty.welcome@.len());
    assert(texts(browsing.footer@)[0] == browsing.footer@[0]@);
    assert(texts(scanning.footer@)[0] == scanning.footer@[0]@);
    assert(texts(scanning.footer@)[1] == scanning.footer@[1]@);
    assert(texts(empty.footer@)[0] == empty.footer@[0]@);
    assert(texts(empty.welcome@)[0] == empty.welcome@[0]@);
}

/// The screen of a running scan tells its root, how long it has been running, where it is, and what
/// it has counted, each count beside its name.
pub proof fn law_scan_is_told(
    screen: ScanningScreen,
    app: AppModel,
    progress: ProgressModel,
    secs: nat,
    millis: nat,
)
    requires
        screen.tells(app, progress, secs, millis),
    ensures
        screen.header@ == "SCAN RUNNING | Root: "@ + progress.root + " | Elapsed: "@ + (decimal(
            secs,
        ) + "."@ + three_digits(millis) + "s"@),
        screen.body@.len() == 7,
        screen.body@[0]@ == "Current path: "@ + progress.current_path,
        screen.body@[1]@ == ""@,
        screen.body@[2]@ == "Scanned nodes: "@ + decimal(progress.scanned_nodes),
        screen.body@[3]@ == "Directories: "@ + decimal(progress.scanned_dirs),
        screen.body@[4]@ == "Files: "@ + decimal(progress.scanned_files),
        screen.body@[5]@ == "Symlinks: "@ + decimal(progress.scanned_symlinks),
        screen.body@[6]@ == "Warnings: "@ + decimal(progress.warnings),
{
    let lines = texts(screen.body@);
    assert(lines.len() == screen.body@.len());
    assert(forall|i: int|
        0 <= i < screen.body@.len() ==> #[trigger] screen.body@[i]@ == lines[i]);
    assert(lines == scanning_body(progress));
}

/// The question before a deletion names the entry that would be deleted.
pub proof fn law_question(pending: PendingModel)
    ensures
        delete_question(pending).len() == 7,
        delete_question(pending)[0] == "Delete selected entry?"@,
        delete_question(pending)[2] == "Name: "@ + pending.name,
        delete_question(pending)[3] == "Path: "@ + pending.path,
        pending.kind == NodeKind::Directory ==> delete_question(pending)[4] == "Type: "@
            + "Directory"@,
        pending.kind == NodeKind::File ==> delete_question(pending)[4] == "Type: "@ + "File"@,
        pending.kind == NodeKind::Symlink ==> delete_question(pending)[4] == "Type: "@
            + "Symlink"@,
        delete_question(pending)[6] == "Press y to delete, n or Esc to cancel."@,
{
}

/// A waiting deletion and the progress of a scan are what their fields say.
pub proof fn law_state_content(pending: PendingDelete, progress: ScanProgressState)
    ensures
        pending@.dir_path == pending.dir_path@,
        pending@.child_index == pending.child_index,
        pending@.name == pending.name@,
        pending@.path == pending.path@,
        pending@.kind == pending.kind,
        progress@.root == progress.root@,
        progress@.current_path == progress.current_path@,
        progress@.scanned_nodes == progress.scanned_nodes,
        progress@.scanned_dirs == progress.scanned_dirs,
        progress@.scanned_files == progress.scanned_files,
        progress@.scanned_symlinks == progress.scanned_symlinks,
        progress@.warnings == progress.warnings,
{
}

} // verus!
