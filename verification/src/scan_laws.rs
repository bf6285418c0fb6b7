//! What holds of every scan, whatever the file system says.

use vstd::prelude::*;

verus! {

use crate::scanner::{EntryReading, EntryStat, PathPart, ScanProgressEvent, ScanStart};
use crate::model::{NodeKind, NodeModel};
use crate::model_laws::law_node_content;
use crate::order::{in_order, law_largest_first, law_listed, listed, models};
use crate::scanner::{
    ChildModel,
    DirectoryScanModel,
    EntryModel,
    ScanEventModel,
    drive_root_parts,
    entry_models,
    entry_warnings,
    event_models,
    file_nodes,
    held_duration,
    is_subdirectory,
    leading_prefixes,
    leaf,
    parallelism,
    same_device,
    shown_name,
    subdirectories,
    warning_events,
};
use crate::text::texts;
use crate::tree::{recalculated, total};
use crate::tree_laws::{
    all_proper,
    all_settled,
    law_listed_keeps,
    law_settled_stays,
    law_sums,
    occurrences,
    occurrences_among,
    proper,
    settled,
};

/// Every entry of a directory is accounted for once: as a finished entry, as a subdirectory to
/// scan, or by a warning.
pub proof fn law_entries_accounted_for(dir: Seq<char>, entries: Seq<EntryModel>)
    ensures
        file_nodes(entries).len() + subdirectories(entries).len() + entry_warnings(
            dir,
            entries,
        ).len() == entries.len(),
    decreases entries.len(),
{
    if entries.len() > 0 {
        law_entries_accounted_for(dir, entries.drop_last());
    }
}

/// The places that have to be scanned in turn are exactly those of the subdirectories, in the
/// order of reading.
pub proof fn law_subdirectories(entries: Seq<EntryModel>)
    ensures
        forall|i: int|
            #![trigger subdirectories(entries).contains(i)]
            subdirectories(entries).contains(i) <==> 0 <= i < entries.len() && is_subdirectory(
                entries[i],
            ),
        forall|j: int, k: int|
            0 <= j < k < subdirectories(entries).len() ==> subdirectories(entries)[j]
                < subdirectories(entries)[k],
    decreases entries.len(),
{
    if entries.len() > 0 {
        let rest = entries.drop_last();
        law_subdirectories(rest);
        let before = subdirectories(rest);
        let after = subdirectories(entries);
        let last = entries.len() - 1;
        assert forall|j: int| 0 <= j < before.len() implies before[j] < last by {
            assert(before.contains(before[j]));
        }
        assert forall|i: int|
            #![trigger after.contains(i)]
            after.contains(i) <==> 0 <= i < entries.len() && is_subdirectory(entries[i]) by {
            if is_subdirectory(entries.last()) {
                assert(after == before.push(last));
                if after.contains(i) {
                    let j = after.index_of(i);
                    if j < before.len() {
                        assert(before[j] == i);
                        assert(before.contains(i));
                    }
                }
                if 0 <= i < last && is_subdirectory(entries[i]) {
                    assert(before.contains(i));
                    let j = before.index_of(i);
                    assert(after[j] == i);
                }
                if i == last {
                    assert(after[before.len() as int] == i);
                }
            } else {
                assert(before.contains(i) <==> 0 <= i < rest.len() && is_subdirectory(rest[i]));
            }
        }
    }
}

proof fn lemma_files(entries: Seq<EntryModel>)
    ensures
        all_settled(file_nodes(entries)),
        all_proper(file_nodes(entries)),
    decreases entries.len(),
{
    if entries.len() > 0 {
        lemma_files(entries.drop_last());
        let rest = file_nodes(entries.drop_last());
        match entries.last() {
            EntryModel::Found { name, path, stat } => {
                let node = leaf(name, path, stat);
                assert(rest.push(node).drop_last() =~= rest);
                assert(all_proper(node.children));
                assert(proper(node));
                assert(stat.node_kind() != NodeKind::Directory ==> settled(node));
            },
            _ => {},
        }
    }
}

/// Whether every subdirectory that was scanned is settled and proper.
pub open spec fn sound(outcomes: Seq<ChildModel>) -> bool {
    forall|i: int|
        0 <= i < outcomes.len() ==> ((#[trigger] outcomes[i]) matches ChildModel::Scanned {
            node,
            ..
        } ==> settled(node) && proper(node))
}

/// The subdirectories that were scanned.
pub open spec fn scanned_nodes(outcomes: Seq<ChildModel>) -> Seq<NodeModel>
    decreases outcomes.len(),
{
    if outcomes.len() == 0 {
        Seq::empty()
    } else {
        let rest = scanned_nodes(outcomes.drop_last());
        match outcomes.last() {
            ChildModel::Scanned { node, .. } => rest.push(node),
            _ => rest,
        }
    }
}

/// The warnings that outcomes leave: those that scanned subdirectories bring, and one for each
/// subdirectory that was not scanned.
pub open spec fn outcome_warnings(outcomes: Seq<ChildModel>) -> Seq<Seq<char>>
    decreases outcomes.len(),
{
    if outcomes.len() == 0 {
        Seq::empty()
    } else {
        let rest = outcome_warnings(outcomes.drop_last());
        match outcomes.last() {
            ChildModel::Scanned { warnings, .. } => rest + warnings,
            _ => rest.push(outcomes.last().warning()->0),
        }
    }
}

/// How many warnings scanned subdirectories bring.
pub open spec fn brought_warnings(outcomes: Seq<ChildModel>) -> nat
    decreases outcomes.len(),
{
    if outcomes.len() == 0 {
        0
    } else {
        brought_warnings(outcomes.drop_last()) + match outcomes.last() {
            ChildModel::Scanned { warnings, .. } => warnings.len(),
            _ => 0,
        }
    }
}

/// The children of a directory are those that it had and the subdirectories that were scanned. Its
/// warnings are those that it had, those that scanned subdirectories bring, and one for each
/// subdirectory that was not scanned.
pub proof fn law_children(scan: DirectoryScanModel, outcomes: Seq<ChildModel>)
    ensures
        scan.with_children(outcomes).children == scan.children + scanned_nodes(outcomes),
        scan.with_children(outcomes).warnings == scan.warnings + outcome_warnings(outcomes),
        scan.with_children(outcomes).warnings.len() + scanned_nodes(outcomes).len()
            == scan.warnings.len() + outcomes.len() + brought_warnings(outcomes),
        scan.with_children(outcomes).name == scan.name,
        scan.with_children(outcomes).path == scan.path,
    decreases outcomes.len(),
{
    if outcomes.len() > 0 {
        law_children(scan, outcomes.drop_last());
    }
    assert(scan.with_children(outcomes).children =~= scan.children + scanned_nodes(outcomes));
    assert(scan.with_children(outcomes).warnings =~= scan.warnings + outcome_warnings(outcomes));
}

proof fn lemma_children_sound(scan: DirectoryScanModel, outcomes: Seq<ChildModel>)
    requires
        all_settled(scan.children),
        all_proper(scan.children),
        sound(outcomes),
    ensures
        all_settled(scan.with_children(outcomes).children),
        all_proper(scan.with_children(outcomes).children),
    decreases outcomes.len(),
{
    if outcomes.len() > 0 {
        lemma_children_sound(scan, outcomes.drop_last());
        let rest = scan.with_children(outcomes.drop_last());
        match outcomes.last() {
            ChildModel::Scanned { node, .. } => {
                assert(outcomes[outcomes.len() - 1] == outcomes.last());
                assert(rest.children.push(node).drop_last() =~= rest.children);
            },
            _ => {},
        }
    }
}

/// A directory scan begun with the entries `entries` and ended with the outcomes `outcomes` gives
/// a directory that holds the sum of its children's sizes, with its children in listing order, all
/// the way down: recalculating it would change nothing.
pub proof fn law_scan_is_settled(
    name: Seq<char>,
    path: Seq<char>,
    entries: Seq<EntryModel>,
    outcomes: Seq<ChildModel>,
)
    requires
        sound(outcomes),
    ensures
        ({
            let scan = DirectoryScanModel {
                name,
                path,
                children: file_nodes(entries),
                warnings: entry_warnings(path, entries),
            }.with_children(outcomes);
            &&& in_order(scan.node().children)
            &&& settled(scan.node())
            &&& proper(scan.node())
            &&& recalculated(scan.node()) == scan.node()
            &&& total(scan.node()) == scan.node().size
        }),
{
    let begun = DirectoryScanModel {
        name,
        path,
        children: file_nodes(entries),
        warnings: entry_warnings(path, entries),
    };
    lemma_files(entries);
    lemma_children_sound(begun, outcomes);
    let scan = begun.with_children(outcomes);
    law_listed_keeps(scan.children, path);
    law_listed(scan.children);
    law_settled_stays(scan.node());
}

/// No entry is lost or doubled when a scan ends: a path occurs in the directory as often as among
/// its children, and once more if it is the directory's own.
pub proof fn law_scan_keeps_entries(scan: DirectoryScanModel, path: Seq<char>)
    ensures
        occurrences(scan.node(), path) == occurrences_among(scan.children, path) + (if scan.path
            == path {
            1nat
        } else {
            0nat
        }),
{
    law_listed_keeps(scan.children, path);
    assert(scan.node().children == listed(scan.children));
}

/// A link is a link whatever it points to; only what is no link can be a directory; all else is a
/// file.
pub proof fn law_kinds(stat: EntryStat)
    ensures
        stat.is_symlink ==> stat.node_kind() == NodeKind::Symlink,
        !stat.is_symlink && stat.is_dir ==> stat.node_kind() == NodeKind::Directory,
        !stat.is_symlink && !stat.is_dir ==> stat.node_kind() == NodeKind::File,
{
}

/// The size with which an entry counts that is no directory: the length of a file to the last byte,
/// and nothing for a link.
pub open spec fn counted_size(stat: EntryStat, size: nat) -> bool {
    &&& !stat.is_symlink ==> size == stat.len
    &&& stat.is_symlink ==> size == 0
}

/// Every entry that was found and is no directory is among the finished entries, under its own name
/// and path and as what it is, with the length of a file as its size to the last byte and without
/// any size for a link; and every finished entry is such an entry.
pub proof fn law_found_entries(entries: Seq<EntryModel>)
    ensures
        forall|i: int|
            0 <= i < entries.len() ==> ((#[trigger] entries[i]) matches EntryModel::Found {
                name,
                path,
                stat,
            } ==> (stat.is_symlink || !stat.is_dir) ==> exists|j: int|
                0 <= j < file_nodes(entries).len() && {
                    let node = #[trigger] file_nodes(entries)[j];
                    &&& node.name == name
                    &&& node.path == path
                    &&& node.kind == if stat.is_symlink {
                        NodeKind::Symlink
                    } else {
                        NodeKind::File
                    }
                    &&& counted_size(stat, node.size)
                    &&& node.children.len() == 0
                }),
        forall|j: int|
            0 <= j < file_nodes(entries).len() ==> exists|i: int|
                0 <= i < entries.len() && ((#[trigger] entries[i]) matches EntryModel::Found {
                    name,
                    path,
                    stat,
                } && (stat.is_symlink || !stat.is_dir) && (#[trigger] file_nodes(entries)[j]).name
                    == name && file_nodes(entries)[j].path == path && counted_size(
                    stat,
                    file_nodes(entries)[j].size,
                )),
    decreases entries.len(),
{
    if entries.len() > 0 {
        let rest = entries.drop_last();
        let last = entries.last();
        law_found_entries(rest);
        law_one_more_entry(rest, last, Seq::empty());
        assert(rest.push(last) =~= entries);
        let before = file_nodes(rest);
        let after = file_nodes(entries);
        assert forall|j: int| 0 <= j < before.len() implies after[j] == #[trigger] before[j] by {}
        assert forall|i: int|
            0 <= i < entries.len() implies ((#[trigger] entries[i]) matches EntryModel::Found {
            name,
            path,
            stat,
        } ==> (stat.is_symlink || !stat.is_dir) ==> exists|j: int|
            0 <= j < after.len() && {
                let node = #[trigger] after[j];
                &&& node.name == name
                &&& node.path == path
                &&& node.kind == if stat.is_symlink {
                    NodeKind::Symlink
                } else {
                    NodeKind::File
                }
                &&& counted_size(stat, node.size)
                &&& node.children.len() == 0
            }) by {
            if let EntryModel::Found { name, path, stat } = entries[i] {
                if stat.is_symlink || !stat.is_dir {
                    if i < rest.len() {
                        assert(rest[i] == entries[i]);
                        let j = choose|j: int|
                            0 <= j < before.len() && {
                                let node = #[trigger] before[j];
                                &&& node.name == name
                                &&& node.path == path
                                &&& node.kind == if stat.is_symlink {
                                    NodeKind::Symlink
                                } else {
                                    NodeKind::File
                                }
                                &&& counted_size(stat, node.size)
                                &&& node.children.len() == 0
                            };
                        assert(after[j] == before[j]);
                    } else {
                        let node = after[before.len() as int];
                        assert(node.name == name);
                    }
                }
            }
        }
        assert forall|j: int| 0 <= j < after.len() implies exists|i: int|
            0 <= i < entries.len() && ((#[trigger] entries[i]) matches EntryModel::Found {
                name,
                path,
                stat,
            } && (stat.is_symlink || !stat.is_dir) && (#[trigger] after[j]).name == name
                && after[j].path == path && counted_size(stat, after[j].size)) by {
            if j < before.len() {
                let i = choose|i: int|
                    0 <= i < rest.len() && ((#[trigger] rest[i]) matches EntryModel::Found {
                        name,
                        path,
                        stat,
                    } && (stat.is_symlink || !stat.is_dir) && (#[trigger] before[j]).name == name
                        && before[j].path == path && counted_size(stat, before[j].size));
                assert(entries[i] == rest[i]);
                assert(after[j] == before[j]);
            } else {
                assert(entries[entries.len() - 1] == last);
            }
        }
    }
}

/// One more entry adds what it is and nothing else: a file or a link one finished entry, a directory
/// one place to scan, and one that could not be read one warning that says where and why.
pub proof fn law_one_more_entry(entries: Seq<EntryModel>, entry: EntryModel, dir: Seq<char>)
    ensures
        file_nodes(Seq::empty()).len() == 0,
        subdirectories(Seq::empty()).len() == 0,
        entry_warnings(dir, Seq::empty()).len() == 0,
        match entry {
            EntryModel::Unreadable { error } => {
                &&& file_nodes(entries.push(entry)) == file_nodes(entries)
                &&& subdirectories(entries.push(entry)) == subdirectories(entries)
                &&& entry_warnings(dir, entries.push(entry)) == entry_warnings(dir, entries).push(
                    "failed to read entry under "@ + dir + ": "@ + error,
                )
            },
            EntryModel::NoMetadata { path, error } => {
                &&& file_nodes(entries.push(entry)) == file_nodes(entries)
                &&& subdirectories(entries.push(entry)) == subdirectories(entries)
                &&& entry_warnings(dir, entries.push(entry)) == entry_warnings(dir, entries).push(
                    "failed to read metadata for "@ + path + ": "@ + error,
                )
            },
            EntryModel::Found { name, path, stat } => {
                &&& entry_warnings(dir, entries.push(entry)) == entry_warnings(dir, entries)
                &&& stat.is_dir && !stat.is_symlink ==> {
                    &&& file_nodes(entries.push(entry)) == file_nodes(entries)
                    &&& subdirectories(entries.push(entry)) == subdirectories(entries).push(
                        entries.len() as int,
                    )
                }
                &&& !stat.is_dir || stat.is_symlink ==> {
                    &&& subdirectories(entries.push(entry)) == subdirectories(entries)
                    &&& file_nodes(entries.push(entry)) == file_nodes(entries).push(
                        NodeModel {
                            name,
                            path,
                            kind: if stat.is_symlink {
                                NodeKind::Symlink
                            } else {
                                NodeKind::File
                            },
                            size: if stat.is_symlink {
                                0
                            } else {
                                stat.len as nat
                            },
                            children: Seq::empty(),
                        },
                    )
                }
            },
        },
{
    assert(entries.push(entry).drop_last() =~= entries);
    assert(entries.push(entry).last() == entry);
}

/// What was found is what the file system said: nothing of it is changed on the way.
pub proof fn law_entry_content(entry: EntryReading, entries: Seq<EntryReading>)
    ensures
        match entry {
            EntryReading::Unreadable { error } => entry@ == (EntryModel::Unreadable {
                error: error@,
            }),
            EntryReading::NoMetadata { path, error } => entry@ == (EntryModel::NoMetadata {
                path: path@,
                error: error@,
            }),
            EntryReading::Found { name, path, stat } => entry@ == (EntryModel::Found {
                name: name@,
                path: path@,
                stat,
            }),
        },
        entry_models(entries).len() == entries.len(),
        forall|i: int|
            0 <= i < entries.len() ==> #[trigger] entry_models(entries)[i] == entries[i]@,
{
}

/// What is reported is what happened: nothing of a report is changed on the way.
pub proof fn law_event_content(event: ScanProgressEvent, events: Seq<ScanProgressEvent>)
    ensures
        match event {
            ScanProgressEvent::Started { root } => event@ == (ScanEventModel::Started {
                root: root@,
            }),
            ScanProgressEvent::Scanned { path, kind } => event@ == (ScanEventModel::Scanned {
                path: path@,
                kind,
            }),
            ScanProgressEvent::Warning { message } => event@ == (ScanEventModel::Warning {
                message: message@,
            }),
        },
        event_models(events).len() == events.len(),
        forall|i: int| 0 <= i < events.len() ==> #[trigger] event_models(events)[i] == events[i]@,
{
}

/// An entry that is no directory is finished at once, with its path, its name and the length of a
/// file as its size to the last byte, and is reported as what it is; the entries of a directory have
/// to be read.
pub proof fn law_scan_start(start: ScanStart, name: Seq<char>, path: Seq<char>, stat: EntryStat)
    requires
        start.begins(name, path, stat),
    ensures
        start is ReadEntries <==> stat.is_dir && !stat.is_symlink,
        match start {
            ScanStart::Finished { node, event } => {
                &&& node.name@ == name
                &&& node.path@ == path
                &&& node.kind == if stat.is_symlink {
                    NodeKind::Symlink
                } else {
                    NodeKind::File
                }
                &&& stat.is_symlink ==> node.size == 0
                &&& !stat.is_symlink ==> node.size == stat.len
                &&& node.children@.len() == 0
                &&& event matches ScanProgressEvent::Scanned { path: reported, kind }
                &&& reported@ == path
                &&& kind == node.kind
            },
            ScanStart::ReadEntries { scan } => {
                &&& scan.name@ == name
                &&& scan.path@ == path
                &&& scan.children@.len() == 0
                &&& scan.warnings@.len() == 0
            },
        },
{
    match start {
        ScanStart::Finished { node, event } => {
            law_node_content(node);
            law_event_content(event, Seq::empty());
        },
        ScanStart::ReadEntries { scan } => {
            assert(models(scan.children@).len() == scan.children@.len());
            assert(texts(scan.warnings@).len() == scan.warnings@.len());
        },
    }
}

/// An entry is shown by the last part of its path, and by the whole path where there is none.
pub proof fn law_shown_name(path: Seq<char>, part: Seq<char>)
    ensures
        part.len() > 0 ==> shown_name(path, Some(part)) == part,
        part.len() == 0 ==> shown_name(path, Some(part)) == path,
        shown_name(path, None) == path,
{
}

/// What became of a subdirectory: one that was scanned is one more child, as it is, with its
/// warnings behind those before; one that was not leaves the directory's children as they were and
/// one more warning that says why.
pub proof fn law_one_more_child(scan: DirectoryScanModel, outcome: ChildModel)
    ensures
        scan.with_child(outcome).name == scan.name,
        scan.with_child(outcome).path == scan.path,
        match outcome {
            ChildModel::Scanned { node, warnings } => {
                &&& scan.with_child(outcome).children == scan.children + seq![node]
                &&& scan.with_child(outcome).warnings == scan.warnings + warnings
                &&& outcome.warning() is None
            },
            ChildModel::Failed { error } => {
                &&& scan.with_child(outcome).children == scan.children
                &&& scan.with_child(outcome).warnings == scan.warnings + seq![error]
                &&& outcome.warning() == Some(error)
            },
            ChildModel::Lost { error } => {
                &&& scan.with_child(outcome).children == scan.children
                &&& scan.with_child(outcome).warnings == scan.warnings + seq![
                    "scan task join error: "@ + error,
                ]
                &&& outcome.warning() == Some("scan task join error: "@ + error)
            },
        },
{
    match outcome {
        ChildModel::Scanned { node, warnings } => {
            assert(scan.with_child(outcome).children =~= scan.children + seq![node]);
        },
        _ => {
            assert(scan.with_child(outcome).warnings =~= scan.warnings + seq![
                outcome.warning()->0,
            ]);
        },
    }
}

/// A scanned directory has its path and name, holds each child once, the larger ones first, and is
/// as large as its children together: a child of any size adds just that.
pub proof fn law_scanned_directory(scan: DirectoryScanModel, node: NodeModel, i: int, j: int)
    ensures
        scan.node().name == scan.name,
        scan.node().path == scan.path,
        scan.node().kind == NodeKind::Directory,
        scan.node().children.to_multiset() == scan.children.to_multiset(),
        scan.children.len() == 0 ==> scan.node().size == 0,
        (DirectoryScanModel { children: scan.children.push(node), ..scan }).node().size
            == scan.node().size + node.size,
        0 <= i < j < scan.node().children.len() ==> scan.node().children[i].size
            >= scan.node().children[j].size,
{
    law_listed(scan.children);
    law_sums(scan.children, node, seq![node]);
    assert(scan.children.push(node) =~= scan.children + seq![node]);
    if 0 <= i < j < scan.node().children.len() {
        law_largest_first(scan.children, i, j);
    }
    if scan.children.len() == 0 {
        assert(scan.children =~= Seq::empty());
    }
}

/// A directory that holds nothing but one file is as large as the file, to the last byte.
pub proof fn law_directory_of_one_file(
    scan: DirectoryScanModel,
    name: Seq<char>,
    path: Seq<char>,
    stat: EntryStat,
)
    requires
        !stat.is_symlink,
        !stat.is_dir,
        scan.children == file_nodes(seq![EntryModel::Found { name, path, stat }]),
    ensures
        scan.node().size == stat.len,
{
    let entry = EntryModel::Found { name, path, stat };
    law_one_more_entry(Seq::empty(), entry, Seq::empty());
    assert(Seq::<EntryModel>::empty().push(entry) =~= seq![entry]);
    assert(scan.children =~= seq![scan.children[0]]);
    law_sums(Seq::empty(), scan.children[0], Seq::empty());
}

/// Each warning is reported once, in order, as it is.
pub proof fn law_warnings_reported(warnings: Seq<Seq<char>>)
    ensures
        warning_events(warnings).len() == warnings.len(),
        forall|i: int|
            0 <= i < warnings.len() ==> #[trigger] warning_events(warnings)[i] == (
            ScanEventModel::Warning { message: warnings[i] }),
{
}

/// Of the ancestors of a directory exactly the first that all lie on its device are climbed.
pub proof fn law_same_device(device: u64, ancestors: Seq<Option<u64>>, n: int, i: int)
    requires
        0 <= i < n <= ancestors.len(),
        same_device(device, ancestors, n),
    ensures
        ancestors[i] == Some(device),
{
}

/// The root of a drive is made of the prefixes at the beginning of a path and the root directory
/// right behind them.
pub proof fn law_drive_root(parts: Seq<PathPart>, i: int)
    ensures
        leading_prefixes(parts) <= drive_root_parts(parts) <= parts.len(),
        0 <= i < leading_prefixes(parts) ==> parts[i] == PathPart::Prefix,
        leading_prefixes(parts) < parts.len() ==> parts[leading_prefixes(parts) as int]
            != PathPart::Prefix,
        drive_root_parts(parts) == leading_prefixes(parts) + 1 <==> leading_prefixes(parts)
            < parts.len() && parts[leading_prefixes(parts) as int] == PathPart::RootDir,
        drive_root_parts(parts) <= leading_prefixes(parts) + 1,
    decreases parts.len(),
{
    if parts.len() > 0 && parts[0] == PathPart::Prefix {
        law_drive_root(parts.drop_first(), i - 1);
    }
}

/// A duration that can be held is kept to the millisecond, and a longer one is the longest that can.
pub proof fn law_held_duration(elapsed_ms: nat)
    ensures
        elapsed_ms <= u64::MAX ==> held_duration(elapsed_ms) == elapsed_ms,
        elapsed_ms > u64::MAX ==> held_duration(elapsed_ms) == u64::MAX,
{
}

/// Eight directories are read at a time for each processor, and eight where nothing is known of them.
pub proof fn law_parallelism(processors: usize)
    ensures
        processors > 0 ==> parallelism(Some(processors)) == 8 * processors,
        parallelism(Some(0)) == 8,
        parallelism(None) == 8,
{
}

/// Entries that are read are children, all of them and in order, behind those before, and so are the
/// warnings of reading them.
pub proof fn law_entries_taken(
    scan: DirectoryScanModel,
    files: Seq<NodeModel>,
    warnings: Seq<Seq<char>>,
    i: int,
)
    ensures
        ({
            let read = scan.with_entries(files, warnings);
            &&& read.name == scan.name
            &&& read.path == scan.path
            &&& read.children.len() == scan.children.len() + files.len()
            &&& read.warnings.len() == scan.warnings.len() + warnings.len()
            &&& 0 <= i < scan.children.len() ==> read.children[i] == scan.children[i]
            &&& 0 <= i < files.len() ==> read.children[scan.children.len() + i] == files[i]
            &&& 0 <= i < scan.warnings.len() ==> read.warnings[i] == scan.warnings[i]
            &&& 0 <= i < warnings.len() ==> read.warnings[scan.warnings.len() + i] == warnings[i]
        }),
{
}

} // verus!
