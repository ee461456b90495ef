//! The manifest of a folder that an origin serves is one that a receiver accepts.
use vstd::prelude::*;

use crate::destination::{
    forbidden_char, has_forbidden_char, lemma_relative_path_is_portable_names, path_error,
    portable_component, MAX_RELATIVE_PATH_BYTES,
};
use crate::digest::sha256;
use crate::exchange_laws::lemma_folder_manifest_agrees;
use crate::manifest::{
    entries_error, file_bytes, folded_path_in, lowercase, manifest_error, ManifestView,
};
use crate::offer::{
    DescriptorView, MAX_OFFER_FILE_BYTES, MAX_OFFER_PORTABLE_COMPONENT_BYTES,
    MAX_OFFER_TRANSFER_BYTES,
};
use crate::order::{name_views, sorted_names};
use crate::send::{plan_header, plan_manifest_end, FetchRequest};
use crate::source::{
    lemma_servable_is_portable, metadata_bytes, servable_component, MetadataView,
};
use crate::source_plan::{finished_plan, folder_check, folder_walk};
use crate::text::{byte_len, lemma_split_child, lemma_split_single, split_on};
use crate::walk::{
    child_path, lemma_walk_wf, FrameView, LiveFileView, WalkEvent, WalkRules, WalkStep, WalkView,
};
use crate::walk_laws::{
    folds_apart, lemma_a_walk_lists_parents_first, lemma_parents_first_are_listed, walk_run,
};
use crate::wire::{EntryView, FileEntryKind, V2Limits};

verus! {

/// Whether a path leads through portable names only.
pub open spec fn portable_path(path: Seq<char>) -> bool {
    &&& path.len() > 0
    &&& !path.contains('\\')
    &&& forall|i: int|
        0 <= i < split_on(path, '/').len() ==> portable_component(
            #[trigger] split_on(path, '/')[i],
        )
}

/// A portable name in a portable directory, or at the top, has a portable path.
proof fn lemma_child_is_portable(directory: Seq<char>, name: Seq<char>)
    requires
        directory.len() == 0 || portable_path(directory),
        portable_component(name),
    ensures
        portable_path(child_path(directory, name)),
{
    reveal_strlit("/");
    assert(!has_forbidden_char(name));
    assert(!name.contains('/') && !name.contains('\\')) by {
        assert forall|i: int| 0 <= i < name.len() implies name[i] != '/' && name[i] != '\\' by {
            assert(!forbidden_char(name[i]));
        }
    }
    let path = child_path(directory, name);
    if directory.len() == 0 {
        lemma_split_single(name);
    } else {
        lemma_split_child(directory, name);
        assert forall|i: int| 0 <= i < path.len() implies path[i] != '\\' by {
            if i < directory.len() {
                assert(directory.contains(directory[i]));
            } else if i > directory.len() {
                assert(path[i] == name[i - directory.len() - 1]);
                assert(name.contains(name[i - directory.len() - 1]));
            }
        }
        assert forall|i: int| 0 <= i < split_on(path, '/').len() implies portable_component(
            #[trigger] split_on(path, '/')[i],
        ) by {
            if i < split_on(directory, '/').len() {
                assert(split_on(path, '/')[i] == split_on(directory, '/')[i]);
            }
        }
    }
}

/// Whether an entry is one that an origin serves within these bounds.
pub open spec fn entry_served(entry: EntryView, limits: V2Limits) -> bool {
    &&& portable_path(entry.relative_path)
    &&& byte_len(entry.relative_path) <= limits.max_relative_path_bytes
    &&& entry.kind is Directory ==> entry.byte_len == 0
    &&& entry.kind is File ==> entry.byte_len <= MAX_OFFER_FILE_BYTES
}

/// Whether a directory that is being walked is the top, or has a portable path.
pub open spec fn directory_served(directory: Seq<char>) -> bool {
    directory.len() == 0 || portable_path(directory)
}

/// What holds of every walk of a folder that is served within these bounds.
pub open spec fn serving(w: WalkView, limits: V2Limits) -> bool {
    &&& w.rules.serving == Some(limits)
    &&& forall|i: int|
        0 <= i < w.manifest.len() ==> entry_served(#[trigger] w.manifest[i], limits)
    &&& forall|i: int|
        0 <= i < w.frames.len() ==> directory_served((#[trigger] w.frames[i]).directory)
    &&& match w.step {
        WalkStep::List(directory) => directory_served(directory),
        WalkStep::Inspect(path) => portable_path(path) && byte_len(path)
            <= limits.max_relative_path_bytes,
        WalkStep::Finished(_) => true,
    }
}

/// A walk starts as one that is served.
pub proof fn lemma_serving_starts(root_name: Seq<char>, metadata: MetadataView, limits: V2Limits)
    ensures
        serving(folder_walk(root_name, metadata, WalkRules { serving: Some(limits) }), limits),
{
}

proof fn lemma_advance_serves(w: WalkView, limits: V2Limits)
    requires
        w.rules.serving == Some(limits),
        limits.max_component_bytes <= MAX_OFFER_PORTABLE_COMPONENT_BYTES,
        forall|i: int|
            0 <= i < w.manifest.len() ==> entry_served(#[trigger] w.manifest[i], limits),
        forall|i: int|
            0 <= i < w.frames.len() ==> directory_served((#[trigger] w.frames[i]).directory),
    ensures
        serving(w.advance(), limits),
    decreases w.frames.len(),
{
    if w.frames.len() > 0 {
        let n = w.frames.len() - 1;
        let frame = w.frames.last();
        let outer = w.frames.drop_last();
        assert(w.frames[n] == frame);
        assert forall|i: int| 0 <= i < outer.len() implies directory_served(
            (#[trigger] outer[i]).directory,
        ) by {
            assert(outer[i] == w.frames[i]);
        }
        if frame.names.len() == 0 {
            lemma_advance_serves(WalkView { frames: outer, ..w }, limits);
        } else {
            let rest = FrameView { names: frame.names.drop_first(), ..frame };
            let kept = outer.push(rest);
            assert forall|i: int| 0 <= i < kept.len() implies directory_served(
                (#[trigger] kept[i]).directory,
            ) by {
                if i < outer.len() {
                    assert(kept[i] == outer[i]);
                }
            }
            let name = vstd::utf8::decode_utf8(frame.names[0]);
            if w.rules.accepts_name(name) {
                assert(servable_component(name, limits.max_component_bytes as nat));
                assert(servable_component(name, MAX_OFFER_PORTABLE_COMPONENT_BYTES as nat));
                lemma_servable_is_portable(name);
                lemma_child_is_portable(frame.directory, name);
            }
        }
    }
}

/// Every event keeps a walk one that is served.
pub proof fn lemma_serving_goes_on(w: WalkView, event: WalkEvent, limits: V2Limits)
    requires
        serving(w, limits),
        limits.max_component_bytes <= MAX_OFFER_PORTABLE_COMPONENT_BYTES,
    ensures
        serving(w.next(event), limits),
{
    match (w.step, event) {
        (WalkStep::List(directory), WalkEvent::Listed(Ok(names))) => {
            let frame = FrameView { directory, names: sorted_names(name_views(names@)) };
            let pushed = WalkView { frames: w.frames.push(frame), ..w };
            assert forall|i: int| 0 <= i < pushed.frames.len() implies directory_served(
                (#[trigger] pushed.frames[i]).directory,
            ) by {
                if i < w.frames.len() {
                    assert(pushed.frames[i] == w.frames[i]);
                }
            }
            lemma_advance_serves(pushed, limits);
        },
        (WalkStep::Inspect(path), WalkEvent::Inspected(Ok(metadata))) => {
            lemma_visit_serves(w, path, metadata@, limits);
        },
        _ => {},
    }
}

proof fn lemma_visit_serves(
    w: WalkView,
    path: Seq<char>,
    metadata: MetadataView,
    limits: V2Limits,
)
    requires
        serving(w, limits),
        portable_path(path),
        byte_len(path) <= limits.max_relative_path_bytes,
        limits.max_component_bytes <= MAX_OFFER_PORTABLE_COMPONENT_BYTES,
    ensures
        serving(w.visit(path, metadata), limits),
{
    let file = EntryView { relative_path: path, kind: FileEntryKind::File, byte_len: metadata.len };
    let directory = EntryView {
        relative_path: path,
        kind: FileEntryKind::Directory,
        byte_len: 0,
    };
    let with_directory = w.manifest.push(directory);
    assert forall|i: int| 0 <= i < with_directory.len() implies entry_served(
        #[trigger] with_directory[i],
        limits,
    ) by {
        if i < w.manifest.len() {
            assert(with_directory[i] == w.manifest[i]);
        }
    }
    if metadata.len <= MAX_OFFER_FILE_BYTES {
        let with_file = w.manifest.push(file);
        assert forall|i: int| 0 <= i < with_file.len() implies entry_served(
            #[trigger] with_file[i],
            limits,
        ) by {
            if i < w.manifest.len() {
                assert(with_file[i] == w.manifest[i]);
            }
        }
        let counted = WalkView {
            entry_count: (w.entry_count + 1) as u32,
            transcript: w.transcript + metadata_bytes("entry"@, path, metadata),
            file_count: (w.file_count + 1) as u32,
            total_bytes: (w.total_bytes + metadata.len) as u64,
            manifest: with_file,
            files: w.files.push(
                LiveFileView {
                    entry_index: w.manifest.len() as u32,
                    is_root: false,
                    relative_name: path,
                    byte_len: metadata.len,
                    metadata_digest: sha256(metadata_bytes("entry"@, path, metadata)),
                },
            ),
            ..w
        };
        lemma_advance_serves(counted, limits);
    }
}

/// Whether no two paths are equal but for case.
pub open spec fn paths_differ(entries: Seq<EntryView>) -> bool {
    forall|i: int, j: int|
        0 <= i < j < entries.len() ==> lowercase(#[trigger] entries[i].relative_path)
            != lowercase(#[trigger] entries[j].relative_path)
}

proof fn lemma_served_entries_are_accepted(entries: Seq<EntryView>, limits: V2Limits)
    requires
        forall|i: int| 0 <= i < entries.len() ==> entry_served(#[trigger] entries[i], limits),
        paths_differ(entries),
        file_bytes(entries) <= u64::MAX,
        limits.max_relative_path_bytes <= MAX_RELATIVE_PATH_BYTES,
        limits.max_file_bytes >= MAX_OFFER_FILE_BYTES,
    ensures
        entries_error(entries, limits) is None,
    decreases entries.len(),
{
    if entries.len() > 0 {
        let rest = entries.drop_last();
        let last = entries.last();
        assert(entries[entries.len() - 1] == last);
        assert forall|i: int| 0 <= i < rest.len() implies entry_served(
            #[trigger] rest[i],
            limits,
        ) by {
            assert(rest[i] == entries[i]);
        }
        assert forall|i: int, j: int| 0 <= i < j < rest.len() implies lowercase(
            #[trigger] rest[i].relative_path,
        ) != lowercase(#[trigger] rest[j].relative_path) by {
            assert(rest[i] == entries[i]);
            assert(rest[j] == entries[j]);
        }
        lemma_served_entries_are_accepted(rest, limits);
        lemma_relative_path_is_portable_names(last.relative_path);
        assert(path_error(last.relative_path) is None);
        assert(!folded_path_in(rest, lowercase(last.relative_path))) by {
            if folded_path_in(rest, lowercase(last.relative_path)) {
                let i = choose|i: int|
                    0 <= i < rest.len() && lowercase(#[trigger] rest[i].relative_path)
                        == lowercase(last.relative_path);
                assert(rest[i] == entries[i]);
                assert(lowercase(entries[i].relative_path) != lowercase(
                    entries[entries.len() - 1].relative_path,
                ));
            }
        }
    }
}

/// Every walk that serves a folder within these bounds is one that is served.
pub proof fn lemma_served_walk(
    root_name: Seq<char>,
    metadata: MetadataView,
    events: Seq<WalkEvent>,
    limits: V2Limits,
)
    requires
        limits.max_component_bytes <= MAX_OFFER_PORTABLE_COMPONENT_BYTES,
    ensures
        ({
            let rules = WalkRules { serving: Some(limits) };
            let walk = walk_run(folder_walk(root_name, metadata, rules), events);
            walk.wf() && serving(walk, limits)
        }),
    decreases events.len(),
{
    let rules = WalkRules { serving: Some(limits) };
    let start = folder_walk(root_name, metadata, rules);
    if events.len() == 0 {
        lemma_serving_starts(root_name, metadata, limits);
    } else {
        let before = walk_run(start, events.drop_last());
        lemma_served_walk(root_name, metadata, events.drop_last(), limits);
        lemma_serving_goes_on(before, events.last(), limits);
        lemma_walk_wf(before, events.last());
    }
}

/// A receiver with the same bounds accepts the manifest of an unchanged folder that an
/// origin has walked to serve it, whatever the host said on the way.  This leaves out
/// folders in which two paths are equal but for case, which a receiver refuses, and it
/// takes for granted that the lower case of a path is that of its directory and that of
/// its name, with one separator between them.
pub proof fn lemma_served_folder_is_accepted(
    request: FetchRequest,
    root_name: Seq<char>,
    metadata: MetadataView,
    events: Seq<WalkEvent>,
    descriptor: DescriptorView,
    commitment: Seq<u8>,
    chunk_bytes: usize,
    encoded: Seq<u8>,
    limits: V2Limits,
)
    requires
        ({
            let rules = WalkRules { serving: Some(limits) };
            let walk = walk_run(folder_walk(root_name, metadata, rules), events);
            &&& folder_check(walk, descriptor, commitment) is Ok
            &&& finished_plan(
                descriptor,
                folder_check(walk, descriptor, commitment)->Ok_0,
                Some(chunk_bytes),
                Some(encoded),
                limits,
            ) is Ok
            &&& paths_differ(walk.manifest)
            &&& folds_apart(walk.manifest)
        }),
        limits.max_component_bytes <= MAX_OFFER_PORTABLE_COMPONENT_BYTES,
        limits.max_relative_path_bytes <= MAX_RELATIVE_PATH_BYTES,
        limits.max_file_bytes >= MAX_OFFER_FILE_BYTES,
        limits.max_transfer_bytes >= MAX_OFFER_TRANSFER_BYTES,
    ensures
        ({
            let rules = WalkRules { serving: Some(limits) };
            let walk = walk_run(folder_walk(root_name, metadata, rules), events);
            let plan = finished_plan(
                descriptor,
                folder_check(walk, descriptor, commitment)->Ok_0,
                Some(chunk_bytes),
                Some(encoded),
                limits,
            )->Ok_0;
            manifest_error(
                plan_header(request, plan),
                descriptor,
                (ManifestView {
                    entries: plan.manifest,
                    end: Some(plan_manifest_end(request, plan)),
                    encoded: Some(encoded),
                }),
                limits,
            ) is None
        }),
{
    let rules = WalkRules { serving: Some(limits) };
    let walk = walk_run(folder_walk(root_name, metadata, rules), events);
    lemma_served_walk(root_name, metadata, events, limits);
    lemma_a_walk_lists_parents_first(root_name, metadata, rules, events);
    lemma_parents_first_are_listed(walk.manifest);
    lemma_folder_manifest_agrees(
        request,
        walk,
        descriptor,
        commitment,
        chunk_bytes,
        encoded,
        limits,
    );
    lemma_served_entries_are_accepted(walk.manifest, limits);
}

} // verus!
