//! What holds of the whole walk of a folder.
use vstd::prelude::*;
use vstd::utf8::{encode_utf8, valid_utf8};

use crate::destination::{forbidden_char, has_forbidden_char};
use crate::digest::sha256;
use crate::manifest::{
    directory_in, file_bytes, lowercase, parents_listed, parents_of_path_listed,
};
use crate::offer::{MAX_OFFER_FILE_BYTES, MAX_OFFER_TRANSFER_BYTES};
use crate::order::{bytes_le, lemma_name_order_is_total, name_order, name_views, sorted_names};
use crate::source::{metadata_bytes, MetadataView};
use crate::source_plan::folder_walk;
use crate::text::{lemma_split_child, lemma_split_single, split_on};
use crate::walk::{
    child_path, lemma_walk_wf, FrameView, LiveFileView, WalkEvent, WalkRules, WalkStep, WalkView,
};
use crate::wire::{EntryView, FileEntryKind};

verus! {

/// A walk after some events.
pub open spec fn walk_run(w: WalkView, events: Seq<WalkEvent>) -> WalkView
    decreases events.len(),
{
    if events.len() == 0 {
        w
    } else {
        walk_run(w, events.drop_last()).next(events.last())
    }
}

/// Whether a name can stand between separators.
pub open spec fn proper_name(name: Seq<char>) -> bool {
    name.len() > 0 && !name.contains('/')
}

proof fn lemma_accepted_is_proper(rules: WalkRules, name: Seq<char>)
    requires
        rules.accepts_name(name),
    ensures
        proper_name(name),
{
    assert(!has_forbidden_char(name));
    if name.contains('/') {
        let i = choose|i: int| 0 <= i < name.len() && name[i] == '/';
        assert(forbidden_char(name[i]));
    }
}

/// The walk with a file that was just counted, before it goes on.
spec fn with_file(w: WalkView, path: Seq<char>, metadata: MetadataView) -> WalkView {
    WalkView {
        entry_count: (w.entry_count + 1) as u32,
        transcript: w.transcript + metadata_bytes("entry"@, path, metadata),
        file_count: (w.file_count + 1) as u32,
        total_bytes: (w.total_bytes + metadata.len) as u64,
        manifest: w.manifest.push(
            EntryView {
                relative_path: path,
                kind: FileEntryKind::File,
                byte_len: metadata.len,
            },
        ),
        files: w.files.push(
            LiveFileView {
                entry_index: w.manifest.len() as u32,
                is_root: false,
                relative_name: path,
                byte_len: metadata.len,
                metadata_digest: sha256(metadata_bytes("entry"@, path, metadata)),
            },
        ),
        ..w
    }
}

/// The walk with a directory that was just listed, before it goes on.
spec fn with_frame(w: WalkView, directory: Seq<char>, names: Seq<Seq<u8>>) -> WalkView {
    WalkView { frames: w.frames.push(FrameView { directory, names }), ..w }
}

// Parents.

/// Whether a directory is the top, or an entry of its own.
pub open spec fn directory_listed(entries: Seq<EntryView>, directory: Seq<char>) -> bool {
    directory.len() == 0 || exists|j: int|
        0 <= j < entries.len() && (#[trigger] entries[j]).kind is Directory
            && entries[j].relative_path == directory
}

/// Whether `path` is a name in a directory that is the top or an entry.
pub open spec fn in_listed(entries: Seq<EntryView>, path: Seq<char>) -> bool {
    exists|directory: Seq<char>, name: Seq<char>|
        path == #[trigger] child_path(directory, name) && proper_name(name) && directory_listed(
            entries,
            directory,
        )
}

/// Whether the directory of every entry stands before the entry.
pub open spec fn parents_first(entries: Seq<EntryView>) -> bool {
    forall|i: int|
        0 <= i < entries.len() ==> in_listed(
            entries.subrange(0, i),
            (#[trigger] entries[i]).relative_path,
        )
}

/// What holds of the directories of every walk.
spec fn rooted(w: WalkView) -> bool {
    &&& parents_first(w.manifest)
    &&& frames_rooted(w)
    &&& match w.step {
        WalkStep::List(directory) => directory_listed(w.manifest, directory),
        WalkStep::Inspect(path) => in_listed(w.manifest, path),
        WalkStep::Finished(_) => true,
    }
}

spec fn frames_rooted(w: WalkView) -> bool {
    forall|k: int|
        0 <= k < w.frames.len() ==> directory_listed(w.manifest, (#[trigger] w.frames[k]).directory)
}

proof fn lemma_advance_rooted(w: WalkView)
    requires
        parents_first(w.manifest),
        frames_rooted(w),
    ensures
        rooted(w.advance()),
    decreases w.frames.len(),
{
    if w.frames.len() > 0 {
        let n = w.frames.len() - 1;
        let frame = w.frames.last();
        let outer = w.frames.drop_last();
        assert(w.frames[n] == frame);
        assert forall|k: int| 0 <= k < outer.len() implies directory_listed(
            w.manifest,
            (#[trigger] outer[k]).directory,
        ) by {
            assert(outer[k] == w.frames[k]);
        }
        if frame.names.len() == 0 {
            lemma_advance_rooted(WalkView { frames: outer, ..w });
        } else {
            let rest = FrameView { names: frame.names.drop_first(), ..frame };
            let kept = outer.push(rest);
            assert forall|k: int| 0 <= k < kept.len() implies directory_listed(
                w.manifest,
                (#[trigger] kept[k]).directory,
            ) by {
                if k < outer.len() {
                    assert(kept[k] == outer[k]);
                }
            }
            let name = vstd::utf8::decode_utf8(frame.names[0]);
            if w.rules.accepts_name(name) {
                lemma_accepted_is_proper(w.rules, name);
                assert(in_listed(w.manifest, child_path(frame.directory, name)));
            }
        }
    }
}

proof fn lemma_more_listed(entries: Seq<EntryView>, entry: EntryView)
    ensures
        forall|d: Seq<char>| #[trigger]
            directory_listed(entries, d) ==> directory_listed(entries.push(entry), d),
{
    assert forall|d: Seq<char>| #[trigger] directory_listed(entries, d) implies directory_listed(
        entries.push(entry),
        d,
    ) by {
        if d.len() > 0 {
            let j = choose|j: int|
                0 <= j < entries.len() && (#[trigger] entries[j]).kind is Directory
                    && entries[j].relative_path == d;
            assert(entries.push(entry)[j] == entries[j]);
        }
    }
}

proof fn lemma_push_keeps_parents(entries: Seq<EntryView>, entry: EntryView)
    requires
        parents_first(entries),
        in_listed(entries, entry.relative_path),
    ensures
        parents_first(entries.push(entry)),
{
    let more = entries.push(entry);
    assert forall|i: int| 0 <= i < more.len() implies in_listed(
        more.subrange(0, i),
        (#[trigger] more[i]).relative_path,
    ) by {
        assert(more.subrange(0, i) =~= entries.subrange(0, i));
        if i < entries.len() {
            assert(more[i] == entries[i]);
        } else {
            assert(entries.subrange(0, i) =~= entries);
        }
    }
}

proof fn lemma_visit_rooted(w: WalkView, path: Seq<char>, metadata: MetadataView)
    requires
        rooted(w),
        w.step == WalkStep::<Seq<char>>::Inspect(path),
    ensures
        rooted(w.visit(path, metadata)),
{
    let file = EntryView { relative_path: path, kind: FileEntryKind::File, byte_len: metadata.len };
    let directory = EntryView { relative_path: path, kind: FileEntryKind::Directory, byte_len: 0 };
    lemma_more_listed(w.manifest, file);
    lemma_more_listed(w.manifest, directory);
    lemma_push_keeps_parents(w.manifest, file);
    lemma_push_keeps_parents(w.manifest, directory);
    let more = w.manifest.push(directory);
    assert(more[w.manifest.len() as int] == directory);
    assert(directory_listed(more, path));
    if metadata.is_file {
        lemma_advance_rooted(with_file(w, path, metadata));
    }
}

proof fn lemma_next_rooted(w: WalkView, event: WalkEvent)
    requires
        rooted(w),
    ensures
        rooted(w.next(event)),
{
    match (w.step, event) {
        (WalkStep::List(directory), WalkEvent::Listed(Ok(names))) => {
            let pushed = with_frame(w, directory, sorted_names(name_views(names@)));
            assert forall|k: int| 0 <= k < pushed.frames.len() implies directory_listed(
                w.manifest,
                (#[trigger] pushed.frames[k]).directory,
            ) by {
                if k < w.frames.len() {
                    assert(pushed.frames[k] == w.frames[k]);
                }
            }
            lemma_advance_rooted(pushed);
        },
        (WalkStep::Inspect(path), WalkEvent::Inspected(Ok(metadata))) => {
            lemma_visit_rooted(w, path, metadata@);
        },
        _ => {},
    }
}

proof fn lemma_run_rooted(w: WalkView, events: Seq<WalkEvent>)
    requires
        rooted(w),
    ensures
        rooted(walk_run(w, events)),
    decreases events.len(),
{
    if events.len() > 0 {
        lemma_run_rooted(w, events.drop_last());
        lemma_next_rooted(walk_run(w, events.drop_last()), events.last());
    }
}

/// At every step of a walk, whatever the events, the directory of every object that was
/// counted is the folder itself or was counted before it.
pub proof fn lemma_a_walk_lists_parents_first(
    root_name: Seq<char>,
    metadata: MetadataView,
    rules: WalkRules,
    events: Seq<WalkEvent>,
)
    ensures
        parents_first(walk_run(folder_walk(root_name, metadata, rules), events).manifest),
{
    lemma_run_rooted(folder_walk(root_name, metadata, rules), events);
}

/// Whether the lower case of a path is that of its directory and that of its name, with
/// the one separator between them.
pub open spec fn folds_apart(entries: Seq<EntryView>) -> bool {
    forall|i: int, directory: Seq<char>, name: Seq<char>|
        0 <= i < entries.len() && (#[trigger] entries[i]).relative_path == #[trigger] child_path(
            directory,
            name,
        ) && proper_name(name) ==> {
            &&& !lowercase(name).contains('/')
            &&& directory.len() > 0 ==> lowercase(child_path(directory, name)) == lowercase(
                directory,
            ) + "/"@ + lowercase(name)
        }
}

proof fn lemma_parents_of_entry(entries: Seq<EntryView>, i: int)
    requires
        parents_first(entries),
        folds_apart(entries),
        0 <= i < entries.len(),
    ensures
        parents_of_path_listed(entries, entries[i].relative_path),
    decreases i,
{
    reveal_strlit("/");
    let path = entries[i].relative_path;
    let before = entries.subrange(0, i);
    assert(in_listed(before, path));
    let (directory, name) = choose|directory: Seq<char>, name: Seq<char>|
        path == #[trigger] child_path(directory, name) && proper_name(name) && directory_listed(
            before,
            directory,
        );
    let folded = lowercase(path);
    assert(!lowercase(name).contains('/'));
    assert forall|k: int| 0 <= k < folded.len() && #[trigger] folded[k] == '/' implies directory_in(
        entries,
        folded.subrange(0, k),
    ) by {
        if directory.len() == 0 {
            assert(path == name);
            assert(lowercase(name).contains(folded[k]));
        } else {
            let parent = lowercase(directory);
            assert(folded == parent + "/"@ + lowercase(name));
            let j = choose|j: int|
                0 <= j < before.len() && (#[trigger] before[j]).kind is Directory
                    && before[j].relative_path == directory;
            assert(entries[j] == before[j]);
            if k > parent.len() {
                assert(folded[k] == lowercase(name)[k - parent.len() - 1]);
                assert(lowercase(name).contains(folded[k]));
            } else if k == parent.len() {
                assert(folded.subrange(0, k) =~= parent);
            } else {
                lemma_parents_of_entry(entries, j);
                assert(parent[k] == '/');
                assert(folded.subrange(0, k) =~= parent.subrange(0, k));
            }
        }
    }
}

/// Where every directory stands before its content, and lower case keeps separators
/// apart, every directory on the way to an entry is listed as a receiver checks it.
pub proof fn lemma_parents_first_are_listed(entries: Seq<EntryView>)
    requires
        parents_first(entries),
        folds_apart(entries),
    ensures
        parents_listed(entries),
{
    assert forall|i: int|
        0 <= i < entries.len() && (
        #[trigger] entries[i]).relative_path.len() > 0 implies parents_of_path_listed(
        entries,
        entries[i].relative_path,
    ) by {
        lemma_parents_of_entry(entries, i);
    }
}

// Order.

/// The names on the way to a path, as the host spells them.
pub open spec fn components(path: Seq<char>) -> Seq<Seq<u8>> {
    if path.len() == 0 {
        Seq::empty()
    } else {
        Seq::new(split_on(path, '/').len(), |i: int| encode_utf8(split_on(path, '/')[i]))
    }
}

/// Whether the first names that differ stand at `t`, and that of `a` comes first.
pub open spec fn parts_at(a: Seq<Seq<u8>>, b: Seq<Seq<u8>>, t: int) -> bool {
    &&& 0 <= t < a.len()
    &&& t < b.len()
    &&& a.subrange(0, t) == b.subrange(0, t)
    &&& bytes_le(a[t], b[t])
    &&& a[t] != b[t]
}

/// Whether one way leaves the other, by a name that comes first.
pub open spec fn parts_before(a: Seq<Seq<u8>>, b: Seq<Seq<u8>>) -> bool {
    exists|t: int| #[trigger] parts_at(a, b, t)
}

/// Whether a path comes before another in a walk: it leads to it, or leaves it by a name
/// that comes first.
pub open spec fn comes_before(a: Seq<Seq<u8>>, b: Seq<Seq<u8>>) -> bool {
    ||| parts_before(a, b)
    ||| a.len() < b.len() && b.subrange(0, a.len() as int) == a
}

/// Whether the entries stand in the order of a walk: each once, a directory before what
/// is in it, and what is in one directory by name.
pub open spec fn in_walk_order(entries: Seq<EntryView>) -> bool {
    forall|i: int, j: int|
        0 <= i < j < entries.len() ==> comes_before(
            components((#[trigger] entries[i]).relative_path),
            components((#[trigger] entries[j]).relative_path),
        )
}

proof fn lemma_child_components(directory: Seq<char>, name: Seq<char>)
    requires
        proper_name(name),
    ensures
        components(child_path(directory, name)) == components(directory).push(encode_utf8(name)),
{
    reveal_strlit("/");
    if directory.len() == 0 {
        lemma_split_single(name);
        assert(components(name) =~= Seq::<Seq<u8>>::empty().push(encode_utf8(name)));
    } else {
        lemma_split_child(directory, name);
        let path = child_path(directory, name);
        assert(path.len() > 0);
        assert(components(path) =~= components(directory).push(encode_utf8(name)));
    }
}

proof fn lemma_parts_extend(a: Seq<Seq<u8>>, b: Seq<Seq<u8>>, x: Seq<u8>)
    requires
        parts_before(a, b),
    ensures
        parts_before(a.push(x), b),
{
    let t = choose|t: int| #[trigger] parts_at(a, b, t);
    assert(a.push(x).subrange(0, t) =~= a.subrange(0, t));
    assert(parts_at(a.push(x), b, t));
}

proof fn lemma_before_extends(a: Seq<Seq<u8>>, b: Seq<Seq<u8>>, x: Seq<u8>)
    requires
        a == b || comes_before(a, b),
    ensures
        comes_before(a, b.push(x)),
{
    if a != b && parts_before(a, b) {
        let t = choose|t: int| #[trigger] parts_at(a, b, t);
        assert(b.push(x).subrange(0, t) =~= b.subrange(0, t));
        assert(parts_at(a, b.push(x), t));
    } else {
        assert(b.push(x).subrange(0, a.len() as int) =~= b.subrange(0, a.len() as int));
        assert(a == b ==> b.subrange(0, a.len() as int) =~= a);
    }
}

proof fn lemma_siblings_part(directory: Seq<Seq<u8>>, x: Seq<u8>, y: Seq<u8>)
    requires
        bytes_le(x, y),
        x != y,
    ensures
        parts_before(directory.push(x), directory.push(y)),
{
    let t = directory.len() as int;
    assert(directory.push(x).subrange(0, t) =~= directory.push(y).subrange(0, t));
    assert(parts_at(directory.push(x), directory.push(y), t));
}

/// Nothing comes before itself, so that no path stands twice in the order of a walk.
pub proof fn lemma_walk_order_lists_once(entries: Seq<EntryView>, i: int, j: int)
    requires
        in_walk_order(entries),
        0 <= i < j < entries.len(),
    ensures
        entries[i].relative_path != entries[j].relative_path,
{
    let a = components(entries[i].relative_path);
    let b = components(entries[j].relative_path);
    assert(comes_before(a, b));
    if a == b && parts_before(a, b) {
        let t = choose|t: int| #[trigger] parts_at(a, b, t);
        assert(a[t] == b[t]);
    }
}

/// Whether names stand in their order, each once.
spec fn strictly_sorted(names: Seq<Seq<u8>>) -> bool {
    forall|a: int, b: int|
        0 <= a < b < names.len() ==> bytes_le(#[trigger] names[a], #[trigger] names[b]) && names[a]
            != names[b]
}

/// The way to name `r` of a directory.
spec fn way(frame: FrameView, r: int) -> Seq<Seq<u8>> {
    components(frame.directory).push(frame.names[r])
}

/// Whether a way leaves that to every name that is still to come, and comes first.
spec fn ahead(way_to: Seq<Seq<u8>>, frames: Seq<FrameView>) -> bool {
    forall|k: int, r: int|
        #![trigger frames[k].names[r]]
        0 <= k < frames.len() && 0 <= r < frames[k].names.len() ==> parts_before(
            way_to,
            way(frames[k], r),
        )
}

/// Whether every entry comes before a way.
spec fn behind(entries: Seq<EntryView>, way_to: Seq<Seq<u8>>) -> bool {
    forall|i: int|
        0 <= i < entries.len() ==> comes_before(
            components((#[trigger] entries[i]).relative_path),
            way_to,
        )
}

/// What holds of the names that are still to come.
spec fn frames_orderly(w: WalkView) -> bool {
    &&& forall|k: int| 0 <= k < w.frames.len() ==> strictly_sorted((#[trigger] w.frames[k]).names)
    &&& forall|k: int, r: int|
        #![trigger w.frames[k].names[r]]
        0 <= k < w.frames.len() && 0 <= r < w.frames[k].names.len() ==> behind(
            w.manifest,
            way(w.frames[k], r),
        )
    &&& forall|j: int|
        0 <= j < w.frames.len() ==> ahead(
            components((#[trigger] w.frames[j]).directory),
            w.frames.subrange(0, j),
        )
}

/// What holds of the order of every walk.
spec fn orderly(w: WalkView) -> bool {
    &&& in_walk_order(w.manifest)
    &&& frames_orderly(w)
    &&& match w.step {
        WalkStep::List(directory) => {
            &&& ahead(components(directory), w.frames)
            &&& forall|i: int|
                0 <= i < w.manifest.len() ==> {
                    let path = components((#[trigger] w.manifest[i]).relative_path);
                    path == components(directory) || comes_before(path, components(directory))
                }
        },
        WalkStep::Inspect(path) => ahead(components(path), w.frames) && behind(
            w.manifest,
            components(path),
        ),
        WalkStep::Finished(_) => true,
    }
}

proof fn lemma_outer_orderly(w: WalkView)
    requires
        frames_orderly(w),
        w.frames.len() > 0,
    ensures
        frames_orderly(WalkView { frames: w.frames.drop_last(), ..w }),
{
    let outer = w.frames.drop_last();
    assert forall|k: int| 0 <= k < outer.len() implies strictly_sorted(
        (#[trigger] outer[k]).names,
    ) by {
        assert(outer[k] == w.frames[k]);
    }
    assert forall|k: int, r: int|
        #![trigger outer[k].names[r]]
        0 <= k < outer.len() && 0 <= r < outer[k].names.len() implies behind(
        w.manifest,
        way(outer[k], r),
    ) by {
        assert(outer[k] == w.frames[k]);
        let name = w.frames[k].names[r];
    }
    assert forall|j: int| 0 <= j < outer.len() implies ahead(
        components((#[trigger] outer[j]).directory),
        outer.subrange(0, j),
    ) by {
        assert(outer[j] == w.frames[j]);
        assert(outer.subrange(0, j) =~= w.frames.subrange(0, j));
    }
}

/// One name of the innermost directory is taken: it comes before all that are left.
proof fn lemma_take_orderly(w: WalkView)
    requires
        frames_orderly(w),
        w.frames.len() > 0,
        w.frames.last().names.len() > 0,
    ensures
        ({
            let frame = w.frames.last();
            let rest = FrameView { names: frame.names.drop_first(), ..frame };
            let kept = w.frames.drop_last().push(rest);
            &&& frames_orderly(WalkView { frames: kept, ..w })
            &&& ahead(way(frame, 0), kept)
            &&& behind(w.manifest, way(frame, 0))
        }),
{
    let n = w.frames.len() - 1;
    let frame = w.frames.last();
    let outer = w.frames.drop_last();
    let rest = FrameView { names: frame.names.drop_first(), ..frame };
    let kept = outer.push(rest);
    assert(w.frames[n] == frame);
    let first = w.frames[n].names[0];
    assert(behind(w.manifest, way(frame, 0)));
    assert(strictly_sorted(frame.names));
    assert forall|k: int| 0 <= k < kept.len() implies strictly_sorted(
        (#[trigger] kept[k]).names,
    ) by {
        if k < n {
            assert(kept[k] == w.frames[k]);
        } else {
            assert forall|a: int, b: int| 0 <= a < b < rest.names.len() implies bytes_le(
                #[trigger] rest.names[a],
                #[trigger] rest.names[b],
            ) && rest.names[a] != rest.names[b] by {
                assert(rest.names[a] == frame.names[a + 1]);
                assert(rest.names[b] == frame.names[b + 1]);
            }
        }
    }
    assert forall|k: int, r: int|
        #![trigger kept[k].names[r]]
        0 <= k < kept.len() && 0 <= r < kept[k].names.len() implies behind(
        w.manifest,
        way(kept[k], r),
    ) && parts_before(way(frame, 0), way(kept[k], r)) by {
        if k < n {
            assert(kept[k] == w.frames[k]);
            let name = w.frames[k].names[r];
            let inner = w.frames.subrange(0, n);
            assert(inner[k] == w.frames[k]);
            assert(ahead(components(w.frames[n].directory), inner));
            assert(parts_before(components(frame.directory), way(inner[k], r))) by {
                let name = inner[k].names[r];
            }
            lemma_parts_extend(components(frame.directory), way(kept[k], r), frame.names[0]);
        } else {
            assert(kept[k] == rest);
            assert(rest.names[r] == frame.names[r + 1]);
            let name = w.frames[n].names[r + 1];
            assert(way(kept[k], r) == way(w.frames[n], r + 1));
            lemma_siblings_part(components(frame.directory), frame.names[0], frame.names[r + 1]);
        }
    }
    assert forall|j: int| 0 <= j < kept.len() implies ahead(
        components((#[trigger] kept[j]).directory),
        kept.subrange(0, j),
    ) by {
        assert(kept.subrange(0, j) =~= w.frames.subrange(0, j));
        assert(kept[j].directory == w.frames[j].directory);
    }
}

proof fn lemma_advance_orderly(w: WalkView)
    requires
        in_walk_order(w.manifest),
        frames_orderly(w),
    ensures
        orderly(w.advance()),
    decreases w.frames.len(),
{
    if w.frames.len() > 0 {
        let frame = w.frames.last();
        if frame.names.len() == 0 {
            lemma_outer_orderly(w);
            lemma_advance_orderly(WalkView { frames: w.frames.drop_last(), ..w });
        } else {
            lemma_take_orderly(w);
            let name = vstd::utf8::decode_utf8(frame.names[0]);
            if valid_utf8(frame.names[0]) && w.rules.accepts_name(name) {
                lemma_accepted_is_proper(w.rules, name);
                lemma_child_components(frame.directory, name);
                vstd::utf8::decode_utf8_encode_utf8(frame.names[0]);
            }
        }
    }
}

/// An entry that comes behind all others, and before all that is still to come.
proof fn lemma_push_orderly(w: WalkView, entry: EntryView)
    requires
        in_walk_order(w.manifest),
        frames_orderly(w),
        ahead(components(entry.relative_path), w.frames),
        behind(w.manifest, components(entry.relative_path)),
    ensures
        in_walk_order(w.manifest.push(entry)),
        frames_orderly(WalkView { manifest: w.manifest.push(entry), ..w }),
{
    let more = w.manifest.push(entry);
    assert forall|i: int, j: int| 0 <= i < j < more.len() implies comes_before(
        components((#[trigger] more[i]).relative_path),
        components((#[trigger] more[j]).relative_path),
    ) by {
        assert(more[i] == w.manifest[i]);
        if j < w.manifest.len() {
            assert(more[j] == w.manifest[j]);
        }
    }
    assert forall|k: int, r: int|
        #![trigger w.frames[k].names[r]]
        0 <= k < w.frames.len() && 0 <= r < w.frames[k].names.len() implies behind(
        more,
        way(w.frames[k], r),
    ) by {
        assert(behind(w.manifest, way(w.frames[k], r)));
        assert forall|i: int| 0 <= i < more.len() implies comes_before(
            components((#[trigger] more[i]).relative_path),
            way(w.frames[k], r),
        ) by {
            if i < w.manifest.len() {
                assert(more[i] == w.manifest[i]);
            } else {
                assert(parts_before(components(entry.relative_path), way(w.frames[k], r)));
            }
        }
    }
}

proof fn lemma_sorted_strictly(names: Seq<Seq<u8>>)
    requires
        names.no_duplicates(),
    ensures
        strictly_sorted(sorted_names(names)),
{
    let sorted = sorted_names(names);
    lemma_name_order_is_total();
    names.lemma_sort_by_ensures(name_order());
    names.lemma_multiset_has_no_duplicates();
    sorted.lemma_multiset_has_no_duplicates_conv();
    let le = name_order();
    assert forall|a: int, b: int| 0 <= a < b < sorted.len() implies bytes_le(
        #[trigger] sorted[a],
        #[trigger] sorted[b],
    ) && sorted[a] != sorted[b] by {
        assert(le(sorted[a], sorted[b]));
    }
}

proof fn lemma_listed_orderly(w: WalkView, directory: Seq<char>, names: Seq<Seq<u8>>)
    requires
        orderly(w),
        w.step == WalkStep::<Seq<char>>::List(directory),
        strictly_sorted(names),
    ensures
        frames_orderly(with_frame(w, directory, names)),
{
    let pushed = with_frame(w, directory, names);
    let n = w.frames.len() as int;
    assert forall|k: int| 0 <= k < pushed.frames.len() implies strictly_sorted(
        (#[trigger] pushed.frames[k]).names,
    ) by {
        if k < n {
            assert(pushed.frames[k] == w.frames[k]);
        }
    }
    assert forall|k: int, r: int|
        #![trigger pushed.frames[k].names[r]]
        0 <= k < pushed.frames.len() && 0 <= r < pushed.frames[k].names.len() implies behind(
        pushed.manifest,
        way(pushed.frames[k], r),
    ) by {
        if k < n {
            assert(pushed.frames[k] == w.frames[k]);
            let name = w.frames[k].names[r];
        } else {
            assert forall|i: int| 0 <= i < w.manifest.len() implies comes_before(
                components((#[trigger] w.manifest[i]).relative_path),
                way(pushed.frames[k], r),
            ) by {
                lemma_before_extends(
                    components(w.manifest[i].relative_path),
                    components(directory),
                    names[r],
                );
            }
        }
    }
    assert forall|j: int| 0 <= j < pushed.frames.len() implies ahead(
        components((#[trigger] pushed.frames[j]).directory),
        pushed.frames.subrange(0, j),
    ) by {
        assert(pushed.frames.subrange(0, j) =~= w.frames.subrange(0, j));
        if j < n {
            assert(pushed.frames[j] == w.frames[j]);
        } else {
            assert(w.frames.subrange(0, j) =~= w.frames);
        }
    }
}

proof fn lemma_visit_orderly(w: WalkView, path: Seq<char>, metadata: MetadataView)
    requires
        orderly(w),
        w.step == WalkStep::<Seq<char>>::Inspect(path),
    ensures
        orderly(w.visit(path, metadata)),
{
    let file = EntryView { relative_path: path, kind: FileEntryKind::File, byte_len: metadata.len };
    let directory = EntryView { relative_path: path, kind: FileEntryKind::Directory, byte_len: 0 };
    lemma_push_orderly(w, file);
    lemma_push_orderly(w, directory);
    if metadata.is_file {
        lemma_advance_orderly(with_file(w, path, metadata));
    } else {
        let more = w.manifest.push(directory);
        assert forall|i: int| 0 <= i < more.len() implies ({
            let at = components((#[trigger] more[i]).relative_path);
            at == components(path) || comes_before(at, components(path))
        }) by {
            if i < w.manifest.len() {
                assert(more[i] == w.manifest[i]);
            }
        }
    }
}

/// Whether a directory is listed with every name in it once.
pub open spec fn names_once(event: WalkEvent) -> bool {
    event matches WalkEvent::Listed(Ok(names)) ==> name_views(names@).no_duplicates()
}

proof fn lemma_next_orderly(w: WalkView, event: WalkEvent)
    requires
        orderly(w),
        names_once(event),
    ensures
        orderly(w.next(event)),
{
    match (w.step, event) {
        (WalkStep::List(directory), WalkEvent::Listed(Ok(names))) => {
            lemma_sorted_strictly(name_views(names@));
            lemma_listed_orderly(w, directory, sorted_names(name_views(names@)));
            lemma_advance_orderly(with_frame(w, directory, sorted_names(name_views(names@))));
        },
        (WalkStep::Inspect(path), WalkEvent::Inspected(Ok(metadata))) => {
            lemma_visit_orderly(w, path, metadata@);
        },
        _ => {},
    }
}

proof fn lemma_run_orderly(w: WalkView, events: Seq<WalkEvent>)
    requires
        orderly(w),
        forall|k: int| 0 <= k < events.len() ==> names_once(#[trigger] events[k]),
    ensures
        orderly(walk_run(w, events)),
    decreases events.len(),
{
    if events.len() > 0 {
        let before = events.drop_last();
        assert forall|k: int| 0 <= k < before.len() implies names_once(#[trigger] before[k]) by {
            assert(before[k] == events[k]);
        }
        lemma_run_orderly(w, before);
        assert(names_once(events[events.len() - 1]));
        lemma_next_orderly(walk_run(w, before), events.last());
    }
}

/// On a host that lists every name of a directory once, a walk counts every object at
/// most once: a directory before what is in it, and what is in one directory by name.
pub proof fn lemma_a_walk_keeps_its_order(
    root_name: Seq<char>,
    metadata: MetadataView,
    rules: WalkRules,
    events: Seq<WalkEvent>,
)
    requires
        forall|k: int| 0 <= k < events.len() ==> names_once(#[trigger] events[k]),
    ensures
        in_walk_order(walk_run(folder_walk(root_name, metadata, rules), events).manifest),
{
    lemma_run_orderly(folder_walk(root_name, metadata, rules), events);
}

// What is listed.

/// A folder of the host while it does not change: the names in each directory, and the
/// metadata of each object, by their paths below it.
pub ghost struct Folder {
    pub names: spec_fn(Seq<char>) -> Seq<Seq<u8>>,
    pub metadata: spec_fn(Seq<char>) -> MetadataView,
    /// The length of the longest path of a directory.
    pub deepest: nat,
}

impl Folder {
    /// Whether the object under a path is a directory.
    pub open spec fn is_directory(self, path: Seq<char>) -> bool {
        !(self.metadata)(path).is_file && (self.metadata)(path).is_directory
    }

    /// Whether no directory has a longer path.
    pub open spec fn wf(self) -> bool {
        forall|path: Seq<char>| #[trigger] self.is_directory(path) ==> path.len() <= self.deepest
    }

    pub open spec fn room(self, path: Seq<char>) -> nat {
        if path.len() <= self.deepest {
            (self.deepest + 1 - path.len()) as nat
        } else {
            0
        }
    }

    /// An object, and behind it everything in it.
    pub open spec fn object(self, path: Seq<char>) -> Seq<Seq<char>>
        decreases self.room(path), 1nat, 0nat,
    {
        seq![path] + if self.is_directory(path) && path.len() <= self.deepest {
            self.content(path, sorted_names((self.names)(path)))
        } else {
            Seq::empty()
        }
    }

    /// The objects of these names in a directory, each with everything in it.
    pub open spec fn content(self, directory: Seq<char>, names: Seq<Seq<u8>>) -> Seq<Seq<char>>
        decreases self.room(directory), 0nat, names.len(),
    {
        if names.len() == 0 || directory.len() > self.deepest {
            Seq::empty()
        } else {
            let path = child_path(directory, vstd::utf8::decode_utf8(names[0]));
            let first = if path.len() > directory.len() {
                self.object(path)
            } else {
                Seq::empty()
            };
            first + self.content(directory, names.drop_first())
        }
    }

    /// Everything in the folder: each directory before what is in it, and what is in one
    /// directory by name.
    pub open spec fn everything(self) -> Seq<Seq<char>> {
        self.content(Seq::empty(), sorted_names((self.names)(Seq::empty())))
    }

    /// The entry of an object.
    pub open spec fn entry(self, path: Seq<char>) -> EntryView {
        if (self.metadata)(path).is_file {
            EntryView {
                relative_path: path,
                kind: FileEntryKind::File,
                byte_len: (self.metadata)(path).len,
            }
        } else {
            EntryView { relative_path: path, kind: FileEntryKind::Directory, byte_len: 0 }
        }
    }

    /// What a commitment takes in of some objects.
    pub open spec fn committed(self, paths: Seq<Seq<char>>) -> Seq<u8>
        decreases paths.len(),
    {
        if paths.len() == 0 {
            Seq::empty()
        } else {
            self.committed(paths.drop_last()) + metadata_bytes(
                "entry"@,
                paths.last(),
                (self.metadata)(paths.last()),
            )
        }
    }

    /// Whether an event answers the current step of a walk as the folder is; names may
    /// come in any order.
    pub open spec fn answers(self, w: WalkView, event: WalkEvent) -> bool {
        match (w.step, event) {
            (WalkStep::List(directory), WalkEvent::Listed(Ok(names))) => name_views(
                names@,
            ).to_multiset() == (self.names)(directory).to_multiset(),
            (WalkStep::Inspect(path), WalkEvent::Inspected(Ok(metadata))) => metadata@ == (
            self.metadata)(path),
            _ => true,
        }
    }

    /// What is still to come of the directories that are being walked.
    spec fn rest(self, frames: Seq<FrameView>) -> Seq<Seq<char>>
        decreases frames.len(),
    {
        if frames.len() == 0 {
            Seq::empty()
        } else {
            self.content(frames.last().directory, frames.last().names) + self.rest(
                frames.drop_last(),
            )
        }
    }

    /// What is still to come.
    spec fn pending(self, w: WalkView) -> Seq<Seq<char>> {
        match w.step {
            WalkStep::List(directory) => self.content(
                directory,
                sorted_names((self.names)(directory)),
            ) + self.rest(w.frames),
            WalkStep::Inspect(path) => self.object(path) + self.rest(w.frames),
            WalkStep::Finished(_) => Seq::empty(),
        }
    }

    /// Whether the directories that are being walked are in the folder.
    spec fn holds(self, w: WalkView) -> bool {
        &&& forall|k: int|
            0 <= k < w.frames.len() ==> (#[trigger] w.frames[k]).directory.len() <= self.deepest
        &&& w.step matches WalkStep::List(directory) ==> directory.len() <= self.deepest
    }
}

/// The paths of the objects that were counted.
pub open spec fn counted_paths(entries: Seq<EntryView>) -> Seq<Seq<char>> {
    Seq::new(entries.len(), |i: int| entries[i].relative_path)
}

proof fn lemma_advance_lists(f: Folder, w: WalkView)
    requires
        f.wf(),
        forall|k: int|
            0 <= k < w.frames.len() ==> (#[trigger] w.frames[k]).directory.len() <= f.deepest,
    ensures
        w.advance().manifest == w.manifest,
        w.advance().transcript == w.transcript,
        f.holds(w.advance()),
        !(w.advance().step matches WalkStep::Finished(Err(_))) ==> f.pending(w.advance())
            == f.rest(w.frames),
    decreases w.frames.len(),
{
    if w.frames.len() > 0 {
        let n = w.frames.len() - 1;
        let frame = w.frames.last();
        let outer = w.frames.drop_last();
        assert(w.frames[n] == frame);
        assert forall|k: int| 0 <= k < outer.len() implies (#[trigger] outer[k]).directory.len()
            <= f.deepest by {
            assert(outer[k] == w.frames[k]);
        }
        if frame.names.len() == 0 {
            lemma_advance_lists(f, WalkView { frames: outer, ..w });
            assert(f.content(frame.directory, frame.names) + f.rest(outer) =~= f.rest(outer));
        } else {
            let rest = FrameView { names: frame.names.drop_first(), ..frame };
            let kept = outer.push(rest);
            assert(kept.drop_last() =~= outer);
            assert forall|k: int| 0 <= k < kept.len() implies (#[trigger] kept[k]).directory.len()
                <= f.deepest by {
                if k < outer.len() {
                    assert(kept[k] == outer[k]);
                }
            }
            let name = vstd::utf8::decode_utf8(frame.names[0]);
            let path = child_path(frame.directory, name);
            if w.rules.accepts_name(name) {
                lemma_accepted_is_proper(w.rules, name);
                reveal_strlit("/");
                assert(path.len() > frame.directory.len());
                assert(f.object(path) + f.rest(kept) =~= f.rest(w.frames));
            }
        }
    } else {
        assert(f.rest(w.frames) =~= Seq::<Seq<char>>::empty());
    }
}

proof fn lemma_visit_lists(f: Folder, w: WalkView, path: Seq<char>)
    requires
        f.wf(),
        f.holds(w),
        w.step == WalkStep::<Seq<char>>::Inspect(path),
        !(w.visit(path, (f.metadata)(path)).step matches WalkStep::Finished(Err(_))),
    ensures
        ({
            let after = w.visit(path, (f.metadata)(path));
            &&& f.holds(after)
            &&& after.manifest == w.manifest.push(f.entry(path))
            &&& after.transcript == w.transcript + metadata_bytes(
                "entry"@,
                path,
                (f.metadata)(path),
            )
            &&& f.pending(w) == seq![path] + f.pending(after)
        }),
{
    let metadata = (f.metadata)(path);
    if metadata.is_file {
        lemma_advance_lists(f, with_file(w, path, metadata));
        assert(!f.is_directory(path));
        assert(f.object(path) =~= seq![path]);
    } else {
        assert(f.is_directory(path));
        let after = w.visit(path, metadata);
        assert(f.pending(w) =~= seq![path] + f.pending(after));
    }
}

proof fn lemma_listing_is_sorted(a: Seq<Seq<u8>>, b: Seq<Seq<u8>>)
    requires
        a.to_multiset() == b.to_multiset(),
    ensures
        sorted_names(a) == sorted_names(b),
{
    lemma_name_order_is_total();
    a.lemma_sort_by_ensures(name_order());
    b.lemma_sort_by_ensures(name_order());
    vstd::seq_lib::lemma_sorted_unique(sorted_names(a), sorted_names(b), name_order());
}

/// What was counted and what is still to come, and that the entries and the commitment
/// are those of the folder.
spec fn keeps_account(f: Folder, start: Seq<u8>, w: WalkView) -> bool {
    &&& f.holds(w)
    &&& counted_paths(w.manifest) + f.pending(w) == f.everything()
    &&& forall|i: int|
        0 <= i < w.manifest.len() ==> #[trigger] w.manifest[i] == f.entry(
            w.manifest[i].relative_path,
        )
    &&& w.transcript == start + f.committed(counted_paths(w.manifest))
}

proof fn lemma_next_keeps_account(f: Folder, start: Seq<u8>, w: WalkView, event: WalkEvent)
    requires
        f.wf(),
        keeps_account(f, start, w),
        f.answers(w, event),
        !(w.next(event).step matches WalkStep::Finished(Err(_))),
    ensures
        keeps_account(f, start, w.next(event)),
{
    match (w.step, event) {
        (WalkStep::List(directory), WalkEvent::Listed(Ok(names))) => {
            let sorted = sorted_names(name_views(names@));
            lemma_listing_is_sorted(name_views(names@), (f.names)(directory));
            let pushed = with_frame(w, directory, sorted);
            assert forall|k: int| 0 <= k < pushed.frames.len() implies (
            #[trigger] pushed.frames[k]).directory.len() <= f.deepest by {
                if k < w.frames.len() {
                    assert(pushed.frames[k] == w.frames[k]);
                }
            }
            lemma_advance_lists(f, pushed);
            assert(pushed.frames.drop_last() =~= w.frames);
        },
        (WalkStep::Inspect(path), WalkEvent::Inspected(Ok(metadata))) => {
            lemma_visit_lists(f, w, path);
            let after = w.next(event);
            let paths = counted_paths(w.manifest);
            assert(f.entry(path).relative_path == path);
            assert(counted_paths(after.manifest) =~= paths.push(path));
            assert(paths.push(path).drop_last() =~= paths);
            assert(paths.push(path) + f.pending(after) =~= paths + (seq![path] + f.pending(after)));
            assert(start + f.committed(paths.push(path)) =~= (start + f.committed(paths))
                + metadata_bytes("entry"@, path, metadata@));
            assert forall|i: int| 0 <= i < after.manifest.len() implies #[trigger] after.manifest[i]
                == f.entry(after.manifest[i].relative_path) by {
                if i < w.manifest.len() {
                    assert(after.manifest[i] == w.manifest[i]);
                }
            }
        },
        _ => {},
    }
}

/// Whether every event answers as the folder is.
pub open spec fn answered_from(f: Folder, w: WalkView, events: Seq<WalkEvent>) -> bool {
    forall|k: int|
        0 <= k < events.len() ==> f.answers(
            walk_run(w, events.subrange(0, k)),
            #[trigger] events[k],
        )
}

proof fn lemma_run_keeps_account(
    f: Folder,
    start: Seq<u8>,
    w: WalkView,
    events: Seq<WalkEvent>,
)
    requires
        f.wf(),
        keeps_account(f, start, w),
        answered_from(f, w, events),
        !(walk_run(w, events).step matches WalkStep::Finished(Err(_))),
    ensures
        keeps_account(f, start, walk_run(w, events)),
    decreases events.len(),
{
    if events.len() > 0 {
        let before = events.drop_last();
        let n = events.len() - 1;
        assert(answered_from(f, w, before)) by {
            assert forall|k: int| 0 <= k < before.len() implies f.answers(
                walk_run(w, before.subrange(0, k)),
                #[trigger] before[k],
            ) by {
                assert(before.subrange(0, k) =~= events.subrange(0, k));
                assert(before[k] == events[k]);
            }
        }
        assert(events.subrange(0, n) =~= before);
        assert(f.answers(walk_run(w, before), events[n]));
        lemma_run_keeps_account(f, start, w, before);
        lemma_next_keeps_account(f, start, walk_run(w, before), events.last());
    }
}

/// A finished walk of a folder that does not change lists everything in it: every object
/// once, each directory before what is in it, what is in one directory by name, whatever
/// the order in which the host lists names.  Each entry is that of its object, and the
/// commitment takes in the folder and then every object in this order.
pub proof fn lemma_a_finished_walk_lists_everything(
    f: Folder,
    root_name: Seq<char>,
    metadata: MetadataView,
    rules: WalkRules,
    events: Seq<WalkEvent>,
)
    requires
        f.wf(),
        answered_from(f, folder_walk(root_name, metadata, rules), events),
        walk_run(folder_walk(root_name, metadata, rules), events).step == WalkStep::<
            Seq<char>,
        >::Finished(Ok(())),
    ensures
        ({
            let walk = walk_run(folder_walk(root_name, metadata, rules), events);
            let everything = f.everything();
            &&& walk.manifest == Seq::new(everything.len(), |i: int| f.entry(everything[i]))
            &&& walk.transcript == metadata_bytes("root"@, root_name, metadata) + f.committed(
                everything,
            )
        }),
{
    let w = folder_walk(root_name, metadata, rules);
    let start = w.transcript;
    let walk = walk_run(w, events);
    let everything = f.everything();
    assert(counted_paths(w.manifest) =~= Seq::<Seq<char>>::empty());
    assert(f.rest(w.frames) =~= Seq::<Seq<char>>::empty());
    assert(counted_paths(w.manifest) + f.pending(w) =~= everything);
    assert(start + f.committed(counted_paths(w.manifest)) =~= start);
    lemma_run_keeps_account(f, start, w, events);
    let paths = counted_paths(walk.manifest);
    assert(paths + f.pending(walk) =~= paths);
    assert forall|i: int| 0 <= i < walk.manifest.len() implies walk.manifest[i] == f.entry(
        everything[i],
    ) by {
        assert(paths[i] == walk.manifest[i].relative_path);
    }
    assert(walk.manifest =~= Seq::new(everything.len(), |i: int| f.entry(everything[i])));
}

// Folders that can be walked.

/// Whether the rules of a walk take a name in a directory.
pub open spec fn takes_name(rules: WalkRules, directory: Seq<char>, name: Seq<u8>) -> bool {
    let text = vstd::utf8::decode_utf8(name);
    &&& valid_utf8(name)
    &&& rules.accepts_name(text)
    &&& rules.accepts_path(child_path(directory, text))
}

impl Folder {
    /// The bytes of the files among some objects.
    pub open spec fn bytes(self, paths: Seq<Seq<char>>) -> nat
        decreases paths.len(),
    {
        if paths.len() == 0 {
            0
        } else {
            self.bytes(paths.drop_last()) + if (self.metadata)(paths.last()).is_file {
                (self.metadata)(paths.last()).len as nat
            } else {
                0
            }
        }
    }

    /// Whether an object is a file or a directory that a walk takes.
    pub open spec fn takes_object(self, path: Seq<char>) -> bool {
        let metadata = (self.metadata)(path);
        &&& !metadata.is_symlink
        &&& metadata.modified is Some
        &&& metadata.is_file || metadata.is_directory
        &&& metadata.is_file ==> metadata.len <= MAX_OFFER_FILE_BYTES
    }

    /// Whether a walk takes the whole folder.
    pub open spec fn within(self, rules: WalkRules) -> bool {
        &&& forall|directory: Seq<char>, name: Seq<u8>|
            (directory.len() == 0 || self.is_directory(directory)) && (self.names)(
                directory,
            ).contains(name) ==> #[trigger] takes_name(rules, directory, name)
        &&& forall|i: int|
            0 <= i < self.everything().len() ==> self.takes_object(
                #[trigger] self.everything()[i],
            )
        &&& self.everything().len() <= rules.max_entries()
        &&& self.bytes(self.everything()) <= MAX_OFFER_TRANSFER_BYTES
    }

    /// Whether an event answers the current step of a walk with what is there.
    pub open spec fn shows(self, w: WalkView, event: WalkEvent) -> bool {
        match (w.step, event) {
            (WalkStep::List(_), WalkEvent::Listed(Ok(_)))
            | (WalkStep::Inspect(_), WalkEvent::Inspected(Ok(_))) => self.answers(w, event),
            _ => false,
        }
    }
}

proof fn lemma_bytes_add(f: Folder, a: Seq<Seq<char>>, b: Seq<Seq<char>>)
    ensures
        f.bytes(a + b) == f.bytes(a) + f.bytes(b),
    decreases b.len(),
{
    if b.len() == 0 {
        assert(a + b =~= a);
    } else {
        lemma_bytes_add(f, a, b.drop_last());
        assert((a + b).drop_last() =~= a + b.drop_last());
    }
}

/// The bytes of the entries are those of their objects.
proof fn lemma_counted_bytes(f: Folder, entries: Seq<EntryView>)
    requires
        forall|i: int|
            0 <= i < entries.len() ==> #[trigger] entries[i] == f.entry(entries[i].relative_path),
    ensures
        file_bytes(entries) == f.bytes(counted_paths(entries)),
    decreases entries.len(),
{
    if entries.len() > 0 {
        let before = entries.drop_last();
        assert forall|i: int| 0 <= i < before.len() implies #[trigger] before[i] == f.entry(
            before[i].relative_path,
        ) by {
            assert(before[i] == entries[i]);
        }
        lemma_counted_bytes(f, before);
        assert(counted_paths(entries).drop_last() =~= counted_paths(before));
        assert(entries[entries.len() - 1] == entries.last());
    }
}

/// Whether the rules take every name that is still to come.
spec fn takes_frames(w: WalkView) -> bool {
    forall|k: int, r: int|
        #![trigger w.frames[k].names[r]]
        0 <= k < w.frames.len() && 0 <= r < w.frames[k].names.len() ==> takes_name(
            w.rules,
            w.frames[k].directory,
            w.frames[k].names[r],
        )
}

proof fn lemma_advance_goes_well(w: WalkView)
    requires
        takes_frames(w),
    ensures
        takes_frames(w.advance()),
        w.advance().rules == w.rules,
        !(w.advance().step matches WalkStep::Finished(Err(_))),
        !(w.advance().step is List),
    decreases w.frames.len(),
{
    if w.frames.len() > 0 {
        let n = w.frames.len() - 1;
        let frame = w.frames.last();
        let outer = w.frames.drop_last();
        assert(w.frames[n] == frame);
        assert forall|k: int, r: int|
            #![trigger outer[k].names[r]]
            0 <= k < outer.len() && 0 <= r < outer[k].names.len() implies takes_name(
            w.rules,
            outer[k].directory,
            outer[k].names[r],
        ) by {
            assert(outer[k] == w.frames[k]);
            let name = w.frames[k].names[r];
        }
        if frame.names.len() == 0 {
            lemma_advance_goes_well(WalkView { frames: outer, ..w });
        } else {
            let first = w.frames[n].names[0];
            let rest = FrameView { names: frame.names.drop_first(), ..frame };
            let kept = outer.push(rest);
            assert forall|k: int, r: int|
                #![trigger kept[k].names[r]]
                0 <= k < kept.len() && 0 <= r < kept[k].names.len() implies takes_name(
                w.rules,
                kept[k].directory,
                kept[k].names[r],
            ) by {
                if k < outer.len() {
                    assert(kept[k] == outer[k]);
                    let name = outer[k].names[r];
                } else {
                    let name = w.frames[n].names[r + 1];
                }
            }
        }
    }
}

proof fn lemma_visit_goes_well(f: Folder, start: Seq<u8>, w: WalkView, path: Seq<char>)
    requires
        f.wf(),
        f.within(w.rules),
        w.wf(),
        keeps_account(f, start, w),
        takes_frames(w),
        w.step == WalkStep::<Seq<char>>::Inspect(path),
    ensures
        ({
            let after = w.visit(path, (f.metadata)(path));
            &&& takes_frames(after)
            &&& after.rules == w.rules
            &&& !(after.step matches WalkStep::Finished(Err(_)))
            &&& after.step matches WalkStep::List(directory) ==> f.is_directory(directory)
        }),
{
    let metadata = (f.metadata)(path);
    let paths = counted_paths(w.manifest);
    let everything = f.everything();
    let pending = f.pending(w);
    let later = pending.drop_first();
    assert(pending[0] == path);
    assert(everything[paths.len() as int] == path);
    assert(f.takes_object(everything[paths.len() as int]));
    assert(everything =~= paths.push(path) + later);
    lemma_bytes_add(f, paths.push(path), later);
    assert(paths.push(path).drop_last() =~= paths);
    lemma_counted_bytes(f, w.manifest);
    if metadata.is_file {
        lemma_advance_goes_well(with_file(w, path, metadata));
    }
}

proof fn lemma_listing_goes_well(
    f: Folder,
    w: WalkView,
    directory: Seq<char>,
    names: Seq<Seq<u8>>,
)
    requires
        f.within(w.rules),
        takes_frames(w),
        directory.len() == 0 || f.is_directory(directory),
        names.to_multiset() == (f.names)(directory).to_multiset(),
    ensures
        takes_frames(with_frame(w, directory, sorted_names(names))),
{
    broadcast use vstd::seq_lib::group_to_multiset_ensures;

    let pushed = with_frame(w, directory, sorted_names(names));
    lemma_name_order_is_total();
    names.lemma_sort_by_ensures(name_order());
    assert forall|k: int, r: int|
        #![trigger pushed.frames[k].names[r]]
        0 <= k < pushed.frames.len() && 0 <= r < pushed.frames[k].names.len() implies takes_name(
        pushed.rules,
        pushed.frames[k].directory,
        pushed.frames[k].names[r],
    ) by {
        if k < w.frames.len() {
            assert(pushed.frames[k] == w.frames[k]);
            let name = w.frames[k].names[r];
        } else {
            let sorted = sorted_names(names);
            let name = sorted[r];
            assert(sorted.contains(name));
            assert(sorted.to_multiset().count(name) > 0);
            assert((f.names)(directory).to_multiset().count(name) > 0);
            assert((f.names)(directory).contains(name));
            assert(takes_name(w.rules, directory, name));
        }
    }
}

/// A folder that the rules take is walked without a fault: as long as every answer shows
/// what is there, each step leads on, until the walk is finished.
pub proof fn lemma_a_fitting_folder_is_walked(
    f: Folder,
    root_name: Seq<char>,
    metadata: MetadataView,
    rules: WalkRules,
    events: Seq<WalkEvent>,
)
    requires
        f.wf(),
        f.within(rules),
        forall|k: int|
            0 <= k < events.len() ==> f.shows(
                walk_run(folder_walk(root_name, metadata, rules), events.subrange(0, k)),
                #[trigger] events[k],
            ),
    ensures
        !(walk_run(folder_walk(root_name, metadata, rules), events).step
            matches WalkStep::Finished(Err(_))),
{
    lemma_run_goes_well(f, root_name, metadata, rules, events);
}

proof fn lemma_run_goes_well(
    f: Folder,
    root_name: Seq<char>,
    metadata: MetadataView,
    rules: WalkRules,
    events: Seq<WalkEvent>,
)
    requires
        f.wf(),
        f.within(rules),
        forall|k: int|
            0 <= k < events.len() ==> f.shows(
                walk_run(folder_walk(root_name, metadata, rules), events.subrange(0, k)),
                #[trigger] events[k],
            ),
    ensures
        ({
            let w = folder_walk(root_name, metadata, rules);
            let q = walk_run(w, events);
            &&& q.rules == rules
            &&& q.wf()
            &&& keeps_account(f, w.transcript, q)
            &&& takes_frames(q)
            &&& !(q.step matches WalkStep::Finished(Err(_)))
            &&& q.step matches WalkStep::List(directory) ==> directory.len() == 0
                || f.is_directory(directory)
        }),
    decreases events.len(),
{
    let w = folder_walk(root_name, metadata, rules);
    if events.len() == 0 {
        assert(counted_paths(w.manifest) =~= Seq::<Seq<char>>::empty());
        assert(f.rest(w.frames) =~= Seq::<Seq<char>>::empty());
        assert(counted_paths(w.manifest) + f.pending(w) =~= f.everything());
        assert(w.transcript + f.committed(counted_paths(w.manifest)) =~= w.transcript);
    } else {
        let before = events.drop_last();
        let n = events.len() - 1;
        assert forall|k: int| 0 <= k < before.len() implies f.shows(
            walk_run(w, before.subrange(0, k)),
            #[trigger] before[k],
        ) by {
            assert(before.subrange(0, k) =~= events.subrange(0, k));
            assert(before[k] == events[k]);
        }
        lemma_run_goes_well(f, root_name, metadata, rules, before);
        assert(events.subrange(0, n) =~= before);
        let g = walk_run(w, before);
        assert(f.shows(g, events[n]));
        match (g.step, events[n]) {
            (WalkStep::List(directory), WalkEvent::Listed(Ok(names))) => {
                lemma_listing_goes_well(f, g, directory, name_views(names@));
                lemma_advance_goes_well(
                    with_frame(g, directory, sorted_names(name_views(names@))),
                );
            },
            (WalkStep::Inspect(path), WalkEvent::Inspected(Ok(found))) => {
                lemma_visit_goes_well(f, w.transcript, g, path);
            },
            _ => {},
        }
        lemma_next_keeps_account(f, w.transcript, g, events[n]);
        lemma_walk_wf(g, events[n]);
    }
}

} // verus!
