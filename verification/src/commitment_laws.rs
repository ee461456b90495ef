//! A commitment tells every change of what was offered.
use vstd::prelude::*;
use vstd::utf8::{encode_scalar, encode_utf8, is_scalar};

use crate::digest::sha256;
use crate::offer::{DescriptorView, MAX_OFFER_FILE_BYTES};
use crate::source::{flag, le_bytes, metadata_bytes, MetadataView};
use crate::source_plan::{file_check, folder_check, folder_walk, root_commitment, SourceFailure};
use crate::stream::{observed, FileState, Observation};
use crate::walk::{WalkEvent, WalkRules, WalkStep, WalkView};
use crate::walk_laws::{answered_from, lemma_a_finished_walk_lists_everything, walk_run, Folder};

verus! {

/// Whether no character of a text is the zero character.
pub open spec fn spelled(s: Seq<char>) -> bool {
    forall|i: int| 0 <= i < s.len() ==> #[trigger] s[i] != '\0'
}

/// Whether a host says the same of two objects, but for whether they are links.
pub open spec fn same_object(a: MetadataView, b: MetadataView) -> bool {
    &&& a.is_file == b.is_file
    &&& a.is_directory == b.is_directory
    &&& a.len == b.len
    &&& a.readonly == b.readonly
    &&& a.identity == b.identity
    &&& a.modified == b.modified
}

proof fn lemma_scalar_has_no_zero(v: u32)
    requires
        is_scalar(v),
        v != 0,
    ensures
        forall|i: int| 0 <= i < encode_scalar(v).len() ==> #[trigger] encode_scalar(v)[i] != 0,
{
    assert(0 < v <= 0x7F ==> (v & 0x7F) as u8 != 0) by (bit_vector);
    assert(0xC0u8 | ((v >> 6) & 0x1F) as u8 != 0) by (bit_vector);
    assert(0xE0u8 | ((v >> 12) & 0x0F) as u8 != 0) by (bit_vector);
    assert(0xF0u8 | ((v >> 18) & 0x07) as u8 != 0) by (bit_vector);
    assert(0x80u8 | (v & 0x3F) as u8 != 0) by (bit_vector);
    assert(0x80u8 | ((v >> 6) & 0x3F) as u8 != 0) by (bit_vector);
    assert(0x80u8 | ((v >> 12) & 0x3F) as u8 != 0) by (bit_vector);
}

proof fn lemma_no_zero_byte(s: Seq<char>)
    requires
        spelled(s),
    ensures
        forall|i: int| 0 <= i < encode_utf8(s).len() ==> #[trigger] encode_utf8(s)[i] != 0,
    decreases s.len(),
{
    if s.len() > 0 {
        let bytes = encode_utf8(s);
        let rest = s.drop_first();
        assert forall|i: int| 0 <= i < rest.len() implies #[trigger] rest[i] != '\0' by {
            assert(rest[i] == s[i + 1]);
        }
        lemma_no_zero_byte(rest);
        vstd::utf8::char_is_scalar(s[0]);
        assert(s[0] != '\0');
        vstd::utf8::char_u32_cast(s[0], s[0] as u32);
        assert(s[0] as u32 != 0);
        lemma_scalar_has_no_zero(s[0] as u32);
        let first = encode_scalar(s[0] as u32);
        assert forall|i: int| 0 <= i < bytes.len() implies #[trigger] bytes[i] != 0 by {
            if i >= first.len() {
                assert(bytes[i] == encode_utf8(rest)[i - first.len()]);
            } else {
                assert(bytes[i] == first[i]);
            }
        }
    }
}

proof fn lemma_zero_ends(a: Seq<u8>, x: Seq<u8>, b: Seq<u8>, y: Seq<u8>)
    requires
        forall|i: int| 0 <= i < a.len() ==> #[trigger] a[i] != 0,
        forall|i: int| 0 <= i < b.len() ==> #[trigger] b[i] != 0,
        a + seq![0u8] + x == b + seq![0u8] + y,
    ensures
        a == b,
        x == y,
{
    let left = a + seq![0u8] + x;
    let right = b + seq![0u8] + y;
    if a.len() < b.len() {
        assert(left[a.len() as int] == 0);
        assert(right[a.len() as int] == b[a.len() as int]);
    } else if b.len() < a.len() {
        assert(right[b.len() as int] == 0);
        assert(left[b.len() as int] == a[b.len() as int]);
    }
    assert(a =~= left.subrange(0, a.len() as int));
    assert(b =~= right.subrange(0, b.len() as int));
    assert(x =~= left.subrange(a.len() + 1int, left.len() as int));
    assert(y =~= right.subrange(b.len() + 1int, right.len() as int));
}

proof fn lemma_same_parts(a: Seq<u8>, x: Seq<u8>, b: Seq<u8>, y: Seq<u8>)
    requires
        a.len() == b.len(),
        a + x == b + y,
    ensures
        a == b,
        x == y,
{
    assert(a =~= (a + x).subrange(0, a.len() as int));
    assert(b =~= (b + y).subrange(0, b.len() as int));
    assert(x =~= (a + x).subrange(a.len() as int, (a + x).len() as int));
    assert(y =~= (b + y).subrange(b.len() as int, (b + y).len() as int));
}

/// One more than the largest number of `n` bytes.
spec fn beyond(n: nat) -> nat
    decreases n,
{
    if n == 0 {
        1
    } else {
        256 * beyond((n - 1) as nat)
    }
}

proof fn lemma_le_bytes_len(x: nat, n: nat)
    ensures
        le_bytes(x, n).len() == n,
    decreases n,
{
    if n > 0 {
        lemma_le_bytes_len(x / 256, (n - 1) as nat);
    }
}

proof fn lemma_le_bytes_tell(x: nat, y: nat, n: nat)
    requires
        x < beyond(n),
        y < beyond(n),
        le_bytes(x, n) == le_bytes(y, n),
    ensures
        x == y,
    decreases n,
{
    if n > 0 {
        let m = (n - 1) as nat;
        let k = beyond(m);
        let a = le_bytes(x, n);
        let b = le_bytes(y, n);
        assert(a[0] == (x % 256) as u8);
        assert(b[0] == (y % 256) as u8);
        assert(x % 256 == y % 256);
        assert(le_bytes(x / 256, m) =~= a.subrange(1, a.len() as int));
        assert(le_bytes(y / 256, m) =~= b.subrange(1, b.len() as int));
        assert(x < 256 * k ==> x / 256 < k) by (nonlinear_arith);
        assert(y < 256 * k ==> y / 256 < k) by (nonlinear_arith);
        lemma_le_bytes_tell(x / 256, y / 256, m);
    }
}

/// A number of the host takes `n` bytes, by which it is told from every other.
proof fn lemma_numbers_tell(x: nat, a: Seq<u8>, y: nat, b: Seq<u8>, n: nat)
    requires
        x < beyond(n),
        y < beyond(n),
        le_bytes(x, n) + a == le_bytes(y, n) + b,
    ensures
        x == y,
        a == b,
{
    lemma_le_bytes_len(x, n);
    lemma_le_bytes_len(y, n);
    lemma_same_parts(le_bytes(x, n), a, le_bytes(y, n), b);
    lemma_le_bytes_tell(x, y, n);
}

proof fn lemma_bounds()
    ensures
        beyond(8) == 0x1_0000_0000_0000_0000,
        beyond(4) == 0x1_0000_0000,
{
    reveal_with_fuel(beyond, 9);
}

/// The bytes behind the identity of an object.
spec fn facts(m: MetadataView) -> Seq<u8> {
    le_bytes(m.len as nat, 8) + (seq![flag(m.is_file), flag(m.is_directory), flag(m.readonly)] + (
    le_bytes(m.modified->0.seconds as nat, 8) + le_bytes(m.modified->0.nanoseconds as nat, 4)))
}

proof fn lemma_facts_tell(a: MetadataView, x: Seq<u8>, b: MetadataView, y: Seq<u8>)
    requires
        a.modified is Some,
        b.modified is Some,
        facts(a) + x == facts(b) + y,
    ensures
        a.len == b.len,
        a.is_file == b.is_file,
        a.is_directory == b.is_directory,
        a.readonly == b.readonly,
        a.modified == b.modified,
        x == y,
{
    lemma_bounds();
    let fa = seq![flag(a.is_file), flag(a.is_directory), flag(a.readonly)];
    let fb = seq![flag(b.is_file), flag(b.is_directory), flag(b.readonly)];
    let sa = le_bytes(a.modified->0.seconds as nat, 8);
    let sb = le_bytes(b.modified->0.seconds as nat, 8);
    let na = le_bytes(a.modified->0.nanoseconds as nat, 4);
    let nb = le_bytes(b.modified->0.nanoseconds as nat, 4);
    assert(facts(a) + x =~= le_bytes(a.len as nat, 8) + (fa + (sa + (na + x))));
    assert(facts(b) + y =~= le_bytes(b.len as nat, 8) + (fb + (sb + (nb + y))));
    lemma_numbers_tell(a.len as nat, fa + (sa + (na + x)), b.len as nat, fb + (sb + (nb + y)), 8);
    lemma_same_parts(fa, sa + (na + x), fb, sb + (nb + y));
    assert(fa[0] == fb[0] && fa[1] == fb[1] && fa[2] == fb[2]);
    lemma_numbers_tell(
        a.modified->0.seconds as nat,
        na + x,
        b.modified->0.seconds as nat,
        nb + y,
        8,
    );
    lemma_numbers_tell(
        a.modified->0.nanoseconds as nat,
        x,
        b.modified->0.nanoseconds as nat,
        y,
        4,
    );
}

/// The bytes that a commitment takes in of an object determine it: its kind, its name,
/// its identity, its length, its type, its write protection and its time of change, on a
/// host whose identities have one length, and also where more bytes follow.
#[verifier::rlimit(30)]
pub proof fn lemma_committed_bytes_determine_the_object(
    kind_a: Seq<char>,
    name_a: Seq<char>,
    a: MetadataView,
    behind_a: Seq<u8>,
    kind_b: Seq<char>,
    name_b: Seq<char>,
    b: MetadataView,
    behind_b: Seq<u8>,
)
    requires
        spelled(kind_a),
        spelled(kind_b),
        spelled(name_a),
        spelled(name_b),
        a.identity.len() == b.identity.len(),
        a.modified is Some,
        b.modified is Some,
        metadata_bytes(kind_a, name_a, a) + behind_a == metadata_bytes(kind_b, name_b, b)
            + behind_b,
    ensures
        kind_a == kind_b,
        name_a == name_b,
        same_object(a, b),
        behind_a == behind_b,
{
    lemma_no_zero_byte(kind_a);
    lemma_no_zero_byte(kind_b);
    lemma_no_zero_byte(name_a);
    lemma_no_zero_byte(name_b);
    let ka = encode_utf8(kind_a);
    let kb = encode_utf8(kind_b);
    let na = encode_utf8(name_a);
    let nb = encode_utf8(name_b);
    let ia = a.identity + (facts(a) + behind_a);
    let ib = b.identity + (facts(b) + behind_b);
    assert(metadata_bytes(kind_a, name_a, a) + behind_a =~= ka + seq![0u8] + (na + seq![0u8] + ia));
    assert(metadata_bytes(kind_b, name_b, b) + behind_b =~= kb + seq![0u8] + (nb + seq![0u8] + ib));
    lemma_zero_ends(ka, na + seq![0u8] + ia, kb, nb + seq![0u8] + ib);
    lemma_zero_ends(na, ia, nb, ib);
    vstd::utf8::encode_utf8_decode_utf8(kind_a);
    vstd::utf8::encode_utf8_decode_utf8(kind_b);
    vstd::utf8::encode_utf8_decode_utf8(name_a);
    vstd::utf8::encode_utf8_decode_utf8(name_b);
    lemma_same_parts(a.identity, facts(a) + behind_a, b.identity, facts(b) + behind_b);
    lemma_facts_tell(a, behind_a, b, behind_b);
}

/// Objects that differ in length, type, write protection, identity or time of change have
/// different committed bytes under one kind and name.
pub proof fn lemma_changes_show_in_committed_bytes(
    kind: Seq<char>,
    name: Seq<char>,
    a: MetadataView,
    b: MetadataView,
)
    requires
        spelled(kind),
        spelled(name),
        a.identity.len() == b.identity.len(),
        a.modified is Some,
        b.modified is Some,
        !same_object(a, b),
    ensures
        metadata_bytes(kind, name, a) != metadata_bytes(kind, name, b),
{
    let none = Seq::<u8>::empty();
    if metadata_bytes(kind, name, a) == metadata_bytes(kind, name, b) {
        lemma_committed_bytes_determine_the_object(kind, name, a, none, kind, name, b, none);
    }
}

/// Whether two byte strings with one digest are one.
pub open spec fn told_apart(a: Seq<u8>, b: Seq<u8>) -> bool {
    sha256(a) == sha256(b) ==> a == b
}

proof fn lemma_root_is_spelled()
    ensures
        spelled("root"@),
        spelled("entry"@),
{
    reveal_strlit("root");
    reveal_strlit("entry");
}

/// A file that was offered is served exactly where it is still there under its name, is a
/// regular file and no link, and neither its identity, its length, its write protection
/// nor its time of change is another; where the time of change is known and anything of
/// this is not so, it counts as changed.  Different committed bytes are taken to have
/// different digests.
pub proof fn lemma_a_changed_file_is_refused(
    name: Seq<char>,
    offered: MetadataView,
    now: MetadataView,
    basename: Option<Seq<char>>,
)
    requires
        spelled(name),
        offered.is_file,
        offered.len <= MAX_OFFER_FILE_BYTES,
        offered.modified is Some,
        now.modified is Some,
        now.identity.len() == offered.identity.len(),
        told_apart(metadata_bytes("root"@, name, now), metadata_bytes("root"@, name, offered)),
    ensures
        ({
            let check = file_check(
                name,
                offered.len,
                Some(now),
                basename,
                root_commitment(name, offered),
            );
            let unchanged = basename == Some(name) && !now.is_symlink && same_object(now, offered);
            &&& unchanged ==> check is Ok
            &&& !unchanged ==> (check matches Err(SourceFailure::Changed))
        }),
{
    lemma_root_is_spelled();
    if same_object(now, offered) {
        assert(metadata_bytes("root"@, name, now) =~= metadata_bytes("root"@, name, offered));
    } else {
        lemma_changes_show_in_committed_bytes("root"@, name, now, offered);
    }
}

/// While a file is sent, it passes as planned only where what the host says of it is what
/// it said when the file was planned.
pub proof fn lemma_a_change_while_sending_is_seen(
    kind: Seq<char>,
    name: Seq<char>,
    planned: MetadataView,
    now: MetadataView,
    digest: Vec<u8>,
)
    requires
        spelled(kind),
        spelled(name),
        planned.modified is Some,
        now.modified is Some,
        now.identity.len() == planned.identity.len(),
        told_apart(metadata_bytes(kind, name, now), metadata_bytes(kind, name, planned)),
        digest@ == sha256(metadata_bytes(kind, name, now)),
    ensures
        observed(
            Observation::Seen(Some(digest)),
            sha256(metadata_bytes(kind, name, planned)),
        ) == if same_object(now, planned) {
            FileState::AsPlanned
        } else {
            FileState::Changed
        },
{
    if same_object(now, planned) {
        assert(metadata_bytes(kind, name, now) =~= metadata_bytes(kind, name, planned));
    } else {
        lemma_changes_show_in_committed_bytes(kind, name, now, planned);
    }
}

// Folders.

proof fn lemma_committed_in_front(f: Folder, paths: Seq<Seq<char>>)
    requires
        paths.len() > 0,
    ensures
        f.committed(paths) == metadata_bytes("entry"@, paths[0], (f.metadata)(paths[0]))
            + f.committed(paths.drop_first()),
    decreases paths.len(),
{
    let rest = paths.drop_first();
    if rest.len() == 0 {
        assert(paths.drop_last() =~= Seq::<Seq<char>>::empty());
        assert(f.committed(paths.drop_last()) =~= Seq::<u8>::empty());
        assert(f.committed(rest) =~= Seq::<u8>::empty());
        assert(f.committed(paths) =~= metadata_bytes(
            "entry"@,
            paths[0],
            (f.metadata)(paths[0]),
        ) + f.committed(rest));
    } else {
        let before = paths.drop_last();
        lemma_committed_in_front(f, before);
        assert(before.drop_first() =~= rest.drop_last());
        assert(f.committed(paths) =~= metadata_bytes(
            "entry"@,
            paths[0],
            (f.metadata)(paths[0]),
        ) + f.committed(rest));
    }
}

/// Whether a host knows the time of change of some objects, under proper texts and with
/// identities of one length.
pub open spec fn known_objects(f: Folder, paths: Seq<Seq<char>>, identity_bytes: nat) -> bool {
    forall|i: int|
        0 <= i < paths.len() ==> {
            &&& spelled(#[trigger] paths[i])
            &&& (f.metadata)(paths[i]).modified is Some
            &&& (f.metadata)(paths[i]).identity.len() == identity_bytes
        }
}

proof fn lemma_committed_bytes_determine_all(
    f: Folder,
    a: Seq<Seq<char>>,
    g: Folder,
    b: Seq<Seq<char>>,
    identity_bytes: nat,
)
    requires
        known_objects(f, a, identity_bytes),
        known_objects(g, b, identity_bytes),
        f.committed(a) == g.committed(b),
    ensures
        a == b,
        forall|i: int|
            0 <= i < a.len() ==> same_object(
                (f.metadata)(#[trigger] a[i]),
                (g.metadata)(a[i]),
            ),
    decreases a.len(),
{
    lemma_root_is_spelled();
    if a.len() == 0 {
        if b.len() > 0 {
            lemma_committed_in_front(g, b);
            assert(g.committed(b).len() > 0);
        }
        assert(a =~= b);
    } else if b.len() == 0 {
        lemma_committed_in_front(f, a);
        assert(f.committed(a).len() > 0);
    } else {
        lemma_committed_in_front(f, a);
        lemma_committed_in_front(g, b);
        assert(spelled(a[0]) && spelled(b[0]));
        lemma_committed_bytes_determine_the_object(
            "entry"@,
            a[0],
            (f.metadata)(a[0]),
            f.committed(a.drop_first()),
            "entry"@,
            b[0],
            (g.metadata)(b[0]),
            g.committed(b.drop_first()),
        );
        let x = a.drop_first();
        let y = b.drop_first();
        assert forall|i: int| 0 <= i < x.len() implies {
            &&& spelled(#[trigger] x[i])
            &&& (f.metadata)(x[i]).modified is Some
            &&& (f.metadata)(x[i]).identity.len() == identity_bytes
        } by {
            assert(x[i] == a[i + 1]);
        }
        assert forall|i: int| 0 <= i < y.len() implies {
            &&& spelled(#[trigger] y[i])
            &&& (g.metadata)(y[i]).modified is Some
            &&& (g.metadata)(y[i]).identity.len() == identity_bytes
        } by {
            assert(y[i] == b[i + 1]);
        }
        lemma_committed_bytes_determine_all(f, x, g, y, identity_bytes);
        assert(a =~= seq![a[0]] + x);
        assert(b =~= seq![b[0]] + y);
        assert forall|i: int| 0 <= i < a.len() implies same_object(
            (f.metadata)(#[trigger] a[i]),
            (g.metadata)(a[i]),
        ) by {
            if i > 0 {
                assert(a[i] == x[i - 1]);
            }
        }
    }
}

proof fn lemma_transcripts_determine_folders(
    root_name: Seq<char>,
    offered: Folder,
    offered_root: MetadataView,
    now: Folder,
    now_root: MetadataView,
    identity_bytes: nat,
)
    requires
        spelled(root_name),
        offered_root.modified is Some,
        now_root.modified is Some,
        offered_root.identity.len() == identity_bytes,
        now_root.identity.len() == identity_bytes,
        known_objects(offered, offered.everything(), identity_bytes),
        known_objects(now, now.everything(), identity_bytes),
        metadata_bytes("root"@, root_name, now_root) + now.committed(now.everything())
            == metadata_bytes("root"@, root_name, offered_root) + offered.committed(
            offered.everything(),
        ),
    ensures
        same_folders(now, now_root, offered, offered_root),
{
    lemma_root_is_spelled();
    lemma_committed_bytes_determine_the_object(
        "root"@,
        root_name,
        now_root,
        now.committed(now.everything()),
        "root"@,
        root_name,
        offered_root,
        offered.committed(offered.everything()),
    );
    lemma_committed_bytes_determine_all(
        now,
        now.everything(),
        offered,
        offered.everything(),
        identity_bytes,
    );
}

/// Whether two folders hold the same objects under the same paths, and the host says the
/// same of the folders and of all that is in them.
pub open spec fn same_folders(
    a: Folder,
    a_root: MetadataView,
    b: Folder,
    b_root: MetadataView,
) -> bool {
    &&& same_object(a_root, b_root)
    &&& a.everything() == b.everything()
    &&& forall|i: int|
        0 <= i < a.everything().len() ==> same_object(
            (a.metadata)(#[trigger] a.everything()[i]),
            (b.metadata)(a.everything()[i]),
        )
}

proof fn lemma_passed_check(walk: WalkView, descriptor: DescriptorView, transcript: Seq<u8>)
    requires
        folder_check(walk, descriptor, sha256(transcript)) is Ok,
        told_apart(walk.transcript, transcript),
    ensures
        walk.transcript == transcript,
{
}

/// The transcript of a finished walk.
pub open spec fn transcript_of(f: Folder, root_name: Seq<char>, root: MetadataView) -> Seq<u8> {
    metadata_bytes("root"@, root_name, root) + f.committed(f.everything())
}

/// A folder that was offered is served only where nothing of it has changed: its walk
/// shows the same objects under the same paths, and of the folder and of every object in
/// it the identity, the length, the type, the write protection and the time of change are
/// those that were offered.  Different committed bytes are taken to have different
/// digests.
pub proof fn lemma_a_changed_folder_is_refused(
    root_name: Seq<char>,
    offered: Folder,
    offered_root: MetadataView,
    now: Folder,
    now_root: MetadataView,
    now_events: Seq<WalkEvent>,
    rules: WalkRules,
    descriptor: DescriptorView,
    identity_bytes: nat,
)
    requires
        spelled(root_name),
        now.wf(),
        offered_root.modified is Some,
        now_root.modified is Some,
        offered_root.identity.len() == identity_bytes,
        now_root.identity.len() == identity_bytes,
        known_objects(offered, offered.everything(), identity_bytes),
        known_objects(now, now.everything(), identity_bytes),
        answered_from(now, folder_walk(root_name, now_root, rules), now_events),
        told_apart(
            transcript_of(now, root_name, now_root),
            transcript_of(offered, root_name, offered_root),
        ),
        folder_check(
            walk_run(folder_walk(root_name, now_root, rules), now_events),
            descriptor,
            sha256(transcript_of(offered, root_name, offered_root)),
        ) is Ok,
    ensures
        same_folders(now, now_root, offered, offered_root),
{
    let walk = walk_run(folder_walk(root_name, now_root, rules), now_events);
    lemma_finished(walk, descriptor, sha256(transcript_of(offered, root_name, offered_root)));
    lemma_a_finished_walk_lists_everything(now, root_name, now_root, rules, now_events);
    lemma_passed_check(walk, descriptor, transcript_of(offered, root_name, offered_root));
    lemma_transcripts_determine_folders(
        root_name,
        offered,
        offered_root,
        now,
        now_root,
        identity_bytes,
    );
}

proof fn lemma_finished(walk: WalkView, descriptor: DescriptorView, commitment: Seq<u8>)
    requires
        folder_check(walk, descriptor, commitment) is Ok,
    ensures
        walk.step == WalkStep::<Seq<char>>::Finished(Ok(())),
{
    if let WalkStep::Finished(Ok(nothing)) = walk.step {
        assert(nothing == ());
    }
}

/// What is kept of an offered folder is the digest of what was taken in of it.
pub proof fn lemma_an_offered_folder_is_committed_to(
    f: Folder,
    root_name: Seq<char>,
    root: MetadataView,
    events: Seq<WalkEvent>,
)
    requires
        f.wf(),
        answered_from(f, folder_walk(root_name, root, WalkRules { serving: None }), events),
        walk_run(
            folder_walk(root_name, root, WalkRules { serving: None }),
            events,
        ).step == WalkStep::<Seq<char>>::Finished(Ok(())),
    ensures
        walk_run(
            folder_walk(root_name, root, WalkRules { serving: None }),
            events,
        ).transcript == transcript_of(f, root_name, root),
{
    lemma_a_finished_walk_lists_everything(
        f,
        root_name,
        root,
        WalkRules { serving: None },
        events,
    );
}

} // verus!
