//! Metadata of offered files, and the commitment to it.
use vstd::prelude::*;
use vstd::utf8::encode_utf8;

use crate::destination::{
    before_first_dot, contains_forbidden_char, device_name, device_stem, device_stem_of,
    ends_with_char, has_forbidden_char, is_device_name, name_before_dot, portable_component,
};
use crate::digest::{absorb, absorbed, finish, new_hasher, sha256};
use crate::offer::MAX_OFFER_PORTABLE_COMPONENT_BYTES;
use crate::text::{ascii_upper, byte_len, byte_length, chars_of, string_of, text_eq, to_ascii_upper};

verus! {

/// When a file was changed last, since 1970.
#[derive(Debug, Clone, Copy, PartialEq, Eq, Structural)]
pub struct Timestamp {
    pub seconds: u64,
    pub nanoseconds: u32,
}

/// What the host says of one file or directory.
#[derive(Debug)]
pub struct SourceMetadata {
    pub is_symlink: bool,
    pub is_file: bool,
    pub is_directory: bool,
    pub len: u64,
    pub readonly: bool,
    /// What tells the object from every other on this host.
    pub identity: Vec<u8>,
    /// Missing where the host does not know it.
    pub modified: Option<Timestamp>,
}

/// Metadata with the identity as a sequence.
pub ghost struct MetadataView {
    pub is_symlink: bool,
    pub is_file: bool,
    pub is_directory: bool,
    pub len: u64,
    pub readonly: bool,
    pub identity: Seq<u8>,
    pub modified: Option<Timestamp>,
}

impl View for SourceMetadata {
    type V = MetadataView;

    open spec fn view(&self) -> MetadataView {
        MetadataView {
            is_symlink: self.is_symlink,
            is_file: self.is_file,
            is_directory: self.is_directory,
            len: self.len,
            readonly: self.readonly,
            identity: self.identity@,
            modified: self.modified,
        }
    }
}

/// The lowest `n` bytes of `x`, the least significant first.
pub open spec fn le_bytes(x: nat, n: nat) -> Seq<u8>
    decreases n,
{
    if n == 0 {
        Seq::empty()
    } else {
        seq![(x % 256) as u8] + le_bytes(x / 256, (n - 1) as nat)
    }
}

fn push_le_bytes(bytes: &mut Vec<u8>, x: u64, n: usize)
    ensures
        final(bytes)@ == old(bytes)@ + le_bytes(x as nat, n as nat),
{
    let mut rest: u64 = x;
    let mut i: usize = 0;
    assert(bytes@ + le_bytes(x as nat, n as nat) == old(bytes)@ + le_bytes(x as nat, n as nat));
    while i < n
        invariant
            i <= n,
            bytes@ + le_bytes(rest as nat, (n - i) as nat) == old(bytes)@ + le_bytes(
                x as nat,
                n as nat,
            ),
        decreases n - i,
    {
        let ghost before = bytes@;
        let ghost whole = rest;
        bytes.push((rest % 256) as u8);
        rest = rest / 256;
        i = i + 1;
        assert(bytes@ + le_bytes(rest as nat, (n - i) as nat) =~= before + le_bytes(
            whole as nat,
            (n - i + 1) as nat,
        ));
    }
    assert(bytes@ + le_bytes(rest as nat, 0) =~= bytes@);
}

pub open spec fn flag(b: bool) -> u8 {
    if b {
        1
    } else {
        0
    }
}

/// What the commitment takes in of one object: its kind and name, each closed by a
/// zero byte, its identity, length, type, write protection and time of change.
pub open spec fn metadata_bytes(
    kind: Seq<char>,
    name: Seq<char>,
    metadata: MetadataView,
) -> Seq<u8> {
    let modified = metadata.modified->0;
    encode_utf8(kind) + seq![0u8] + encode_utf8(name) + seq![0u8] + metadata.identity + le_bytes(
        metadata.len as nat,
        8,
    ) + seq![
        flag(metadata.is_file),
        flag(metadata.is_directory),
        flag(metadata.readonly),
    ] + le_bytes(modified.seconds as nat, 8) + le_bytes(modified.nanoseconds as nat, 4)
}

fn flag_byte(b: bool) -> (r: u8)
    ensures
        r == flag(b),
{
    if b {
        1
    } else {
        0
    }
}

/// Takes the metadata of one object into a commitment; fails where the time of
/// change is not known.
pub(crate) fn hash_metadata(
    hasher: &mut sha2::Sha256,
    kind: &str,
    name: &str,
    metadata: &SourceMetadata,
) -> (r: bool)
    ensures
        r == metadata.modified is Some,
        absorbed(*final(hasher)) == if r {
            absorbed(*old(hasher)) + metadata_bytes(kind@, name@, metadata@)
        } else {
            absorbed(*old(hasher))
        },
{
    let modified = match metadata.modified {
        Some(modified) => modified,
        None => {
            return false;
        },
    };
    let mut bytes: Vec<u8> = Vec::new();
    bytes.extend_from_slice(kind.as_bytes());
    bytes.push(0);
    bytes.extend_from_slice(name.as_bytes());
    bytes.push(0);
    bytes.extend_from_slice(metadata.identity.as_slice());
    push_le_bytes(&mut bytes, metadata.len, 8);
    bytes.push(flag_byte(metadata.is_file));
    bytes.push(flag_byte(metadata.is_directory));
    bytes.push(flag_byte(metadata.readonly));
    push_le_bytes(&mut bytes, modified.seconds, 8);
    push_le_bytes(&mut bytes, modified.nanoseconds as u64, 4);
    assert(bytes@ =~= metadata_bytes(kind@, name@, metadata@));
    absorb(hasher, bytes.as_slice());
    true
}

/// The digest of the metadata of one object, where the time of change is known.
#[must_use]
pub fn metadata_digest(kind: &str, name: &str, metadata: &SourceMetadata) -> (r: Option<Vec<u8>>)
    ensures
        r is Some <==> metadata.modified is Some,
        r matches Some(digest) ==> digest@ == sha256(metadata_bytes(kind@, name@, metadata@))
            && digest@.len() == 32,
{
    let mut hasher = new_hasher();
    if hash_metadata(&mut hasher, kind, name, metadata) {
        proof {
            let bytes = metadata_bytes(kind@, name@, metadata@);
            assert(Seq::<u8>::empty() + bytes =~= bytes);
        }
        Some(finish(hasher))
    } else {
        None
    }
}

/// Whether an origin serves an entry named `s`.
pub open spec fn servable_component(s: Seq<char>, max_bytes: nat) -> bool {
    &&& s.len() > 0
    &&& byte_len(s) <= max_bytes
    &&& s != "."@
    &&& s != ".."@
    &&& s.last() != ' '
    &&& s.last() != '.'
    &&& !has_forbidden_char(s)
    &&& !device_name(device_stem(s))
}

/// Whether an origin serves an entry of this name.
pub fn validate_source_component(component: &str, max_bytes: usize) -> (r: bool)
    ensures
        r == servable_component(component@, max_bytes as nat),
{
    if component.is_empty() || byte_length(component) > max_bytes || text_eq(component, ".")
        || text_eq(component, "..") || ends_with_char(component, ' ') || ends_with_char(
        component,
        '.',
    ) || contains_forbidden_char(component) {
        return false;
    }
    let stem = device_stem_of(component);
    !is_device_name(stem.as_str())
}

/// Whether the stem names a device, as far as an offer is checked for it.
pub open spec fn plain_device_name(stem: Seq<char>) -> bool {
    ||| stem == "CON"@
    ||| stem == "PRN"@
    ||| stem == "AUX"@
    ||| stem == "NUL"@
    ||| stem.len() == 4 && (stem.subrange(0, 3) == "COM"@ || stem.subrange(0, 3) == "LPT"@) && '1'
        <= stem[3] <= '9'
}

/// Whether an object named `s` can be offered.
pub open spec fn offerable_component(s: Seq<char>) -> bool {
    &&& s.len() > 0
    &&& s != "."@
    &&& s != ".."@
    &&& s.last() != ' '
    &&& s.last() != '.'
    &&& !has_forbidden_char(s)
    &&& !plain_device_name(ascii_upper(before_first_dot(s)))
}

/// Whether an object of this name can be offered.
pub fn validate_offer_component(component: &str) -> (r: bool)
    ensures
        r == offerable_component(component@),
{
    if component.is_empty() || text_eq(component, ".") || text_eq(component, "..")
        || ends_with_char(component, ' ') || ends_with_char(component, '.')
        || contains_forbidden_char(component) {
        return false;
    }
    let stem = to_ascii_upper(name_before_dot(component).as_str());
    if text_eq(stem.as_str(), "CON") || text_eq(stem.as_str(), "PRN") || text_eq(
        stem.as_str(),
        "AUX",
    ) || text_eq(stem.as_str(), "NUL") {
        return false;
    }
    let chars = chars_of(stem.as_str());
    if chars.len() != 4 {
        return true;
    }
    let port = string_of(&chars, 0, 3);
    !((text_eq(port.as_str(), "COM") || text_eq(port.as_str(), "LPT")) && '1' <= chars[3]
        && chars[3] <= '9')
}

/// An origin serves exactly the portable names, where the bounds agree.
pub proof fn lemma_servable_is_portable(s: Seq<char>)
    ensures
        servable_component(s, MAX_OFFER_PORTABLE_COMPONENT_BYTES as nat) <==> portable_component(s),
{
}

} // verus!
