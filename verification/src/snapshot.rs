//! Snapshots of the memory files: content fingerprints, manifests and lookup.

use crate::ids::{self, id_text};
use crate::models::{NexusError, SnapshotManifest, Timestamp};
use crate::text::{self, append_str, chars_of, dup_opt_string, push_char, str_eq, str_starts_with};
use sha2::Digest;
use vstd::prelude::*;

verus! {

/// The SHA-256 digest of a byte string.
pub uninterp spec fn sha256_of(data: Seq<u8>) -> Seq<u8>;

/// Hashes bytes with `sha2::Sha256::digest`; the digest is named `sha256_of`, and it is
/// 32 bytes long, as the SHA-256 output size fixes.
#[verifier::external_body]
fn sha256_digest(data: &[u8]) -> (r: Vec<u8>)
    ensures
        r@ == sha256_of(data@),
        r@.len() == 32,
{
    sha2::Sha256::digest(data).to_vec()
}

/// The lower-case hexadecimal digits, by value.
pub open spec fn hex_digits() -> Seq<char> {
    "0123456789abcdef"@
}

/// Bytes written as lower-case hex, two digits per byte, high nibble first.
pub open spec fn hex_of_bytes(b: Seq<u8>) -> Seq<char>
    decreases b.len(),
{
    if b.len() == 0 {
        Seq::empty()
    } else {
        hex_of_bytes(b.drop_last()) + seq![
            hex_digits()[(b.last() / 16) as int],
            hex_digits()[(b.last() % 16) as int],
        ]
    }
}

/// The fingerprint of some content: the first 16 hex digits of its SHA-256 digest.
pub open spec fn fingerprint(data: Seq<u8>) -> Seq<char> {
    hex_of_bytes(sha256_of(data).take(8))
}

/// Hex text has two characters per byte, each a digit `0`–`9` or a lower-case letter
/// `a`–`f`, the first standing for the byte's high four bits and the second for its
/// low four bits; a fingerprint is sixteen such characters.
pub proof fn law_hex_shape(b: Seq<u8>)
    ensures
        hex_of_bytes(b).len() == 2 * b.len(),
        forall|i: int| 0 <= i < hex_of_bytes(b).len() ==> ('0' <= #[trigger] hex_of_bytes(b)[i] <= '9') || ('a'
            <= hex_of_bytes(b)[i] <= 'f'),
        forall|k: int| 0 <= k < b.len() ==> hex_value(#[trigger] hex_of_bytes(b)[2 * k]) == b[k] / 16 && hex_value(
            hex_of_bytes(b)[2 * k + 1],
        ) == b[k] % 16,
    decreases b.len(),
{
    reveal_strlit("0123456789abcdef");
    if b.len() > 0 {
        law_hex_shape(b.drop_last());
        let p = hex_of_bytes(b.drop_last());
        let h = hex_of_bytes(b);
        assert forall|i: int| 0 <= i < h.len() implies ('0' <= #[trigger] h[i] <= '9') || ('a' <= h[i] <= 'f') by {
            if i < p.len() {
                assert(h[i] == p[i]);
            }
        }
        assert forall|k: int| 0 <= k < b.len() implies hex_value(#[trigger] h[2 * k]) == b[k] / 16 && hex_value(h[2 * k + 1])
            == b[k] % 16 by {
            if k < b.len() - 1 {
                assert(h[2 * k] == p[2 * k]);
                assert(h[2 * k + 1] == p[2 * k + 1]);
                assert(b.drop_last()[k] == b[k]);
            }
        }
    }
}

/// The value of a lower-case hex digit.
pub open spec fn hex_value(c: char) -> int {
    if '0' <= c <= '9' {
        c as int - '0' as int
    } else {
        c as int - 'a' as int + 10
    }
}

/// The fingerprint of a 32-byte digest is sixteen hex characters.
pub proof fn law_fingerprint_shape(data: Seq<u8>)
    ensures
        sha256_of(data).len() == 32 ==> fingerprint(data).len() == 16,
{
    law_hex_shape(sha256_of(data).take(8));
}

/// Writes bytes as lower-case hex.
pub fn lower_hex(bytes: &[u8]) -> (r: String)
    ensures
        r@ == hex_of_bytes(bytes@),
{
    let digits = chars_of("0123456789abcdef");
    proof {
        reveal_strlit("0123456789abcdef");
    }
    let mut out = String::new();
    let mut i: usize = 0;
    while i < bytes.len()
        invariant
            i <= bytes@.len(),
            digits@ == hex_digits(),
            digits@.len() == 16,
            out@ == hex_of_bytes(bytes@.take(i as int)),
        decreases bytes@.len() - i,
    {
        let b = bytes[i];
        let hi = (b / 16) as usize;
        let lo = (b % 16) as usize;
        push_char(&mut out, digits[hi]);
        push_char(&mut out, digits[lo]);
        assert(bytes@.take(i + 1).drop_last() =~= bytes@.take(i as int));
        i = i + 1;
    }
    assert(bytes@.take(bytes@.len() as int) =~= bytes@);
    out
}

/// The fingerprint text of a SHA-256 digest: its first eight bytes in hex.
pub fn digest_fingerprint(digest: &[u8]) -> (r: String)
    requires
        digest@.len() >= 8,
    ensures
        r@ == hex_of_bytes(digest@.take(8)),
{
    let (head, _rest) = digest.split_at(8);
    assert(head@ =~= digest@.take(8));
    lower_hex(head)
}

/// The fingerprint of some content (16 hex digits of its SHA-256 digest).
pub fn hex_hash(data: &[u8]) -> (r: String)
    ensures
        r@ == fingerprint(data@),
{
    let digest = sha256_digest(data);
    digest_fingerprint(digest.as_slice())
}

/// A memory file copied into a snapshot: its file name and its content.
pub struct CopiedFile {
    pub name: String,
    pub content: Vec<u8>,
}

/// The fingerprint recorded for the file called `name`: that of the last copied file with
/// that name, or empty when none was copied.
pub open spec fn slot_hash(files: Seq<CopiedFile>, name: Seq<char>) -> Seq<char>
    decreases files.len(),
{
    if files.len() == 0 {
        Seq::empty()
    } else if files.last().name@ == name {
        fingerprint(files.last().content@)
    } else {
        slot_hash(files.drop_last(), name)
    }
}

/// The manifest of a new snapshot, from the files copied into it and the counts of
/// decisions and tasks at that moment.
pub fn snapshot_manifest(
    id: u128,
    label: String,
    created_at: Timestamp,
    description: Option<String>,
    copied: &Vec<CopiedFile>,
    decisions_count: usize,
    tasks_count: usize,
) -> (m: SnapshotManifest)
    ensures
        m.id == id,
        m.label == label,
        m.created_at == created_at,
        m.description == description,
        m.memory_hash@ == slot_hash(copied@, "memory.json"@),
        m.architecture_hash@ == slot_hash(copied@, "architecture.json"@),
        m.decisions_count == decisions_count,
        m.tasks_count == tasks_count,
{
    let mut memory_hash = String::new();
    let mut architecture_hash = String::new();
    proof {
        reveal_strlit("memory.json");
        reveal_strlit("architecture.json");
        assert("memory.json"@.len() != "architecture.json"@.len());
    }
    let mut i: usize = 0;
    while i < copied.len()
        invariant
            i <= copied@.len(),
            "memory.json"@ != "architecture.json"@,
            memory_hash@ == slot_hash(copied@.take(i as int), "memory.json"@),
            architecture_hash@ == slot_hash(copied@.take(i as int), "architecture.json"@),
        decreases copied@.len() - i,
    {
        let f = &copied[i];
        assert(copied@.take(i + 1).drop_last() =~= copied@.take(i as int));
        assert(copied@.take(i + 1).last() == copied@[i as int]);
        if str_eq(f.name.as_str(), "memory.json") {
            memory_hash = hex_hash(f.content.as_slice());
        } else if str_eq(f.name.as_str(), "architecture.json") {
            architecture_hash = hex_hash(f.content.as_slice());
        }
        i = i + 1;
    }
    assert(copied@.take(copied@.len() as int) =~= copied@);
    SnapshotManifest {
        id,
        label,
        created_at,
        description,
        memory_hash,
        architecture_hash,
        decisions_count,
        tasks_count,
    }
}

impl SnapshotManifest {
    /// A copy of this manifest.
    pub fn duplicate(&self) -> (r: SnapshotManifest)
        ensures
            r == *self,
    {
        SnapshotManifest {
            id: self.id,
            label: self.label.clone(),
            created_at: self.created_at,
            description: dup_opt_string(&self.description),
            memory_hash: self.memory_hash.clone(),
            architecture_hash: self.architecture_hash.clone(),
            decisions_count: self.decisions_count,
            tasks_count: self.tasks_count,
        }
    }
}

/// A snapshot answers to `key` when its textual id starts with it or its label is it.
pub open spec fn snapshot_matches(m: SnapshotManifest, key: Seq<char>) -> bool {
    text::seq_starts_with(ids::uuid_text(m.id), key) || m.label@ == key
}

/// Whether a snapshot with textual id `id` and label `label` answers to `key`.
pub fn answers_to(id: &str, label: &str, key: &str) -> (b: bool)
    ensures
        b == (text::seq_starts_with(id@, key@) || label@ == key@),
{
    str_starts_with(id, key) || str_eq(label, key)
}

/// The first snapshot of `manifests` that answers to `key`, or `SnapshotNotFound(key)`.
pub fn find_snapshot(manifests: &Vec<SnapshotManifest>, key: &str) -> (r: Result<
    SnapshotManifest,
    NexusError,
>)
    ensures
        match r {
            Ok(m) => exists|i: int|
                #![trigger manifests@[i]]
                0 <= i < manifests@.len() && m == manifests@[i] && snapshot_matches(
                    manifests@[i],
                    key@,
                ) && forall|j: int|
                    0 <= j < i ==> !snapshot_matches(#[trigger] manifests@[j], key@),
            Err(e) => {
                &&& forall|j: int|
                    0 <= j < manifests@.len() ==> !snapshot_matches(#[trigger] manifests@[j], key@)
                &&& e matches NexusError::SnapshotNotFound(k)
                &&& k@ == key@
            },
        },
{
    let mut i: usize = 0;
    while i < manifests.len()
        invariant
            i <= manifests@.len(),
            forall|j: int| 0 <= j < i ==> !snapshot_matches(#[trigger] manifests@[j], key@),
        decreases manifests@.len() - i,
    {
        let m = &manifests[i];
        let id = id_text(m.id);
        if answers_to(id.as_str(), m.label.as_str(), key) {
            return Ok(m.duplicate());
        }
        i = i + 1;
    }
    Err(NexusError::SnapshotNotFound(key.to_owned()))
}

/// The title of the timeline event that records a new snapshot.
pub fn snapshot_event_title(label: &str) -> (r: String)
    ensures
        r@ == "Snapshot: "@ + label@,
{
    let mut out = "Snapshot: ".to_owned();
    append_str(&mut out, label);
    out
}

/// The title of the timeline event that records a restored snapshot.
pub fn restore_event_title(label: &str) -> (r: String)
    ensures
        r@ == "Restored snapshot: "@ + label@,
{
    let mut out = "Restored snapshot: ".to_owned();
    append_str(&mut out, label);
    out
}

} // verus!
