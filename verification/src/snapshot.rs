//! The commit log of a snapshot store: which snapshot versions have been
//! committed, and where the snapshots of a version are kept.
use vstd::prelude::*;

use vstd::string::StringExecFns;

use crate::decimal::{decimal_nat, u64_decimal};
use crate::types::WorkerId;

verus! {

/// Version of a snapshot.
pub type SnapshotVersion = u64;

#[verifier::external_type_specification]
#[verifier::external_body]
pub struct ExDecodeError(rmp_serde::decode::Error);

#[verifier::external_type_specification]
#[verifier::external_body]
pub struct ExEncodeError(rmp_serde::encode::Error);

/// The `width` lowest bytes of `n`, most significant first.
pub open spec fn be_bytes(n: nat, width: nat) -> Seq<u8>
    decreases width,
{
    if width == 0 {
        Seq::empty()
    } else {
        be_bytes(n / 256, (width - 1) as nat).push((n % 256) as u8)
    }
}

/// The MessagePack encoding of an unsigned integer in its shortest form: a
/// positive fixint below 128, else a marker and the number in one, two, four
/// or eight big-endian bytes.
pub open spec fn msgpack_uint(v: u64) -> Seq<u8> {
    if v < 128 {
        seq![v as u8]
    } else if v < 256 {
        seq![0xccu8, v as u8]
    } else if v < 65536 {
        seq![0xcdu8] + be_bytes(v as nat, 2)
    } else if v < 4294967296 {
        seq![0xceu8] + be_bytes(v as nat, 4)
    } else {
        seq![0xcfu8] + be_bytes(v as nat, 8)
    }
}

/// The MessagePack header of an array of `n` elements: a fixarray below 16,
/// else a marker and the length in two or four big-endian bytes.
pub open spec fn msgpack_array_len(n: u32) -> Seq<u8> {
    if n < 16 {
        seq![(0x90 + n) as u8]
    } else if n < 65536 {
        seq![0xdcu8] + be_bytes(n as nat, 2)
    } else {
        seq![0xddu8] + be_bytes(n as nat, 4)
    }
}

/// The encodings of the numbers of a list, one after the other.
pub open spec fn msgpack_uints(versions: Seq<u64>) -> Seq<u8>
    decreases versions.len(),
{
    if versions.len() == 0 {
        Seq::empty()
    } else {
        msgpack_uints(versions.drop_last()) + msgpack_uint(versions.last())
    }
}

/// The MessagePack encoding `rmp_serde::to_vec` produces for a list of
/// versions: an array header carrying the length (as `rmp_serde` writes it,
/// cut to 32 bits), then each version in its shortest form.
pub open spec fn msgpack_encoding(versions: Seq<u64>) -> Seq<u8> {
    msgpack_array_len(versions.len() as u32) + msgpack_uints(versions)
}

/// The list of versions `rmp_serde::from_slice` decodes from bytes, or `None`
/// where it fails.
pub uninterp spec fn msgpack_decoding(bytes: Seq<u8>) -> Option<Seq<u64>>;

/// `rmp_serde::to_vec` on a list of versions: it writes the list as a
/// MessagePack array of unsigned integers, each in its shortest form, which
/// `rmp_serde::from_slice` reads back as the same list. It fails only when memory for the bytes cannot be reserved, which
/// depends on the machine and is not stated.
#[verifier::external_body]
fn encode_versions(versions: &Vec<u64>) -> (r: Result<Vec<u8>, rmp_serde::encode::Error>)
    ensures
        r matches Ok(b) ==> b@ == msgpack_encoding(versions@),
        versions@.len() < 0x1_0000_0000 ==> (r matches Ok(b) ==> msgpack_decoding(b@) == Some(versions@)),
{
    rmp_serde::to_vec(versions)
}

/// `rmp_serde::from_slice` into a list of versions.
#[verifier::external_body]
fn decode_versions(bytes: &Vec<u8>) -> (r: Result<Vec<u64>, rmp_serde::decode::Error>)
    ensures
        r is Ok <==> msgpack_decoding(bytes@) is Some,
        r matches Ok(v) ==> msgpack_decoding(bytes@) == Some(v@),
{
    rmp_serde::from_slice(bytes.as_slice())
}

/// What reading the commit file from the store gave.
pub enum StoredCommits {
    /// The file's content.
    Found(Vec<u8>),
    /// There is no commit file yet.
    NotFound,
    /// Reading failed with the given message.
    Failed(String),
}

/// Errors opening the commit log.
#[derive(Debug)]
pub enum OpenCommitsError {
    /// The store failed.
    ObjectStore(String),
    /// The commit file is corrupt or incompatible.
    Decoding(rmp_serde::decode::Error),
}

/// The versions committed, in the order of their commits.
pub struct CommitLog {
    commits: Vec<SnapshotVersion>,
}

impl View for CommitLog {
    type V = Seq<SnapshotVersion>;

    closed spec fn view(&self) -> Seq<SnapshotVersion> {
        self.commits@
    }
}

impl CommitLog {
    /// A log without commits.
    pub fn new() -> (r: CommitLog)
        ensures
            r@ == Seq::<SnapshotVersion>::empty(),
    {
        CommitLog { commits: Vec::new() }
    }

    /// Load the log from what the store holds: the decoded commit file, or an
    /// empty log if there is none yet.
    pub fn open(stored: StoredCommits) -> (r: Result<CommitLog, OpenCommitsError>)
        ensures
            match stored {
                StoredCommits::Found(b) => match msgpack_decoding(b@) {
                    Some(v) => r matches Ok(log) && log@ == v,
                    None => r matches Err(OpenCommitsError::Decoding(_)),
                },
                StoredCommits::NotFound => r matches Ok(log) && log@ == Seq::<SnapshotVersion>::empty(),
                StoredCommits::Failed(m) => r matches Err(OpenCommitsError::ObjectStore(e)) && e == m,
            },
    {
        match stored {
            StoredCommits::Found(bytes) => match decode_versions(&bytes) {
                Ok(commits) => Ok(CommitLog { commits }),
                Err(e) => Err(OpenCommitsError::Decoding(e)),
            },
            StoredCommits::NotFound => Ok(CommitLog::new()),
            StoredCommits::Failed(m) => Err(OpenCommitsError::ObjectStore(m)),
        }
    }

    /// Whether a specific version has been committed.
    pub fn is_committed(&self, version: SnapshotVersion) -> (r: bool)
        ensures
            r == self@.contains(version),
    {
        let mut i: usize = 0;
        while i < self.commits.len()
            invariant
                i <= self@.len(),
                forall|j: int| 0 <= j < i ==> self@[j] != version,
            decreases self.commits.len() - i,
        {
            if self.commits[i] == version {
                return true;
            }
            i = i + 1;
        }
        false
    }

    /// The last committed version (not the highest), or `None` if nothing
    /// was committed yet.
    pub fn last_committed(&self) -> (r: Option<SnapshotVersion>)
        ensures
            self@.len() == 0 ==> r is None,
            self@.len() > 0 ==> r == Some(self@.last()),
    {
        let n = self.commits.len();
        if n == 0 {
            None
        } else {
            Some(self.commits[n - 1])
        }
    }

    /// Commit a version, returning the encoded log to write to the store.
    pub fn commit(&mut self, version: SnapshotVersion) -> (r: Result<Vec<u8>, rmp_serde::encode::Error>)
        ensures
            final(self)@ == old(self)@.push(version),
            r matches Ok(b) ==> b@ == msgpack_encoding(final(self)@),
            final(self)@.len() < 0x1_0000_0000 ==> (r matches Ok(b) ==> msgpack_decoding(b@) == Some(
                final(self)@,
            )),
    {
        self.commits.push(version);
        encode_versions(&self.commits)
    }

    /// Whether the snapshot directory of a version must be cleared before it
    /// is opened: a version not committed is either new or was written and
    /// not committed, in both cases it starts clean.
    pub fn needs_clean_directory(&self, version: SnapshotVersion) -> (r: bool)
        ensures
            r == !self@.contains(version),
    {
        !self.is_committed(version)
    }
}

/// Path segments, below the store's base path, of the snapshot database of a
/// worker for a version.
pub fn snapshot_path(worker_id: WorkerId, version: SnapshotVersion) -> (r: Vec<String>)
    ensures
        r@.len() == 3,
        r@[0]@ == "snapshots"@,
        r@[1]@ == "worker"@ + decimal_nat(worker_id as nat),
        r@[2]@ == "version"@ + decimal_nat(version as nat),
{
    let mut r: Vec<String> = Vec::new();
    r.push(String::from_str("snapshots"));
    r.push(String::from_str("worker").concat(u64_decimal(worker_id).as_str()));
    r.push(String::from_str("version").concat(u64_decimal(version).as_str()));
    r
}

/// Path segment, below the store's base path, of the commit file.
pub fn commits_path() -> (r: String)
    ensures
        r@ == "commits"@,
{
    String::from_str("commits")
}

/// Law: the last committed version is the version committed last, even if
/// a higher version was committed before it; every committed version stays
/// committed.
pub proof fn last_commit_wins(log: Seq<SnapshotVersion>, version: SnapshotVersion, earlier: SnapshotVersion)
    requires
        log.contains(earlier),
    ensures
        log.push(version).last() == version,
        log.push(version).contains(version),
        log.push(version).contains(earlier),
{
    let i = choose|i: int| 0 <= i < log.len() && log[i] == earlier;
    assert(log.push(version)[i] == earlier);
    assert(log.push(version)[log.len() as int] == version);
}

/// Law: a log reopened from the bytes a commit wrote holds every version
/// committed before, in commit order, with the version committed last as its
/// last committed version.
pub proof fn reopened_log_holds_commits(log: Seq<SnapshotVersion>, version: SnapshotVersion, bytes: Seq<u8>)
    requires
        msgpack_decoding(bytes) == Some(log.push(version)),
    ensures
        msgpack_decoding(bytes) matches Some(reopened) && reopened.len() == log.len() + 1
            && reopened.last() == version && forall|i: int|
            0 <= i < log.len() ==> #[trigger] reopened[i] == log[i],
{
}

} // verus!
