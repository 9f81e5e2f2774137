//! The mount that backs a path: among the mounts whose destination the path
//! begins with, the one with the longest destination.

use crate::text::starts_with;
use vstd::prelude::*;
use vstd::string::*;

verus! {

/// One entry of the mount table: what is mounted, and where.
#[derive(Clone, Debug, PartialEq, Eq)]
pub struct MountPoint {
    /// The device or remote path.
    pub source: String,
    /// The directory it is mounted on.
    pub destination: String,
}

/// Why no mount was found for a path.
#[derive(Clone, Debug, PartialEq, Eq)]
pub enum MountPointParsingError {
    /// No destination in the mount table begins the path, or the path is empty.
    MountNotFound { mount_path: String },
    /// The mount table could not be read; `cause` is the system's account of it.
    MountTableUnreadable { cause: String },
}

/// Whether `mount` is mounted at `path` or above it.
pub open spec fn covers(mount: MountPoint, path: Seq<char>) -> bool {
    mount.destination@.is_prefix_of(path)
}

/// Whether any of `mounts` covers `path`.
pub open spec fn some_mount_covers(mounts: Seq<MountPoint>, path: Seq<char>) -> bool {
    exists|i: int| 0 <= i < mounts.len() && covers(#[trigger] mounts[i], path)
}

/// Whether the mount at index `i` is the one that backs `path`: it covers
/// the path, no covering mount has a longer destination, and every covering
/// mount after it in the table has a shorter one (of two mounts on the same
/// directory, the later one counts).
pub open spec fn is_authoritative(mounts: Seq<MountPoint>, path: Seq<char>, i: int) -> bool {
    &&& 0 <= i < mounts.len()
    &&& covers(mounts[i], path)
    &&& forall|j: int|
        0 <= j < mounts.len() && covers(#[trigger] mounts[j], path)
            ==> mounts[j].destination@.len() <= mounts[i].destination@.len()
    &&& forall|j: int|
        i < j < mounts.len() && covers(#[trigger] mounts[j], path)
            ==> mounts[j].destination@.len() < mounts[i].destination@.len()
}

/// At most one mount of a table backs a path.
pub proof fn lemma_authoritative_unique(mounts: Seq<MountPoint>, path: Seq<char>, i: int, j: int)
    requires
        is_authoritative(mounts, path, i),
        is_authoritative(mounts, path, j),
    ensures
        i == j,
{
}

/// How the mount that backs a path changes as one more mount is read from
/// the table: the new mount backs the path where it covers it and its
/// destination is as long as that of every covering mount before it; else
/// the mount that backed the path before still does.
pub proof fn lemma_table_grows(seen: Seq<MountPoint>, next: MountPoint, path: Seq<char>)
    ensures
        forall|b: int| #[trigger]
            is_authoritative(seen, path, b) ==> if covers(next, path) && seen[b].destination@.len()
                <= next.destination@.len() {
                is_authoritative(seen.push(next), path, seen.len() as int)
            } else {
                is_authoritative(seen.push(next), path, b)
            },
        covers(next, path) && !some_mount_covers(seen, path) ==> is_authoritative(
            seen.push(next),
            path,
            seen.len() as int,
        ),
{
    let grown = seen.push(next);
    assert forall|j: int| 0 <= j < seen.len() implies grown[j] == seen[j] by {}
    assert forall|b: int| #[trigger] is_authoritative(seen, path, b) implies if covers(next, path)
        && seen[b].destination@.len() <= next.destination@.len() {
        is_authoritative(grown, path, seen.len() as int)
    } else {
        is_authoritative(grown, path, b)
    } by {
        assert forall|j: int|
            0 <= j < seen.len() && covers(#[trigger] grown[j], path) implies seen[j].destination@.len()
            <= seen[b].destination@.len() by {
            assert(covers(seen[j], path));
        }
        if !covers(next, path) || next.destination@.len() < seen[b].destination@.len() {
            assert forall|j: int|
                b < j < grown.len() && covers(#[trigger] grown[j], path) implies grown[j].destination@.len()
                < grown[b].destination@.len() by {
                if j < seen.len() {
                    assert(covers(seen[j], path));
                }
            }
        }
    }
    if covers(next, path) && !some_mount_covers(seen, path) {
        assert forall|j: int| 0 <= j < seen.len() implies !covers(#[trigger] grown[j], path) by {
            assert(!covers(seen[j], path));
        }
    }
}

/// Two mounts that cover one path and have destinations of one length are
/// mounted on the same directory.
pub proof fn lemma_same_length_same_destination(a: MountPoint, b: MountPoint, path: Seq<char>)
    requires
        covers(a, path),
        covers(b, path),
        a.destination@.len() == b.destination@.len(),
    ensures
        a.destination@ == b.destination@,
{
}

/// The directory of the mount that backs a path does not depend on the
/// order of the mount table: two tables that hold the same mounts, in
/// whatever order, back the path from the same destination.
pub proof fn lemma_destination_order_independent(
    a: Seq<MountPoint>,
    b: Seq<MountPoint>,
    path: Seq<char>,
    i: int,
    j: int,
)
    requires
        forall|mount: MountPoint| a.contains(mount) <==> b.contains(mount),
        is_authoritative(a, path, i),
        is_authoritative(b, path, j),
    ensures
        a[i].destination@ == b[j].destination@,
{
    assert(a.contains(a[i]));
    assert(b.contains(b[j]));
    let in_b = choose|k: int| 0 <= k < b.len() && b[k] == a[i];
    let in_a = choose|k: int| 0 <= k < a.len() && a[k] == b[j];
    assert(covers(b[in_b], path));
    assert(covers(a[in_a], path));
    lemma_same_length_same_destination(a[i], b[j], path);
}

/// What `find_mount_point` owes for a path and a mount table, or the
/// account of why the table could not be read.
pub open spec fn resolves_mount(
    mount_path: Seq<char>,
    mount_table: Result<Vec<MountPoint>, String>,
    r: Result<MountPoint, MountPointParsingError>,
) -> bool {
    match r {
        Ok(mount) => {
            &&& mount_table matches Ok(mounts)
            &&& mount_path.len() > 0
            &&& exists|i: int| #[trigger] is_authoritative(mounts@, mount_path, i) && mount == mounts@[i]
        },
        Err(MountPointParsingError::MountNotFound { mount_path: path }) => {
            &&& mount_table matches Ok(mounts)
            &&& path@ == mount_path
            &&& (mount_path.len() == 0 || !some_mount_covers(mounts@, mount_path))
        },
        Err(MountPointParsingError::MountTableUnreadable { cause }) => {
            &&& mount_table matches Err(account)
            &&& cause@ == account@
        },
    }
}

impl MountPointParsingError {
    /// The text of the error.
    pub open spec fn message_text(self) -> Seq<char> {
        match self {
            MountPointParsingError::MountNotFound { mount_path } => {
                "Could not find a valid mountpoint for Could not find any mount point containing '"@
                    + mount_path@ + "'"@
            },
            MountPointParsingError::MountTableUnreadable { cause } => {
                "Could not find a valid mountpoint for <unknown>: "@ + cause@
            },
        }
    }

    /// The text of the error, for a log.
    pub fn message(&self) -> (text: String)
        ensures
            text@ == self.message_text(),
    {
        match self {
            MountPointParsingError::MountNotFound { mount_path } => {
                let mut text = String::from_str(
                    "Could not find a valid mountpoint for Could not find any mount point containing '",
                );
                text.append(mount_path.as_str());
                text.append("'");
                text
            },
            MountPointParsingError::MountTableUnreadable { cause } => {
                let mut text = String::from_str("Could not find a valid mountpoint for <unknown>: ");
                text.append(cause.as_str());
                text
            },
        }
    }
}

/// Finds the mount that backs `mount_path` in the mount table as it was
/// read, or takes over the account of why it could not be read.
///
/// The mount returned is the one with the longest destination that
/// `mount_path` begins with. An empty path is backed by no mount.
pub fn find_mount_point(mount_path: &str, mount_table: &Result<Vec<MountPoint>, String>) -> (r:
    Result<MountPoint, MountPointParsingError>)
    ensures
        resolves_mount(mount_path@, *mount_table, r),
{
    let mounts = match mount_table {
        Ok(mounts) => mounts,
        Err(account) => {
            return Err(MountPointParsingError::MountTableUnreadable { cause: account.clone() });
        },
    };
    if mount_path.unicode_len() == 0 {
        return Err(MountPointParsingError::MountNotFound { mount_path: String::from_str(mount_path) });
    }
    let mut best: Option<usize> = None;
    let mut best_len: usize = 0;
    let mut i: usize = 0;
    while i < mounts.len()
        invariant
            i <= mounts.len(),
            best is None ==> !some_mount_covers(mounts@.subrange(0, i as int), mount_path@),
            best matches Some(b) ==> {
                &&& b < i
                &&& best_len == mounts@[b as int].destination@.len()
                &&& is_authoritative(mounts@.subrange(0, i as int), mount_path@, b as int)
            },
        decreases mounts.len() - i,
    {
        let ghost seen = mounts@.subrange(0, i as int);
        proof {
            assert(mounts@.subrange(0, i + 1) =~= seen.push(mounts@[i as int]));
            lemma_table_grows(seen, mounts@[i as int], mount_path@);
        }
        let destination = mounts[i].destination.as_str();
        if starts_with(mount_path, destination) {
            let len: usize = destination.unicode_len();
            let longer = match best {
                Some(_) => len >= best_len,
                None => true,
            };
            if longer {
                best = Some(i);
                best_len = len;
            }
        }
        i = i + 1;
    }
    assert(mounts@.subrange(0, i as int) =~= mounts@);
    match best {
        Some(b) => {
            let mount = &mounts[b];
            Ok(MountPoint { source: mount.source.clone(), destination: mount.destination.clone() })
        },
        None => Err(MountPointParsingError::MountNotFound { mount_path: String::from_str(mount_path) }),
    }
}

} // verus!
