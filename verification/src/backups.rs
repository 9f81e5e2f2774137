//! The newest backup of a directory: which entries are backups, when each
//! was made, and which was made last.

use crate::date::{date_in_file_name, timestamp_from_file_name};
use crate::pattern::{compiles, is_match, pattern_compiles, pattern_matches};
use crate::selection::{
    all_well_formed, later, latest_of, lemma_latest_is_maximum, lemma_latest_order_independent,
    not_after,
};
use crate::timestamp::Timestamp;
use vstd::prelude::*;
use vstd::string::*;

verus! {

/// One entry of a directory as it was listed: its name and what the file
/// system knows of its age.
#[derive(Clone, Debug, PartialEq, Eq)]
pub struct DirectoryEntry {
    pub file_name: String,
    /// When the entry was created, where the file system tells.
    pub created: Option<Timestamp>,
    /// When the entry was last modified, where the file system tells.
    pub modified: Option<Timestamp>,
}

/// A directory entry whose name matches the backup pattern, with the time
/// that counts as the time of the backup. `None` where no time is known.
#[derive(Clone, Debug, PartialEq, Eq)]
pub struct BackupCandidate {
    pub file_name: String,
    pub effective_timestamp: Option<Timestamp>,
}

/// Why no latest backup time was found.
#[derive(Clone, Debug, PartialEq, Eq)]
pub enum BackupParsingError {
    /// The pattern is no regular expression.
    InvalidPattern { pattern: String },
    /// No entry of the directory matches the pattern.
    NoBackupsFound { mount_path: String, pattern: String },
    /// Of the candidate that was selected no time is known by any method.
    TimestampUnavailable { file_name: String },
}

/// The time that the file system gives for an entry: when it was created,
/// else when it was last modified.
pub open spec fn fallback_timestamp(
    created: Option<Timestamp>,
    modified: Option<Timestamp>,
) -> Option<Timestamp> {
    match created {
        Some(t) => Some(t),
        None => modified,
    }
}

/// The time that counts for a candidate: the one its name carries, else the
/// one the file system gives.
pub open spec fn effective_timestamp(
    decoded: Option<Timestamp>,
    created: Option<Timestamp>,
    modified: Option<Timestamp>,
) -> Option<Timestamp> {
    match decoded {
        Some(t) => Some(t),
        None => fallback_timestamp(created, modified),
    }
}

/// Picks the time that counts for a candidate: `decoded`, the time that its
/// name carries, before `created`, and `created` before `modified`.
pub fn choose_timestamp(
    decoded: Option<Timestamp>,
    created: Option<Timestamp>,
    modified: Option<Timestamp>,
) -> (r: Option<Timestamp>)
    ensures
        r == effective_timestamp(decoded, created, modified),
{
    match decoded {
        Some(t) => Some(t),
        None => match created {
            Some(t) => Some(t),
            None => modified,
        },
    }
}

impl DirectoryEntry {
    /// The timestamps of the entry are well formed.
    pub open spec fn wf(self) -> bool {
        &&& self.created matches Some(t) ==> t.wf()
        &&& self.modified matches Some(t) ==> t.wf()
    }

    /// Whether the entry's name matches `pattern`.
    pub open spec fn is_backup(self, pattern: Seq<char>) -> bool {
        pattern_matches(pattern, self.file_name@)
    }

    /// Whether `timestamp` can be the time that counts for this entry under
    /// `pattern`. Where the name carries no date, it is the time that the
    /// file system gives. Where it carries one, it is an instant at which a
    /// local clock shows that date; and where the local time zone knows no
    /// such instant, again the time of the file system.
    pub open spec fn resolves_to(self, pattern: Seq<char>, timestamp: Option<Timestamp>) -> bool {
        let fallback = fallback_timestamp(self.created, self.modified);
        match date_in_file_name(self.file_name@, pattern) {
            Some(date) => timestamp == fallback || (timestamp matches Some(t) && date.shown_at(t)),
            None => timestamp == fallback,
        }
    }
}

/// The entries that a listing holds: none where the directory could not be
/// read.
pub open spec fn listed(listing: Result<Vec<DirectoryEntry>, String>) -> Seq<DirectoryEntry> {
    match listing {
        Ok(entries) => entries@,
        Err(_) => Seq::empty(),
    }
}

/// Whether every timestamp of a listing is well formed.
pub open spec fn well_formed_listing(listing: Result<Vec<DirectoryEntry>, String>) -> bool {
    forall|i: int| 0 <= i < listed(listing).len() ==> (#[trigger] listed(listing)[i]).wf()
}

/// The entries whose names match `pattern`, in the order of the listing.
pub open spec fn backups_among(entries: Seq<DirectoryEntry>, pattern: Seq<char>) -> Seq<
    DirectoryEntry,
> {
    entries.filter(|entry: DirectoryEntry| entry.is_backup(pattern))
}

/// The times that count for a run of candidates.
pub open spec fn timestamps_of(candidates: Seq<BackupCandidate>) -> Seq<Option<Timestamp>> {
    candidates.map_values(|candidate: BackupCandidate| candidate.effective_timestamp)
}

/// Whether `candidates` are the backups among `entries`: one for each entry
/// whose name matches `pattern`, in the order of the listing, under the same
/// name, and with a time that the entry resolves to.
pub open spec fn discovered(
    entries: Seq<DirectoryEntry>,
    pattern: Seq<char>,
    candidates: Seq<BackupCandidate>,
) -> bool {
    let backups = backups_among(entries, pattern);
    &&& candidates.len() == backups.len()
    &&& forall|k: int|
        0 <= k < candidates.len() ==> {
            &&& (#[trigger] candidates[k]).file_name@ == backups[k].file_name@
            &&& backups[k].resolves_to(pattern, candidates[k].effective_timestamp)
        }
}

/// What the selection among `candidates` owes: the latest of their times;
/// `NoBackupsFound` where there is no candidate; `TimestampUnavailable`,
/// with the name of the last candidate, where no candidate has a time.
pub open spec fn selected(
    candidates: Seq<BackupCandidate>,
    mount_path: Seq<char>,
    pattern: Seq<char>,
    r: Result<Timestamp, BackupParsingError>,
) -> bool {
    if candidates.len() == 0 {
        &&& r matches Err(BackupParsingError::NoBackupsFound { mount_path: m, pattern: p })
        &&& m@ == mount_path
        &&& p@ == pattern
    } else {
        match latest_of(timestamps_of(candidates)) {
            Some(t) => r == Ok::<Timestamp, BackupParsingError>(t),
            None => {
                &&& r matches Err(BackupParsingError::TimestampUnavailable { file_name })
                &&& file_name@ == candidates.last().file_name@
            },
        }
    }
}

/// What `find_latest_backup_time` owes for a pattern and a listing:
/// `InvalidPattern` where the pattern does not compile, and else the
/// selection among the backups that the listing holds.
pub open spec fn finds_latest(
    pattern: Seq<char>,
    mount_path: Seq<char>,
    entries: Seq<DirectoryEntry>,
    r: Result<Timestamp, BackupParsingError>,
) -> bool {
    if pattern_compiles(pattern) {
        exists|candidates: Seq<BackupCandidate>| #[trigger]
            discovered(entries, pattern, candidates) && selected(
                candidates,
                mount_path,
                pattern,
                r,
            )
    } else {
        r matches Err(BackupParsingError::InvalidPattern { pattern: p }) && p@ == pattern
    }
}

impl BackupParsingError {
    /// The text of the error.
    pub open spec fn message_text(self) -> Seq<char> {
        match self {
            BackupParsingError::InvalidPattern { pattern } => {
                "Error parsing backup: Invalid backup file pattern: '"@ + pattern@ + "'"@
            },
            BackupParsingError::NoBackupsFound { mount_path, pattern } => {
                "Error parsing backup: No backups found matching "@ + mount_path@ + "/"@ + pattern@
            },
            BackupParsingError::TimestampUnavailable { file_name } => {
                "Error parsing backup: Failed to retrieve backup metadata for "@ + file_name@
            },
        }
    }

    /// The text of the error, for a log.
    pub fn message(&self) -> (text: String)
        ensures
            text@ == self.message_text(),
    {
        match self {
            BackupParsingError::InvalidPattern { pattern } => {
                let mut text = String::from_str("Error parsing backup: Invalid backup file pattern: '");
                text.append(pattern.as_str());
                text.append("'");
                text
            },
            BackupParsingError::NoBackupsFound { mount_path, pattern } => {
                let mut text = String::from_str("Error parsing backup: No backups found matching ");
                text.append(mount_path.as_str());
                text.append("/");
                text.append(pattern.as_str());
                text
            },
            BackupParsingError::TimestampUnavailable { file_name } => {
                let mut text = String::from_str(
                    "Error parsing backup: Failed to retrieve backup metadata for ",
                );
                text.append(file_name.as_str());
                text
            },
        }
    }
}

/// A directory that holds no entry whose name matches the pattern has no
/// backups, and so has an empty one and one that could not be read: the
/// search ends in `NoBackupsFound`, whatever else the listing holds.
pub proof fn lemma_no_match_no_backups(
    pattern: Seq<char>,
    mount_path: Seq<char>,
    entries: Seq<DirectoryEntry>,
    r: Result<Timestamp, BackupParsingError>,
)
    requires
        pattern_compiles(pattern),
        forall|i: int| 0 <= i < entries.len() ==> !(#[trigger] entries[i]).is_backup(pattern),
        finds_latest(pattern, mount_path, entries, r),
    ensures
        r matches Err(BackupParsingError::NoBackupsFound { mount_path: m, pattern: p }) && m@
            == mount_path && p@ == pattern,
{
    let is_backup = |entry: DirectoryEntry| entry.is_backup(pattern);
    let backups = backups_among(entries, pattern);
    if backups.len() > 0 {
        entries.lemma_filter_contains_rev(is_backup, backups[0]);
        entries.lemma_filter_pred(is_backup, 0);
        let i = choose|i: int| 0 <= i < entries.len() && entries[i] == backups[0];
        assert(entries[i].is_backup(pattern));
    }
}

/// The search ends in `NoBackupsFound` only where the pattern compiles and
/// no entry of the listing matches it.
pub proof fn lemma_no_backups_only_without_match(
    pattern: Seq<char>,
    mount_path: Seq<char>,
    entries: Seq<DirectoryEntry>,
    r: Result<Timestamp, BackupParsingError>,
)
    requires
        finds_latest(pattern, mount_path, entries, r),
        r matches Err(BackupParsingError::NoBackupsFound { .. }),
    ensures
        pattern_compiles(pattern),
        forall|i: int| 0 <= i < entries.len() ==> !(#[trigger] entries[i]).is_backup(pattern),
{
    let is_backup = |entry: DirectoryEntry| entry.is_backup(pattern);
    let candidates = choose|candidates: Seq<BackupCandidate>| #[trigger]
        discovered(entries, pattern, candidates) && selected(candidates, mount_path, pattern, r);
    assert(candidates.len() == 0);
    assert forall|i: int| 0 <= i < entries.len() implies !(#[trigger] entries[i]).is_backup(
        pattern,
    ) by {
        if entries[i].is_backup(pattern) {
            entries.lemma_filter_contains(is_backup, i);
        }
    }
}

/// A candidate whose name carries no date counts with the time that the
/// file system gives: when it was created, else when it was last modified.
pub proof fn lemma_no_date_falls_back(
    entries: Seq<DirectoryEntry>,
    pattern: Seq<char>,
    candidates: Seq<BackupCandidate>,
    k: int,
)
    requires
        discovered(entries, pattern, candidates),
        0 <= k < candidates.len(),
        date_in_file_name(backups_among(entries, pattern)[k].file_name@, pattern) is None,
    ensures
        candidates[k].effective_timestamp == fallback_timestamp(
            backups_among(entries, pattern)[k].created,
            backups_among(entries, pattern)[k].modified,
        ),
{
    assert(backups_among(entries, pattern)[k].resolves_to(
        pattern,
        candidates[k].effective_timestamp,
    ));
}

/// Where no backup of the listing carries a date in its name, the search
/// has one answer: every time comes from the file system, and none from the
/// time zone.
pub proof fn lemma_undated_search_is_determined(
    pattern: Seq<char>,
    mount_path: Seq<char>,
    entries: Seq<DirectoryEntry>,
    r1: Result<Timestamp, BackupParsingError>,
    r2: Result<Timestamp, BackupParsingError>,
)
    requires
        forall|i: int|
            0 <= i < entries.len() && (#[trigger] entries[i]).is_backup(pattern)
                ==> date_in_file_name(entries[i].file_name@, pattern) is None,
        finds_latest(pattern, mount_path, entries, r1),
        finds_latest(pattern, mount_path, entries, r2),
    ensures
        r1 is Ok ==> r1 == r2,
        r1 is Err <==> r2 is Err,
{
    if pattern_compiles(pattern) {
        let is_backup = |entry: DirectoryEntry| entry.is_backup(pattern);
        let backups = backups_among(entries, pattern);
        let c1 = choose|candidates: Seq<BackupCandidate>| #[trigger]
            discovered(entries, pattern, candidates) && selected(
                candidates,
                mount_path,
                pattern,
                r1,
            );
        let c2 = choose|candidates: Seq<BackupCandidate>| #[trigger]
            discovered(entries, pattern, candidates) && selected(
                candidates,
                mount_path,
                pattern,
                r2,
            );
        assert forall|k: int| 0 <= k < backups.len() implies c1[k].effective_timestamp
            == c2[k].effective_timestamp by {
            assert(backups.contains(backups[k]));
            entries.lemma_filter_contains_rev(is_backup, backups[k]);
            entries.lemma_filter_pred(is_backup, k);
            let i = choose|i: int| 0 <= i < entries.len() && entries[i] == backups[k];
            assert(entries[i].is_backup(pattern));
            assert(backups[k].resolves_to(pattern, c1[k].effective_timestamp));
            assert(backups[k].resolves_to(pattern, c2[k].effective_timestamp));
        }
        assert(timestamps_of(c1) =~= timestamps_of(c2));
    }
}

/// The time that the search returns is the time of one of the backups, and
/// no backup has a later one, whether its time came from its name or from
/// the file system.
pub proof fn lemma_found_is_latest(
    pattern: Seq<char>,
    mount_path: Seq<char>,
    entries: Seq<DirectoryEntry>,
    t: Timestamp,
)
    requires
        finds_latest(pattern, mount_path, entries, Ok(t)),
    ensures
        pattern_compiles(pattern),
        exists|candidates: Seq<BackupCandidate>|
            {
                &&& #[trigger] discovered(entries, pattern, candidates)
                &&& exists|k: int|
                    0 <= k < candidates.len() && (#[trigger] candidates[k]).effective_timestamp
                        == Some(t)
                &&& forall|k: int|
                    0 <= k < candidates.len() ==> not_after(
                        (#[trigger] candidates[k]).effective_timestamp,
                        Some(t),
                    )
            },
{
    let r = Ok::<Timestamp, BackupParsingError>(t);
    let candidates = choose|candidates: Seq<BackupCandidate>| #[trigger]
        discovered(entries, pattern, candidates) && selected(candidates, mount_path, pattern, r);
    let timestamps = timestamps_of(candidates);
    lemma_latest_is_maximum(timestamps);
    assert(timestamps.contains(Some(t)));
    let k = choose|k: int| 0 <= k < timestamps.len() && timestamps[k] == Some(t);
    assert(candidates[k].effective_timestamp == Some(t));
    assert forall|j: int| 0 <= j < candidates.len() implies not_after(
        (#[trigger] candidates[j]).effective_timestamp,
        Some(t),
    ) by {
        assert(not_after(timestamps[j], latest_of(timestamps)));
    }
}

/// Where every timestamp of the listing is well formed, so is the time
/// that the search returns.
pub proof fn lemma_found_is_well_formed(
    pattern: Seq<char>,
    mount_path: Seq<char>,
    entries: Seq<DirectoryEntry>,
    t: Timestamp,
)
    requires
        forall|i: int| 0 <= i < entries.len() ==> (#[trigger] entries[i]).wf(),
        finds_latest(pattern, mount_path, entries, Ok(t)),
    ensures
        t.wf(),
{
    let is_backup = |entry: DirectoryEntry| entry.is_backup(pattern);
    let backups = backups_among(entries, pattern);
    lemma_found_is_latest(pattern, mount_path, entries, t);
    let candidates = choose|candidates: Seq<BackupCandidate>|
        {
            &&& #[trigger] discovered(entries, pattern, candidates)
            &&& exists|k: int|
                0 <= k < candidates.len() && (#[trigger] candidates[k]).effective_timestamp == Some(t)
            &&& forall|k: int|
                0 <= k < candidates.len() ==> not_after(
                    (#[trigger] candidates[k]).effective_timestamp,
                    Some(t),
                )
        };
    let k = choose|k: int|
        0 <= k < candidates.len() && (#[trigger] candidates[k]).effective_timestamp == Some(t);
    assert(backups[k].resolves_to(pattern, candidates[k].effective_timestamp));
    assert(backups.contains(backups[k]));
    entries.lemma_filter_contains_rev(is_backup, backups[k]);
    let i = choose|i: int| 0 <= i < entries.len() && entries[i] == backups[k];
    assert(entries[i].wf());
}

/// The selection does not depend on the order of the listing: two runs of
/// candidates with the same well-formed times, in whatever order, give the
/// same latest time, and fail together.
pub proof fn lemma_selection_order_independent(
    a: Seq<BackupCandidate>,
    b: Seq<BackupCandidate>,
    mount_path: Seq<char>,
    pattern: Seq<char>,
    ra: Result<Timestamp, BackupParsingError>,
    rb: Result<Timestamp, BackupParsingError>,
)
    requires
        all_well_formed(timestamps_of(a)),
        timestamps_of(a).to_multiset() == timestamps_of(b).to_multiset(),
        selected(a, mount_path, pattern, ra),
        selected(b, mount_path, pattern, rb),
    ensures
        ra is Ok ==> rb == ra,
        ra is Err <==> rb is Err,
{
    timestamps_of(a).to_multiset_ensures();
    timestamps_of(b).to_multiset_ensures();
    lemma_latest_order_independent(timestamps_of(a), timestamps_of(b));
}

/// Checks that `bkp_pattern` is a regular expression, as a configuration
/// can be checked before any directory is read.
pub fn validate_pattern(bkp_pattern: &str) -> (r: Result<(), BackupParsingError>)
    ensures
        r is Ok <==> pattern_compiles(bkp_pattern@),
        r matches Err(e) ==> e matches BackupParsingError::InvalidPattern { pattern } && pattern@
            == bkp_pattern@,
{
    if compiles(bkp_pattern) {
        Ok(())
    } else {
        Err(BackupParsingError::InvalidPattern { pattern: String::from_str(bkp_pattern) })
    }
}

/// Collects the backups among `entries`: the entries whose names match
/// `bkp_pattern`, each with the time that counts for it. The date in a name
/// is read as local time, so the instant depends on the time zone of the
/// machine; `discovered` says what holds of every answer.
pub fn discover_candidates(bkp_pattern: &str, entries: &Vec<DirectoryEntry>) -> (candidates: Vec<
    BackupCandidate,
>)
    requires
        pattern_compiles(bkp_pattern@),
    ensures
        discovered(entries@, bkp_pattern@, candidates@),
{
    let ghost is_backup = |entry: DirectoryEntry| entry.is_backup(bkp_pattern@);
    let mut candidates: Vec<BackupCandidate> = Vec::new();
    let mut i: usize = 0;
    proof {
        reveal(Seq::filter);
    }
    while i < entries.len()
        invariant
            i <= entries.len(),
            pattern_compiles(bkp_pattern@),
            is_backup == |entry: DirectoryEntry| entry.is_backup(bkp_pattern@),
            discovered(entries@.subrange(0, i as int), bkp_pattern@, candidates@),
        decreases entries.len() - i,
    {
        let entry = &entries[i];
        let ghost seen = entries@.subrange(0, i as int);
        let ghost before = candidates@;
        proof {
            assert(entries@.subrange(0, i + 1) =~= seen.push(*entry));
            seen.lemma_filter_push(*entry, is_backup);
        }
        if is_match(bkp_pattern, entry.file_name.as_str()) {
            let decoded = timestamp_from_file_name(entry.file_name.as_str(), bkp_pattern);
            let timestamp = choose_timestamp(decoded, entry.created, entry.modified);
            candidates.push(
                BackupCandidate { file_name: entry.file_name.clone(), effective_timestamp: timestamp },
            );
            proof {
                assert forall|k: int| 0 <= k < before.len() implies candidates@[k] == before[k] by {}
            }
        }
        i = i + 1;
    }
    proof {
        assert(entries@.subrange(0, i as int) =~= entries@);
    }
    candidates
}

/// Selects the latest time among `candidates`. `mount_path` and
/// `bkp_pattern` only name the place in the error.
pub fn latest_backup_time(
    candidates: &Vec<BackupCandidate>,
    mount_path: &str,
    bkp_pattern: &str,
) -> (r: Result<Timestamp, BackupParsingError>)
    ensures
        selected(candidates@, mount_path@, bkp_pattern@, r),
{
    if candidates.len() == 0 {
        return Err(
            BackupParsingError::NoBackupsFound {
                mount_path: String::from_str(mount_path),
                pattern: String::from_str(bkp_pattern),
            },
        );
    }
    let ghost timestamps = timestamps_of(candidates@);
    let mut latest: Option<Timestamp> = None;
    let mut i: usize = 0;
    while i < candidates.len()
        invariant
            i <= candidates.len(),
            timestamps == timestamps_of(candidates@),
            latest == latest_of(timestamps.subrange(0, i as int)),
        decreases candidates.len() - i,
    {
        proof {
            assert(timestamps.subrange(0, i + 1).drop_last() =~= timestamps.subrange(0, i as int));
        }
        latest = later(latest, candidates[i].effective_timestamp);
        i = i + 1;
    }
    proof {
        assert(timestamps.subrange(0, i as int) =~= timestamps);
    }
    match latest {
        Some(t) => Ok(t),
        None => Err(
            BackupParsingError::TimestampUnavailable {
                file_name: candidates[candidates.len() - 1].file_name.clone(),
            },
        ),
    }
}

/// The time of the newest backup in a directory: of the entries whose names
/// match `bkp_pattern`, the latest time that counts. `listing` is what
/// reading the directory `mount_path` gave: its entries, or the account of
/// why it could not be read, which counts as a directory without entries.
pub fn find_latest_backup_time(
    bkp_pattern: &str,
    mount_path: &str,
    listing: &Result<Vec<DirectoryEntry>, String>,
) -> (r: Result<Timestamp, BackupParsingError>)
    ensures
        finds_latest(bkp_pattern@, mount_path@, listed(*listing), r),
{
    match validate_pattern(bkp_pattern) {
        Ok(()) => {
            let candidates = match listing {
                Ok(entries) => discover_candidates(bkp_pattern, entries),
                Err(_) => {
                    let none: Vec<DirectoryEntry> = Vec::new();
                    discover_candidates(bkp_pattern, &none)
                },
            };
            latest_backup_time(&candidates, mount_path, bkp_pattern)
        },
        Err(e) => Err(e),
    }
}

} // verus!
