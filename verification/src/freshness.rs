//! The freshness of a backup target: the device that backs it and the age
//! of its newest backup.

use crate::backups::{
    find_latest_backup_time, finds_latest, lemma_found_is_well_formed, listed,
    well_formed_listing, BackupParsingError, DirectoryEntry,
};
use crate::mounts::{find_mount_point, resolves_mount, MountPoint, MountPointParsingError};
use crate::timestamp::{age_between, Timestamp};
use vstd::prelude::*;
use vstd::string::*;

verus! {

/// What was observed of one backup target: the device behind it, the path
/// and pattern that name it, and the age of its newest backup in seconds.
#[derive(Clone, Debug, PartialEq, Eq)]
pub struct BackupObservation {
    pub device: String,
    pub path: String,
    pub pattern: String,
    pub age_seconds: u64,
}

/// An observation, and whether the clock was behind the backup when it was
/// made: the newest backup lies after `now`, and its age was set to 0.
#[derive(Clone, Debug, PartialEq, Eq)]
pub struct Measurement {
    pub observation: BackupObservation,
    pub clock_behind: bool,
}

/// One backup target as it was read for a measurement: the path and the
/// pattern that name it, the mount table and the listing of the path, or
/// for each of the two the account of why it could not be read.
#[derive(Debug, PartialEq, Eq)]
pub struct BackupTarget {
    pub path: String,
    pub pattern: String,
    pub mount_table: Result<Vec<MountPoint>, String>,
    pub listing: Result<Vec<DirectoryEntry>, String>,
}

/// Why a backup target could not be observed.
#[derive(Clone, Debug, PartialEq, Eq)]
pub enum FreshnessError {
    /// No mount was found for the path.
    Mount(MountPointParsingError),
    /// No latest backup time was found in the directory.
    Backup(BackupParsingError),
}

impl BackupObservation {
    /// Whether this is the observation of the target `mount_path` and
    /// `pattern` on `mount`, whose newest backup was made at `latest`, as
    /// seen at `now`.
    pub open spec fn combines(
        self,
        mount: MountPoint,
        mount_path: Seq<char>,
        pattern: Seq<char>,
        latest: Timestamp,
        now: Timestamp,
    ) -> bool {
        &&& self.device@ == mount.source@
        &&& self.path@ == mount_path
        &&& self.pattern@ == pattern
        &&& self.age_seconds == age_between(now, latest)
    }
}

impl BackupTarget {
    /// The timestamps of the listing are well formed.
    pub open spec fn wf(self) -> bool {
        well_formed_listing(self.listing)
    }

    /// Whether `r` is what the measurement of this target at `now` owes.
    pub open spec fn measured(self, now: Timestamp, r: Result<Measurement, FreshnessError>) -> bool {
        measures_with_clock(
            self.path@,
            self.pattern@,
            self.mount_table,
            listed(self.listing),
            now,
            r,
        )
    }
}

impl FreshnessError {
    /// The text of the error.
    pub open spec fn message_text(self) -> Seq<char> {
        match self {
            FreshnessError::Mount(e) => e.message_text(),
            FreshnessError::Backup(e) => e.message_text(),
        }
    }

    /// The text of the error, for a log.
    pub fn message(&self) -> (text: String)
        ensures
            text@ == self.message_text(),
    {
        match self {
            FreshnessError::Mount(e) => e.message(),
            FreshnessError::Backup(e) => e.message(),
        }
    }
}

/// What `measure_backup_freshness` owes. The mount is resolved first: its
/// failure is the failure of the measurement. Then the latest backup time
/// is searched: its failure is the failure of the measurement. Else the
/// observation combines the two.
pub open spec fn measures(
    mount_path: Seq<char>,
    pattern: Seq<char>,
    mount_table: Result<Vec<MountPoint>, String>,
    entries: Seq<DirectoryEntry>,
    now: Timestamp,
    r: Result<BackupObservation, FreshnessError>,
) -> bool {
    match r {
        Err(FreshnessError::Mount(e)) => resolves_mount(mount_path, mount_table, Err(e)),
        Err(FreshnessError::Backup(e)) => {
            &&& exists|mount: MountPoint| #[trigger]
                resolves_mount(mount_path, mount_table, Ok(mount))
            &&& finds_latest(pattern, mount_path, entries, Err(e))
        },
        Ok(observation) => exists|mount: MountPoint, latest: Timestamp|
            #![trigger
                resolves_mount(mount_path, mount_table, Ok(mount)),
                finds_latest(pattern, mount_path, entries, Ok(latest)),
            ]
            {
                &&& resolves_mount(mount_path, mount_table, Ok(mount))
                &&& finds_latest(pattern, mount_path, entries, Ok(latest))
                &&& observation.combines(mount, mount_path, pattern, latest, now)
            },
    }
}

/// What `measure_with_clock_check` owes: what `measure_backup_freshness`
/// owes, and beside the observation whether the newest backup lies after
/// `now`.
pub open spec fn measures_with_clock(
    mount_path: Seq<char>,
    pattern: Seq<char>,
    mount_table: Result<Vec<MountPoint>, String>,
    entries: Seq<DirectoryEntry>,
    now: Timestamp,
    r: Result<Measurement, FreshnessError>,
) -> bool {
    match r {
        Err(e) => measures(
            mount_path,
            pattern,
            mount_table,
            entries,
            now,
            Err::<BackupObservation, FreshnessError>(e),
        ),
        Ok(measurement) => exists|mount: MountPoint, latest: Timestamp|
            #![trigger
                resolves_mount(mount_path, mount_table, Ok(mount)),
                finds_latest(pattern, mount_path, entries, Ok(latest)),
            ]
            {
                &&& resolves_mount(mount_path, mount_table, Ok(mount))
                &&& finds_latest(pattern, mount_path, entries, Ok(latest))
                &&& measurement.observation.combines(mount, mount_path, pattern, latest, now)
                &&& measurement.clock_behind == now.before(latest)
            },
    }
}

/// Puts an observation together: the source of the mount as the device, the
/// path and the pattern, and the age of `latest` at `now`, which is 0 where
/// `latest` is not before `now`.
pub fn assemble_observation(
    mount: &MountPoint,
    mount_path: &str,
    bkp_pattern: &str,
    latest: &Timestamp,
    now: &Timestamp,
) -> (observation: BackupObservation)
    requires
        latest.wf(),
        now.wf(),
    ensures
        observation.combines(*mount, mount_path@, bkp_pattern@, *latest, *now),
{
    BackupObservation {
        device: mount.source.clone(),
        path: String::from_str(mount_path),
        pattern: String::from_str(bkp_pattern),
        age_seconds: latest.age_at(now),
    }
}

/// Observes one backup target: finds the mount behind `mount_path` in the
/// mount table, the newest backup in the listing of `mount_path`, and its
/// age at `now`.
pub fn measure_backup_freshness(
    mount_path: &str,
    bkp_pattern: &str,
    mount_table: &Result<Vec<MountPoint>, String>,
    listing: &Result<Vec<DirectoryEntry>, String>,
    now: &Timestamp,
) -> (r: Result<BackupObservation, FreshnessError>)
    requires
        now.wf(),
        well_formed_listing(*listing),
    ensures
        measures(mount_path@, bkp_pattern@, *mount_table, listed(*listing), *now, r),
{
    match measure_with_clock_check(mount_path, bkp_pattern, mount_table, listing, now) {
        Ok(measurement) => Ok(measurement.observation),
        Err(e) => Err(e),
    }
}

/// Observes one backup target as `measure_backup_freshness` does, and tells
/// beside the observation whether the clock was behind the backup: the
/// newest backup lies after `now`, so that its age of 0 is no true age.
pub fn measure_with_clock_check(
    mount_path: &str,
    bkp_pattern: &str,
    mount_table: &Result<Vec<MountPoint>, String>,
    listing: &Result<Vec<DirectoryEntry>, String>,
    now: &Timestamp,
) -> (r: Result<Measurement, FreshnessError>)
    requires
        now.wf(),
        well_formed_listing(*listing),
    ensures
        measures_with_clock(mount_path@, bkp_pattern@, *mount_table, listed(*listing), *now, r),
{
    let mount = match find_mount_point(mount_path, mount_table) {
        Ok(mount) => mount,
        Err(e) => {
            return Err(FreshnessError::Mount(e));
        },
    };
    let latest = match find_latest_backup_time(bkp_pattern, mount_path, listing) {
        Ok(latest) => latest,
        Err(e) => {
            return Err(FreshnessError::Backup(e));
        },
    };
    proof {
        lemma_found_is_well_formed(bkp_pattern@, mount_path@, listed(*listing), latest);
    }
    Ok(
        Measurement {
            observation: assemble_observation(&mount, mount_path, bkp_pattern, &latest, now),
            clock_behind: now.is_before(&latest),
        },
    )
}

/// Observes every target at `now`: one result for each, in their order.
/// A target that fails has its failure as its result, and the others are
/// measured all the same.
pub fn gather_metrics(targets: &Vec<BackupTarget>, now: &Timestamp) -> (results: Vec<
    Result<Measurement, FreshnessError>,
>)
    requires
        now.wf(),
        forall|i: int| 0 <= i < targets@.len() ==> (#[trigger] targets@[i]).wf(),
    ensures
        results@.len() == targets@.len(),
        forall|i: int|
            0 <= i < targets@.len() ==> (#[trigger] targets@[i]).measured(*now, results@[i]),
{
    let mut results: Vec<Result<Measurement, FreshnessError>> = Vec::new();
    let mut i: usize = 0;
    while i < targets.len()
        invariant
            i <= targets.len(),
            now.wf(),
            forall|j: int| 0 <= j < targets@.len() ==> (#[trigger] targets@[j]).wf(),
            results@.len() == i,
            forall|j: int| 0 <= j < i ==> (#[trigger] targets@[j]).measured(*now, results@[j]),
        decreases targets.len() - i,
    {
        let target = &targets[i];
        let result = measure_with_clock_check(
            target.path.as_str(),
            target.pattern.as_str(),
            &target.mount_table,
            &target.listing,
            now,
        );
        results.push(result);
        i = i + 1;
    }
    results
}

} // verus!
