//! Migration of the data of one array onto another, resumable: the state of
//! a copy is saved after every chunk, and a copy that was paused goes on from
//! where it stopped.

use vstd::prelude::*;
use crate::error::MdError;
use crate::text::{cat, cat3, to_chars, from_chars, trim, trim_chars, join_path, join_paths,
    parse_unsigned, parse_unsigned_or_error, parse_error_text};
use crate::validation::CommandOutput;

verus! {

/// Size of the chunks in which the data is copied: 4 MiB.
pub const COPY_BUFFER_SIZE: usize = 4 * 1024 * 1024;

/// Where the states of migrations are kept, unless told otherwise.
pub open spec fn default_state_dir() -> Seq<char> {
    "/var/lib/rmdadm/migrations"@
}

/// Where a migration stands.
#[derive(Debug, Clone, Copy, PartialEq, Eq, Structural)]
pub enum MigrationStatus {
    Pending,
    Running,
    Paused,
    Completed,
    Failed,
}

/// The saved state of a migration.
#[derive(Debug, Clone)]
pub struct MigrationState {
    pub id: String,
    pub source_array: String,
    pub target_array: String,
    pub bytes_total: u64,
    pub bytes_copied: u64,
    pub status: MigrationStatus,
    pub error: Option<String>,
}

/// A migration from one array to another, with the directory of its state.
#[derive(Debug, Clone)]
pub struct MigrationJob {
    pub source_array: String,
    pub target_array: String,
    pub state_dir: String,
}

/// A path with every character that is not an ASCII letter or digit made `_`.
pub open spec fn sanitized(p: Seq<char>) -> Seq<char> {
    p.map_values(|c: char| if is_ascii_alnum(c) { c } else { '_' })
}

/// Whether `c` is an ASCII letter or digit.
pub open spec fn is_ascii_alnum(c: char) -> bool {
    ('0' <= c && c <= '9') || ('a' <= c && c <= 'z') || ('A' <= c && c <= 'Z')
}

/// A path made fit for a file name: every character that is not an ASCII
/// letter or digit becomes `_`.
pub fn sanitize_path(path: &str) -> (r: String)
    ensures
        r@ == sanitized(path@),
{
    let c = to_chars(path);
    let mut out: Vec<char> = Vec::new();
    let mut i: usize = 0;
    while i < c.len()
        invariant
            i <= c@.len(),
            c@ == path@,
            out@ == sanitized(c@.subrange(0, i as int)),
        decreases c@.len() - i,
    {
        let ch = c[i];
        let keep = ('0' <= ch && ch <= '9') || ('a' <= ch && ch <= 'z') || ('A' <= ch && ch <= 'Z');
        out.push(if keep { ch } else { '_' });
        i = i + 1;
        assert(out@ =~= sanitized(c@.subrange(0, i as int)));
    }
    assert(c@.subrange(0, c@.len() as int) =~= c@);
    from_chars(out.as_slice())
}

/// The identity of a migration: both paths sanitized, joined by `-to-`.
pub open spec fn migration_id(source: Seq<char>, target: Seq<char>) -> Seq<char> {
    sanitized(source) + "-to-"@ + sanitized(target)
}

/// The state that a paused migration has, from the state it had.
pub open spec fn paused(s: MigrationState) -> MigrationState {
    MigrationState { status: MigrationStatus::Paused, ..s }
}

/// What one turn of the copy loop leads to.
#[derive(Debug, Clone)]
pub enum CopyStep {
    /// The migration was paused: save this state and stop.
    Paused(MigrationState),
    /// Nothing is left to read: flush the target, save this state and stop.
    Done(MigrationState),
    /// A chunk was copied: save this state and go on.
    Continue(MigrationState),
}

/// What one turn of the copy loop does to the state: a pause stops it; a read
/// of nothing completes it, with every byte counted as copied; a read of `n`
/// bytes counts them.
pub open spec fn spec_copy_step(s: MigrationState, pause: bool, read: u64, r: CopyStep) -> bool {
    if pause {
        r == CopyStep::Paused(paused(s))
    } else if read == 0 {
        r == CopyStep::Done(MigrationState {
            status: MigrationStatus::Completed,
            bytes_copied: s.bytes_total,
            ..s
        })
    } else {
        r == CopyStep::Continue(MigrationState { bytes_copied: (s.bytes_copied + read) as u64, ..s })
    }
}

/// Whether both arrays of a migration exist, the source checked first.
pub open spec fn spec_check_devices(job: MigrationJob, source_exists: bool, target_exists: bool, r: Result<(), MdError>) -> bool {
    &&& !source_exists ==> (r matches Err(MdError::DeviceNotFound(p)) && p@ == job.source_array@)
    &&& source_exists && !target_exists ==> (r matches Err(MdError::DeviceNotFound(p)) && p@ == job.target_array@)
    &&& source_exists && target_exists ==> r is Ok
}

/// The state in which a copy starts at `start_offset`: refused with the
/// sizes when the target is smaller than the source, else running from there.
pub open spec fn spec_start_state(
    job: MigrationJob,
    start_offset: u64,
    source_size: u64,
    target_size: u64,
    r: Result<MigrationState, MdError>,
) -> bool {
    &&& target_size < source_size ==> (r matches Err(MdError::DeviceTooSmall(p, t, s))
        && p@ == job.target_array@ && t == target_size && s == source_size)
    &&& target_size >= source_size ==> (r matches Ok(st)
        && st.id@ == migration_id(job.source_array@, job.target_array@)
        && st.source_array@ == job.source_array@
        && st.target_array@ == job.target_array@
        && st.bytes_total == source_size
        && st.bytes_copied == start_offset
        && st.status == MigrationStatus::Running
        && st.error is None)
}

/// How a copy from `start_offset` begins, in the order in which it looks at
/// its inputs: the source must exist, then the target; then the directory of
/// the state must have been made, the size of the source read, and the size
/// of the target read, each failure returned as it came; last the target must
/// be at least as large as the source. Only then is there a running state.
pub open spec fn spec_begin_copy(
    job: MigrationJob,
    start_offset: u64,
    source_exists: bool,
    target_exists: bool,
    state_dir_made: Result<(), MdError>,
    source_size: Result<u64, MdError>,
    target_size: Result<u64, MdError>,
    r: Result<MigrationState, MdError>,
) -> bool {
    if !source_exists {
        r matches Err(MdError::DeviceNotFound(p)) && p@ == job.source_array@
    } else if !target_exists {
        r matches Err(MdError::DeviceNotFound(p)) && p@ == job.target_array@
    } else {
        match state_dir_made {
            Err(e) => r == Err::<MigrationState, MdError>(e),
            Ok(_) => match source_size {
                Err(e) => r == Err::<MigrationState, MdError>(e),
                Ok(ss) => match target_size {
                    Err(e) => r == Err::<MigrationState, MdError>(e),
                    Ok(ts) => spec_start_state(job, start_offset, ss, ts, r),
                },
            },
        }
    }
}

/// Where a resumed copy starts: at the bytes that the saved state counts.
pub open spec fn spec_resume(loaded: Result<MigrationState, MdError>, r: Result<u64, MdError>) -> bool {
    match loaded {
        Err(e) => r == Err::<u64, MdError>(e),
        Ok(s) => r == Ok::<u64, MdError>(s.bytes_copied),
    }
}

impl MigrationJob {
    /// A migration from `source` to `target`, keeping its state in the default directory.
    pub fn new(source: String, target: String) -> (j: MigrationJob)
        ensures
            j.source_array == source,
            j.target_array == target,
            j.state_dir@ == default_state_dir(),
    {
        Self::with_state_dir(source, target, String::from_str("/var/lib/rmdadm/migrations"))
    }

    /// A migration from `source` to `target`, keeping its state in `state_dir`.
    pub fn with_state_dir(source: String, target: String, state_dir: String) -> (j: MigrationJob)
        ensures
            j.source_array == source,
            j.target_array == target,
            j.state_dir@ == state_dir@,
    {
        MigrationJob { source_array: source, target_array: target, state_dir }
    }

    /// The identity of the migration.
    pub fn id(&self) -> (r: String)
        ensures
            r@ == migration_id(self.source_array@, self.target_array@),
    {
        let a = sanitize_path(self.source_array.as_str());
        let b = sanitize_path(self.target_array.as_str());
        cat3(a.as_str(), "-to-", b.as_str())
    }

    /// The file that holds the state of the migration: `<id>.json` in its directory.
    pub fn state_path(&self) -> (r: String)
        ensures
            r@ == join_path(self.state_dir@, migration_id(self.source_array@, self.target_array@) + ".json"@),
    {
        let id = self.id();
        let file = cat(id.as_str(), ".json");
        join_paths(self.state_dir.as_str(), file.as_str())
    }

    /// Checks that both arrays exist, the source first.
    pub fn check_devices(&self, source_exists: bool, target_exists: bool) -> (r: Result<(), MdError>)
        ensures
            spec_check_devices(*self, source_exists, target_exists, r),
    {
        if !source_exists {
            return Err(MdError::DeviceNotFound(String::from_str(self.source_array.as_str())));
        }
        if !target_exists {
            return Err(MdError::DeviceNotFound(String::from_str(self.target_array.as_str())));
        }
        Ok(())
    }

    /// The state in which a copy starts at `start_offset`, given the sizes of
    /// both arrays: the target must be at least as large as the source.
    pub fn start_state(&self, start_offset: u64, source_size: u64, target_size: u64) -> (r: Result<MigrationState, MdError>)
        ensures
            spec_start_state(*self, start_offset, source_size, target_size, r),
    {
        if target_size < source_size {
            return Err(MdError::DeviceTooSmall(String::from_str(self.target_array.as_str()), target_size, source_size));
        }
        Ok(MigrationState {
            id: self.id(),
            source_array: String::from_str(self.source_array.as_str()),
            target_array: String::from_str(self.target_array.as_str()),
            bytes_total: source_size,
            bytes_copied: start_offset,
            status: MigrationStatus::Running,
            error: None,
        })
    }

    /// Begins a copy at `start_offset`, given whether both arrays exist, whether
    /// the directory of the state could be made, and the sizes of both arrays
    /// as they were read. An input that comes after the first failure is not
    /// looked at.
    pub fn begin_copy(
        &self,
        start_offset: u64,
        source_exists: bool,
        target_exists: bool,
        state_dir_made: Result<(), MdError>,
        source_size: Result<u64, MdError>,
        target_size: Result<u64, MdError>,
    ) -> (r: Result<MigrationState, MdError>)
        ensures
            spec_begin_copy(*self, start_offset, source_exists, target_exists, state_dir_made, source_size, target_size, r),
    {
        match self.check_devices(source_exists, target_exists) {
            Err(e) => return Err(e),
            Ok(()) => {},
        }
        match state_dir_made {
            Err(e) => return Err(e),
            Ok(()) => {},
        }
        let ss = match source_size {
            Err(e) => return Err(e),
            Ok(n) => n,
        };
        let ts = match target_size {
            Err(e) => return Err(e),
            Ok(n) => n,
        };
        self.start_state(start_offset, ss, ts)
    }

    /// Starts the migration: the copy begins at the first byte, once both
    /// arrays are found and the target is at least as large as the source.
    pub fn start_migration(
        &self,
        source_exists: bool,
        target_exists: bool,
        state_dir_made: Result<(), MdError>,
        source_size: Result<u64, MdError>,
        target_size: Result<u64, MdError>,
    ) -> (r: Result<MigrationState, MdError>)
        ensures
            spec_begin_copy(*self, 0, source_exists, target_exists, state_dir_made, source_size, target_size, r),
    {
        self.begin_copy(0, source_exists, target_exists, state_dir_made, source_size, target_size)
    }

    /// Pauses the migration, given its saved state: a running one becomes
    /// paused and must be saved; any other is reported as it is.
    pub fn pause_migration(&self, loaded: Result<MigrationState, MdError>) -> (r: Result<(MigrationState, bool), MdError>)
        ensures
            match loaded {
                Err(e) => r == Err::<(MigrationState, bool), MdError>(e),
                Ok(s) => if s.status == MigrationStatus::Running {
                    r == Ok::<(MigrationState, bool), MdError>((paused(s), true))
                } else {
                    r == Ok::<(MigrationState, bool), MdError>((s, false))
                },
            },
    {
        match loaded {
            Err(e) => Err(e),
            Ok(s) => {
                if s.status == MigrationStatus::Running {
                    let mut p = s;
                    p.status = MigrationStatus::Paused;
                    Ok((p, true))
                } else {
                    Ok((s, false))
                }
            },
        }
    }

    /// Resumes the migration, given its saved state: the copy goes on from
    /// the bytes already copied.
    pub fn resume_migration(&self, loaded: Result<MigrationState, MdError>) -> (r: Result<u64, MdError>)
        ensures
            spec_resume(loaded, r),
    {
        match loaded {
            Err(e) => Err(e),
            Ok(s) => Ok(s.bytes_copied),
        }
    }

    /// The state of the migration, as it was saved.
    pub fn status(&self, loaded: Result<MigrationState, MdError>) -> (r: Result<MigrationState, MdError>)
        ensures
            r == loaded,
    {
        loaded
    }
}

/// Whether the saved state says that the migration was paused; a state that
/// cannot be loaded does not.
pub fn pause_requested(loaded: &Result<MigrationState, MdError>) -> (r: bool)
    ensures
        r == (loaded matches Ok(s) && s.status == MigrationStatus::Paused),
{
    match loaded {
        Ok(s) => s.status == MigrationStatus::Paused,
        Err(_) => false,
    }
}

/// One turn of the copy loop, given whether a pause was asked for and how
/// many bytes the last read gave.
pub fn copy_step(s: MigrationState, pause: bool, read: u64) -> (r: CopyStep)
    requires
        s.bytes_copied + read <= u64::MAX,
    ensures
        spec_copy_step(s, pause, read, r),
{
    let mut s = s;
    if pause {
        s.status = MigrationStatus::Paused;
        CopyStep::Paused(s)
    } else if read == 0 {
        s.status = MigrationStatus::Completed;
        s.bytes_copied = s.bytes_total;
        CopyStep::Done(s)
    } else {
        s.bytes_copied = s.bytes_copied + read;
        CopyStep::Continue(s)
    }
}

/// The size of a device: what `blockdev --getsize64` printed when it ran and
/// succeeded, otherwise the length that the file system reports.
pub open spec fn spec_migration_device_size(
    blockdev: Result<CommandOutput, String>,
    file_len: Result<u64, MdError>,
    r: Result<u64, MdError>,
) -> bool {
    match blockdev {
        Ok(o) if o.success => {
            let t = trim(o.stdout@);
            match parse_unsigned(t, u64::MAX as nat) {
                Some(v) => r == Ok::<u64, MdError>(v as u64),
                None => r matches Err(MdError::InvalidMetadata(m))
                    && m@ == "Failed to parse device size: "@ + parse_error_text(t, u64::MAX as nat),
            }
        },
        _ => r == file_len,
    }
}

/// The size of a device that takes part in a migration.
pub fn device_size(blockdev: &Result<CommandOutput, String>, file_len: Result<u64, MdError>) -> (r: Result<u64, MdError>)
    ensures
        spec_migration_device_size(*blockdev, file_len, r),
{
    match blockdev {
        Ok(o) => {
            if o.success {
                let t = trim_chars(to_chars(o.stdout.as_str()).as_slice());
                match parse_unsigned_or_error(t.as_slice(), u64::MAX) {
                    Ok(v) => Ok(v),
                    Err(m) => Err(MdError::InvalidMetadata(cat("Failed to parse device size: ", m.as_str()))),
                }
            } else {
                file_len
            }
        },
        Err(_) => file_len,
    }
}

/// A paused migration, resumed, goes on from exactly the bytes that it had
/// copied when it was paused.
pub proof fn lemma_pause_then_resume(s: MigrationState)
    requires
        s.status == MigrationStatus::Running,
    ensures
        paused(s).bytes_copied == s.bytes_copied,
        paused(s).status == MigrationStatus::Paused,
        paused(s).bytes_total == s.bytes_total,
        paused(s).id == s.id,
{
}

/// Every turn of the copy loop keeps the identity, the arrays and the total
/// of the migration; the count of copied bytes never goes down while the copy
/// runs within the total, and a completed copy has counted every byte.
pub proof fn lemma_copy_step_keeps(s: MigrationState, pause: bool, read: u64, r: CopyStep)
    requires
        s.bytes_copied + read <= u64::MAX,
        s.bytes_copied <= s.bytes_total,
        spec_copy_step(s, pause, read, r),
    ensures
        ({
            let t = match r {
                CopyStep::Paused(t) => t,
                CopyStep::Done(t) => t,
                CopyStep::Continue(t) => t,
            };
            &&& t.id == s.id
            &&& t.source_array == s.source_array
            &&& t.target_array == s.target_array
            &&& t.bytes_total == s.bytes_total
            &&& t.bytes_copied >= s.bytes_copied
            &&& (r is Done ==> t.status == MigrationStatus::Completed && t.bytes_copied == t.bytes_total)
            &&& (r is Paused ==> t.status == MigrationStatus::Paused && t.bytes_copied == s.bytes_copied)
            &&& (r is Continue ==> t.bytes_copied == s.bytes_copied + read)
        }),
{
}

/// A copy starts only on arrays that both exist, the target at least as large
/// as the source: a missing source (checked first) or target is refused as
/// not found, a smaller target as too small with both sizes, and a failure to
/// make the state's directory or to read a size is returned as it came;
/// otherwise the copy runs from the offset it was asked to start at.
pub proof fn lemma_copy_starts_only_on_fitting_arrays(
    job: MigrationJob,
    start_offset: u64,
    source_exists: bool,
    target_exists: bool,
    state_dir_made: Result<(), MdError>,
    source_size: Result<u64, MdError>,
    target_size: Result<u64, MdError>,
    started: Result<MigrationState, MdError>,
)
    requires
        spec_begin_copy(job, start_offset, source_exists, target_exists, state_dir_made, source_size, target_size, started),
    ensures
        started is Ok <==> source_exists && target_exists && state_dir_made is Ok && source_size is Ok
            && target_size is Ok && target_size->Ok_0 >= source_size->Ok_0,
        !source_exists ==> (started matches Err(MdError::DeviceNotFound(p)) && p@ == job.source_array@),
        source_exists && !target_exists ==> (started matches Err(MdError::DeviceNotFound(p)) && p@ == job.target_array@),
        source_exists && target_exists && state_dir_made is Ok && source_size is Ok && target_size is Ok
            && target_size->Ok_0 < source_size->Ok_0
            ==> (started matches Err(MdError::DeviceTooSmall(p, t, s))
            && p@ == job.target_array@ && t == target_size->Ok_0 && s == source_size->Ok_0),
        started matches Ok(st) ==> st.bytes_copied == start_offset && st.bytes_total == source_size->Ok_0
            && st.status == MigrationStatus::Running,
{
}

/// A paused migration, when resumed on arrays that still exist and fit, runs
/// again from exactly the bytes that it had copied, towards the same total.
pub proof fn lemma_resume_goes_on(
    job: MigrationJob,
    saved: MigrationState,
    resumed: Result<u64, MdError>,
    source_size: u64,
    target_size: u64,
    started: Result<MigrationState, MdError>,
)
    requires
        saved.status == MigrationStatus::Paused,
        spec_resume(Ok(saved), resumed),
        target_size >= source_size,
        spec_begin_copy(job, resumed->Ok_0, true, true, Ok(()), Ok(source_size), Ok(target_size), started),
    ensures
        started matches Ok(st) && st.bytes_copied == saved.bytes_copied && st.status == MigrationStatus::Running
            && st.bytes_total == source_size,
{
}

} // verus!
