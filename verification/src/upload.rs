//! The SFTP uploader: chunked, non-blocking file transfer that coexists
//! with the interactive shell on the same transport.
//!
//! The worker that owns the file and the SFTP handles runs outside; this
//! module holds the verified per-chunk bookkeeping: which open mode and
//! seek offset each chunk uses, how the byte counters, progress percentage
//! and transfer speed advance, how each failure step maps to its typed
//! error, and the transport invariant that the blocking flag is restored
//! to non-blocking after every chunk.

use vstd::prelude::*;

use crate::ssh::SshError;

verus! {

/// Bytes read from the local file per chunk: a balance between throughput
/// and terminal responsiveness.
pub const UPLOAD_CHUNK_SIZE: usize = 512 * 1024;

/// Model of the transport's blocking mode.  The session-wide default is
/// non-blocking; a worker that flips the transport to blocking for its
/// synchronous operations must restore it before releasing the transport.
pub struct TransportFlag {
    pub blocking: bool,
}

impl TransportFlag {
    /// A transport as the pump expects it: non-blocking.
    pub fn new() -> (r: Self)
        ensures
            r.blocking == false,
    {
        TransportFlag { blocking: false }
    }
}

/// Lifecycle of an upload task.
#[derive(Debug, Clone, Copy, PartialEq, Eq, Structural)]
pub enum UploadPhase {
    Pending,
    Uploading,
    Success,
    Error,
}

/// A progress report, emitted once per chunk and once at the end.
/// `progress` is a percentage and `speed` is in bytes per second.
#[derive(Debug)]
pub struct UploadProgress {
    pub task_id: String,
    pub session_id: String,
    pub progress: u64,
    pub uploaded_bytes: u64,
    pub total_bytes: u64,
    pub status: UploadPhase,
    pub speed: u64,
    pub error: Option<String>,
}

/// Where an upload chunk failed, reported by the worker that performs the
/// file and SFTP operations.
#[derive(Debug)]
pub enum UploadFailure {
    /// The local file could not be opened.
    OpenLocal(String),
    /// Reading the local file failed.
    ReadLocal(String),
    /// The SFTP subsystem could not be started.
    Sftp(String),
    /// The remote file could not be opened.
    OpenRemote(String),
    /// Seeking in the remote file failed.
    Seek(String),
    /// Writing the chunk failed.
    Write(String),
    /// Flushing the remote file failed.
    Flush(String),
}

/// The typed error for a failed upload step.
pub open spec fn upload_error_matches(
    local: Seq<char>,
    remote: Seq<char>,
    f: UploadFailure,
    r: SshError,
) -> bool {
    match f {
        UploadFailure::OpenLocal(e) => (r matches SshError::OperationFailed(m) && m@
            == "Failed to open local file "@ + local + ": "@ + e@),
        UploadFailure::ReadLocal(e) => (r matches SshError::OperationFailed(m) && m@
            == "Read local file failed: "@ + e@),
        UploadFailure::Sftp(e) => (r matches SshError::OperationFailed(m) && m@
            == "Failed to start SFTP: "@ + e@),
        UploadFailure::OpenRemote(e) => (r matches SshError::OperationFailed(m) && m@
            == "Failed to open remote file "@ + remote + ": "@ + e@),
        UploadFailure::Seek(e) => (r matches SshError::OperationFailed(m) && m@
            == "Failed to seek remote file: "@ + e@),
        UploadFailure::Write(e) => (r matches SshError::OperationFailed(m) && m@
            == "Failed to write to remote file: "@ + e@),
        UploadFailure::Flush(e) => (r matches SshError::OperationFailed(m) && m@
            == "Failed to flush remote file: "@ + e@),
    }
}

/// Maps a failed upload step to its typed error.
pub fn upload_error(local_path: &str, remote_path: &str, f: UploadFailure) -> (r: SshError)
    ensures
        upload_error_matches(local_path@, remote_path@, f, r),
{
    match f {
        UploadFailure::OpenLocal(e) => {
            let mut m = String::from_str("Failed to open local file ");
            m.append(local_path);
            m.append(": ");
            m.append(e.as_str());
            SshError::OperationFailed(m)
        },
        UploadFailure::ReadLocal(e) => {
            let mut m = String::from_str("Read local file failed: ");
            m.append(e.as_str());
            SshError::OperationFailed(m)
        },
        UploadFailure::Sftp(e) => {
            let mut m = String::from_str("Failed to start SFTP: ");
            m.append(e.as_str());
            SshError::OperationFailed(m)
        },
        UploadFailure::OpenRemote(e) => {
            let mut m = String::from_str("Failed to open remote file ");
            m.append(remote_path);
            m.append(": ");
            m.append(e.as_str());
            SshError::OperationFailed(m)
        },
        UploadFailure::Seek(e) => {
            let mut m = String::from_str("Failed to seek remote file: ");
            m.append(e.as_str());
            SshError::OperationFailed(m)
        },
        UploadFailure::Write(e) => {
            let mut m = String::from_str("Failed to write to remote file: ");
            m.append(e.as_str());
            SshError::OperationFailed(m)
        },
        UploadFailure::Flush(e) => {
            let mut m = String::from_str("Failed to flush remote file: ");
            m.append(e.as_str());
            SshError::OperationFailed(m)
        },
    }
}

/// How the worker opens the remote file for a chunk: the first chunk
/// creates and truncates it, every later chunk opens for writing and
/// seeks to the bytes already uploaded.
#[derive(Debug, Clone, Copy, PartialEq, Eq, Structural)]
pub enum RemoteOpen {
    CreateTruncate,
    WriteSeek(u64),
}

/// Integer percentage of `uploaded` out of `total` (0 when the total is
/// unknown), saturating at the integer maximum.
pub open spec fn spec_progress_pct(uploaded: u64, total: u64) -> u64 {
    if total > 0 {
        if (uploaded as int) * 100 / (total as int) > u64::MAX {
            u64::MAX
        } else {
            ((uploaded as int) * 100 / (total as int)) as u64
        }
    } else {
        0
    }
}

/// Average transfer speed in bytes per second since `start_ms` (0 before
/// any time has passed), saturating at the integer maximum.
pub open spec fn spec_speed_bps(uploaded: u64, start_ms: u64, now_ms: u64) -> u64 {
    if now_ms > start_ms {
        if (uploaded as int) * 1000 / (now_ms - start_ms) > u64::MAX {
            u64::MAX
        } else {
            ((uploaded as int) * 1000 / (now_ms - start_ms)) as u64
        }
    } else {
        0
    }
}

fn progress_pct(uploaded: u64, total: u64) -> (r: u64)
    ensures
        r == spec_progress_pct(uploaded, total),
{
    if total > 0 {
        let q: u128 = (uploaded as u128) * 100 / (total as u128);
        if q > u64::MAX as u128 {
            u64::MAX
        } else {
            q as u64
        }
    } else {
        0
    }
}

fn speed_bps(uploaded: u64, start_ms: u64, now_ms: u64) -> (r: u64)
    ensures
        r == spec_speed_bps(uploaded, start_ms, now_ms),
{
    if now_ms > start_ms {
        let q: u128 = (uploaded as u128) * 1000 / ((now_ms - start_ms) as u128);
        if q > u64::MAX as u128 {
            u64::MAX
        } else {
            q as u64
        }
    } else {
        0
    }
}

/// One upload: its identifiers, paths, byte counters and lifecycle state.
#[derive(Debug)]
pub struct UploadTask {
    pub task_id: String,
    pub session_id: String,
    pub local_path: String,
    pub remote_path: String,
    pub total_bytes: u64,
    pub uploaded_bytes: u64,
    pub state: UploadPhase,
    pub start_ms: u64,
}

impl UploadTask {
    /// How to open the remote file for the next chunk.  The remote handle
    /// is not kept across chunks: reopening with an explicit seek lets
    /// every chunk return the transport cleanly to the shared pool.
    pub fn plan_chunk(&self) -> (r: RemoteOpen)
        ensures
            r == (if self.uploaded_bytes == 0 {
                RemoteOpen::CreateTruncate
            } else {
                RemoteOpen::WriteSeek(self.uploaded_bytes)
            }),
    {
        if self.uploaded_bytes == 0 {
            RemoteOpen::CreateTruncate
        } else {
            RemoteOpen::WriteSeek(self.uploaded_bytes)
        }
    }

    /// Books one chunk attempt whose remote operations the worker ran
    /// under the transport mutex with the blocking flag raised.  On every
    /// path — success and failure alike — the transport's blocking flag is
    /// restored to non-blocking before the mutex is released.  A
    /// successful chunk of `n` bytes advances the counters and yields the
    /// `uploading` progress report; a failure ends the task and yields the
    /// `error` report carrying the typed error's message.
    pub fn apply_chunk(
        &mut self,
        transport: &mut TransportFlag,
        io: Result<u64, UploadFailure>,
        now_ms: u64,
    ) -> (r: Result<UploadProgress, UploadProgress>)
        requires
            (io matches Ok(n) ==> n > 0 && old(self).uploaded_bytes + n <= u64::MAX),
        ensures
            final(transport).blocking == false,
            (match io {
                Ok(n) => {
                    &&& r matches Ok(p)
                    &&& final(self).uploaded_bytes == old(self).uploaded_bytes + n
                    &&& final(self).state is Uploading
                    &&& final(self).total_bytes == old(self).total_bytes
                    &&& final(self).start_ms == old(self).start_ms
                    &&& final(self).task_id == old(self).task_id
                    &&& final(self).session_id == old(self).session_id
                    &&& final(self).local_path == old(self).local_path
                    &&& final(self).remote_path == old(self).remote_path
                    &&& (r matches Ok(p) ==> p.task_id@ == old(self).task_id@ && p.session_id@
                        == old(self).session_id@ && p.uploaded_bytes == old(self).uploaded_bytes
                        + n && p.total_bytes == old(self).total_bytes && p.progress
                        == spec_progress_pct(
                        (old(self).uploaded_bytes + n) as u64,
                        old(self).total_bytes,
                    ) && p.status is Uploading && p.speed == spec_speed_bps(
                        (old(self).uploaded_bytes + n) as u64,
                        old(self).start_ms,
                        now_ms,
                    ) && p.error is None)
                },
                Err(f) => {
                    &&& final(self).state is Error
                    &&& final(self).uploaded_bytes == old(self).uploaded_bytes
                    &&& (r matches Err(p) && p.task_id@ == old(self).task_id@ && p.session_id@
                        == old(self).session_id@ && p.progress == 0 && p.uploaded_bytes == 0
                        && p.total_bytes == 0 && p.status is Error && p.speed == 0 && (
                    exists|e: SshError|
                        upload_error_matches(
                            old(self).local_path@,
                            old(self).remote_path@,
                            f,
                            e,
                        ) && (p.error matches Some(m) && m@ == e.spec_message())))
                },
            }),
    {
        transport.blocking = false;
        match io {
            Ok(n) => {
                self.uploaded_bytes = self.uploaded_bytes + n;
                self.state = UploadPhase::Uploading;
                let p = UploadProgress {
                    task_id: self.task_id.clone(),
                    session_id: self.session_id.clone(),
                    progress: progress_pct(self.uploaded_bytes, self.total_bytes),
                    uploaded_bytes: self.uploaded_bytes,
                    total_bytes: self.total_bytes,
                    status: UploadPhase::Uploading,
                    speed: speed_bps(self.uploaded_bytes, self.start_ms, now_ms),
                    error: None,
                };
                Ok(p)
            },
            Err(f) => {
                self.state = UploadPhase::Error;
                let e = upload_error(self.local_path.as_str(), self.remote_path.as_str(), f);
                let msg = e.message();
                let p = UploadProgress {
                    task_id: self.task_id.clone(),
                    session_id: self.session_id.clone(),
                    progress: 0,
                    uploaded_bytes: 0,
                    total_bytes: 0,
                    status: UploadPhase::Error,
                    speed: 0,
                    error: Some(msg),
                };
                Err(p)
            },
        }
    }

    /// Closes a finished upload: the whole file is on the remote side.
    /// Yields the final `success` report with progress 100.
    pub fn finish(&mut self, now_ms: u64) -> (r: UploadProgress)
        ensures
            final(self).state is Success,
            final(self).uploaded_bytes == old(self).total_bytes,
            final(self).total_bytes == old(self).total_bytes,
            r.task_id@ == old(self).task_id@,
            r.session_id@ == old(self).session_id@,
            r.progress == 100,
            r.uploaded_bytes == old(self).total_bytes,
            r.total_bytes == old(self).total_bytes,
            r.status is Success,
            r.speed == spec_speed_bps(old(self).total_bytes, old(self).start_ms, now_ms),
            r.error is None,
    {
        self.state = UploadPhase::Success;
        self.uploaded_bytes = self.total_bytes;
        UploadProgress {
            task_id: self.task_id.clone(),
            session_id: self.session_id.clone(),
            progress: 100,
            uploaded_bytes: self.total_bytes,
            total_bytes: self.total_bytes,
            status: UploadPhase::Success,
            speed: speed_bps(self.total_bytes, self.start_ms, now_ms),
            error: None,
        }
    }
}

} // verus!
