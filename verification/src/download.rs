//! The accounting of one file transfer.
//!
//! A transfer fetches one HTTP resource and streams its body to one
//! destination file, optionally pre-allocating the declared content
//! length and reporting each written chunk to the shared byte
//! counter.  The network and the disk live in the driving process;
//! this module holds the verified decisions: which responses are
//! rejected, how the destination file's size evolves, what counts
//! as a completed transfer, and which error each failure maps to.

use vstd::prelude::*;

use crate::counter::ByteCounter;

verus! {

/// Why a transfer failed.
#[derive(Debug, PartialEq, Eq)]
pub enum DownloadError {
    /// An error of the local disk, with its description.
    Io(String),
    /// A transport failure: the request failed, the server answered
    /// with a non-success status, or the body ended short of the
    /// declared length.
    Http(String),
    /// The server declared a content length of exactly zero: there
    /// is nothing to download.
    ZeroContentLength,
    /// Pre-allocating the declared content length on disk failed,
    /// with the underlying cause — kept distinct from `Io` so that
    /// a full disk is reported as such.
    FileAllocationFailed(String),
}

/// Whether an HTTP status code counts as success.
pub open spec fn spec_status_success(status: u16) -> bool {
    200 <= status < 300
}

/// The running accounting of one transfer's destination file.
#[derive(Debug)]
pub struct FileTransfer {
    /// The content length the response declared, if any.
    pub declared_len: Option<u64>,
    /// Bytes the destination file was pre-allocated to, 0 before
    /// (or without) pre-allocation.
    pub prealloc: u64,
    /// Body bytes written so far, from the start of the file.
    pub written: u64,
}

impl FileTransfer {
    /// The destination file's byte length: chunks are written from
    /// the start, so the file holds whatever was written, or the
    /// pre-allocated size if that is larger.
    pub open spec fn spec_file_len(&self) -> int {
        if self.prealloc >= self.written {
            self.prealloc as int
        } else {
            self.written as int
        }
    }

    /// The pre-allocation is never more than the declared length.
    pub open spec fn wf(&self) -> bool {
        match self.declared_len {
            Option::Some(n) => self.prealloc == 0 || self.prealloc == n,
            Option::None => self.prealloc == 0,
        }
    }

    /// Judge the response head.  A transfer starts only for a
    /// success status whose declared content length is not exactly
    /// zero; a zero declaration always fails with
    /// `ZeroContentLength` and never yields a transfer at all.
    pub fn on_response(status: u16, content_length: Option<u64>) -> (r: Result<
        FileTransfer,
        DownloadError,
    >)
        ensures
            !spec_status_success(status) ==> (r matches Err(e) && e is Http),
            spec_status_success(status) && content_length == Option::<u64>::Some(0) ==> r
                == Err::<FileTransfer, DownloadError>(DownloadError::ZeroContentLength),
            spec_status_success(status) && content_length != Option::<u64>::Some(0) ==> (r
                matches Ok(t) && t == (FileTransfer {
                declared_len: content_length,
                prealloc: 0,
                written: 0,
            })),
            r matches Ok(t) ==> t.wf(),
    {
        if !(200 <= status && status < 300) {
            Err(DownloadError::Http(String::from_str("unsuccessful HTTP status")))
        } else {
            match content_length {
                Option::Some(n) if n == 0 => Err(DownloadError::ZeroContentLength),
                _ => Ok(FileTransfer { declared_len: content_length, prealloc: 0, written: 0 }),
            }
        }
    }

    /// Whether the destination should be pre-allocated, and to how
    /// many bytes: exactly the declared content length, when one
    /// was given.
    pub fn prealloc_request(&self) -> (r: Option<u64>)
        ensures
            r == self.declared_len,
    {
        match self.declared_len {
            Option::Some(n) => Option::Some(n),
            Option::None => Option::None,
        }
    }

    /// Record the outcome of pre-allocating the declared length.
    /// Success fixes the file at the declared size; failure ends
    /// the transfer with `FileAllocationFailed` carrying the cause.
    pub fn on_allocation(&mut self, outcome: Result<(), String>) -> (r: Result<
        (),
        DownloadError,
    >)
        requires
            old(self).wf(),
            old(self).declared_len is Some,
            old(self).written == 0,
        ensures
            final(self).declared_len == old(self).declared_len,
            final(self).written == 0,
            outcome is Ok ==> r is Ok && final(self).prealloc == old(
                self,
            ).declared_len.unwrap(),
            outcome matches Err(cause) ==> r == Err::<(), DownloadError>(
                DownloadError::FileAllocationFailed(cause),
            ) && final(self).prealloc == old(self).prealloc,
            final(self).wf(),
    {
        match outcome {
            Ok(()) => {
                let n = match self.declared_len {
                    Option::Some(n) => n,
                    Option::None => 0,  // unreachable: declared_len is Some
                };
                self.prealloc = n;
                Ok(())
            },
            Err(cause) => Err(DownloadError::FileAllocationFailed(cause)),
        }
    }

    /// Account one body chunk of `len` bytes, written durably to
    /// the destination, and report it to the shared counter — a
    /// no-op when the counter's owner is already gone, since the
    /// counter is held weakly.  Counter overflow is a fatal
    /// invariant violation and excluded here.
    pub fn on_chunk(&mut self, len: u64, counter: &mut ByteCounter, counter_alive: bool)
        requires
            old(self).written + len <= u64::MAX,
            counter_alive ==> old(counter).bytes + len <= u64::MAX,
        ensures
            final(self).written == old(self).written + len,
            final(self).declared_len == old(self).declared_len,
            final(self).prealloc == old(self).prealloc,
            old(self).wf() ==> final(self).wf(),
            counter_alive ==> final(counter).bytes == old(counter).bytes + len,
            !counter_alive ==> *final(counter) == *old(counter),
    {
        self.written = self.written + len;
        if counter_alive {
            counter.add(len);
        }
    }

    /// The body ended.  The transfer succeeded exactly when the
    /// written bytes match the declared content length (any length
    /// is complete when none was declared); on success the
    /// destination file's length is returned, and it equals the
    /// declared content length whenever one was provided.  A short
    /// or overlong body is a transport failure.
    pub fn finish(self) -> (r: Result<u64, DownloadError>)
        requires
            self.wf(),
        ensures
            r is Ok <==> (self.declared_len is None || self.declared_len == Option::<u64>::Some(
                self.written,
            )),
            r matches Ok(l) ==> l == self.spec_file_len(),
            r matches Ok(l) ==> (match self.declared_len {
                Option::Some(n) => l == n,
                Option::None => l == self.written,
            }),
            r matches Err(e) ==> e is Http,
    {
        match self.declared_len {
            Option::Some(n) => {
                if self.written == n {
                    let l = if self.prealloc >= self.written {
                        self.prealloc
                    } else {
                        self.written
                    };
                    Ok(l)
                } else {
                    Err(DownloadError::Http(
                        String::from_str("body length differs from the declared content length"),
                    ))
                }
            },
            Option::None => {
                let l = if self.prealloc >= self.written {
                    self.prealloc
                } else {
                    self.written
                };
                Ok(l)
            },
        }
    }
}

} // verus!
