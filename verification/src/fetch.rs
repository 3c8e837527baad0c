//! Fetching the theme archive: what is asked for, and what the answer of
//! the transport means.

use vstd::prelude::*;

verus! {

/// Where the reference theme is fetched from.
pub const THEME_ARCHIVE_URL: &'static str =
    "https://github.com/zendesk/copenhagen_theme/archive/refs/heads/main.zip";

/// The tag by which the client names itself in a request.
pub const CLIENT_TAG: &'static str = "hc-cli";

/// Why no archive was fetched.
#[derive(Clone, Copy, Debug, PartialEq, Eq, Structural)]
pub enum FetchError {
    /// The request got no complete answer.
    Transport,
    /// The remote side answered with a status other than success.
    RemoteRejected(u16),
}

/// What the transport reports of one request.
#[derive(Clone, Debug, PartialEq, Eq)]
pub enum Transfer {
    /// No answer arrived.
    Failed,
    /// An answer arrived; `body` is `None` where the body could not be
    /// read to its end.
    Replied { status: u16, body: Option<Vec<u8>> },
}

/// A fetched archive, whole and in memory.
#[derive(Clone, Debug, PartialEq, Eq)]
pub struct ArchiveSource {
    /// Where the archive came from.
    pub origin: String,
    /// The archive itself.
    pub bytes: Vec<u8>,
}

impl ArchiveSource {
    /// The number of bytes of the archive.
    pub fn byte_length(&self) -> (length: usize)
        ensures
            length == self.bytes@.len(),
    {
        self.bytes.len()
    }
}

/// A status that reports success: 200 to 299.
pub open spec fn is_success(status: u16) -> bool {
    200 <= status <= 299
}

/// What a transfer amounts to: the body where a success status came with a
/// whole body, else the error.
pub open spec fn fetched(transfer: Transfer) -> Result<Seq<u8>, FetchError> {
    match transfer {
        Transfer::Failed => Err(FetchError::Transport),
        Transfer::Replied { status, body } => if !is_success(status) {
            Err(FetchError::RemoteRejected(status))
        } else {
            match body {
                Some(bytes) => Ok(bytes@),
                None => Err(FetchError::Transport),
            }
        },
    }
}

/// Accepts a success status and rejects every other.
pub fn check_status(status: u16) -> (checked: Result<(), FetchError>)
    ensures
        checked == if is_success(status) {
            Ok::<(), FetchError>(())
        } else {
            Err::<(), FetchError>(FetchError::RemoteRejected(status))
        },
{
    if 200 <= status && status <= 299 {
        Ok(())
    } else {
        Err(FetchError::RemoteRejected(status))
    }
}

/// Turns what the transport reports into an archive or an error. There is
/// no partial success: a body that was not read to its end is a failure of
/// the transport.
pub fn receive(origin: &str, transfer: Transfer) -> (received: Result<ArchiveSource, FetchError>)
    ensures
        match received {
            Ok(source) => {
                &&& fetched(transfer) == Ok::<Seq<u8>, FetchError>(source.bytes@)
                &&& source.origin@ == origin@
            },
            Err(error) => fetched(transfer) == Err::<Seq<u8>, FetchError>(error),
        },
{
    match transfer {
        Transfer::Failed => Err(FetchError::Transport),
        Transfer::Replied { status, body } => match check_status(status) {
            Err(error) => Err(error),
            Ok(()) => match body {
                Some(bytes) => Ok(ArchiveSource { origin: origin.to_owned(), bytes }),
                None => Err(FetchError::Transport),
            },
        },
    }
}

} // verus!
