use vstd::prelude::*;

verus! {

/// The error taxonomy of the pipeline.
#[derive(Clone, Copy, PartialEq, Eq, Structural, Debug)]
pub enum ErrorKind {
    /// Device I/O failure on the synchronous bus.
    Transport,
    /// Checksum mismatch or malformed frame.
    Framing,
    /// Envelope decode failure.
    Codec,
    /// Failure to dial a producer endpoint.
    Connect,
    /// A flush transaction failed to commit.
    Persistence,
    /// Invalid or missing startup configuration.
    Config,
}

/// What a component does on an error of a given kind.
#[derive(Clone, Copy, PartialEq, Eq, Structural, Debug)]
pub enum Recovery {
    /// Abort startup; nothing is running yet.
    FatalAtStartup,
    /// Sleep a fixed interval, then try again, indefinitely.
    RetryAfterDelay,
    /// Log, drop the current unit of work (frame or message), continue.
    DropUnitOfWork,
    /// Log, keep the unflushed buffer for the next trigger, continue.
    RetainBufferForRetry,
}

/// The propagation policy: configuration errors are fatal at startup; dial
/// failures are retried forever with a fixed delay; transport, framing and
/// codec errors cost only the current frame or message; a failed commit
/// retains the buffer so the same records are retried at the next trigger.
pub open spec fn recovery_model(kind: ErrorKind) -> Recovery {
    match kind {
        ErrorKind::Transport => Recovery::DropUnitOfWork,
        ErrorKind::Framing => Recovery::DropUnitOfWork,
        ErrorKind::Codec => Recovery::DropUnitOfWork,
        ErrorKind::Connect => Recovery::RetryAfterDelay,
        ErrorKind::Persistence => Recovery::RetainBufferForRetry,
        ErrorKind::Config => Recovery::FatalAtStartup,
    }
}

/// Returns how the pipeline recovers from an error of kind `kind`; no error
/// terminates a running process.
pub fn recovery_of(kind: ErrorKind) -> (r: Recovery)
    ensures
        r == recovery_model(kind),
{
    match kind {
        ErrorKind::Transport => Recovery::DropUnitOfWork,
        ErrorKind::Framing => Recovery::DropUnitOfWork,
        ErrorKind::Codec => Recovery::DropUnitOfWork,
        ErrorKind::Connect => Recovery::RetryAfterDelay,
        ErrorKind::Persistence => Recovery::RetainBufferForRetry,
        ErrorKind::Config => Recovery::FatalAtStartup,
    }
}

} // verus!
