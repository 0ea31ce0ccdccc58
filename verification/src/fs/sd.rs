//! The SD card as a block device: what the driver's status codes mean.
use vstd::prelude::*;

verus! {

/// The size of a sector in bytes.
pub const SECTOR_SIZE: usize = 512;

/// The largest sector number that the controller takes.
pub const MAX_SECTOR: u64 = 2147483647;

/// Why the SD card controller could not be initialized.
#[derive(Debug, Clone, Copy, PartialEq, Eq)]
pub enum Error {
    Timeout,
    ControllerFailure,
}

/// Why a sector could not be read.
#[derive(Debug, Clone, Copy, PartialEq, Eq)]
pub enum ReadError {
    /// The buffer holds less than a sector, or the sector number is above
    /// the largest that the controller takes.
    InvalidInput,
    /// The controller ran into a timeout.
    TimedOut,
    /// Any other failure.
    Other,
}

/// A handle to an SD card controller.
#[derive(Debug, Clone, Copy, PartialEq, Eq)]
pub struct Sd;

impl Sd {
    /// The handle to the controller, given the status that its
    /// initialization returned: -1 is a timeout, -2 a failure to send
    /// commands to the controller, anything else success.
    pub fn new(status: i32) -> (r: Result<Sd, Error>)
        ensures
            r == if status == -1 {
                Err::<Sd, Error>(Error::Timeout)
            } else if status == -2 {
                Err::<Sd, Error>(Error::ControllerFailure)
            } else {
                Ok::<Sd, Error>(Sd)
            },
    {
        match status {
            -1 => Err(Error::Timeout),
            -2 => Err(Error::ControllerFailure),
            _ => Ok(Sd),
        }
    }

    /// Whether a read of sector `n` into a buffer of `len` bytes can be
    /// handed to the controller, and the sector number to hand it.
    pub fn check_read(&self, n: u64, len: usize) -> (r: Result<i32, ReadError>)
        ensures
            r == if len < SECTOR_SIZE || n > MAX_SECTOR {
                Err::<i32, ReadError>(ReadError::InvalidInput)
            } else {
                Ok::<i32, ReadError>(n as i32)
            },
    {
        if len < SECTOR_SIZE || n > MAX_SECTOR {
            return Err(ReadError::InvalidInput);
        }
        Ok(n as i32)
    }

    /// What a read amounts to, given the number `read` that the controller
    /// returned and the error code `sd_err` that it left: on success the
    /// number of bytes read, a positive number.
    pub fn read_result(&self, read: i32, sd_err: i64) -> (r: Result<usize, ReadError>)
        ensures
            r == if read > 0 {
                Ok::<usize, ReadError>(read as usize)
            } else if read == 0 && sd_err == -1 {
                Err::<usize, ReadError>(ReadError::TimedOut)
            } else {
                Err::<usize, ReadError>(ReadError::Other)
            },
    {
        if read > 0 {
            Ok(read as usize)
        } else if read == 0 && sd_err == -1 {
            Err(ReadError::TimedOut)
        } else {
            Err(ReadError::Other)
        }
    }
}

/// The time to spin, in microseconds, when the SD driver asks for a delay of
/// `us`: a thousand times what it asks for, since its own delays proved too
/// short.
pub fn wait_micros(us: u32) -> (spin: u64)
    ensures
        spin == us * 1000,
{
    (us as u64) * 1000
}

} // verus!
