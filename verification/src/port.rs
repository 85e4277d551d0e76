//! The readiness port: one serial device as a non-blocking duplex channel.
//!
//! The port keeps one readiness flag for each direction. A driver asks the
//! port whether an attempt is allowed, makes the non-blocking call on the
//! device, and reports what the device said. The port turns a would-block
//! into a suspension and remembers that this direction now waits for the
//! scheduler; every other failure goes to the caller as it is and is not
//! retried here.

use vstd::prelude::*;

verus! {

/// What the port knows of one direction of the device.
#[derive(Debug, Clone, Copy, PartialEq, Eq, Structural)]
pub enum Readiness {
    /// Nothing is known yet, so a first attempt is allowed.
    Unknown,
    /// The scheduler has said that the device is ready.
    Ready,
    /// The device said it would block. Interest is registered with the
    /// scheduler, and nothing is attempted before its wake arrives.
    Pending,
}

/// Why the device driver refused an operation.
#[derive(Debug, Clone, Copy, PartialEq, Eq, Structural)]
pub enum Fault {
    /// The device is gone.
    NoDevice,
    /// The driver rejected a value it was given.
    InvalidInput,
    /// Any other failure of the driver.
    Io,
}

/// What the device driver said of one non-blocking attempt.
#[derive(Debug, Clone, Copy, PartialEq, Eq, Structural)]
pub enum DeviceReply {
    /// The call moved this many bytes.
    Done(usize),
    /// The call would have blocked. This is no error.
    WouldBlock,
    /// The call failed.
    Failed(Fault),
}

/// What the port tells the caller of a read or a write.
#[derive(Debug, Clone, Copy, PartialEq, Eq, Structural)]
pub enum Transfer {
    /// This many bytes were moved.
    Ready(usize),
    /// The caller has to yield, and is woken when the device is ready.
    WouldSuspend,
    /// The operation failed for good.
    Failed(Fault),
}

/// The answer to a readiness query.
#[derive(Debug, Clone, Copy, PartialEq, Eq, Structural)]
pub enum Async {
    /// An attempt is allowed now.
    Ready,
    /// An attempt now would only block.
    NotReady,
}

/// A span of time: whole seconds, and the nanoseconds beyond them.
#[derive(Debug, Clone, Copy, PartialEq, Eq, Structural)]
pub struct Timeout {
    pub secs: u64,
    pub nanos: u32,
}

/// A direction allows an attempt unless it waits for the scheduler.
pub open spec fn may_attempt(r: Readiness) -> bool {
    r != Readiness::Pending
}

/// The answer to a readiness query on a direction in state `r`.
pub open spec fn poll_of(r: Readiness) -> Async {
    if may_attempt(r) {
        Async::Ready
    } else {
        Async::NotReady
    }
}

/// What the caller is told of an attempt that the device answered with
/// `reply`: a would-block becomes a suspension, the rest is handed on.
pub open spec fn transfer_of(reply: DeviceReply) -> Transfer {
    match reply {
        DeviceReply::Done(n) => Transfer::Ready(n),
        DeviceReply::WouldBlock => Transfer::WouldSuspend,
        DeviceReply::Failed(e) => Transfer::Failed(e),
    }
}

/// The state of a direction after an attempt that the device answered with
/// `reply`: only a would-block changes it.
pub open spec fn after_attempt(r: Readiness, reply: DeviceReply) -> Readiness {
    if reply is WouldBlock {
        Readiness::Pending
    } else {
        r
    }
}

/// The readiness port of one serial device.
#[derive(Debug, Clone)]
pub struct Serial {
    name: String,
    read: Readiness,
    write: Readiness,
}

/// The mathematical value of a [`Serial`].
pub struct SerialView {
    /// The path the device was opened from.
    pub name: Seq<char>,
    /// The read direction.
    pub read: Readiness,
    /// The write direction.
    pub write: Readiness,
}

impl View for Serial {
    type V = SerialView;

    closed spec fn view(&self) -> SerialView {
        SerialView { name: self.name@, read: self.read, write: self.write }
    }
}

/// The device path to open: the one that was asked for, or `/dev/ttyUSB0`
/// where none was.
pub fn device_path(arg: Option<String>) -> (path: String)
    ensures
        path@ == (match arg {
            Some(p) => p@,
            None => "/dev/ttyUSB0"@,
        }),
{
    match arg {
        Some(p) => p,
        None => "/dev/ttyUSB0".to_owned(),
    }
}

/// Settling an attempt never opens a direction: after a would-block it is
/// closed to attempts, and after any other answer it is as open as before.
pub proof fn lemma_would_block_closes_direction(r: Readiness, reply: DeviceReply)
    ensures
        reply is WouldBlock ==> poll_of(after_attempt(r, reply)) == Async::NotReady,
        !(reply is WouldBlock) ==> after_attempt(r, reply) == r,
        transfer_of(reply) is WouldSuspend <==> reply is WouldBlock,
{
}

impl Serial {
    /// The port of the device that was opened from `path`. Nothing is known
    /// of its readiness yet, so a first read and a first write are allowed.
    pub fn from_path(path: &str) -> (port: Serial)
        ensures
            port@ == (SerialView {
                name: path@,
                read: Readiness::Unknown,
                write: Readiness::Unknown,
            }),
    {
        Serial { name: path.to_owned(), read: Readiness::Unknown, write: Readiness::Unknown }
    }

    /// The name of the port: the path it was opened from.
    pub fn port_name(&self) -> (name: Option<String>)
        ensures
            name matches Some(n) && n@ == self@.name,
    {
        Some(self.name.clone())
    }

    /// The timeout of the port, which is always zero: the port never waits,
    /// it suspends.
    pub fn timeout(&self) -> (timeout: Timeout)
        ensures
            timeout == (Timeout { secs: 0, nanos: 0 }),
    {
        Timeout { secs: 0, nanos: 0 }
    }

    /// Accepts any timeout and ignores it: the port stays as it is, and
    /// [`Serial::timeout`] still answers zero.
    pub fn set_timeout(&mut self, timeout: Timeout) -> (r: Result<(), Fault>)
        ensures
            r is Ok,
            final(self)@ == old(self)@,
    {
        Ok(())
    }

    /// Whether a read may be attempted now. Changes nothing.
    pub fn poll_read(&self) -> (r: Async)
        ensures
            r == poll_of(self@.read),
    {
        match self.read {
            Readiness::Pending => Async::NotReady,
            _ => Async::Ready,
        }
    }

    /// Whether a write may be attempted now. Changes nothing.
    pub fn poll_write(&self) -> (r: Async)
        ensures
            r == poll_of(self@.write),
    {
        match self.write {
            Readiness::Pending => Async::NotReady,
            _ => Async::Ready,
        }
    }

    /// Settles a read that the device answered with `reply`.
    ///
    /// A would-block clears the read flag and suspends the caller. Any other
    /// answer leaves the port as it was and is handed on.
    pub fn read(&mut self, reply: DeviceReply) -> (t: Transfer)
        ensures
            t == transfer_of(reply),
            final(self)@ == (SerialView {
                read: after_attempt(old(self)@.read, reply),
                ..old(self)@
            }),
    {
        match reply {
            DeviceReply::Done(n) => Transfer::Ready(n),
            DeviceReply::WouldBlock => {
                self.read = Readiness::Pending;
                Transfer::WouldSuspend
            },
            DeviceReply::Failed(e) => Transfer::Failed(e),
        }
    }

    /// Settles a write that the device answered with `reply`, as
    /// [`Serial::read`] does for the other direction.
    pub fn write(&mut self, reply: DeviceReply) -> (t: Transfer)
        ensures
            t == transfer_of(reply),
            final(self)@ == (SerialView {
                write: after_attempt(old(self)@.write, reply),
                ..old(self)@
            }),
    {
        match reply {
            DeviceReply::Done(n) => Transfer::Ready(n),
            DeviceReply::WouldBlock => {
                self.write = Readiness::Pending;
                Transfer::WouldSuspend
            },
            DeviceReply::Failed(e) => Transfer::Failed(e),
        }
    }

    /// The scheduler's wake for the read direction: the device is readable.
    pub fn set_readable(&mut self)
        ensures
            final(self)@ == (SerialView { read: Readiness::Ready, ..old(self)@ }),
    {
        self.read = Readiness::Ready;
    }

    /// The scheduler's wake for the write direction: the device is writable.
    pub fn set_writable(&mut self)
        ensures
            final(self)@ == (SerialView { write: Readiness::Ready, ..old(self)@ }),
    {
        self.write = Readiness::Ready;
    }
}

} // verus!
