//! The raw-mode terminal lifecycle.
//!
//! [`System`] abstracts every OS-level primitive the terminal needs behind a
//! capability interface with two variants: a real-device variant (kept by
//! the surrounding application, since it performs device I/O) and the
//! in-memory [`MockSystem`], which records every invocation in an ordered
//! call log. [`Terminal`] owns one open device handle and the configuration
//! snapshot captured when raw mode was enabled, and restores that exact
//! configuration at most once, at teardown.

use vstd::prelude::*;

verus! {

/// The handle the in-memory capability set hands out for its one device.
pub const MOCK_FD: i32 = 100;

/// A failure at the capability-interface boundary, carrying the OS-level
/// cause code, or 0 when none is known.
#[derive(Debug, Clone, Copy, PartialEq, Eq, Structural)]
pub struct IoError {
    /// The operating system's error code.
    pub code: i32,
}

/// A device configuration as captured before raw mode is enabled: the four
/// flag words, the line discipline, the 32 control characters packed eight
/// to a word, and the two speeds. Captured once at construction, never
/// mutated, used exactly once to restore the device at teardown.
#[derive(Debug, Clone, Copy, PartialEq, Eq, Structural)]
pub struct Termios {
    /// Input-mode flags.
    pub iflag: u32,
    /// Output-mode flags.
    pub oflag: u32,
    /// Control-mode flags.
    pub cflag: u32,
    /// Local-mode flags.
    pub lflag: u32,
    /// Line discipline.
    pub line: u8,
    /// Control characters 0 to 7, least-significant byte first.
    pub cc0: u64,
    /// Control characters 8 to 15.
    pub cc1: u64,
    /// Control characters 16 to 23.
    pub cc2: u64,
    /// Control characters 24 to 31.
    pub cc3: u64,
    /// Input speed.
    pub ispeed: u32,
    /// Output speed.
    pub ospeed: u32,
}

impl Termios {
    /// The all-zero configuration, as a spec value.
    pub open spec fn zeroed_spec() -> Termios {
        Termios {
            iflag: 0,
            oflag: 0,
            cflag: 0,
            lflag: 0,
            line: 0,
            cc0: 0,
            cc1: 0,
            cc2: 0,
            cc3: 0,
            ispeed: 0,
            ospeed: 0,
        }
    }

    /// The all-zero configuration.
    pub fn zeroed() -> (t: Termios)
        ensures
            t == Termios::zeroed_spec(),
    {
        Termios {
            iflag: 0,
            oflag: 0,
            cflag: 0,
            lflag: 0,
            line: 0,
            cc0: 0,
            cc1: 0,
            cc2: 0,
            cc3: 0,
            ispeed: 0,
            ospeed: 0,
        }
    }
}

/// One invocation of the capability interface, with its arguments.
#[derive(Debug, Clone, Copy, PartialEq, Eq, Structural)]
pub enum Call {
    /// The controlling device was opened.
    OpenTty,
    /// Raw mode was enabled on the handle.
    EnableRaw(i32),
    /// The given configuration was restored on the handle.
    DisableRaw(i32, Termios),
    /// The window size was queried on the handle.
    GetWindowSize(i32),
    /// Bytes were read from the handle.
    Read(i32),
    /// The given number of bytes was written to the handle.
    Write(i32, usize),
}

/// The capability interface: every OS-level primitive the terminal needs.
/// Each implementation keeps an ordered log of the invocations made on it,
/// visible as `calls`; every contract here speaks of that log, so that call
/// sequencing is provable whatever the outcomes of the operations are.
pub trait System: Sized {
    /// The invocations made on this capability set so far, oldest first.
    /// The default stands for implementations that keep no log; one that
    /// does, as the in-memory variant, overrides it with its log's view.
    open spec fn calls(&self) -> Seq<Call> {
        Seq::<Call>::empty()
    }

    /// Acquires the controlling terminal device.
    fn open_tty(&mut self) -> (r: Result<i32, IoError>)
        ensures
            final(self).calls() == old(self).calls().push(Call::OpenTty),
    ;

    /// Puts the device into raw mode and returns the configuration it had
    /// before the change.
    fn enable_raw(&mut self, fd: i32) -> (r: Result<Termios, IoError>)
        ensures
            final(self).calls() == old(self).calls().push(Call::EnableRaw(fd)),
    ;

    /// Re-applies a previously captured configuration.
    fn disable_raw(&mut self, fd: i32, original: &Termios) -> (r: Result<(), IoError>)
        ensures
            final(self).calls() == old(self).calls().push(Call::DisableRaw(fd, *original)),
    ;

    /// Queries the current window size as (columns, rows).
    fn get_window_size(&mut self, fd: i32) -> (r: Result<(u16, u16), IoError>)
        ensures
            final(self).calls() == old(self).calls().push(Call::GetWindowSize(fd)),
    ;

    /// Reads up to `max` bytes; an empty result means no data was
    /// available, which is not an error.
    fn read(&mut self, fd: i32, max: usize) -> (r: Result<Vec<u8>, IoError>)
        ensures
            final(self).calls() == old(self).calls().push(Call::Read(fd)),
            r matches Ok(data) ==> data@.len() <= max,
    ;

    /// Writes the bytes of `buf` and returns how many were accepted.
    fn write(&mut self, fd: i32, buf: &[u8]) -> (r: Result<usize, IoError>)
        ensures
            final(self).calls() == old(self).calls().push(Call::Write(fd, buf@.len() as usize)),
    ;
}

/// The in-memory capability set: a byte queue standing for the device's
/// input, a call log, and two switches that make the acquisition steps
/// fail, for exercising the construction paths without a real device.
pub struct MockSystem {
    /// The ordered log of the invocations made so far.
    pub log: Vec<Call>,
    /// The bytes queued as pending device input.
    pub input: Vec<u8>,
    /// When set, opening the device fails.
    pub fail_open: bool,
    /// When set, enabling raw mode fails.
    pub fail_enable_raw: bool,
}

impl MockSystem {
    /// The bytes queued as pending device input, oldest first.
    pub closed spec fn queued(&self) -> Seq<u8> {
        self.input@
    }

    /// A fresh capability set: nothing logged, nothing queued, no failures.
    pub fn new() -> (m: MockSystem)
        ensures
            m.calls() == Seq::<Call>::empty(),
            m.queued() == Seq::<u8>::empty(),
            !m.fail_open,
            !m.fail_enable_raw,
    {
        MockSystem { log: Vec::new(), input: Vec::new(), fail_open: false, fail_enable_raw: false }
    }

    /// Queues `data` as pending device input.
    pub fn push_input(&mut self, data: &[u8])
        ensures
            final(self).queued() == old(self).queued() + data@,
            final(self).calls() == old(self).calls(),
            final(self).fail_open == old(self).fail_open,
            final(self).fail_enable_raw == old(self).fail_enable_raw,
    {
        let mut k: usize = 0;
        while k < data.len()
            invariant
                k <= data@.len(),
                self.input@ == old(self).input@ + data@.take(k as int),
                self.log@ == old(self).log@,
                self.fail_open == old(self).fail_open,
                self.fail_enable_raw == old(self).fail_enable_raw,
            decreases data@.len() - k,
        {
            let b = data[k];
            self.input.push(b);
            k += 1;
            proof {
                assert(old(self).input@ + data@.take(k as int) =~= (old(self).input@
                    + data@.take(k - 1)).push(data@[k - 1]));
            }
        }
        proof {
            assert(old(self).input@ + data@.take(data@.len() as int) =~= old(self).input@
                + data@);
        }
    }

    /// The ordered log of the invocations made so far.
    pub fn log(&self) -> (l: &Vec<Call>)
        ensures
            l@ == self.calls(),
    {
        &self.log
    }
}

impl System for MockSystem {
    open spec fn calls(&self) -> Seq<Call> {
        self.log@
    }

    fn open_tty(&mut self) -> (r: Result<i32, IoError>)
        ensures
            r is Ok <==> !old(self).fail_open,
            r matches Ok(fd) ==> fd == MOCK_FD,
            final(self).queued() == old(self).queued(),
            final(self).fail_open == old(self).fail_open,
            final(self).fail_enable_raw == old(self).fail_enable_raw,
    {
        self.log.push(Call::OpenTty);
        if self.fail_open {
            Err(IoError { code: 0 })
        } else {
            Ok(MOCK_FD)
        }
    }

    fn enable_raw(&mut self, fd: i32) -> (r: Result<Termios, IoError>)
        ensures
            r is Ok <==> !old(self).fail_enable_raw,
            r matches Ok(t) ==> t == Termios::zeroed_spec(),
            final(self).queued() == old(self).queued(),
            final(self).fail_open == old(self).fail_open,
            final(self).fail_enable_raw == old(self).fail_enable_raw,
    {
        self.log.push(Call::EnableRaw(fd));
        if self.fail_enable_raw {
            Err(IoError { code: 0 })
        } else {
            Ok(Termios::zeroed())
        }
    }

    fn disable_raw(&mut self, fd: i32, original: &Termios) -> (r: Result<(), IoError>)
        ensures
            r is Ok,
            final(self).queued() == old(self).queued(),
            final(self).fail_open == old(self).fail_open,
            final(self).fail_enable_raw == old(self).fail_enable_raw,
    {
        self.log.push(Call::DisableRaw(fd, *original));
        Ok(())
    }

    fn get_window_size(&mut self, fd: i32) -> (r: Result<(u16, u16), IoError>)
        ensures
            r matches Ok(size) && size == (80u16, 24u16),
            final(self).queued() == old(self).queued(),
            final(self).fail_open == old(self).fail_open,
            final(self).fail_enable_raw == old(self).fail_enable_raw,
    {
        self.log.push(Call::GetWindowSize(fd));
        Ok((80, 24))
    }

    fn read(&mut self, fd: i32, max: usize) -> (r: Result<Vec<u8>, IoError>)
        ensures
            ({
                let taken = if max <= old(self).queued().len() {
                    max as int
                } else {
                    old(self).queued().len() as int
                };
                &&& r matches Ok(data) && data@ == old(self).queued().take(taken)
                &&& final(self).queued() == old(self).queued().skip(taken)
            }),
            final(self).fail_open == old(self).fail_open,
            final(self).fail_enable_raw == old(self).fail_enable_raw,
    {
        self.log.push(Call::Read(fd));
        let n = if max < self.input.len() {
            max
        } else {
            self.input.len()
        };
        let mut out: Vec<u8> = Vec::new();
        let mut k: usize = 0;
        while k < n
            invariant
                n <= self.input@.len(),
                k <= n,
                out@ == self.input@.take(k as int),
                self.input@ == old(self).input@,
                self.fail_open == old(self).fail_open,
                self.fail_enable_raw == old(self).fail_enable_raw,
            decreases n - k,
        {
            let b = self.input[k];
            out.push(b);
            k += 1;
            proof {
                assert(self.input@.take(k as int) =~= self.input@.take(k - 1).push(
                    self.input@[k - 1]));
            }
        }
        let mut j: usize = 0;
        while j < n
            invariant
                j <= n,
                n <= old(self).input@.len(),
                self.input@ == old(self).input@.skip(j as int),
                self.log@ == old(self).log@.push(Call::Read(fd)),
                self.fail_open == old(self).fail_open,
                self.fail_enable_raw == old(self).fail_enable_raw,
            decreases n - j,
        {
            self.input.remove(0);
            j += 1;
            proof {
                assert(old(self).input@.skip(j - 1).remove(0) =~= old(self).input@.skip(
                    j as int));
            }
        }
        Ok(out)
    }

    fn write(&mut self, fd: i32, buf: &[u8]) -> (r: Result<usize, IoError>)
        ensures
            r matches Ok(accepted) && accepted == buf@.len(),
            final(self).queued() == old(self).queued(),
            final(self).fail_open == old(self).fail_open,
            final(self).fail_enable_raw == old(self).fail_enable_raw,
    {
        self.log.push(Call::Write(fd, buf.len()));
        Ok(buf.len())
    }
}

/// A failed terminal construction: the underlying error, together with the
/// capability set handed back so its call log stays inspectable.
pub struct InitError<S: System> {
    /// The error the failing acquisition step reported.
    pub error: IoError,
    /// The capability set, with every invocation made so far on its log.
    pub system: S,
}

/// The device lifecycle manager. Construction opens the device and enables
/// raw mode, capturing the prior configuration; teardown restores that
/// exact configuration at most once. Reads, writes and size queries are
/// defined only while the terminal is raw.
pub struct Terminal<S: System> {
    system: S,
    fd: i32,
    snapshot: Option<Termios>,
}

impl<S: System> Terminal<S> {
    /// The invocations made on the owned capability set, oldest first.
    pub closed spec fn calls(&self) -> Seq<Call> {
        self.system.calls()
    }

    /// The device handle captured at construction.
    pub closed spec fn fd_spec(&self) -> i32 {
        self.fd
    }

    /// True while the device is in raw mode, that is, until teardown.
    pub closed spec fn is_raw(&self) -> bool {
        self.snapshot is Some
    }

    /// The configuration captured when raw mode was enabled, until
    /// teardown consumes it.
    pub closed spec fn snapshot_spec(&self) -> Option<Termios> {
        self.snapshot
    }

    /// Opens the device and enables raw mode, in that order and atomically:
    /// a failed open makes no further invocation at all, and a failed
    /// enable makes no restore attempt. On failure the capability set is
    /// handed back with the error.
    pub fn new_with_system(system: S) -> (r: Result<Terminal<S>, InitError<S>>)
        ensures
            r matches Ok(t) ==> t.is_raw() && t.snapshot_spec() is Some && t.calls()
                == system.calls().push(Call::OpenTty).push(Call::EnableRaw(t.fd_spec())),
            r matches Err(e) ==> (e.system.calls() == system.calls().push(Call::OpenTty)
                || exists|fd: i32|
                e.system.calls() == #[trigger] system.calls().push(Call::OpenTty).push(
                    Call::EnableRaw(fd),
                )),
    {
        let mut sys = system;
        let fd = match sys.open_tty() {
            Ok(fd) => fd,
            Err(error) => {
                return Err(InitError { error, system: sys });
            },
        };
        match sys.enable_raw(fd) {
            Ok(captured) => Ok(Terminal { system: sys, fd, snapshot: Some(captured) }),
            Err(error) => {
                proof {
                    assert(sys.calls() == system.calls().push(Call::OpenTty).push(
                        Call::EnableRaw(fd)));
                }
                Err(InitError { error, system: sys })
            },
        }
    }

    /// The current window size as (columns, rows), straight from the
    /// capability interface.
    pub fn size(&mut self) -> (r: Result<(u16, u16), IoError>)
        requires
            old(self).is_raw(),
        ensures
            final(self).calls() == old(self).calls().push(Call::GetWindowSize(old(
                self,
            ).fd_spec())),
            final(self).is_raw(),
            final(self).fd_spec() == old(self).fd_spec(),
            final(self).snapshot_spec() == old(self).snapshot_spec(),
    {
        self.system.get_window_size(self.fd)
    }

    /// Reads up to `max` bytes from the device; an empty result means no
    /// data was available.
    pub fn read(&mut self, max: usize) -> (r: Result<Vec<u8>, IoError>)
        requires
            old(self).is_raw(),
        ensures
            final(self).calls() == old(self).calls().push(Call::Read(old(self).fd_spec())),
            final(self).is_raw(),
            final(self).fd_spec() == old(self).fd_spec(),
            final(self).snapshot_spec() == old(self).snapshot_spec(),
            r matches Ok(data) ==> data@.len() <= max,
    {
        self.system.read(self.fd, max)
    }

    /// Writes the bytes of `buf` to the device verbatim.
    pub fn write(&mut self, buf: &[u8]) -> (r: Result<usize, IoError>)
        requires
            old(self).is_raw(),
        ensures
            final(self).calls() == old(self).calls().push(Call::Write(old(self).fd_spec(),
                buf@.len() as usize)),
            final(self).is_raw(),
            final(self).fd_spec() == old(self).fd_spec(),
            final(self).snapshot_spec() == old(self).snapshot_spec(),
    {
        self.system.write(self.fd, buf)
    }

    /// Teardown: restores the configuration captured at construction,
    /// exactly once. Calling it again does nothing. A restore failure is
    /// returned for the caller's diagnostic sink, never re-attempted.
    pub fn close(&mut self) -> (r: Option<IoError>)
        ensures
            old(self).snapshot_spec() matches Some(captured) ==> final(self).calls() == old(
                self,
            ).calls().push(Call::DisableRaw(old(self).fd_spec(), captured)),
            !old(self).is_raw() ==> final(self).calls() == old(self).calls() && r is None,
            r is Some ==> old(self).is_raw(),
            !final(self).is_raw(),
            final(self).fd_spec() == old(self).fd_spec(),
    {
        match self.snapshot {
            Some(captured) => {
                self.snapshot = None;
                match self.system.disable_raw(self.fd, &captured) {
                    Ok(_) => None,
                    Err(e) => Some(e),
                }
            },
            None => None,
        }
    }

    /// True while the device is in raw mode, that is, until teardown.
    pub fn raw(&self) -> (r: bool)
        ensures
            r == self.is_raw(),
    {
        self.snapshot.is_some()
    }

    /// A view of the owned capability set, so its call log stays
    /// inspectable.
    pub fn system(&self) -> (s: &S)
        ensures
            s.calls() == self.calls(),
    {
        &self.system
    }
}

} // verus!
