//! Sinks: a discarding sink, a bounded in-memory sink, and stream
//! sinks that serialize writes to a shared writer behind a lock.

use vstd::prelude::*;
use vstd::string::StringExecFns;
use crate::errors::LogError;
use crate::level::Level;

verus! {

/// A sink that does nothing with logged messages.
#[derive(Clone, Copy, Debug)]
pub struct NullLogger;

impl NullLogger {
    /// Accept and discard a message; never fails.
    pub fn log(&self, _msg: &str, _level: &Level, _origin: &str) -> (r: Result<(), LogError>)
        ensures
            r is Ok,
    {
        Ok(())
    }
}

/// An in-memory stream sink: keeps each delivered line, up to a fixed
/// number of lines, and rejects deliveries once full.
#[derive(Debug)]
pub struct BufferLogger {
    pub lines: Vec<String>,
    pub capacity: usize,
    pub line_sep: String,
}

impl BufferLogger {
    /// The lines held, as sequences of characters.
    pub open spec fn lines_view(&self) -> Seq<Seq<char>> {
        self.lines@.map_values(|s: String| s@)
    }

    /// The sink still has room for a line.
    pub open spec fn has_room(&self) -> bool {
        self.lines@.len() < self.capacity
    }

    /// An empty buffer sink holding at most `capacity` lines.
    pub fn new(capacity: usize, line_sep: &str) -> (r: BufferLogger)
        ensures
            r.lines@.len() == 0,
            r.capacity == capacity,
            r.line_sep@ == line_sep@,
    {
        BufferLogger { lines: Vec::new(), capacity, line_sep: line_sep.to_owned() }
    }

    /// Store the message followed by the line separator as one line,
    /// or fail without any change when the buffer is full.
    pub fn log(&mut self, msg: &str, _level: &Level, _origin: &str) -> (r: Result<(), LogError>)
        ensures
            final(self).capacity == old(self).capacity,
            final(self).line_sep == old(self).line_sep,
            old(self).has_room() ==> r is Ok && final(self).lines_view() == old(
                self,
            ).lines_view().push(msg@ + old(self).line_sep@),
            !old(self).has_room() ==> r == Err::<(), LogError>(LogError::SinkFull) && *final(self)
                == *old(self),
    {
        if self.lines.len() < self.capacity {
            let mut line = msg.to_owned();
            line.append(self.line_sep.as_str());
            self.lines.push(line);
            assert(self.lines_view() =~= old(self).lines_view().push(
                msg@ + old(self).line_sep@,
            ));
            Ok(())
        } else {
            Err(LogError::SinkFull)
        }
    }
}

/// `std::sync::Mutex`, opaque to the verifier: it only carries the
/// shared writer of a stream sink; all access goes through trusted
/// wrappers.
#[verifier::external_type_specification]
#[verifier::external_body]
#[verifier::reject_recursive_types(T)]
pub struct ExMutex<T: ?Sized>(std::sync::Mutex<T>);

/// Relies on `std::sync::Mutex::new`: wraps a value in a fresh lock.
#[verifier::external_body]
fn mutex_new<T>(t: T) -> (m: std::sync::Mutex<T>) {
    std::sync::Mutex::new(t)
}

/// `std::io::Stdout`, opaque to the verifier: a handle a stream sink
/// writes through.
#[verifier::external_type_specification]
#[verifier::external_body]
pub struct ExStdout(std::io::Stdout);

/// `std::io::Stderr`, opaque to the verifier: a handle a stream sink
/// writes through.
#[verifier::external_type_specification]
#[verifier::external_body]
pub struct ExStderr(std::io::Stderr);

/// Relies on `std::io::stdout`: a handle to the process's standard
/// output.
pub assume_specification[ std::io::stdout ]() -> std::io::Stdout;

/// Relies on `std::io::stderr`: a handle to the process's standard
/// error.
pub assume_specification[ std::io::stderr ]() -> std::io::Stderr;

/// A stream sink: writes each message, followed by a line separator,
/// to a shared writer; writes are serialized by a lock owned by the
/// sink.
#[derive(Debug)]
#[verifier::reject_recursive_types(T)]
pub struct WriterLogger<T> {
    writer: std::sync::Arc<std::sync::Mutex<T>>,
    line_sep: String,
}

impl<T> WriterLogger<T> {
    /// The line separator appended to every message.
    pub closed spec fn sep(&self) -> Seq<char> {
        self.line_sep@
    }

    /// Wrap a writer and a line separator into a stream sink.
    pub fn new(writer: T, line_sep: &str) -> (r: WriterLogger<T>)
        ensures
            r.sep() == line_sep@,
    {
        WriterLogger { writer: std::sync::Arc::new(mutex_new(writer)), line_sep: line_sep.to_owned() }
    }
}

impl WriterLogger<std::io::Stdout> {
    /// A stream sink writing to standard output, with a newline
    /// separator.
    pub fn with_stdout() -> (r: WriterLogger<std::io::Stdout>)
        ensures
            r.sep() == "\n"@,
    {
        WriterLogger::new(std::io::stdout(), "\n")
    }
}

impl WriterLogger<std::io::Stderr> {
    /// A stream sink writing to standard error, with a newline
    /// separator.
    pub fn with_stderr() -> (r: WriterLogger<std::io::Stderr>)
        ensures
            r.sep() == "\n"@,
    {
        WriterLogger::new(std::io::stderr(), "\n")
    }
}

impl<T: std::io::Write> WriterLogger<T> {
    /// Relies on `std::sync::Mutex::lock` and `std::io::Write::write_fmt`:
    /// takes the lock, writes the message and the line separator to the
    /// shared writer, and releases the lock on every exit path. The
    /// outcome depends on the stream, so nothing more is promised.
    #[verifier::external_body]
    pub fn log(&self, msg: &str, _level: &Level, _origin: &str) -> (r: Result<(), LogError>) {
        let mut guard = match self.writer.lock() {
            Ok(g) => g,
            Err(e) => return Err(LogError::Io(e.to_string())),
        };
        match write!(guard, "{}{}", msg, self.line_sep) {
            Ok(()) => Ok(()),
            Err(e) => Err(LogError::Io(e.to_string())),
        }
    }
}

/// One registered output of a dispatcher.
#[derive(Debug)]
pub enum Sink {
    /// Discards everything.
    Null(NullLogger),
    /// Keeps lines in memory, up to a fixed count.
    Buffer(BufferLogger),
    /// Writes to the process's standard output.
    Stdout(WriterLogger<std::io::Stdout>),
    /// Writes to the process's standard error.
    Stderr(WriterLogger<std::io::Stderr>),
}

impl Sink {
    /// The lines a sink keeps in memory: empty unless it is a buffer
    /// sink.
    pub open spec fn recorded(&self) -> Seq<Seq<char>> {
        match self {
            Sink::Buffer(b) => b.lines_view(),
            _ => Seq::empty(),
        }
    }

    /// Delivery to this sink cannot fail.
    pub open spec fn must_accept(&self) -> bool {
        match self {
            Sink::Null(_) => true,
            Sink::Buffer(b) => b.has_room(),
            Sink::Stdout(_) => false,
            Sink::Stderr(_) => false,
        }
    }

    /// Delivery to this sink is sure to fail: a buffer sink with no
    /// room left.
    pub open spec fn must_reject(&self) -> bool {
        match self {
            Sink::Buffer(b) => !b.has_room(),
            _ => false,
        }
    }

    /// How one successful delivery of the line `m` changes a sink: a
    /// buffer sink stores the line followed by its separator; the other
    /// sinks are unchanged here, their effect being on the outside
    /// stream.
    pub open spec fn delivered(pre: Sink, post: Sink, m: Seq<char>) -> bool {
        match pre {
            Sink::Buffer(b) => post matches Sink::Buffer(b2) && b2.capacity == b.capacity
                && b2.line_sep == b.line_sep && b2.lines_view() == b.lines_view().push(
                m + b.line_sep@,
            ),
            _ => post == pre,
        }
    }

    /// Deliver a formatted message to this sink.
    pub fn log(&mut self, msg: &str, level: &Level, origin: &str) -> (r: Result<(), LogError>)
        ensures
            r is Ok ==> Sink::delivered(*old(self), *final(self), msg@),
            r is Err ==> *final(self) == *old(self),
            old(self).must_accept() ==> r is Ok,
            old(self).must_reject() ==> r == Err::<(), LogError>(LogError::SinkFull),
    {
        match self {
            Sink::Null(n) => n.log(msg, level, origin),
            Sink::Buffer(b) => b.log(msg, level, origin),
            Sink::Stdout(w) => w.log(msg, level, origin),
            Sink::Stderr(w) => w.log(msg, level, origin),
        }
    }
}

} // verus!
