//! The logging pipeline's decisions: which messages pass the level in
//! force, and how the logging task drains its queue on shutdown.
//!
//! The logging task outlives the other workers: on `Shutdown` it first
//! waits on the shutdown barrier, so that their last lines are still
//! taken in, then closes its queue and writes out what is left in it.

use crate::control::ControlSignal;
use vstd::prelude::*;
use vstd::string::*;

verus! {

/// The severity of a log message, most severe first.
#[derive(Debug, Clone, Copy, PartialEq, Eq, Structural)]
pub enum Level {
    Error,
    Warn,
    Info,
    Debug,
    Trace,
}

impl Level {
    /// The level's rank: 1 for `Error`, up to 5 for `Trace`.
    pub open spec fn rank_spec(self) -> int {
        match self {
            Level::Error => 1,
            Level::Warn => 2,
            Level::Info => 3,
            Level::Debug => 4,
            Level::Trace => 5,
        }
    }

    pub fn rank(self) -> (r: u8)
        ensures
            r == self.rank_spec(),
    {
        match self {
            Level::Error => 1,
            Level::Warn => 2,
            Level::Info => 3,
            Level::Debug => 4,
            Level::Trace => 5,
        }
    }
}

/// A line for the log.
#[derive(Debug, Clone)]
pub struct LogMessage {
    pub message: String,
    pub level: Level,
}

/// The log message of level `log_level` with the text `msg`.
pub fn create_log_message(log_level: Level, msg: &str) -> (log_message: LogMessage)
    ensures
        log_message.level == log_level,
        log_message.message@ == msg@,
{
    LogMessage { message: String::from_str(msg), level: log_level }
}

/// The logger's settings.
#[derive(Debug)]
pub struct Logging {
    pub initialized: bool,
    pub level: Level,
    pub logfile: Option<String>,
}

impl Logging {
    /// A logger at level `Info`, without a file and without sinks.
    pub fn new() -> (logging: Logging)
        ensures
            !logging.initialized,
            logging.level == Level::Info,
            logging.logfile is None,
    {
        Logging { initialized: false, level: Level::Info, logfile: None }
    }

    /// Sets the level: `Debug` with `debug`, `Info` without.
    pub fn set_debug(&mut self, debug: bool)
        ensures
            final(self).level == if debug {
                Level::Debug
            } else {
                Level::Info
            },
            final(self).initialized == old(self).initialized,
            final(self).logfile == old(self).logfile,
    {
        if debug {
            self.level = Level::Debug;
        } else {
            self.level = Level::Info;
        }
    }

    /// Sets the log file and the level `Info`. Returns whether the sinks
    /// are to be made now: `true` on the first call only.
    pub fn set_logfile(&mut self, logfile: String) -> (make_sinks: bool)
        ensures
            final(self).logfile == Some(logfile),
            final(self).level == Level::Info,
            final(self).initialized,
            make_sinks == !old(self).initialized,
    {
        self.logfile = Some(logfile);
        self.initialize()
    }

    /// Resets the level to `Info` and marks the sinks as made. Returns
    /// whether they are to be made now.
    fn initialize(&mut self) -> (make_sinks: bool)
        ensures
            final(self).logfile == old(self).logfile,
            final(self).level == Level::Info,
            final(self).initialized,
            make_sinks == !old(self).initialized,
    {
        self.level = Level::Info;
        if self.initialized {
            return false;
        }
        self.initialized = true;
        true
    }

    /// The log message of level `Trace` with the text `message`.
    pub fn log_trace(&self, message: String) -> (log_message: LogMessage)
        ensures
            log_message.level == Level::Trace,
            log_message.message@ == message@,
    {
        create_log_message(Level::Trace, message.as_str())
    }

    /// The log message of level `Debug` with the text `message`.
    pub fn log_debug(&self, message: String) -> (log_message: LogMessage)
        ensures
            log_message.level == Level::Debug,
            log_message.message@ == message@,
    {
        create_log_message(Level::Debug, message.as_str())
    }

    /// The log message of level `Info` with the text `message`.
    pub fn log_info(&self, message: String) -> (log_message: LogMessage)
        ensures
            log_message.level == Level::Info,
            log_message.message@ == message@,
    {
        create_log_message(Level::Info, message.as_str())
    }

    /// The log message of level `Warn` with the text `message`.
    pub fn log_warn(&self, message: String) -> (log_message: LogMessage)
        ensures
            log_message.level == Level::Warn,
            log_message.message@ == message@,
    {
        create_log_message(Level::Warn, message.as_str())
    }

    /// The log message of level `Error` with the text `message`.
    pub fn log_error(&self, message: String) -> (log_message: LogMessage)
        ensures
            log_message.level == Level::Error,
            log_message.message@ == message@,
    {
        create_log_message(Level::Error, message.as_str())
    }

    /// Whether a message of level `level` passes the level in force: it
    /// does where it is at least as severe.
    pub fn accepts(&self, level: Level) -> (pass: bool)
        ensures
            pass == (level.rank_spec() <= self.level.rank_spec()),
    {
        level.rank() <= self.level.rank()
    }
}

/// What arrives at the logging task.
#[derive(Debug)]
pub enum LogEvent {
    /// A message from the queue.
    Message(LogMessage),
    /// The queue is closed and empty.
    QueueClosed,
    /// A signal from the control bus.
    Control(ControlSignal),
}

/// What the logging task does next.
#[derive(Debug)]
pub enum LogAction {
    /// Nothing.
    Skip,
    /// Write the message to the sinks.
    Write(LogMessage),
    /// Wait on the shutdown barrier, then close the queue.
    CloseIntake,
}

/// Where the logging task stands on its way to the end.
#[derive(Debug, Clone, Copy, PartialEq, Eq, Structural)]
pub struct LogThread {
    pub shutdown: bool,
    pub draining: bool,
    pub drained: bool,
}

impl LogThread {
    /// The state at the start of the task.
    pub fn new() -> (state: LogThread)
        ensures
            state == (LogThread { shutdown: false, draining: false, drained: false }),
            state.running_spec(),
    {
        LogThread { shutdown: false, draining: false, drained: false }
    }

    /// Whether the task goes on: until a shutdown has been asked for and
    /// the queue is drained.
    pub open spec fn running_spec(&self) -> bool {
        (!self.shutdown || self.draining) && !self.drained
    }

    pub fn running(&self) -> (r: bool)
        ensures
            r == self.running_spec(),
    {
        (!self.shutdown || self.draining) && !self.drained
    }
}

impl Logging {
    /// The task's step. A message is written where it passes the level in
    /// force. The end of the queue ends the draining. `Shutdown` starts
    /// it; `Reconfigure` changes nothing.
    pub fn log_thread(&self, thread: &mut LogThread, event: LogEvent) -> (action: LogAction)
        ensures
            match event {
                LogEvent::Message(log_message) => {
                    &&& *final(thread) == *old(thread)
                    &&& action == if log_message.level.rank_spec() <= self.level.rank_spec() {
                        LogAction::Write(log_message)
                    } else {
                        LogAction::Skip
                    }
                },
                LogEvent::QueueClosed => {
                    &&& *final(thread) == (LogThread {
                        shutdown: old(thread).shutdown,
                        draining: false,
                        drained: true,
                    })
                    &&& action is Skip
                    &&& !final(thread).running_spec()
                },
                LogEvent::Control(ControlSignal::Shutdown) => {
                    &&& *final(thread) == (LogThread {
                        shutdown: true,
                        draining: true,
                        drained: false,
                    })
                    &&& action is CloseIntake
                    &&& final(thread).running_spec()
                },
                LogEvent::Control(ControlSignal::Reconfigure(_)) => {
                    &&& *final(thread) == *old(thread)
                    &&& action is Skip
                },
            },
    {
        match event {
            LogEvent::Message(log_message) => {
                if self.accepts(log_message.level) {
                    LogAction::Write(log_message)
                } else {
                    LogAction::Skip
                }
            },
            LogEvent::QueueClosed => {
                thread.draining = false;
                thread.drained = true;
                LogAction::Skip
            },
            LogEvent::Control(signal) => {
                match signal {
                    ControlSignal::Shutdown => {
                        thread.shutdown = true;
                        thread.draining = true;
                        thread.drained = false;
                        LogAction::CloseIntake
                    },
                    ControlSignal::Reconfigure(_) => LogAction::Skip,
                }
            },
        }
    }
}

} // verus!
