//! Starting and stopping the servers.

use crate::text::owned;
use vstd::prelude::*;
use vstd::string::StringExecFns;

verus! {

/// Why the servers were not started.
#[derive(Debug)]
pub enum ServerError {
    /// They run already.
    AlreadyRunning,
    /// They could not be started.
    StartFailed(String),
    /// They did not report in time.
    StartTimedOut(String),
}

impl ServerError {
    /// The error in words.
    pub open spec fn words(&self) -> Seq<char> {
        match self {
            ServerError::AlreadyRunning => "server is already running"@,
            ServerError::StartFailed(message) => message@,
            ServerError::StartTimedOut(message) => "server start timed out: "@ + message@,
        }
    }

    /// The error in words.
    pub fn message(&self) -> (text: String)
        ensures
            text@ == self.words(),
    {
        match self {
            ServerError::AlreadyRunning => owned("server is already running"),
            ServerError::StartFailed(message) => message.clone(),
            ServerError::StartTimedOut(message) => {
                let mut text = owned("server start timed out: ");
                text.append(message.as_str());
                text
            },
        }
    }
}

/// What was heard of the servers while they were being started.
#[derive(Debug)]
pub enum StartReport {
    /// They listen.
    Ready,
    /// They gave up, and why.
    Failed(String),
    /// Nothing was heard in time, and how that showed.
    TimedOut(String),
}

/// What has to be done with the thread of the servers.
#[derive(Clone, Copy, Debug, PartialEq, Eq, Structural)]
pub enum ThreadDuty {
    /// It runs on.
    Keep,
    /// Its end has to be awaited.
    Join,
    /// It has to be told to stop, and its end has to be awaited.
    StopAndJoin,
}

/// Whether the servers run.
#[derive(Debug)]
pub struct ServerController {
    running: bool,
}

impl Default for ServerController {
    fn default() -> (controller: Self)
        ensures
            !controller.runs(),
    {
        ServerController { running: false }
    }
}

impl ServerController {
    /// Whether the servers run.
    pub closed spec fn runs(&self) -> bool {
        self.running
    }

    /// Whether the servers run.
    pub fn is_running(&self) -> (running: bool)
        ensures
            running == self.runs(),
    {
        self.running
    }

    /// Whether the servers may be started. They may not where they run already.
    pub fn start(&self) -> (answer: Result<(), ServerError>)
        ensures
            match answer {
                Ok(_) => !self.runs(),
                Err(error) => self.runs() && error is AlreadyRunning,
            },
    {
        if self.running {
            return Err(ServerError::AlreadyRunning);
        }
        Ok(())
    }

    /// Takes note of what was heard of the servers while they were being
    /// started. They run only if they are ready.
    pub fn started(&mut self, report: StartReport) -> (answer: (
        ThreadDuty,
        Result<(), ServerError>,
    ))
        requires
            !old(self).runs(),
        ensures
            match report {
                StartReport::Ready => {
                    &&& final(self).runs()
                    &&& answer.0 == ThreadDuty::Keep
                    &&& answer.1 is Ok
                },
                StartReport::Failed(message) => {
                    &&& !final(self).runs()
                    &&& answer.0 == ThreadDuty::Join
                    &&& answer.1 matches Err(ServerError::StartFailed(text))
                    &&& text@ == message@
                },
                StartReport::TimedOut(message) => {
                    &&& !final(self).runs()
                    &&& answer.0 == ThreadDuty::StopAndJoin
                    &&& answer.1 matches Err(ServerError::StartTimedOut(text))
                    &&& text@ == message@
                },
            },
    {
        match report {
            StartReport::Ready => {
                self.running = true;
                (ThreadDuty::Keep, Ok(()))
            },
            StartReport::Failed(message) => {
                (ThreadDuty::Join, Err(ServerError::StartFailed(message)))
            },
            StartReport::TimedOut(message) => {
                (ThreadDuty::StopAndJoin, Err(ServerError::StartTimedOut(message)))
            },
        }
    }

    /// Stops the servers, where they run.
    pub fn stop(&mut self) -> (duty: Option<ThreadDuty>)
        ensures
            !final(self).runs(),
            duty == (if old(self).runs() {
                Some(ThreadDuty::StopAndJoin)
            } else {
                None
            }),
    {
        if self.running {
            self.running = false;
            Some(ThreadDuty::StopAndJoin)
        } else {
            None
        }
    }
}

} // verus!
