use vstd::prelude::*;

verus! {

/// An external happening the control loop reacts to.
#[derive(Debug, Clone, PartialEq, Eq)]
pub enum Event {
    /// The mount table changed; carries a fresh full mount-table text.
    MountsChanged(String),
    /// The settings file changed on disk.
    SettingsChanged,
    /// The user asked to run the named job now.
    ManualRun(String),
}

/// Why receiving an event failed.
#[derive(Debug, Clone, Copy, PartialEq, Eq, Structural)]
pub enum RecvError {
    /// The deadline passed without an event.
    Timeout,
    /// Every producer is gone; the loop cannot continue.
    Disconnected,
}

/// A source of external events, received with an optional deadline in
/// milliseconds.
pub trait ReceiveEvent {
    /// Blocks until an event arrives, the timeout (if any) passes, or the
    /// source is exhausted.
    fn recv_timeout(&self, timeout_ms: Option<u64>) -> Result<Event, RecvError>;
}

#[verifier::external_type_specification]
#[verifier::external_body]
#[verifier::reject_recursive_types(T)]
pub struct ExReceiver<T>(std::sync::mpsc::Receiver<T>);

/// Receives the events that all producers push into one channel.
pub struct EventReceiver(std::sync::mpsc::Receiver<Event>);

impl EventReceiver {
    /// Wraps the receiving end of the event channel.
    pub fn new(rx: std::sync::mpsc::Receiver<Event>) -> EventReceiver {
        EventReceiver(rx)
    }

    /// Relies on mpsc::Receiver::recv and recv_timeout: blocks until an
    /// event arrives, the deadline passes, or every sender is gone.
    /// Nothing is promised about which event arrives.
    #[verifier::external_body]
    fn recv_from_channel(&self, timeout_ms: Option<u64>) -> Result<Event, RecvError> {
        match timeout_ms {
            Some(ms) => self.0.recv_timeout(std::time::Duration::from_millis(ms)).map_err(
                |e|
                    match e {
                        std::sync::mpsc::RecvTimeoutError::Timeout => RecvError::Timeout,
                        std::sync::mpsc::RecvTimeoutError::Disconnected => RecvError::Disconnected,
                    },
            ),
            None => self.0.recv().map_err(|_e| RecvError::Disconnected),
        }
    }
}

impl ReceiveEvent for EventReceiver {
    fn recv_timeout(&self, timeout_ms: Option<u64>) -> Result<Event, RecvError> {
        self.recv_from_channel(timeout_ms)
    }
}

} // verus!
