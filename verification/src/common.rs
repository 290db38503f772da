use vstd::prelude::*;

verus! {

/// The status document of the device (`/status.xml`), each element as text.
#[derive(Debug, Clone, PartialEq, Eq)]
pub struct CubIpResponse {
    pub tm: String,
    pub stv: String,
    /// Temperature of the external sensor.
    pub trm: String,
    pub hih: String,
    /// Input pin 1.
    pub vle0: String,
    /// Input pin 2.
    pub vle1: String,
    pub vle2: String,
    pub vle3: String,
    pub vle4: String,
    pub vle5: String,
    /// Relay: `0` off, `1` on, `2` off by the time relay, `3` on by the time relay.
    pub strel: String,
    /// Time relay.
    pub tmrel: String,
}

/// What the relay is asked to do.
#[derive(Debug, Clone, Copy, PartialEq, Eq)]
pub enum CubIpRelayAction {
    RelayTurnOn,
    RelayTurnOff,
    /// Turn the relay on after the given number of seconds.
    TimeRelayTurnOn(usize),
    /// Turn the relay off after the given number of seconds.
    TimeRelayTurnOff(usize),
}

/// Why no status document came back.
#[derive(Debug, Clone, PartialEq, Eq)]
pub enum StatusError {
    /// The request to the device failed; the message says why.
    Request(String),
    /// The response held no single status document.
    ResponseFailed,
    /// The status document did not read; the message says why.
    Parse(String),
}

/// Work for the part of the bridge that publishes.
#[derive(Debug)]
pub enum Task {
    /// A status document, or why there is none.
    Response(Box<Result<CubIpResponse, StatusError>>),
    /// The connection to the broker was restored: publish every value anew.
    ResetPrevValue,
}

} // verus!
