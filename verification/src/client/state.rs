//! Connection state and counters that the user interface reads.

use vstd::prelude::*;

verus! {

#[derive(Clone, Copy, Debug, PartialEq, Eq, Structural)]
pub enum ClientState {
    Idle,
    Connecting,
    Connected,
    Disconnected,
    Error,
}

/// The number that stands for a state across the Java boundary.
pub open spec fn spec_state_raw(state: ClientState) -> i32 {
    match state {
        ClientState::Idle => 0,
        ClientState::Connecting => 1,
        ClientState::Connected => 2,
        ClientState::Disconnected => 3,
        ClientState::Error => 4,
    }
}

impl ClientState {
    /// Maps a raw number back to a state; unknown numbers mean `Idle`.
    pub fn from_raw(value: i32) -> (state: Self)
        ensures
            0 <= value <= 4 ==> spec_state_raw(state) == value,
            !(0 <= value <= 4) ==> state == ClientState::Idle,
    {
        match value {
            1 => ClientState::Connecting,
            2 => ClientState::Connected,
            3 => ClientState::Disconnected,
            4 => ClientState::Error,
            _ => ClientState::Idle,
        }
    }

    /// The raw number of this state.
    pub fn to_raw(self) -> (value: i32)
        ensures
            value == spec_state_raw(self),
    {
        match self {
            ClientState::Idle => 0,
            ClientState::Connecting => 1,
            ClientState::Connected => 2,
            ClientState::Disconnected => 3,
            ClientState::Error => 4,
        }
    }
}

/// `x + y` modulo 2^64, as an atomic counter adds.
pub open spec fn wrapping_add(x: u64, y: u64) -> u64 {
    if x + y > u64::MAX { (x + y - 0x1_0000_0000_0000_0000) as u64 } else { (x + y) as u64 }
}

/// Counters consulted by the user interface and the foreground service.
#[derive(Debug)]
pub struct SharedState {
    state: ClientState,
    received_packets: u64,
    lost_packets: u64,
    late_packets: u64,
    invalid_packets: u64,
    rtt_ms: u64,
    last_error: String,
}

/// The abstract state of the shared counters.
pub struct SharedView {
    pub state: ClientState,
    pub received_packets: u64,
    pub lost_packets: u64,
    pub late_packets: u64,
    pub invalid_packets: u64,
    pub rtt_ms: u64,
    pub last_error: Seq<char>,
}

impl View for SharedState {
    type V = SharedView;

    closed spec fn view(&self) -> SharedView {
        SharedView {
            state: self.state,
            received_packets: self.received_packets,
            lost_packets: self.lost_packets,
            late_packets: self.late_packets,
            invalid_packets: self.invalid_packets,
            rtt_ms: self.rtt_ms,
            last_error: self.last_error@,
        }
    }
}

impl Default for SharedState {
    fn default() -> (s: Self)
        ensures
            s@ == (SharedView {
                state: ClientState::Idle,
                received_packets: 0,
                lost_packets: 0,
                late_packets: 0,
                invalid_packets: 0,
                rtt_ms: 0,
                last_error: Seq::<char>::empty(),
            }),
    {
        SharedState {
            state: ClientState::Idle,
            received_packets: 0,
            lost_packets: 0,
            late_packets: 0,
            invalid_packets: 0,
            rtt_ms: 0,
            last_error: String::new(),
        }
    }
}

impl SharedState {
    /// Resets every counter and the last error, then enters `Connecting`.
    pub fn begin_connecting(&mut self)
        ensures
            final(self)@ == (SharedView {
                state: ClientState::Connecting,
                received_packets: 0,
                lost_packets: 0,
                late_packets: 0,
                invalid_packets: 0,
                rtt_ms: 0,
                last_error: Seq::<char>::empty(),
            }),
    {
        self.received_packets = 0;
        self.lost_packets = 0;
        self.late_packets = 0;
        self.invalid_packets = 0;
        self.rtt_ms = 0;
        self.last_error = String::new();
        self.set(ClientState::Connecting);
    }

    pub fn set(&mut self, state: ClientState)
        ensures
            final(self)@ == (SharedView { state, ..old(self)@ }),
    {
        self.state = state;
    }

    pub fn state(&self) -> (state: ClientState)
        ensures
            state == self@.state,
    {
        self.state
    }

    /// Records an error message and enters `Error`.
    pub fn set_error(&mut self, error: &str)
        ensures
            final(self)@ == (SharedView { state: ClientState::Error, last_error: error@, ..old(self)@ }),
    {
        self.last_error = error.to_owned();
        self.set(ClientState::Error);
    }

    pub fn last_error(&self) -> (error: String)
        ensures
            error@ == self@.last_error,
    {
        self.last_error.clone()
    }

    pub fn received_packets(&self) -> (n: u64)
        ensures
            n == self@.received_packets,
    {
        self.received_packets
    }

    pub fn lost_packets(&self) -> (n: u64)
        ensures
            n == self@.lost_packets,
    {
        self.lost_packets
    }

    pub fn late_packets(&self) -> (n: u64)
        ensures
            n == self@.late_packets,
    {
        self.late_packets
    }

    pub fn invalid_packets(&self) -> (n: u64)
        ensures
            n == self@.invalid_packets,
    {
        self.invalid_packets
    }

    pub fn rtt_ms(&self) -> (n: u64)
        ensures
            n == self@.rtt_ms,
    {
        self.rtt_ms
    }

    pub fn add_received(&mut self)
        ensures
            final(self)@ == (SharedView {
                received_packets: wrapping_add(old(self)@.received_packets, 1),
                ..old(self)@
            }),
    {
        self.received_packets = self.received_packets.wrapping_add(1);
    }

    pub fn add_lost(&mut self, count: u64)
        ensures
            final(self)@ == (SharedView {
                lost_packets: wrapping_add(old(self)@.lost_packets, count),
                ..old(self)@
            }),
    {
        self.lost_packets = self.lost_packets.wrapping_add(count);
    }

    pub fn add_late(&mut self, count: u64)
        ensures
            final(self)@ == (SharedView {
                late_packets: wrapping_add(old(self)@.late_packets, count),
                ..old(self)@
            }),
    {
        self.late_packets = self.late_packets.wrapping_add(count);
    }

    pub fn add_invalid(&mut self)
        ensures
            final(self)@ == (SharedView {
                invalid_packets: wrapping_add(old(self)@.invalid_packets, 1),
                ..old(self)@
            }),
    {
        self.invalid_packets = self.invalid_packets.wrapping_add(1);
    }

    pub fn set_rtt_ms(&mut self, value: u64)
        ensures
            final(self)@ == (SharedView { rtt_ms: value, ..old(self)@ }),
    {
        self.rtt_ms = value;
    }
}

} // verus!
