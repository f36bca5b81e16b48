//! Small enumerations the client sends in the configuration state, each as a
//! `VarInt` code from 0.

use vstd::prelude::*;

verus! {

/// Which chat messages the client shows.
#[derive(Clone, Copy, Debug, PartialEq, Eq, Structural)]
pub enum ChatMode {
    Enabled,
    CommandsOnly,
    Hidden,
}

impl ChatMode {
    /// The code sent: 0, 1 or 2.
    pub open spec fn spec_id(self) -> i32 {
        match self {
            ChatMode::Enabled => 0,
            ChatMode::CommandsOnly => 1,
            ChatMode::Hidden => 2,
        }
    }

    /// The code sent.
    pub fn id(self) -> (r: i32)
        ensures
            r == self.spec_id(),
            self == ChatMode::Enabled ==> r == 0,
            self == ChatMode::CommandsOnly ==> r == 1,
            self == ChatMode::Hidden ==> r == 2,
    {
        match self {
            ChatMode::Enabled => 0,
            ChatMode::CommandsOnly => 1,
            ChatMode::Hidden => 2,
        }
    }

    /// The mode a code stands for.
    pub fn from_id(id: i32) -> (r: ChatMode)
        requires
            0 <= id < 3,
        ensures
            r.spec_id() == id,
    {
        if id == 0 {
            ChatMode::Enabled
        } else if id == 1 {
            ChatMode::CommandsOnly
        } else {
            ChatMode::Hidden
        }
    }
}

/// The client's main hand.
#[derive(Clone, Copy, Debug, PartialEq, Eq, Structural)]
pub enum AccurateHand {
    Left,
    Right,
}

impl AccurateHand {
    /// The code sent: 0 or 1.
    pub open spec fn spec_id(self) -> i32 {
        match self {
            AccurateHand::Left => 0,
            AccurateHand::Right => 1,
        }
    }

    /// The code sent.
    pub fn id(self) -> (r: i32)
        ensures
            r == self.spec_id(),
            self == AccurateHand::Left ==> r == 0,
            self == AccurateHand::Right ==> r == 1,
    {
        match self {
            AccurateHand::Left => 0,
            AccurateHand::Right => 1,
        }
    }

    /// The hand a code stands for.
    pub fn from_id(id: i32) -> (r: AccurateHand)
        requires
            0 <= id < 2,
        ensures
            r.spec_id() == id,
    {
        if id == 0 {
            AccurateHand::Left
        } else {
            AccurateHand::Right
        }
    }
}

/// How many particles the client shows.
#[derive(Clone, Copy, Debug, PartialEq, Eq, Structural)]
pub enum ParticleStatus {
    All,
    Decreased,
    Minimal,
}

impl ParticleStatus {
    /// The code sent: 0, 1 or 2.
    pub open spec fn spec_id(self) -> i32 {
        match self {
            ParticleStatus::All => 0,
            ParticleStatus::Decreased => 1,
            ParticleStatus::Minimal => 2,
        }
    }

    /// The code sent.
    pub fn id(self) -> (r: i32)
        ensures
            r == self.spec_id(),
            self == ParticleStatus::All ==> r == 0,
            self == ParticleStatus::Decreased ==> r == 1,
            self == ParticleStatus::Minimal ==> r == 2,
    {
        match self {
            ParticleStatus::All => 0,
            ParticleStatus::Decreased => 1,
            ParticleStatus::Minimal => 2,
        }
    }

    /// The status a code stands for.
    pub fn from_id(id: i32) -> (r: ParticleStatus)
        requires
            0 <= id < 3,
        ensures
            r.spec_id() == id,
    {
        if id == 0 {
            ParticleStatus::All
        } else if id == 1 {
            ParticleStatus::Decreased
        } else {
            ParticleStatus::Minimal
        }
    }
}

/// What became of a resource pack the server offered.
#[derive(Clone, Copy, Debug, PartialEq, Eq, Structural)]
pub enum ResourcePackState {
    SuccessfullyLoaded,
    Declined,
    FailedDownload,
    Accepted,
    Downloaded,
    InvalidUrl,
    FailedReload,
    Discarded,
}

impl ResourcePackState {
    /// The code sent: 0 to 7.
    pub open spec fn spec_id(self) -> i32 {
        match self {
            ResourcePackState::SuccessfullyLoaded => 0,
            ResourcePackState::Declined => 1,
            ResourcePackState::FailedDownload => 2,
            ResourcePackState::Accepted => 3,
            ResourcePackState::Downloaded => 4,
            ResourcePackState::InvalidUrl => 5,
            ResourcePackState::FailedReload => 6,
            ResourcePackState::Discarded => 7,
        }
    }

    /// The code sent.
    pub fn id(self) -> (r: i32)
        ensures
            r == self.spec_id(),
            self == ResourcePackState::SuccessfullyLoaded ==> r == 0,
            self == ResourcePackState::Declined ==> r == 1,
            self == ResourcePackState::FailedDownload ==> r == 2,
            self == ResourcePackState::Accepted ==> r == 3,
            self == ResourcePackState::Downloaded ==> r == 4,
            self == ResourcePackState::InvalidUrl ==> r == 5,
            self == ResourcePackState::FailedReload ==> r == 6,
            self == ResourcePackState::Discarded ==> r == 7,
    {
        match self {
            ResourcePackState::SuccessfullyLoaded => 0,
            ResourcePackState::Declined => 1,
            ResourcePackState::FailedDownload => 2,
            ResourcePackState::Accepted => 3,
            ResourcePackState::Downloaded => 4,
            ResourcePackState::InvalidUrl => 5,
            ResourcePackState::FailedReload => 6,
            ResourcePackState::Discarded => 7,
        }
    }

    /// The state a code stands for.
    pub fn from_id(id: i32) -> (r: ResourcePackState)
        requires
            0 <= id < 8,
        ensures
            r.spec_id() == id,
    {
        if id == 0 {
            ResourcePackState::SuccessfullyLoaded
        } else if id == 1 {
            ResourcePackState::Declined
        } else if id == 2 {
            ResourcePackState::FailedDownload
        } else if id == 3 {
            ResourcePackState::Accepted
        } else if id == 4 {
            ResourcePackState::Downloaded
        } else if id == 5 {
            ResourcePackState::InvalidUrl
        } else if id == 6 {
            ResourcePackState::FailedReload
        } else {
            ResourcePackState::Discarded
        }
    }
}

} // verus!
