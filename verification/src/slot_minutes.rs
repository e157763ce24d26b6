//! The length of a calendar slot in minutes.
use vstd::prelude::*;

verus! {

/// Minutes per calendar slot when none is configured.
pub const DEFAULT_SLOT_MINUTES: i64 = 60;

/// The configured slot length, or none for the default.
#[derive(Debug, Clone, Copy, PartialEq, Eq)]
pub struct SlotMinutes(Option<i64>);

/// Why a slot length was refused.
#[derive(Debug, Clone, Copy, PartialEq, Eq, Structural)]
pub enum SlotMinutesError {
    NotPositive,
}

impl SlotMinutesError {
    /// The message shown to the user.
    pub fn message(self) -> (r: &'static str)
        ensures
            r@ == "Slotdauer muss eine positive ganze Zahl in Minuten sein"@,
    {
        match self {
            SlotMinutesError::NotPositive => "Slotdauer muss eine positive ganze Zahl in Minuten sein",
        }
    }
}

impl Default for SlotMinutes {
    fn default() -> (r: Self)
        ensures
            r.minutes() is None,
    {
        SlotMinutes(None)
    }
}

impl SlotMinutes {
    /// Minutes per slot when none is configured.
    pub const DEFAULT: i64 = 60;

    /// The configured length.
    pub closed spec fn minutes(self) -> Option<i64> {
        self.0
    }

    /// A stored length is positive.
    pub open spec fn wf(self) -> bool {
        self.minutes() matches Some(m) ==> m >= 1
    }

    /// Accepts no length or a positive number of minutes.
    pub fn parse(value: Option<i64>) -> (r: Result<Self, SlotMinutesError>)
        ensures
            match value {
                None => r matches Ok(s) && s.minutes() is None,
                Some(m) => if m >= 1 {
                    r matches Ok(s) && s.minutes() == Some(m)
                } else {
                    r == Err::<Self, SlotMinutesError>(SlotMinutesError::NotPositive)
                },
            },
            r matches Ok(s) ==> s.wf(),
    {
        match value {
            None => Ok(SlotMinutes(None)),
            Some(minutes) => if minutes >= 1 {
                Ok(SlotMinutes(Some(minutes)))
            } else {
                Err(SlotMinutesError::NotPositive)
            },
        }
    }

    /// The length to store.
    pub fn stored(self) -> (r: Option<i64>)
        ensures
            r == self.minutes(),
    {
        self.0
    }

    /// The length in use: the configured one, else the default.
    pub fn effective(self) -> (r: i64)
        ensures
            r == (match self.minutes() {
                Some(m) => m,
                None => DEFAULT_SLOT_MINUTES,
            }),
            self.wf() ==> r >= 1,
    {
        match self.0 {
            Some(m) => m,
            None => DEFAULT_SLOT_MINUTES,
        }
    }
}

} // verus!
