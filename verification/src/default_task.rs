//! The task preselected for new entries.
use vstd::prelude::*;

verus! {

/// The id of the preselected task, or none.
#[derive(Debug, Clone, Copy, PartialEq, Eq)]
pub struct DefaultTaskId(Option<i64>);

/// Why a default task id was refused.
#[derive(Debug, Clone, Copy, PartialEq, Eq, Structural)]
pub enum DefaultTaskIdError {
    NotPositive,
}

impl DefaultTaskIdError {
    /// The message shown to the user.
    pub fn message(self) -> (r: &'static str)
        ensures
            r@ == "Standard-Task ist ungültig"@,
    {
        match self {
            DefaultTaskIdError::NotPositive => "Standard-Task ist ungültig",
        }
    }
}

impl Default for DefaultTaskId {
    fn default() -> (r: Self)
        ensures
            r.id() is None,
    {
        DefaultTaskId(None)
    }
}

impl DefaultTaskId {
    /// The stored id.
    pub closed spec fn id(self) -> Option<i64> {
        self.0
    }

    /// Accepts no id or a positive id.
    pub fn parse(value: Option<i64>) -> (r: Result<Self, DefaultTaskIdError>)
        ensures
            match value {
                None => r matches Ok(t) && t.id() is None,
                Some(id) => if id >= 1 {
                    r matches Ok(t) && t.id() == Some(id)
                } else {
                    r == Err::<Self, DefaultTaskIdError>(DefaultTaskIdError::NotPositive)
                },
            },
    {
        match value {
            None => Ok(DefaultTaskId(None)),
            Some(id) => if id >= 1 {
                Ok(DefaultTaskId(Some(id)))
            } else {
                Err(DefaultTaskIdError::NotPositive)
            },
        }
    }

    /// The id to store.
    pub fn stored(self) -> (r: Option<i64>)
        ensures
            r == self.id(),
    {
        self.0
    }
}

} // verus!
