//! Failures that the engine reports to its callers.

use vstd::prelude::*;

verus! {

/// Why an operation was refused. A refused operation changes nothing.
#[derive(Clone, Copy, Debug, PartialEq, Eq, Structural)]
pub enum QuestError {
    /// Daily target, duration or grace days out of range at creation.
    InvalidParameter,
    /// The caller is not the owner of the quest.
    Unauthorized,
    /// No quest has the given id.
    QuestNotFound,
    /// The quest has already been settled.
    QuestNotActive,
    /// The logging window of the quest is over.
    QuestExpired,
    /// The day already has a log.
    AlreadyLogged,
    /// Settlement was asked for before the quest's end.
    QuestNotFinished,
    /// No position has the given id.
    PositionNotFound,
}

impl QuestError {
    /// The name of the failure, as text.
    pub fn message(&self) -> (text: &'static str)
        ensures
            text@ == (match *self {
                QuestError::InvalidParameter => "invalid parameter"@,
                QuestError::Unauthorized => "unauthorized"@,
                QuestError::QuestNotFound => "quest not found"@,
                QuestError::QuestNotActive => "quest not active"@,
                QuestError::QuestExpired => "quest expired"@,
                QuestError::AlreadyLogged => "already logged"@,
                QuestError::QuestNotFinished => "quest not finished"@,
                QuestError::PositionNotFound => "position not found"@,
            }),
    {
        match self {
            QuestError::InvalidParameter => "invalid parameter",
            QuestError::Unauthorized => "unauthorized",
            QuestError::QuestNotFound => "quest not found",
            QuestError::QuestNotActive => "quest not active",
            QuestError::QuestExpired => "quest expired",
            QuestError::AlreadyLogged => "already logged",
            QuestError::QuestNotFinished => "quest not finished",
            QuestError::PositionNotFound => "position not found",
        }
    }
}

} // verus!
