//! The states of a delivery and the ways in which an operation on one fails.

use vstd::prelude::*;
use vstd::string::*;

use crate::decimal::{decimal, decimal_text};
use crate::text::{joined, same_text};

verus! {

pub const TERMINAL_DELIVERY_SCHEMA_VERSION: i32 = 1;

pub const TERMINAL_DELIVERY_RECORD_VERSION: i32 = 1;

pub const TERMINAL_DELIVERY_PAYLOAD_CONFLICT: &'static str = "TERMINAL_DELIVERY_PAYLOAD_CONFLICT";

#[derive(Debug, Clone, Copy, PartialEq, Eq, Structural)]
pub enum TerminalDeliveryState {
    PendingResult,
    ReadyToDeliver,
    Delivering,
    RetryScheduled,
    Ambiguous,
    Delivered,
    PermanentRejected,
    OperatorHold,
}

/// Why an operation on a delivery failed.
#[derive(Debug, Clone, PartialEq, Eq)]
pub enum TerminalDeliveryError {
    Storage(String),
    SchemaVersion { found: i32 },
    Corrupt(String),
    MalformedRecord(String),
    InvalidInput(&'static str),
    PayloadConflict { code: &'static str },
    IllegalTransition { from: TerminalDeliveryState, to: TerminalDeliveryState },
    ImmutableTerminalState(TerminalDeliveryState),
    RevisionConflict { expected: u64, actual: u64 },
    DiscordMessageIdWriteOnce,
    UnsafeAuditField(&'static str),
}

/// An error, over texts.
pub enum Fault {
    Storage(Seq<char>),
    SchemaVersion(i32),
    Corrupt(Seq<char>),
    MalformedRecord(Seq<char>),
    InvalidInput(Seq<char>),
    PayloadConflict(Seq<char>),
    IllegalTransition(TerminalDeliveryState, TerminalDeliveryState),
    ImmutableTerminalState(TerminalDeliveryState),
    RevisionConflict(u64, u64),
    DiscordMessageIdWriteOnce,
    UnsafeAuditField(Seq<char>),
}

impl View for TerminalDeliveryError {
    type V = Fault;

    open spec fn view(&self) -> Fault {
        match self {
            TerminalDeliveryError::Storage(d) => Fault::Storage(d@),
            TerminalDeliveryError::SchemaVersion { found } => Fault::SchemaVersion(*found),
            TerminalDeliveryError::Corrupt(d) => Fault::Corrupt(d@),
            TerminalDeliveryError::MalformedRecord(d) => Fault::MalformedRecord(d@),
            TerminalDeliveryError::InvalidInput(f) => Fault::InvalidInput(f@),
            TerminalDeliveryError::PayloadConflict { code } => Fault::PayloadConflict(code@),
            TerminalDeliveryError::IllegalTransition { from, to } => Fault::IllegalTransition(
                *from,
                *to,
            ),
            TerminalDeliveryError::ImmutableTerminalState(s) => Fault::ImmutableTerminalState(*s),
            TerminalDeliveryError::RevisionConflict { expected, actual } => Fault::RevisionConflict(
                *expected,
                *actual,
            ),
            TerminalDeliveryError::DiscordMessageIdWriteOnce => Fault::DiscordMessageIdWriteOnce,
            TerminalDeliveryError::UnsafeAuditField(f) => Fault::UnsafeAuditField(f@),
        }
    }
}

/// The state that a text names.
pub open spec fn state_named(s: Seq<char>) -> Option<TerminalDeliveryState> {
    if s == "PENDING_RESULT"@ {
        Some(TerminalDeliveryState::PendingResult)
    } else if s == "READY_TO_DELIVER"@ {
        Some(TerminalDeliveryState::ReadyToDeliver)
    } else if s == "DELIVERING"@ {
        Some(TerminalDeliveryState::Delivering)
    } else if s == "RETRY_SCHEDULED"@ {
        Some(TerminalDeliveryState::RetryScheduled)
    } else if s == "AMBIGUOUS"@ {
        Some(TerminalDeliveryState::Ambiguous)
    } else if s == "DELIVERED"@ {
        Some(TerminalDeliveryState::Delivered)
    } else if s == "PERMANENT_REJECTED"@ {
        Some(TerminalDeliveryState::PermanentRejected)
    } else if s == "OPERATOR_HOLD"@ {
        Some(TerminalDeliveryState::OperatorHold)
    } else {
        None
    }
}

impl TerminalDeliveryState {
    /// The name of the state.
    pub open spec fn text(self) -> Seq<char> {
        match self {
            TerminalDeliveryState::PendingResult => "PENDING_RESULT"@,
            TerminalDeliveryState::ReadyToDeliver => "READY_TO_DELIVER"@,
            TerminalDeliveryState::Delivering => "DELIVERING"@,
            TerminalDeliveryState::RetryScheduled => "RETRY_SCHEDULED"@,
            TerminalDeliveryState::Ambiguous => "AMBIGUOUS"@,
            TerminalDeliveryState::Delivered => "DELIVERED"@,
            TerminalDeliveryState::PermanentRejected => "PERMANENT_REJECTED"@,
            TerminalDeliveryState::OperatorHold => "OPERATOR_HOLD"@,
        }
    }

    /// A state that nothing leaves.
    pub open spec fn terminal(self) -> bool {
        self is Delivered || self is PermanentRejected
    }

    /// The approved steps.
    pub open spec fn may_become(self, next: TerminalDeliveryState) -> bool {
        match self {
            TerminalDeliveryState::PendingResult => next is ReadyToDeliver || next is OperatorHold,
            TerminalDeliveryState::ReadyToDeliver => next is Delivering || next is OperatorHold,
            TerminalDeliveryState::Delivering => next is Delivered || next is RetryScheduled
                || next is PermanentRejected || next is Ambiguous,
            TerminalDeliveryState::RetryScheduled => next is Delivering || next is OperatorHold,
            TerminalDeliveryState::Ambiguous => next is Delivered || next is OperatorHold,
            TerminalDeliveryState::OperatorHold => next is ReadyToDeliver || next is Delivered
                || next is PermanentRejected,
            TerminalDeliveryState::Delivered => false,
            TerminalDeliveryState::PermanentRejected => false,
        }
    }

    pub fn as_str(self) -> (r: &'static str)
        ensures
            r@ == self.text(),
    {
        match self {
            TerminalDeliveryState::PendingResult => "PENDING_RESULT",
            TerminalDeliveryState::ReadyToDeliver => "READY_TO_DELIVER",
            TerminalDeliveryState::Delivering => "DELIVERING",
            TerminalDeliveryState::RetryScheduled => "RETRY_SCHEDULED",
            TerminalDeliveryState::Ambiguous => "AMBIGUOUS",
            TerminalDeliveryState::Delivered => "DELIVERED",
            TerminalDeliveryState::PermanentRejected => "PERMANENT_REJECTED",
            TerminalDeliveryState::OperatorHold => "OPERATOR_HOLD",
        }
    }

    pub fn parse(value: &str) -> (r: Result<TerminalDeliveryState, TerminalDeliveryError>)
        ensures
            match state_named(value@) {
                Some(s) => r == Ok::<TerminalDeliveryState, TerminalDeliveryError>(s),
                None => r is Err && r->Err_0@ == Fault::MalformedRecord("unknown state"@),
            },
    {
        if same_text(value, "PENDING_RESULT") {
            Ok(TerminalDeliveryState::PendingResult)
        } else if same_text(value, "READY_TO_DELIVER") {
            Ok(TerminalDeliveryState::ReadyToDeliver)
        } else if same_text(value, "DELIVERING") {
            Ok(TerminalDeliveryState::Delivering)
        } else if same_text(value, "RETRY_SCHEDULED") {
            Ok(TerminalDeliveryState::RetryScheduled)
        } else if same_text(value, "AMBIGUOUS") {
            Ok(TerminalDeliveryState::Ambiguous)
        } else if same_text(value, "DELIVERED") {
            Ok(TerminalDeliveryState::Delivered)
        } else if same_text(value, "PERMANENT_REJECTED") {
            Ok(TerminalDeliveryState::PermanentRejected)
        } else if same_text(value, "OPERATOR_HOLD") {
            Ok(TerminalDeliveryState::OperatorHold)
        } else {
            Err(TerminalDeliveryError::MalformedRecord("unknown state".to_owned()))
        }
    }

    pub fn is_terminal(self) -> (r: bool)
        ensures
            r == self.terminal(),
    {
        matches!(self, TerminalDeliveryState::Delivered | TerminalDeliveryState::PermanentRejected)
    }

    pub fn may_transition_to(self, next: TerminalDeliveryState) -> (r: bool)
        ensures
            r == self.may_become(next),
    {
        match self {
            TerminalDeliveryState::PendingResult => matches!(
                next,
                TerminalDeliveryState::ReadyToDeliver | TerminalDeliveryState::OperatorHold
            ),
            TerminalDeliveryState::ReadyToDeliver => matches!(
                next,
                TerminalDeliveryState::Delivering | TerminalDeliveryState::OperatorHold
            ),
            TerminalDeliveryState::Delivering => matches!(
                next,
                TerminalDeliveryState::Delivered | TerminalDeliveryState::RetryScheduled
                    | TerminalDeliveryState::PermanentRejected | TerminalDeliveryState::Ambiguous
            ),
            TerminalDeliveryState::RetryScheduled => matches!(
                next,
                TerminalDeliveryState::Delivering | TerminalDeliveryState::OperatorHold
            ),
            TerminalDeliveryState::Ambiguous => matches!(
                next,
                TerminalDeliveryState::Delivered | TerminalDeliveryState::OperatorHold
            ),
            TerminalDeliveryState::OperatorHold => matches!(
                next,
                TerminalDeliveryState::ReadyToDeliver | TerminalDeliveryState::Delivered
                    | TerminalDeliveryState::PermanentRejected
            ),
            TerminalDeliveryState::Delivered => false,
            TerminalDeliveryState::PermanentRejected => false,
        }
    }
}

/// A number in decimal, with a minus sign where it is negative.
pub open spec fn signed_decimal(n: int) -> Seq<char> {
    if n < 0 {
        "-"@ + decimal((-n) as nat)
    } else {
        decimal(n as nat)
    }
}

fn signed_text(n: i32) -> (r: String)
    ensures
        r@ == signed_decimal(n as int),
{
    if n < 0 {
        joined("-", decimal_text((-(n as i64)) as u64).as_str())
    } else {
        decimal_text(n as u64)
    }
}

/// How an error reads.
pub open spec fn fault_message(f: Fault) -> Seq<char> {
    match f {
        Fault::Storage(d) => "terminal delivery storage failure: "@ + d,
        Fault::SchemaVersion(found) => "unsupported terminal delivery schema version "@
            + signed_decimal(found as int),
        Fault::Corrupt(d) => "terminal delivery database corruption: "@ + d,
        Fault::MalformedRecord(d) => "malformed terminal delivery record: "@ + d,
        Fault::InvalidInput(field) => "invalid terminal delivery input: "@ + field,
        Fault::PayloadConflict(code) => "terminal delivery payload conflict: "@ + code,
        Fault::IllegalTransition(from, to) => "illegal terminal delivery transition: "@
            + from.text() + " -> "@ + to.text(),
        Fault::ImmutableTerminalState(state) => "terminal delivery state is immutable: "@
            + state.text(),
        Fault::RevisionConflict(expected, actual) => "terminal delivery revision conflict: expected "@
            + decimal(expected as nat) + ", actual "@ + decimal(actual as nat),
        Fault::DiscordMessageIdWriteOnce => "discord_message_id is write-once"@,
        Fault::UnsafeAuditField(field) => "unsafe terminal delivery audit field: "@ + field,
    }
}

impl TerminalDeliveryError {
    /// How the error reads.
    pub fn message(&self) -> (r: String)
        ensures
            r@ == fault_message(self@),
    {
        match self {
            TerminalDeliveryError::Storage(d) => joined(
                "terminal delivery storage failure: ",
                d.as_str(),
            ),
            TerminalDeliveryError::SchemaVersion { found } => joined(
                "unsupported terminal delivery schema version ",
                signed_text(*found).as_str(),
            ),
            TerminalDeliveryError::Corrupt(d) => joined(
                "terminal delivery database corruption: ",
                d.as_str(),
            ),
            TerminalDeliveryError::MalformedRecord(d) => joined(
                "malformed terminal delivery record: ",
                d.as_str(),
            ),
            TerminalDeliveryError::InvalidInput(f) => joined("invalid terminal delivery input: ", f),
            TerminalDeliveryError::PayloadConflict { code } => joined(
                "terminal delivery payload conflict: ",
                code,
            ),
            TerminalDeliveryError::IllegalTransition { from, to } => {
                let mut r = joined("illegal terminal delivery transition: ", from.as_str());
                r.append(" -> ");
                r.append(to.as_str());
                r
            },
            TerminalDeliveryError::ImmutableTerminalState(s) => joined(
                "terminal delivery state is immutable: ",
                s.as_str(),
            ),
            TerminalDeliveryError::RevisionConflict { expected, actual } => {
                let mut r = joined(
                    "terminal delivery revision conflict: expected ",
                    decimal_text(*expected).as_str(),
                );
                r.append(", actual ");
                r.append(decimal_text(*actual).as_str());
                r
            },
            TerminalDeliveryError::DiscordMessageIdWriteOnce => "discord_message_id is write-once".to_owned(),
            TerminalDeliveryError::UnsafeAuditField(f) => joined(
                "unsafe terminal delivery audit field: ",
                f,
            ),
        }
    }
}

/// The name of a state is read back as that state.
pub proof fn state_name_round_trip(s: TerminalDeliveryState)
    ensures
        state_named(s.text()) == Some(s),
{
    reveal_strlit("PENDING_RESULT");
    reveal_strlit("READY_TO_DELIVER");
    reveal_strlit("DELIVERING");
    reveal_strlit("RETRY_SCHEDULED");
    reveal_strlit("AMBIGUOUS");
    reveal_strlit("DELIVERED");
    reveal_strlit("PERMANENT_REJECTED");
    reveal_strlit("OPERATOR_HOLD");
    assert("PENDING_RESULT"@.len() == 14);
    assert("READY_TO_DELIVER"@.len() == 16);
    assert("DELIVERING"@.len() == 10);
    assert("RETRY_SCHEDULED"@.len() == 15);
    assert("PERMANENT_REJECTED"@.len() == 18);
    assert("OPERATOR_HOLD"@.len() == 13);
    assert("AMBIGUOUS"@.len() == 9 && "DELIVERED"@.len() == 9);
    assert("AMBIGUOUS"@[0] != "DELIVERED"@[0]);
}

/// Nothing leaves a terminal state, and nothing enters the first one.
pub proof fn terminal_states_are_final(from: TerminalDeliveryState, to: TerminalDeliveryState)
    ensures
        from.terminal() ==> !from.may_become(to),
        !from.may_become(TerminalDeliveryState::PendingResult),
        !from.terminal() ==> exists|next: TerminalDeliveryState| from.may_become(next),
{
    if !from.terminal() {
        if from is PendingResult || from is OperatorHold {
            assert(from.may_become(TerminalDeliveryState::ReadyToDeliver));
        } else if from is Delivering || from is Ambiguous {
            assert(from.may_become(TerminalDeliveryState::Delivered));
        } else {
            assert(from.may_become(TerminalDeliveryState::Delivering));
        }
    }
}

} // verus!
