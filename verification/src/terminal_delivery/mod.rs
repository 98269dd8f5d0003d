//! Durable records of what the broker owes a user at the end of a turn.
//!
//! A record is created once for each response, walks through an approved set of
//! states, and ends delivered or rejected for good. Every step is counted by the
//! record's revision and written to an append-only log.

pub mod answers;
pub mod creation;
pub mod history;
pub mod identity;
pub mod laws;
pub mod record;
pub mod repository;
pub mod state;

pub use self::identity::{
    terminal_delivery_key, validate_against, validate_new, validate_record, validate_safe_field, validate_transition_update,
    TransitionUpdate,
};
pub use self::record::{
    event_from_row, record_from_row, DeliveryEventRow, DeliveryRow, NewTerminalDeliveryRecord,
    TerminalDeliveryEvent, TerminalDeliveryRecordV1, TerminalPayload,
};
pub use self::repository::{
    advanced_row, check_integrity, check_step, choose_existing, schema_action, storage_fault,
    stored_record, validate_rows, SchemaAction, TerminalDeliveryRepository,
};
pub use self::state::{
    TerminalDeliveryError, TerminalDeliveryState, TERMINAL_DELIVERY_PAYLOAD_CONFLICT,
    TERMINAL_DELIVERY_RECORD_VERSION, TERMINAL_DELIVERY_SCHEMA_VERSION,
};
