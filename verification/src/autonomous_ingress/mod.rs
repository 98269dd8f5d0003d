//! Handing a human turn over to the autonomous runtime.
//!
//! Whether a turn is handed over is decided by configuration and authorisation
//! alone, never by what the prompt says. Once it is, the runtime's answer is
//! final: there is no way back to an ordinary session.

pub mod answers;
pub mod laws;
pub mod objective;
pub mod outcome;
pub mod request;
pub mod routing;

pub use self::objective::{
    assemble_user_objective, extract_canonical_title, resolve_current_human_prompt_authority,
    CANONICAL_TITLE_HEADER, DISCORD_PASTE_FILENAME,
};
pub use self::outcome::{
    check_status, project_error, project_response, AutonomousIngressError, AutonomousIngressResponse,
    AutonomousRouteDisposition,
};
pub use self::request::{
    encode_request, AutonomousIngressDeliveryDestination, AutonomousIngressMetadata,
    AutonomousIngressRequest,
};
pub use self::routing::{
    build_candidate, build_production_client, log_accepted, log_candidate, log_failure,
    should_route_to_aap, AutonomousIngressCandidate, HttpAutonomousIngressClient,
};
