//! Hold-to-dictate trigger: a listen-only key-flag tap feeds raw events into a
//! small state machine that emits one start/stop signal pair per key hold; a
//! supervisor decides how to keep the tap alive across OS-initiated failures.

pub mod focus;
pub mod supervisor;
pub mod trigger;
pub mod trigger_laws;
