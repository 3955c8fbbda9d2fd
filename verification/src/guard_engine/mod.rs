//! The universal guard and its three stages: public data, binding, cleanup.

pub mod cleanup;
pub mod universal;
pub mod verify_binding;
pub mod verify_public;

pub use cleanup::StackCleanup;
pub use universal::{BindingMode, GuardConfig, GuardError, UniversalGuard};
pub use verify_binding::VerifyBinding;
pub use verify_public::VerifyPublicData;
