//! Rotation of long-lived access keys for named profiles: the profile
//! registry, the per-profile rotation state machine, the batch coordinator
//! and the non-destructive update of the credentials document.

pub mod aws_config;
pub mod config;
pub mod coordinator;
pub mod document;
pub mod registry;
pub mod rotate_error;
pub mod rotation;
pub mod store;
pub mod text;

pub use aws_config::get_config_path;
pub use aws_config::AWSConfig;
pub use aws_config::ConfigLocation;
pub use aws_config::ConfigType;
pub use config::build_registry;
pub use config::parse_config_files;
pub use config::ConfigError;
pub use config::CredentialField;
pub use coordinator::fan_in;
pub use coordinator::fan_out;
pub use coordinator::outcomes_fit;
pub use coordinator::Dispatch;
pub use coordinator::RotationOutcome;
pub use coordinator::RunReport;
pub use document::Property;
pub use document::Section;
pub use registry::Profile;
pub use registry::ProfileRegistry;
pub use rotate_error::RotateError;
pub use rotation::Action;
pub use rotation::Rotation;
pub use rotation::RotationState;
pub use rotation::ServiceEvent;
pub use store::apply_updates;
pub use store::load;
pub use store::write_credentials;
pub use store::StoreError;
