//! Verified core of the NexoSign local signing service.

pub mod text;
pub mod origin_policy;
pub mod allowed_origins;
pub mod codec;
pub mod signing_cert;
pub mod x509;
pub mod der_attrs;
pub mod pades_scan;
pub mod errors;
pub mod paths;
pub mod pdf_validation;
pub mod http_gate;
pub mod batch_job_snapshot;
pub mod clock;
pub mod pending_batch_intent;
pub mod local_api_listen;
pub mod local_api_ops;
pub mod intent_upload;
pub mod pending_intents;
pub mod signed_outputs;
pub mod queue_store;
pub mod sign_batch;
pub mod pades_fields;
pub mod pkcs11_support;
pub mod seal_image;
pub mod user_prompts;
pub mod pkcs11_objects;
pub mod token_session;
