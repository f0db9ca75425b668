pub mod cache;
pub mod encoding;
pub mod pcs_client;
pub mod platform;
pub mod secret;
pub mod registrar;
pub mod x509;
pub mod certs;
pub mod fake_platform;
pub mod registration;
