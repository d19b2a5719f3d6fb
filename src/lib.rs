//! Verification of hardware-enclave attestation evidence carried in a
//! certificate signing request, with the enclave's fixed-layout
//! configuration types.
pub mod attr;
pub mod evidence;
pub mod misc;
pub mod sgx;
