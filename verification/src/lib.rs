//! Domain logic of the OpenCord server: validation and normalisation of user
//! input, permission evaluation, rate limiting and the decisions that the
//! services make around their stores.
pub mod crypto;
pub mod domain;
pub mod events;
pub mod text;
pub mod time;
