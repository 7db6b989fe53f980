//! Static discovery of an HTTP API's routes from the route-registration code of
//! a server written in TypeScript, and synthesis of one interface-description
//! document per API version.

pub mod syntax;
pub mod resolve;
pub mod text;
pub mod navigate;
pub mod describe;
pub mod assemble;
pub mod laws;
