//! Verified core of a command-line wrapper around the OpenAPI Generator CLI.
//!
//! The library decides where the generator JAR and the Java runtime live,
//! reads the release metadata that names the versions to fetch, builds the
//! download addresses, plans how a Java runtime archive is unpacked, and
//! builds the command line that launches the generator.

pub mod layout;
pub mod text;
pub mod decimal;
pub mod release;
pub mod archive;
pub mod launch;
