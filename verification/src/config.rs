//! The user's settings. Reading and writing `settings.json` is done by the
//! application; the library holds the values and their defaults.
use vstd::prelude::*;

use std::path::PathBuf;

verus! {

/// `std::path::PathBuf`, carried through the library as an opaque value.
#[verifier::external_type_specification]
#[verifier::external_body]
pub struct ExPathBuf(PathBuf);

/// Where llama-server and the model are, how to run it, and which persona
/// is active.
#[derive(Clone, Debug)]
pub struct Settings {
    pub llama_server_path: Option<PathBuf>,
    pub model_path: Option<PathBuf>,
    pub port: u16,
    pub context_size: u32,
    pub active_persona_id: Option<String>,
}

impl Default for Settings {
    /// No paths configured, port 8090, a 4096-token context, no active
    /// persona chosen.
    fn default() -> (r: Settings)
        ensures
            r.llama_server_path is None,
            r.model_path is None,
            r.port == 8090,
            r.context_size == 4096,
            r.active_persona_id is None,
    {
        Settings {
            llama_server_path: None,
            model_path: None,
            port: 8090,
            context_size: 4096,
            active_persona_id: None,
        }
    }
}

} // verus!
