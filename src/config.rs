use vstd::prelude::*;

verus! {

/// The port the server asks for when none is given; only this port may fall
/// back to the next free one.
pub const DEFAULT_PORT: u16 = 3000;

/// What the server is started with.
pub struct DevServerConfig {
    pub port: u16,
    pub base_dir: String,
    pub diff_mode: bool,
    pub no_open_browser: bool,
}

} // verus!
