//! The application's install directory and the executable inside it.

use vstd::prelude::*;
use vstd::string::StringExecFns;

verus! {

/// Name of the directory, under the install base, that holds the executable.
pub const GAME_DIR: &'static str = "game";
/// File name of the executable.
pub const GAME_EXE: &'static str = "ffxiv_dx11.exe";

/// The application's base install directory.
pub struct GameDirectory {
    pub path_buf: String,
}

impl GameDirectory {
    /// The path of the executable: `<base>/game/ffxiv_dx11.exe`.
    pub fn get_exe_path(&self) -> (r: String)
        ensures
            r@ == self.path_buf@ + "/"@ + GAME_DIR@ + "/"@ + GAME_EXE@,
    {
        self.path_buf.clone().concat("/").concat(GAME_DIR).concat("/").concat(GAME_EXE)
    }
}

} // verus!
