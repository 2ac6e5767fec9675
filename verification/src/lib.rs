//! Finding the wheels installed in a Python virtual environment and packing them again.
//!
//! - `bytes`: byte strings, their lines and decimal numbers.
//! - `file_path`: file system paths as lists of components.
//! - `version`: the version of a Python interpreter.
//! - `script`: telling Python scripts from other files, and their placeholder shebang.
//! - `install`: where an environment installs files, and which wheels it holds.
//! - `wheel`: installed wheels, and where in a wheel each of its files goes.
//! - `laws`: what holds of all this as a whole.
//! - `byte_laws`, `path_laws`, `script_laws`, `install_laws`, `wheel_laws`: what the result of each
//!   function is, in the `terms` of single bytes and components.
//! - `outside`: the calls into std, `regex`, `zip` and `pelite`.

pub mod byte_laws;
pub mod bytes;
pub mod file_path;
pub mod install;
pub mod install_laws;
pub mod laws;
pub mod outside;
pub mod path_laws;
pub mod script;
pub mod script_laws;
pub mod terms;
pub mod version;
pub mod wheel;
pub mod wheel_laws;
