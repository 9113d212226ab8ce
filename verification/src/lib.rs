//! Gamehub's library: the catalogues of launchers, tools and compatibility
//! layers, the pacman command lines built from them, and the parsing of what
//! the system tools print.
pub mod config;
pub mod text;
pub mod paths;
pub mod shell;
pub mod pacman;
pub mod tool_manager;
pub mod launcher_manager;
pub mod proton_manager;
pub mod system_info;
pub mod steam_session;
