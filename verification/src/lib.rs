//! Platform-independent core of the Qingjian input-method shells: input mode,
//! candidate session navigation, key routing, MCP framing and the candidate
//! window's layout rules, each stated and proved with Verus.

pub mod mode;
pub mod session;
pub mod keys;
pub mod tsf;
pub mod text;
pub mod protocol;
pub mod mcp;
pub mod data_files;
pub mod window;
pub mod rows;
pub mod settings;
pub mod shell_state;
pub mod dictionaries;
pub mod layout;
pub mod registration;
