//! Dispatches an invocation to a managed tool: the name the process was
//! started under selects the tool, whose exit code becomes the process's own.
pub mod alias;
pub mod dispatch;
pub mod identity;
