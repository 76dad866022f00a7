//! The remote session controller of a node manager: it reads connection
//! addresses and credentials, chooses among the identities of the local
//! agent, and says, step by step, what is to be done on an SSH transport to
//! carry out each of the named operations on a remote host, and what the
//! front end is to show of the outcome. The transport itself is the
//! caller's: the library asks for actions and is told what came of them.

pub mod address;
pub mod command;
pub mod credential;
pub mod identity;
pub mod operation;
pub mod protocol;
pub mod run;
pub mod search;
pub mod session;
pub mod text;
pub mod trim;
