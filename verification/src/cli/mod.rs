pub mod rename_flow;
pub mod rename_session;
