pub mod classify;
pub mod filter;
pub mod model;
pub mod net;
pub mod net_parse;
pub mod opts;
pub mod output;
pub mod render;
pub mod scan;
pub mod sockets;
pub mod text;
pub mod trusted;
pub mod walker;

pub use model::FDType;
pub use model::ProcessInfo;
pub use opts::Args;
pub use opts::FDSocketDomainFilter;
pub use opts::FDSocketTypeFilter;
