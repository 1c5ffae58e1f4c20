//! Verified core of the server monitor: message types of the monitoring
//! protocol, the text it shows for them, and the table logic behind the
//! monitor window (projects, servers, logs, users and channel-base nodes).

pub mod text;
pub mod datetime;
pub mod messages;
pub mod paths;
pub mod labels;
pub mod tables;
pub mod projects;
pub mod settings;
pub mod logs;
pub mod servers;
pub mod window;

pub use messages::{
    Variant, MsgPayload, SrvMsg, SE_UNK, SE_SRV, SM_SRV, SE_PRJ, LE_PRJ, AL_PRJ, SE_MAN, SE_MON,
};
pub use datetime::MsgDateTime;
pub use paths::file_name_text;
pub use tables::{Row, Table, make_row};
pub use projects::{ProjectSettings, MonitorConfig, ProjectAction};
pub mod config;
