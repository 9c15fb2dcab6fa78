//! A bridge between a periodic realtime audio callback and an asynchronously
//! scheduled host: frame hand-off, port management, lifecycle supervision and
//! notification mapping, each stated and proved as plain state transitions.
pub mod channel;
pub mod notify;
pub mod process;
pub mod session;
pub mod supervisor;

pub use channel::{
    connect_ports, disconnect_ports, frame_channel, port_action_channel, send_frames, shutdown_channel, stop,
    FrameLengthError, Inbox, PortActionChannel, SendFramesChannel, SenderChannel, ShutdownChannel,
};
pub use notify::{dispatch, port_label, registration_port_label, Notification, PortLookup, ServerEvent};
pub use process::{copy_frames, keep_latest, CycleReport, Processor, MAX_DRAIN};
pub use session::{auto_connect_plan, open_session, port_full_name, Config, Pcm, PortAction, Session, StartError};
pub use supervisor::{step, tick_event, Command, Event, Phase};
