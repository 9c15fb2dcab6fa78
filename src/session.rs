//! Session parameters, port actions and the start-time plan.
use vstd::prelude::*;
use vstd::string::StringExecFns;

verus! {

/// What the host asks for when it starts a session.
pub struct Config {
    /// Client identifier registered with the audio server.
    pub name: String,
    /// Wire the output port to the first two playback ports at start.
    pub auto_connect: bool,
    /// Emit a frame request to the host on every cycle.
    pub use_callback: bool,
}

/// Audio parameters negotiated with the server when a session starts.
#[derive(Clone, Copy, Debug, PartialEq, Eq, Structural)]
pub struct Pcm {
    pub buffer_size: u32,
    pub sample_rate: usize,
}

/// A connect or disconnect intent between two fully qualified port names.
pub struct PortAction {
    pub connect: bool,
    pub port_from_name: String,
    pub port_to_name: String,
}

/// Why a session could not be started.
#[derive(Clone, Copy, Debug, PartialEq, Eq, Structural)]
pub enum StartError {
    /// The audio server could not be reached.
    ServerUnreachable,
    /// One of the session's ports could not be registered.
    PortRegistration,
    /// The output could not be wired to the playback ports.
    AutoConnect,
}

/// What the host learns of a started session.
pub struct Session {
    pub name: String,
    pub pcm: Pcm,
    /// Names of the ports that the server's graph held when the session started.
    pub existing_ports: Vec<String>,
}

impl PortAction {
    /// Whether this is the action `connect` (or disconnect) from `from` to `to`.
    pub open spec fn is(&self, connect: bool, from: Seq<char>, to: Seq<char>) -> bool {
        &&& self.connect == connect
        &&& self.port_from_name@ == from
        &&& self.port_to_name@ == to
    }

    /// An intent to connect `from` to `to`.
    pub fn connect(from: String, to: String) -> (r: PortAction)
        ensures
            r.is(true, from@, to@),
    {
        PortAction { connect: true, port_from_name: from, port_to_name: to }
    }

    /// An intent to disconnect `from` from `to`.
    pub fn disconnect(from: String, to: String) -> (r: PortAction)
        ensures
            r.is(false, from@, to@),
    {
        PortAction { connect: false, port_from_name: from, port_to_name: to }
    }
}

/// The fully qualified name `client:port` of a port.
pub open spec fn full_name(client: Seq<char>, port: Seq<char>) -> Seq<char> {
    client + ":"@ + port
}

/// Joins a client name and a port's short name into the port's full name.
pub fn port_full_name(client: &str, port: &str) -> (r: String)
    ensures
        r@ == full_name(client@, port@),
{
    let s = String::from_str(client);
    let s = s.concat(":");
    s.concat(port)
}

/// The connect actions that wire the session's output to the playback ports,
/// or none where the configuration does not ask for it.
pub fn auto_connect_plan(config: &Config) -> (r: Vec<PortAction>)
    ensures
        !config.auto_connect ==> r@.len() == 0,
        config.auto_connect ==> {
            &&& r@.len() == 2
            &&& r@[0].is(true, full_name(config.name@, "out"@), "system:playback_1"@)
            &&& r@[1].is(true, full_name(config.name@, "out"@), "system:playback_2"@)
        },
{
    let mut plan: Vec<PortAction> = Vec::new();
    if config.auto_connect {
        let out = port_full_name(config.name.as_str(), "out");
        plan.push(PortAction::connect(out.clone(), String::from_str("system:playback_1")));
        plan.push(PortAction::connect(out, String::from_str("system:playback_2")));
    }
    plan
}

/// The session description handed to the host: the negotiated parameters as
/// the server reported them and the ports present when the session started.
pub fn open_session(config: &Config, buffer_size: u32, sample_rate: usize, existing_ports: Vec<String>) -> (r: Session)
    ensures
        r.name@ == config.name@,
        r.pcm == (Pcm { buffer_size, sample_rate }),
        r.existing_ports@ == existing_ports@,
{
    Session { name: config.name.clone(), pcm: Pcm { buffer_size, sample_rate }, existing_ports }
}

} // verus!
