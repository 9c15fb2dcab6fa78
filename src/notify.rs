//! The notification dispatcher: each server event becomes exactly one
//! message for the host.
use vstd::prelude::*;
use vstd::string::StringExecFns;

verus! {

/// What resolving a port id against the server gave.
pub enum PortLookup {
    /// No port has that id.
    Missing,
    /// The port exists but its name could not be read.
    Unnamed,
    /// The port's fully qualified name.
    Named(String),
}

/// A lifecycle or graph event reported by the audio server.
pub enum ServerEvent {
    Shutdown,
    SampleRate(u32),
    ClientRegistration { name: String, registered: bool },
    PortRegistration { id: u32, port: PortLookup, registered: bool },
    PortConnection { a: PortLookup, b: PortLookup, connected: bool },
    Xrun,
}

/// A message delivered to the host.
pub enum Notification {
    Shutdown,
    SampleRate(u32),
    ClientRegister(String),
    ClientUnregister(String),
    PortRegister(u32, String),
    PortUnregister(u32),
    PortsConnected(String, String),
    PortsDisconnected(String, String),
    Xrun,
}

/// The name a connection notification carries for a port: its own, or a
/// placeholder that says why it could not be resolved.
pub open spec fn label(port: PortLookup) -> Seq<char> {
    match port {
        PortLookup::Missing => "error"@,
        PortLookup::Unnamed => "<unknown>"@,
        PortLookup::Named(n) => n@,
    }
}

/// The name a registration notification carries for a port: its own, or
/// the placeholder `<unknown>` when it cannot be resolved for any reason.
pub open spec fn registration_label(port: PortLookup) -> Seq<char> {
    match port {
        PortLookup::Named(n) => n@,
        _ => "<unknown>"@,
    }
}

/// The one notification that a server event produces.
pub open spec fn notification_matches(event: ServerEvent, n: Notification) -> bool {
    match event {
        ServerEvent::Shutdown => n is Shutdown,
        ServerEvent::SampleRate(rate) => n == Notification::SampleRate(rate),
        ServerEvent::ClientRegistration { name, registered } => if registered {
            n matches Notification::ClientRegister(m) && m@ == name@
        } else {
            n matches Notification::ClientUnregister(m) && m@ == name@
        },
        ServerEvent::PortRegistration { id, port, registered } => if registered {
            n matches Notification::PortRegister(i, m) && i == id && m@ == registration_label(port)
        } else {
            n == Notification::PortUnregister(id)
        },
        ServerEvent::PortConnection { a, b, connected } => if connected {
            n matches Notification::PortsConnected(x, y) && x@ == label(a) && y@ == label(b)
        } else {
            n matches Notification::PortsDisconnected(x, y) && x@ == label(a) && y@ == label(b)
        },
        ServerEvent::Xrun => n is Xrun,
    }
}

/// The name to report for a port: its own, or a placeholder that says why
/// it could not be resolved.
pub fn port_label(port: PortLookup) -> (r: String)
    ensures
        r@ == label(port),
{
    match port {
        PortLookup::Missing => String::from_str("error"),
        PortLookup::Unnamed => String::from_str("<unknown>"),
        PortLookup::Named(n) => n,
    }
}

/// The name to report for a port that registered.
pub fn registration_port_label(port: PortLookup) -> (r: String)
    ensures
        r@ == registration_label(port),
{
    match port {
        PortLookup::Named(n) => n,
        _ => String::from_str("<unknown>"),
    }
}

/// Translates a server event into the notification for the host.
pub fn dispatch(event: ServerEvent) -> (r: Notification)
    ensures
        notification_matches(event, r),
{
    match event {
        ServerEvent::Shutdown => Notification::Shutdown,
        ServerEvent::SampleRate(rate) => Notification::SampleRate(rate),
        ServerEvent::ClientRegistration { name, registered } => if registered {
            Notification::ClientRegister(name)
        } else {
            Notification::ClientUnregister(name)
        },
        ServerEvent::PortRegistration { id, port, registered } => if registered {
            Notification::PortRegister(id, registration_port_label(port))
        } else {
            Notification::PortUnregister(id)
        },
        ServerEvent::PortConnection { a, b, connected } => {
            let x = port_label(a);
            let y = port_label(b);
            if connected {
                Notification::PortsConnected(x, y)
            } else {
                Notification::PortsDisconnected(x, y)
            }
        },
        ServerEvent::Xrun => Notification::Xrun,
    }
}

} // verus!
