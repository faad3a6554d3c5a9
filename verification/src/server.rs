//! The server hub: the connection registry and the decisions of the
//! hub's main loop.
//!
//! The hub owns four tables indexed by endpoint: the connection, the
//! write half and the read half of the socket, and the handle of the
//! reader task. The types of the last three are the caller's: the hub
//! stores them, hands them back when an endpoint leaves, and never looks
//! inside. An endpoint is in all four tables or in none.
//!
//! The hub performs no I/O. Each operation takes what happened (a control
//! signal, an accepted socket, a message from a queue) and returns what is
//! to be done.

use crate::ansicolors::compile;
use crate::buffers::to_vec;
use crate::connection::{with_line_end, Connection};
use crate::control::ControlSignal;
use crate::endpoint::{Endpoint, EndpointMap};
use crate::settings::Settings;
use vstd::prelude::*;
use vstd::string::*;
use vstd::utf8::encode_utf8;

verus! {

/// Bytes on their way to or from a peer. A message without bytes is the
/// request to disconnect the peer.
#[derive(Debug)]
pub struct NetworkMessage {
    pub dest: Endpoint,
    pub data: Vec<u8>,
}

impl NetworkMessage {
    /// Whether the message asks for the peer to be disconnected.
    pub open spec fn is_sentinel(&self) -> bool {
        self.data@.len() == 0
    }

    /// The request to disconnect `dest`.
    pub fn sentinel(dest: Endpoint) -> (message: NetworkMessage)
        ensures
            message.dest == dest,
            message.data@ == Seq::<u8>::empty(),
    {
        NetworkMessage { dest, data: Vec::new() }
    }

    /// Whether the message asks for the peer to be disconnected.
    pub fn is_disconnect(&self) -> (r: bool)
        ensures
            r == self.is_sentinel(),
    {
        self.data.len() == 0
    }
}

impl Clone for NetworkMessage {
    fn clone(&self) -> (copy: NetworkMessage)
        ensures
            copy.dest == self.dest,
            copy.data@ == self.data@,
    {
        NetworkMessage { dest: self.dest, data: to_vec(self.data.as_slice()) }
    }
}

/// Connections that may wait to be accepted.
pub const LISTEN_BACKLOG: u32 = 1024;

/// Capacity of the queue of outbound network messages.
pub const TX_QUEUE_CAPACITY: usize = 2048;

/// Capacity of each queue of a connection.
pub const CONNECTION_QUEUE_CAPACITY: usize = 256;

/// Capacity of the control bus.
pub const CONTROL_QUEUE_CAPACITY: usize = 4;

/// How the listening socket is to be made.
#[derive(Debug)]
pub struct ListenerConfig {
    /// The interface to listen on; it decides between IPv4 and IPv6.
    pub bind_ip: String,
    pub port: u16,
    /// Whether the address may be bound while an earlier socket lingers.
    pub reuse_addr: bool,
    pub backlog: u32,
}

/// What the hub does with an outbound network message.
pub enum SendAction<W, R, H> {
    /// The endpoint is not registered: the message is dropped.
    Ignore,
    /// Write these bytes to the endpoint's write half.
    Write(NetworkMessage),
    /// The endpoint has left the registry: shut its write half down, and
    /// drop what is handed back here.
    Close { dest: Endpoint, connection: Connection, wr_stream: W, rd_stream: R, rd_handle: H },
}

/// What the hub does on a control signal.
#[derive(Debug)]
pub enum ControlAction {
    /// Nothing changes.
    Unchanged,
    /// First settings: make the listener.
    Listen(ListenerConfig),
    /// The address or the port changed: close the outbound queue, process
    /// what it holds and then `farewells`, make a new queue, drop the old
    /// listener and make a new one.
    Rebind { farewells: Vec<NetworkMessage>, listener: ListenerConfig },
    /// Close the outbound queue, process what it holds and then
    /// `farewells`, and release the shutdown barrier.
    Shutdown { farewells: Vec<NetworkMessage> },
}

/// What arrives at the hub's main loop.
pub enum HubEvent<W, R, H> {
    /// A signal from the control bus.
    Control(ControlSignal),
    /// The listener accepted a socket; its two halves and the handle of
    /// its reader come with it.
    Accepted { addr: Endpoint, wr_stream: W, rd_stream: R, rd_handle: H },
    /// A message from the outbound queue.
    Transmit(NetworkMessage),
    /// A message from the inbound queue.
    Received(NetworkMessage),
}

/// What the hub's main loop does on an event.
pub enum HubAction<W, R, H> {
    /// See `ControlAction`.
    Control(ControlAction),
    /// Spawn the session's tasks and queue its welcome line.
    Welcome(Accepted),
    /// See `SendAction`.
    Send(SendAction<W, R, H>),
    /// Hand the message to the session of its endpoint, if there is one.
    Forward(Option<NetworkMessage>),
}

/// What the hub hands back for an accepted socket.
#[derive(Debug)]
pub struct Accepted {
    /// The new session, for its reader and writer.
    pub connection: Connection,
    /// Whether the reader and the writer are to be spawned.
    pub spawn: bool,
    /// The welcome line, to be queued for the peer.
    pub welcome: NetworkMessage,
}

/// The reason that sessions are given when the server closes them.
pub open spec fn shutdown_reason() -> Seq<char> {
    "Server shutting down"@
}

/// The welcome line of a server named `name`, before compilation.
pub open spec fn welcome_text(name: Seq<char>) -> Seq<char> {
    "$c020PWelcome to "@ + name
}

/// The farewells for the sessions `endpoints`: for each, in order, the
/// reason as a line compiled for the session's ANSI mode, and the request
/// to disconnect it.
pub open spec fn are_farewells(
    messages: Seq<NetworkMessage>,
    endpoints: Seq<Endpoint>,
    connections: EndpointMap<Connection>,
) -> bool {
    &&& messages.len() == 2 * endpoints.len()
    &&& forall|i: int|
        0 <= i < endpoints.len() ==> {
            &&& (#[trigger] messages[2 * i]).dest == endpoints[i]
            &&& messages[2 * i].data@ == compile(
                encode_utf8(with_line_end(shutdown_reason())),
                connections.value_of(endpoints[i]).ansi_mode,
            )
            &&& messages[2 * i + 1].dest == endpoints[i]
            &&& messages[2 * i + 1].data@ == Seq::<u8>::empty()
        }
}

/// The hub's state: the settings in force and the registry.
pub struct Server<W, R, H> {
    initialized: bool,
    shutdown: bool,
    bind_ip: String,
    port: u16,
    wizlocked: bool,
    wizlock_reason: String,
    settings: Option<Settings>,
    connections: EndpointMap<Connection>,
    wr_streams: EndpointMap<W>,
    rd_streams: EndpointMap<R>,
    rd_handles: EndpointMap<H>,
}

impl<W, R, H> Server<W, R, H> {
    /// The table of connections.
    pub closed spec fn connections(&self) -> EndpointMap<Connection> {
        self.connections
    }

    /// The table of write halves.
    pub closed spec fn wr_streams(&self) -> EndpointMap<W> {
        self.wr_streams
    }

    /// The table of read halves.
    pub closed spec fn rd_streams(&self) -> EndpointMap<R> {
        self.rd_streams
    }

    /// The table of reader handles.
    pub closed spec fn rd_handles(&self) -> EndpointMap<H> {
        self.rd_handles
    }

    /// Whether settings have arrived.
    pub closed spec fn initialized(&self) -> bool {
        self.initialized
    }

    /// Whether a shutdown has been asked for.
    pub closed spec fn stopping(&self) -> bool {
        self.shutdown
    }

    /// The settings in force.
    pub closed spec fn settings(&self) -> Option<Settings> {
        self.settings
    }

    /// The address that the listener is bound to.
    pub closed spec fn bind_ip(&self) -> Seq<char> {
        self.bind_ip@
    }

    /// The port that the listener is bound to.
    pub closed spec fn port(&self) -> u16 {
        self.port
    }

    /// Whether new players are kept out.
    pub closed spec fn wizlocked(&self) -> bool {
        self.wizlocked
    }

    /// The explanation that players who are kept out are given.
    pub closed spec fn wizlock_text(&self) -> Seq<char> {
        self.wizlock_reason@
    }

    /// Whether `endpoint` has a session.
    pub open spec fn registered(&self, endpoint: Endpoint) -> bool {
        self.connections().contains(endpoint)
    }

    /// The endpoints with a session, in the order in which they were
    /// accepted.
    pub open spec fn endpoints(&self) -> Seq<Endpoint> {
        self.connections().keys()
    }

    /// Every endpoint is in all four tables or in none.
    pub open spec fn tables_agree(&self) -> bool {
        forall|endpoint: Endpoint|
            {
                &&& self.wr_streams().contains(endpoint) == #[trigger] self.connections().contains(
                    endpoint,
                )
                &&& self.rd_streams().contains(endpoint) == self.connections().contains(endpoint)
                &&& self.rd_handles().contains(endpoint) == self.connections().contains(endpoint)
            }
    }

    /// Settings are in force exactly once the hub is initialized, and the
    /// address, the port and the wizlock are theirs.
    pub open spec fn settings_agree(&self) -> bool {
        &&& self.initialized() == (self.settings() is Some)
        &&& self.settings() is Some ==> {
            let conf = self.settings().unwrap();
            &&& conf.binds(self.bind_ip(), self.port())
            &&& self.wizlocked() == conf.mud.wizlocked
            &&& self.wizlock_text() == conf.mud.wizlock_reason@
        }
    }

    /// Each session stands under its own endpoint, and has been started.
    pub open spec fn sessions_keyed(&self) -> bool {
        forall|endpoint: Endpoint|
            self.connections().contains(endpoint) ==> {
                &&& (#[trigger] self.connections().value_of(endpoint)).addr == endpoint
                &&& self.connections().value_of(endpoint).started
            }
    }

    /// What `accept_connection` brings about: `after` is the hub `before`
    /// with the session, the two halves and the reader handle of `addr`
    /// entered into the four tables, and `accepted` holds the session and
    /// its welcome line.
    pub open spec fn accepts(
        before: Self,
        after: Self,
        addr: Endpoint,
        wr_stream: W,
        rd_stream: R,
        rd_handle: H,
        accepted: Accepted,
    ) -> bool {
        &&& after.registered(addr)
        &&& after.tables_agree()
        &&& forall|other: Endpoint|
            other != addr ==> after.registered(other) == before.registered(other)
        &&& after.endpoints() == if before.registered(addr) {
            before.endpoints()
        } else {
            before.endpoints().push(addr)
        }
        &&& after.wr_streams().value_of(addr) == wr_stream
        &&& after.rd_streams().value_of(addr) == rd_stream
        &&& after.rd_handles().value_of(addr) == rd_handle
        &&& after.connections().value_of(addr).addr == addr
        &&& after.connections().value_of(addr).ansi_mode
        &&& after.connections().value_of(addr).started
        &&& !after.connections().value_of(addr).disconnected
        &&& forall|other: Endpoint|
            other != addr && before.registered(other) ==> {
                &&& after.connections().value_of(other) == before.connections().value_of(
                    other,
                )
                &&& after.wr_streams().value_of(other) == before.wr_streams().value_of(
                    other,
                )
                &&& after.rd_streams().value_of(other) == before.rd_streams().value_of(
                    other,
                )
                &&& after.rd_handles().value_of(other) == before.rd_handles().value_of(
                    other,
                )
            }
        &&& after.initialized() == before.initialized()
        &&& after.stopping() == before.stopping()
        &&& after.settings() == before.settings()
        &&& after.bind_ip() == before.bind_ip()
        &&& after.port() == before.port()
        &&& after.settings_agree()
        &&& accepted.spawn
        &&& accepted.connection.addr == addr
        &&& accepted.connection.ansi_mode
        &&& accepted.connection.started
        &&& !accepted.connection.disconnected
        &&& accepted.welcome.dest == addr
        &&& accepted.welcome.data@ == compile(
            encode_utf8(
                with_line_end(
                    welcome_text(
                        match before.settings() {
                            Some(conf) => conf.mud.name@,
                            None => Seq::empty(),
                        },
                    ),
                ),
            ),
            true,
        )
    }

    /// What `send_message` brings about: the action for `message`, and
    /// the hub `after` it, which differs from the hub `before` only where
    /// the message asks to disconnect a registered endpoint.
    pub open spec fn sends(
        before: Self,
        after: Self,
        message: NetworkMessage,
        action: SendAction<W, R, H>,
    ) -> bool {
        &&& after.tables_agree()
        &&& after.initialized() == before.initialized()
        &&& after.stopping() == before.stopping()
        &&& after.settings() == before.settings()
        &&& after.bind_ip() == before.bind_ip()
        &&& after.port() == before.port()
        &&& after.settings_agree()
        &&& forall|other: Endpoint|
            other != message.dest ==> after.registered(other) == before.registered(
                other,
            )
        &&& forall|other: Endpoint|
            other != message.dest && before.registered(other) ==> {
                &&& after.connections().value_of(other) == before.connections().value_of(
                    other,
                )
                &&& after.wr_streams().value_of(other) == before.wr_streams().value_of(
                    other,
                )
                &&& after.rd_streams().value_of(other) == before.rd_streams().value_of(
                    other,
                )
                &&& after.rd_handles().value_of(other) == before.rd_handles().value_of(
                    other,
                )
            }
        &&& !before.registered(message.dest) ==> action is Ignore && after == before
        &&& before.registered(message.dest) && !message.is_sentinel() ==> {
            &&& action == SendAction::<W, R, H>::Write(message)
            &&& after == before
        }
        &&& before.registered(message.dest) && message.is_sentinel() ==> {
            &&& !after.registered(message.dest)
            &&& !after.wr_streams().contains(message.dest)
            &&& !after.rd_streams().contains(message.dest)
            &&& !after.rd_handles().contains(message.dest)
            &&& after.endpoints() == before.endpoints().remove(
                before.endpoints().index_of(message.dest),
            )
            &&& action matches SendAction::Close {
                dest,
                connection,
                wr_stream,
                rd_stream,
                rd_handle,
            }
            &&& dest == message.dest
            &&& connection == before.connections().value_of(dest)
            &&& wr_stream == before.wr_streams().value_of(dest)
            &&& rd_stream == before.rd_streams().value_of(dest)
            &&& rd_handle == before.rd_handles().value_of(dest)
        }
    }

    /// What `handle_control` brings about: the action for `signal`, and
    /// the hub `after` it. The four tables are those of the hub `before`.
    pub open spec fn controls(
        before: Self,
        after: Self,
        signal: ControlSignal,
        action: ControlAction,
    ) -> bool {
        &&& after.tables_agree()
        &&& after.settings_agree()
        &&& after.connections() == before.connections()
        &&& after.wr_streams() == before.wr_streams()
        &&& after.rd_streams() == before.rd_streams()
        &&& after.rd_handles() == before.rd_handles()
        &&& match signal {
            ControlSignal::Shutdown => {
                &&& after.stopping()
                &&& after.initialized() == before.initialized()
                &&& after.settings() == before.settings()
                &&& after.bind_ip() == before.bind_ip()
                &&& after.port() == before.port()
                &&& action matches ControlAction::Shutdown { farewells }
                &&& are_farewells(farewells@, before.endpoints(), before.connections())
            },
            ControlSignal::Reconfigure(new_settings) => {
                &&& after.stopping() == before.stopping()
                &&& after.initialized()
                &&& if !before.initialized() {
                    &&& after.settings() == Some(new_settings)
                    &&& after.bind_ip() == new_settings.mud.bind_ip@
                    &&& after.port() == new_settings.mud.port
                    &&& action matches ControlAction::Listen(listener)
                    &&& listener.bind_ip@ == new_settings.mud.bind_ip@
                    &&& listener.port == new_settings.mud.port
                    &&& listener.reuse_addr
                    &&& listener.backlog == LISTEN_BACKLOG
                } else if new_settings.binds(before.bind_ip(), before.port()) {
                    &&& action is Unchanged
                    &&& after.settings() == before.settings()
                    &&& after.bind_ip() == before.bind_ip()
                    &&& after.port() == before.port()
                } else {
                    &&& after.settings() == Some(new_settings)
                    &&& after.bind_ip() == new_settings.mud.bind_ip@
                    &&& after.port() == new_settings.mud.port
                    &&& action matches ControlAction::Rebind { farewells, listener }
                    &&& are_farewells(
                        farewells@,
                        before.endpoints(),
                        before.connections(),
                    )
                    &&& listener.bind_ip@ == new_settings.mud.bind_ip@
                    &&& listener.port == new_settings.mud.port
                    &&& listener.reuse_addr
                    &&& listener.backlog == LISTEN_BACKLOG
                }
            }
        }
    }

    /// What `receive_message` answers: the message itself for an endpoint
    /// with a session, nothing otherwise.
    pub open spec fn receives(
        before: Self,
        message: NetworkMessage,
        forward: Option<NetworkMessage>,
    ) -> bool {
        &&& forward is Some == before.registered(message.dest)
        &&& forward is Some ==> forward.unwrap() == message
        &&& before.tables_agree()
    }

    #[verifier::type_invariant]
    spec fn consistent(&self) -> bool {
        self.tables_agree() && self.settings_agree() && self.sessions_keyed()
    }

    /// A hub without settings and without sessions.
    fn empty() -> (server: Server<W, R, H>)
        ensures
            !server.initialized(),
            !server.stopping(),
            server.settings() is None,
            server.endpoints() == Seq::<Endpoint>::empty(),
            server.tables_agree(),
            server.settings_agree(),
    {
        Server {
            initialized: false,
            shutdown: false,
            bind_ip: String::new(),
            port: 0,
            wizlocked: false,
            wizlock_reason: String::new(),
            settings: None,
            connections: EndpointMap::new(),
            wr_streams: EndpointMap::new(),
            rd_streams: EndpointMap::new(),
            rd_handles: EndpointMap::new(),
        }
    }

    /// Moves the state out, and leaves an empty hub behind.
    fn take(&mut self) -> (server: Server<W, R, H>)
        ensures
            server == *old(self),
            server.tables_agree(),
            server.settings_agree(),
            server.sessions_keyed(),
    {
        proof {
            use_type_invariant(&*self);
        }
        let mut server = Server::empty();
        std::mem::swap(self, &mut server);
        server
    }

    /// A hub. With settings it is initialized with them; without, it waits
    /// for its first settings.
    pub fn get(settings: Option<Settings>) -> (server: Server<W, R, H>)
        ensures
            server.initialized() == (settings is Some),
            server.settings() == settings,
            !server.stopping(),
            server.endpoints() == Seq::<Endpoint>::empty(),
            server.tables_agree(),
            server.settings_agree(),
    {
        let mut server = Server::empty();
        server.initialize(settings);
        server
    }

    /// Takes settings. With `Some`, the hub takes the address, the port
    /// and the wizlock from them, forgets every session and is
    /// initialized. With `None`, nothing changes.
    pub fn initialize(&mut self, settings: Option<Settings>)
        ensures
            final(self).stopping() == old(self).stopping(),
            final(self).tables_agree(),
            final(self).settings_agree(),
            match settings {
                Some(conf) => {
                    &&& final(self).initialized()
                    &&& final(self).settings() == Some(conf)
                    &&& final(self).bind_ip() == conf.mud.bind_ip@
                    &&& final(self).port() == conf.mud.port
                    &&& final(self).endpoints() == Seq::<Endpoint>::empty()
                },
                None => *final(self) == *old(self),
            },
    {
        proof {
            use_type_invariant(&*self);
        }
        match settings {
            Some(conf) => {
                let server = Server {
                    initialized: true,
                    shutdown: self.shutdown,
                    bind_ip: conf.mud.bind_ip.clone(),
                    port: conf.mud.port,
                    wizlocked: conf.mud.wizlocked,
                    wizlock_reason: conf.mud.wizlock_reason.clone(),
                    settings: Some(conf),
                    connections: EndpointMap::new(),
                    wr_streams: EndpointMap::new(),
                    rd_streams: EndpointMap::new(),
                    rd_handles: EndpointMap::new(),
                };
                *self = server;
            },
            None => {},
        }
    }

    /// Whether settings have arrived.
    pub fn is_initialized(&self) -> (r: bool)
        ensures
            r == self.initialized(),
    {
        self.initialized
    }

    /// Whether a shutdown has been asked for.
    pub fn is_shutdown(&self) -> (r: bool)
        ensures
            r == self.stopping(),
    {
        self.shutdown
    }

    /// Whether new players are kept out.
    pub fn is_wizlocked(&self) -> (r: bool)
        ensures
            r == self.wizlocked(),
            self.settings_agree(),
    {
        proof {
            use_type_invariant(self);
        }
        self.wizlocked
    }

    /// The explanation that players who are kept out are given.
    pub fn wizlock_reason(&self) -> (reason: &String)
        ensures
            reason@ == self.wizlock_text(),
            self.settings_agree(),
    {
        proof {
            use_type_invariant(self);
        }
        &self.wizlock_reason
    }

    /// Number of sessions.
    pub fn connection_count(&self) -> (n: usize)
        ensures
            n == self.endpoints().len(),
    {
        self.connections.len()
    }

    /// Whether `endpoint` has a session. A registered endpoint is in each
    /// of the four tables, any other in none of them.
    pub fn is_registered(&self, endpoint: Endpoint) -> (r: bool)
        ensures
            r == self.registered(endpoint),
            self.tables_agree(),
            self.sessions_keyed(),
    {
        proof {
            use_type_invariant(self);
        }
        self.connections.contains_key(endpoint)
    }

    /// The session of `endpoint`.
    pub fn connection(&self, endpoint: Endpoint) -> (found: Option<&Connection>)
        ensures
            match found {
                Some(connection) => {
                    &&& self.registered(endpoint)
                    &&& *connection == self.connections().value_of(endpoint)
                    &&& connection.addr == endpoint
                    &&& connection.started
                },
                None => !self.registered(endpoint),
            },
    {
        proof {
            use_type_invariant(self);
        }
        self.connections.get(endpoint)
    }

    /// The write half of `endpoint`.
    pub fn wr_stream(&self, endpoint: Endpoint) -> (found: Option<&W>)
        ensures
            found is Some == self.registered(endpoint),
            found is Some ==> *found.unwrap() == self.wr_streams().value_of(endpoint),
    {
        proof {
            use_type_invariant(self);
        }
        self.wr_streams.get(endpoint)
    }

    /// The read half of `endpoint`.
    pub fn rd_stream(&self, endpoint: Endpoint) -> (found: Option<&R>)
        ensures
            found is Some == self.registered(endpoint),
            found is Some ==> *found.unwrap() == self.rd_streams().value_of(endpoint),
    {
        proof {
            use_type_invariant(self);
        }
        self.rd_streams.get(endpoint)
    }

    /// The reader handle of `endpoint`.
    pub fn rd_handle(&self, endpoint: Endpoint) -> (found: Option<&H>)
        ensures
            found is Some == self.registered(endpoint),
            found is Some ==> *found.unwrap() == self.rd_handles().value_of(endpoint),
    {
        proof {
            use_type_invariant(self);
        }
        self.rd_handles.get(endpoint)
    }

    /// The endpoints with a session, in the order in which they were
    /// accepted.
    pub fn registered_endpoints(&self) -> (endpoints: Vec<Endpoint>)
        ensures
            endpoints@ == self.endpoints(),
            endpoints@.no_duplicates(),
    {
        self.connections.endpoints()
    }

    /// How the listener is to be made: on the address and port in force,
    /// with address reuse and a backlog of 1024. `None` before the first
    /// settings.
    pub fn start_server(&self) -> (listener: Option<ListenerConfig>)
        ensures
            listener is Some == self.initialized(),
            listener is Some ==> {
                &&& listener.unwrap().bind_ip@ == self.bind_ip()
                &&& listener.unwrap().port == self.port()
                &&& listener.unwrap().reuse_addr
                &&& listener.unwrap().backlog == LISTEN_BACKLOG
            },
    {
        proof {
            use_type_invariant(self);
        }
        if self.settings.is_some() {
            Some(
                ListenerConfig {
                    bind_ip: self.bind_ip.clone(),
                    port: self.port,
                    reuse_addr: true,
                    backlog: LISTEN_BACKLOG,
                },
            )
        } else {
            None
        }
    }

    /// The settings in force.
    pub fn get_settings(&self) -> (settings: Option<Settings>)
        ensures
            settings == self.settings(),
    {
        match &self.settings {
            Some(conf) => Some(conf.clone()),
            None => None,
        }
    }

    /// Registers an accepted socket: its session, its two halves and the
    /// handle of its reader enter the four tables together, the session is
    /// started, and the welcome line with the server's name is returned
    /// for the peer. An endpoint that was registered already is replaced
    /// in all four tables.
    pub fn accept_connection(
        &mut self,
        addr: Endpoint,
        wr_stream: W,
        rd_stream: R,
        rd_handle: H,
    ) -> (accepted: Accepted)
        ensures
            Self::accepts(
                *old(self),
                *final(self),
                addr,
                wr_stream,
                rd_stream,
                rd_handle,
                accepted,
            ),
    {
        let Server {
            initialized,
            shutdown,
            bind_ip,
            port,
            wizlocked,
            wizlock_reason,
            settings,
            mut connections,
            mut wr_streams,
            mut rd_streams,
            mut rd_handles,
        } = self.take();
        let ghost before = *old(self);
        rd_streams.insert(addr, rd_stream);
        wr_streams.insert(addr, wr_stream);
        rd_handles.insert(addr, rd_handle);

        let mut connection = Connection::new(addr);
        let spawn = connection.start_processing();
        connections.insert(addr, connection.clone());
        proof {
            assert forall|endpoint: Endpoint|
                {
                    &&& wr_streams.contains(endpoint) == #[trigger] connections.contains(endpoint)
                    &&& rd_streams.contains(endpoint) == connections.contains(endpoint)
                    &&& rd_handles.contains(endpoint) == connections.contains(endpoint)
                } by {
                if endpoint != addr {
                    assert(before.connections().contains(endpoint) == connections.contains(
                        endpoint,
                    ));
                }
            }
            assert forall|endpoint: Endpoint| connections.contains(endpoint) implies {
                &&& (#[trigger] connections.value_of(endpoint)).addr == endpoint
                &&& connections.value_of(endpoint).started
            } by {
                if endpoint != addr {
                    assert(before.connections().contains(endpoint));
                    assert(connections.value_of(endpoint) == before.connections().value_of(
                        endpoint,
                    ));
                }
            }
        }
        let banner = String::from_str("$c020PWelcome to ");
        let welcome = match &settings {
            Some(conf) => connection.send_line(banner.concat(conf.mud.name.as_str())),
            None => connection.send_line(banner),
        };
        proof {
            if settings is None {
                assert(welcome_text(Seq::empty()) =~= "$c020PWelcome to "@);
            }
        }
        *self = Server {
            initialized,
            shutdown,
            bind_ip,
            port,
            wizlocked,
            wizlock_reason,
            settings,
            connections,
            wr_streams,
            rd_streams,
            rd_handles,
        };
        Accepted { connection, spawn, welcome }
    }

    /// What to do with an outbound network message. One for an endpoint
    /// without a session is dropped. The request to disconnect takes the
    /// endpoint out of all four tables and hands back what they held, so
    /// that the write half can be shut down. Any other message is to be
    /// written to the endpoint's write half.
    pub fn send_message(&mut self, message: NetworkMessage) -> (action: SendAction<W, R, H>)
        ensures
            Self::sends(*old(self), *final(self), message, action),
    {
        proof {
            use_type_invariant(&*self);
        }
        let addr = message.dest;
        if !self.wr_streams.contains_key(addr) {
            return SendAction::Ignore;
        }
        if !message.is_disconnect() {
            return SendAction::Write(message);
        }
        let Server {
            initialized,
            shutdown,
            bind_ip,
            port,
            wizlocked,
            wizlock_reason,
            settings,
            mut connections,
            mut wr_streams,
            mut rd_streams,
            mut rd_handles,
        } = self.take();
        let ghost before = *old(self);
        let wr_stream = wr_streams.remove(addr);
        let rd_stream = rd_streams.remove(addr);
        let rd_handle = rd_handles.remove(addr);
        let connection = connections.remove(addr);
        proof {
            assert forall|endpoint: Endpoint|
                {
                    &&& wr_streams.contains(endpoint) == #[trigger] connections.contains(endpoint)
                    &&& rd_streams.contains(endpoint) == connections.contains(endpoint)
                    &&& rd_handles.contains(endpoint) == connections.contains(endpoint)
                } by {
                if endpoint != addr {
                    assert(before.connections().contains(endpoint) == connections.contains(
                        endpoint,
                    ));
                }
            }
            assert forall|endpoint: Endpoint| connections.contains(endpoint) implies {
                &&& (#[trigger] connections.value_of(endpoint)).addr == endpoint
                &&& connections.value_of(endpoint).started
            } by {
                assert(before.connections().contains(endpoint));
                assert(connections.value_of(endpoint) == before.connections().value_of(endpoint));
            }
        }
        *self = Server {
            initialized,
            shutdown,
            bind_ip,
            port,
            wizlocked,
            wizlock_reason,
            settings,
            connections,
            wr_streams,
            rd_streams,
            rd_handles,
        };
        match (connection, wr_stream, rd_stream, rd_handle) {
            (Some(connection), Some(wr_stream), Some(rd_stream), Some(rd_handle)) => {
                SendAction::Close { dest: addr, connection, wr_stream, rd_stream, rd_handle }
            },
            _ => SendAction::Ignore,
        }
    }

    /// What to do with an inbound network message: `Some`, to be handed
    /// to the session of its endpoint; `None`, to be dropped, where the
    /// endpoint has no session.
    pub fn receive_message(&self, message: NetworkMessage) -> (forward: Option<NetworkMessage>)
        ensures
            Self::receives(*self, message, forward),
    {
        proof {
            use_type_invariant(self);
        }
        match self.connections.get(message.dest) {
            Some(item) => {
                if item.started {
                    Some(message)
                } else {
                    None
                }
            },
            None => None,
        }
    }

    /// The messages that turn the peer `addr` away while new players are
    /// kept out: the explanation as a line, if there is one, and the request
    /// to disconnect. None where players are let in, and none for an
    /// endpoint without a session.
    pub fn wizlock_rejection(&self, addr: Endpoint) -> (outbound: Vec<NetworkMessage>)
        ensures
            !(self.wizlocked() && self.registered(addr)) ==> outbound@.len() == 0,
            self.wizlocked() && self.registered(addr) ==> {
                &&& outbound@.len() == if self.wizlock_text().len() > 0 {
                    2int
                } else {
                    1int
                }
                &&& forall|i: int|
                    0 <= i < outbound@.len() ==> (#[trigger] outbound@[i]).dest == addr
                &&& self.wizlock_text().len() > 0 ==> outbound@[0].data@ == compile(
                    encode_utf8(with_line_end(self.wizlock_text())),
                    self.connections().value_of(addr).ansi_mode,
                )
                &&& outbound@.last().data@ == Seq::<u8>::empty()
            },
    {
        proof {
            use_type_invariant(self);
        }
        if !self.wizlocked {
            return Vec::new();
        }
        match self.connections.get(addr) {
            Some(item) => {
                let mut connection = item.clone();
                connection.disconnect(self.wizlock_reason.clone())
            },
            None => Vec::new(),
        }
    }

    /// The farewells for every session, in the order in which the sessions
    /// were accepted.
    pub fn farewells(&self) -> (messages: Vec<NetworkMessage>)
        ensures
            are_farewells(messages@, self.endpoints(), self.connections()),
    {
        proof {
            use_type_invariant(self);
        }
        let endpoints = self.connections.endpoints();
        let mut messages: Vec<NetworkMessage> = Vec::new();
        let mut i: usize = 0;
        while i < endpoints.len()
            invariant
                i <= endpoints@.len(),
                endpoints@ == self.connections().keys(),
                self.sessions_keyed(),
                are_farewells(messages@, endpoints@.take(i as int), self.connections()),
            decreases endpoints@.len() - i,
        {
            let addr = endpoints[i];
            assert(self.connections().keys()[i as int] == addr);
            let ghost before = messages@;
            match self.connections.get(addr) {
                Some(item) => {
                    let mut connection = item.clone();
                    let line = connection.send_line(String::from_str("Server shutting down"));
                    messages.push(line);
                    messages.push(connection.send_raw(&[]));
                },
                None => {
                    assert(false);
                },
            }
            i = i + 1;
            proof {
                let now = endpoints@.take(i as int);
                assert(messages@.len() == 2 * now.len());
                assert forall|j: int| 0 <= j < now.len() implies {
                    &&& (#[trigger] messages@[2 * j]).dest == now[j]
                    &&& messages@[2 * j].data@ == compile(
                        encode_utf8(with_line_end(shutdown_reason())),
                        self.connections().value_of(now[j]).ansi_mode,
                    )
                    &&& messages@[2 * j + 1].dest == now[j]
                    &&& messages@[2 * j + 1].data@ == Seq::<u8>::empty()
                } by {
                    if j < i - 1 {
                        assert(endpoints@.take(i - 1)[j] == now[j]);
                        assert(messages@[2 * j] == before[2 * j]);
                        assert(messages@[2 * j + 1] == before[2 * j + 1]);
                    } else {
                        assert(now[j] == addr);
                        assert(before.len() == 2 * j);
                        assert(messages@[2 * j].dest == addr);
                        assert(messages@[2 * j + 1].dest == addr);
                        assert(messages@[2 * j + 1].data@ =~= Seq::<u8>::empty());
                    }
                }
            }
        }
        assert(endpoints@.take(i as int) =~= endpoints@);
        messages
    }

    /// The hub's answer to a control signal.
    ///
    /// `Shutdown` is recorded, and every session gets its farewell. The
    /// first `Reconfigure` initializes the hub and asks for the listener.
    /// A later one with the same address and port changes nothing, and
    /// disconnects nobody; with another address or port, every session
    /// gets its farewell, the hub takes the new settings, and the listener
    /// is to be made anew. The sessions leave the registry as their
    /// requests to disconnect are processed by `send_message`.
    pub fn handle_control(&mut self, signal: ControlSignal) -> (action: ControlAction)
        ensures
            Self::controls(*old(self), *final(self), signal, action),
    {
        proof {
            use_type_invariant(&*self);
        }
        match signal {
            ControlSignal::Shutdown => {
                let farewells = self.farewells();
                let mut server = self.take();
                server.shutdown = true;
                *self = server;
                ControlAction::Shutdown { farewells }
            },
            ControlSignal::Reconfigure(new_settings) => {
                if self.initialized && new_settings.listens_on(&self.bind_ip, self.port) {
                    return ControlAction::Unchanged;
                }
                let rebind = self.initialized;
                let farewells = self.farewells();
                let listener = ListenerConfig {
                    bind_ip: new_settings.mud.bind_ip.clone(),
                    port: new_settings.mud.port,
                    reuse_addr: true,
                    backlog: LISTEN_BACKLOG,
                };
                let Server {
                    initialized,
                    shutdown,
                    bind_ip,
                    port,
                    wizlocked,
                    wizlock_reason,
                    settings,
                    connections,
                    wr_streams,
                    rd_streams,
                    rd_handles,
                } = self.take();
                *self = Server {
                    initialized: true,
                    shutdown,
                    bind_ip: new_settings.mud.bind_ip.clone(),
                    port: new_settings.mud.port,
                    wizlocked: new_settings.mud.wizlocked,
                    wizlock_reason: new_settings.mud.wizlock_reason.clone(),
                    settings: Some(new_settings),
                    connections,
                    wr_streams,
                    rd_streams,
                    rd_handles,
                };
                if rebind {
                    ControlAction::Rebind { farewells, listener }
                } else {
                    ControlAction::Listen(listener)
                }
            },
        }
    }
}

/// What follows a write to the write half of `dest`: nothing where the
/// write succeeded; where it failed, the request to disconnect `dest`, to
/// be processed like one from the outbound queue.
pub fn write_outcome(dest: Endpoint, failed: bool) -> (next: Option<NetworkMessage>)
    ensures
        next is Some == failed,
        failed ==> next.unwrap().dest == dest && next.unwrap().is_sentinel(),
{
    if failed {
        Some(NetworkMessage::sentinel(dest))
    } else {
        None
    }
}

/// What follows the handing of an inbound message to the session of
/// `dest`: nothing where the session's queue took it; where the queue
/// refused it, the request to disconnect `dest`, to be queued for the
/// outbound side.
pub fn forward_outcome(dest: Endpoint, refused: bool) -> (next: Option<NetworkMessage>)
    ensures
        next is Some == refused,
        refused ==> next.unwrap().dest == dest && next.unwrap().is_sentinel(),
{
    if refused {
        Some(NetworkMessage::sentinel(dest))
    } else {
        None
    }
}

/// The step of the hub's main loop: the hub after `event`, and what is to
/// be done. A control signal goes to `handle_control`, an accepted socket
/// to `accept_connection`, an outbound message to `send_message` and an
/// inbound one to `receive_message`.
pub fn do_server_thread<W, R, H>(server: &mut Server<W, R, H>, event: HubEvent<W, R, H>) -> (action:
    HubAction<W, R, H>)
    ensures
        final(server).tables_agree(),
        match event {
            HubEvent::Control(signal) => {
                &&& action matches HubAction::Control(control)
                &&& Server::controls(*old(server), *final(server), signal, control)
            },
            HubEvent::Accepted { addr, wr_stream, rd_stream, rd_handle } => {
                &&& action matches HubAction::Welcome(accepted)
                &&& Server::accepts(
                    *old(server),
                    *final(server),
                    addr,
                    wr_stream,
                    rd_stream,
                    rd_handle,
                    accepted,
                )
            },
            HubEvent::Transmit(message) => {
                &&& action matches HubAction::Send(send)
                &&& Server::sends(*old(server), *final(server), message, send)
            },
            HubEvent::Received(message) => {
                &&& action matches HubAction::Forward(forward)
                &&& Server::receives(*old(server), message, forward)
                &&& *final(server) == *old(server)
            },
        },
{
    match event {
        HubEvent::Control(signal) => HubAction::Control(server.handle_control(signal)),
        HubEvent::Accepted { addr, wr_stream, rd_stream, rd_handle } => {
            HubAction::Welcome(server.accept_connection(addr, wr_stream, rd_stream, rd_handle))
        },
        HubEvent::Transmit(message) => HubAction::Send(server.send_message(message)),
        HubEvent::Received(message) => {
            HubAction::Forward(server.receive_message(message))
        },
    }
}

} // verus!
