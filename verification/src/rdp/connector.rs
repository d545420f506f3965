//! The connection state machine.

use vstd::prelude::*;

use crate::proto::pdu::{DecodeError, EncodeError};
use crate::rdp::config::{ClientCoreData, ClientNetworkData, ClientSecurityData, ConnectorConfig};
use crate::text;

verus! {

/// Standard RDP security.
pub const PROTOCOL_RDP: u32 = 0;

/// TLS.
pub const PROTOCOL_SSL: u32 = 1;

/// A request to the server.
#[derive(Debug, Clone, PartialEq, Eq)]
pub enum Request {
    /// X.224 Connection Request, with the protocols to negotiate.
    Connection {
        /// Optional routing token / cookie.
        cookie: Option<String>,
        /// Protocols to request during negotiation.
        requested_protocols: u32,
    },
    /// MCS Connect Initial, with the GCC client data.
    ConnectInitial {
        /// GCC client core data.
        core: ClientCoreData,
        /// GCC client security data.
        security: ClientSecurityData,
        /// GCC client network data.
        network: ClientNetworkData,
    },
    /// MCS Erect Domain Request.
    ErectDomain,
    /// MCS Attach User Request.
    AttachUser,
    /// MCS Channel Join Request.
    ChannelJoin {
        /// The user that joins.
        user_id: u16,
        /// The channel it joins.
        channel_id: u16,
    },
}

/// What a [`Request`] holds.
pub enum RequestView {
    /// See [`Request::Connection`].
    Connection {
        /// Optional routing token / cookie.
        cookie: Option<Seq<char>>,
        /// Protocols to request during negotiation.
        requested_protocols: u32,
    },
    /// See [`Request::ConnectInitial`].
    ConnectInitial {
        /// GCC client core data.
        core: ClientCoreData,
        /// GCC client security data.
        security: ClientSecurityData,
        /// GCC client network data.
        network: Seq<crate::rdp::config::ChannelDef>,
    },
    /// See [`Request::ErectDomain`].
    ErectDomain,
    /// See [`Request::AttachUser`].
    AttachUser,
    /// See [`Request::ChannelJoin`].
    ChannelJoin {
        /// The user that joins.
        user_id: u16,
        /// The channel it joins.
        channel_id: u16,
    },
}

/// What an optional cookie holds.
pub open spec fn cookie_view(cookie: Option<String>) -> Option<Seq<char>> {
    match cookie {
        None => None,
        Some(s) => Some(s@),
    }
}

impl View for Request {
    type V = RequestView;

    open spec fn view(&self) -> RequestView {
        match self {
            Request::Connection { cookie, requested_protocols } => RequestView::Connection {
                cookie: cookie_view(*cookie),
                requested_protocols: *requested_protocols,
            },
            Request::ConnectInitial { core, security, network } => RequestView::ConnectInitial {
                core: *core,
                security: *security,
                network: network.channels@,
            },
            Request::ErectDomain => RequestView::ErectDomain,
            Request::AttachUser => RequestView::AttachUser,
            Request::ChannelJoin { user_id, channel_id } => RequestView::ChannelJoin {
                user_id: *user_id,
                channel_id: *channel_id,
            },
        }
    }
}

/// A reply of the server.
#[derive(Debug, Clone, PartialEq, Eq)]
pub enum Reply {
    /// X.224 Connection Confirm without negotiation data.
    Confirmed,
    /// X.224 Connection Confirm with the protocol that the server selected.
    Selected(u32),
    /// X.224 Connection Confirm with the reason why negotiation failed.
    Refused(u32),
    /// MCS Connect Response.
    ConnectResponse {
        /// Zero on success.
        result: u8,
        /// The channels, if the server gave them.
        network: Option<ServerNetwork>,
    },
    /// MCS Attach User Confirm.
    AttachUserConfirm {
        /// Zero on success.
        result: u8,
        /// The user channel the server assigned.
        user_id: u16,
    },
    /// MCS Channel Join Confirm.
    ChannelJoinConfirm {
        /// Zero on success.
        result: u8,
        /// The channel that was joined.
        channel_id: u16,
    },
}

/// The channels that a server gave.
#[derive(Debug, Clone, PartialEq, Eq)]
pub struct ServerNetwork {
    /// MCS I/O channel id.
    pub mcs_channel_id: u16,
    /// The virtual channels.
    pub channel_ids: Vec<u16>,
}

/// What a [`Reply`] holds.
pub enum ReplyView {
    /// See [`Reply::Confirmed`].
    Confirmed,
    /// See [`Reply::Selected`].
    Selected(u32),
    /// See [`Reply::Refused`].
    Refused(u32),
    /// See [`Reply::ConnectResponse`].
    ConnectResponse {
        /// Zero on success.
        result: u8,
        /// The I/O channel and the virtual channels, if the server gave them.
        network: Option<(u16, Seq<u16>)>,
    },
    /// See [`Reply::AttachUserConfirm`].
    AttachUserConfirm {
        /// Zero on success.
        result: u8,
        /// The user channel the server assigned.
        user_id: u16,
    },
    /// See [`Reply::ChannelJoinConfirm`].
    ChannelJoinConfirm {
        /// Zero on success.
        result: u8,
        /// The channel that was joined.
        channel_id: u16,
    },
}

impl View for Reply {
    type V = ReplyView;

    open spec fn view(&self) -> ReplyView {
        match self {
            Reply::Confirmed => ReplyView::Confirmed,
            Reply::Selected(protocol) => ReplyView::Selected(*protocol),
            Reply::Refused(code) => ReplyView::Refused(*code),
            Reply::ConnectResponse { result, network } => ReplyView::ConnectResponse {
                result: *result,
                network: match network {
                    None => None,
                    Some(n) => Some((n.mcs_channel_id, n.channel_ids@)),
                },
            },
            Reply::AttachUserConfirm { result, user_id } => ReplyView::AttachUserConfirm {
                result: *result,
                user_id: *user_id,
            },
            Reply::ChannelJoinConfirm { result, channel_id } => ReplyView::ChannelJoinConfirm {
                result: *result,
                channel_id: *channel_id,
            },
        }
    }
}

/// Action the caller must perform on behalf of the connector.
#[derive(Debug, Clone, PartialEq, Eq)]
pub enum CoreOutput {
    /// Encode this request and send it to the server.
    SendData(Request),
    /// Upgrade the transport to TLS and then call `resume_after_tls`.
    UpgradeToTls,
    /// The MCS channel join phase is complete.
    Connected {
        /// Protocol selected during negotiation.
        selected_protocol: u32,
        /// MCS user channel id assigned by the server.
        user_channel: u16,
        /// MCS I/O channel id.
        io_channel: u16,
    },
}

/// What a [`CoreOutput`] holds.
pub enum CoreOutputView {
    /// See [`CoreOutput::SendData`].
    SendData(RequestView),
    /// See [`CoreOutput::UpgradeToTls`].
    UpgradeToTls,
    /// See [`CoreOutput::Connected`].
    Connected {
        /// Protocol selected during negotiation.
        selected_protocol: u32,
        /// MCS user channel id assigned by the server.
        user_channel: u16,
        /// MCS I/O channel id.
        io_channel: u16,
    },
}

impl View for CoreOutput {
    type V = CoreOutputView;

    open spec fn view(&self) -> CoreOutputView {
        match self {
            CoreOutput::SendData(request) => CoreOutputView::SendData(request@),
            CoreOutput::UpgradeToTls => CoreOutputView::UpgradeToTls,
            CoreOutput::Connected {
                selected_protocol,
                user_channel,
                io_channel,
            } => CoreOutputView::Connected {
                selected_protocol: *selected_protocol,
                user_channel: *user_channel,
                io_channel: *io_channel,
            },
        }
    }
}

/// What some outputs hold.
pub open spec fn output_views(outputs: Seq<CoreOutput>) -> Seq<CoreOutputView> {
    outputs.map_values(|output: CoreOutput| output@)
}

/// Current state of the RDP connection sequence.
#[derive(Debug, Clone, Copy, PartialEq, Eq, Structural)]
pub enum ConnectorState {
    /// No data has been sent yet.
    Initial,
    /// The X.224 Connection Request has been sent.
    SentConnectionRequest,
    /// TLS upgrade has been requested.
    NeedTls,
    /// The MCS Connect Initial has been sent.
    SentConnectInitial,
    /// The Erect Domain Request and Attach User Request have been sent.
    SentErectAttach,
    /// Channel join requests are in progress.
    JoiningChannels,
    /// The connection sequence is complete.
    Connected,
}

/// Error type for the connector state machine.
#[derive(Debug, Clone, Copy, PartialEq, Eq)]
pub enum CoreError {
    /// Decoding a received PDU failed.
    Decode(DecodeError),
    /// Encoding an outbound PDU failed.
    Encode(EncodeError),
    /// The operation is not valid in the current state.
    UnexpectedState,
    /// The server refused the requested protocol.
    NegotiationFailed(u32),
    /// The MCS Connect-Response indicated failure.
    ConnectResponseFailed(u8),
    /// A channel join was rejected by the server.
    ChannelJoinFailed(u16),
}

impl CoreError {
    /// The error in words.
    pub open spec fn words(self) -> Seq<char> {
        match self {
            CoreError::Decode(error) => "decode error: "@ + error.words(),
            CoreError::Encode(error) => "encode error: "@ + error.words(),
            CoreError::UnexpectedState => "unexpected connector state"@,
            CoreError::NegotiationFailed(code) => "negotiation failed: "@ + text::decimal(
                code as nat,
            ),
            CoreError::ConnectResponseFailed(result) => "connect response failed: "@
                + text::decimal(result as nat),
            CoreError::ChannelJoinFailed(channel_id) => "channel join failed: "@ + text::decimal(
                channel_id as nat,
            ),
        }
    }

    /// The error in words.
    pub fn message(&self) -> (r: String)
        ensures
            r@ == self.words(),
    {
        match self {
            CoreError::Decode(error) => {
                let mut out = "decode error: ".to_owned();
                text::push_str(&mut out, error.message().as_str());
                out
            },
            CoreError::Encode(error) => {
                let mut out = "encode error: ".to_owned();
                text::push_str(&mut out, error.message().as_str());
                out
            },
            CoreError::UnexpectedState => "unexpected connector state".to_owned(),
            CoreError::NegotiationFailed(code) => {
                let mut out = "negotiation failed: ".to_owned();
                text::push_decimal(&mut out, *code as u64);
                out
            },
            CoreError::ConnectResponseFailed(result) => {
                let mut out = "connect response failed: ".to_owned();
                text::push_decimal(&mut out, *result as u64);
                out
            },
            CoreError::ChannelJoinFailed(channel_id) => {
                let mut out = "channel join failed: ".to_owned();
                text::push_decimal(&mut out, *channel_id as u64);
                out
            },
        }
    }
}

impl From<DecodeError> for CoreError {
    fn from(error: DecodeError) -> (r: CoreError) {
        CoreError::Decode(error)
    }
}

impl vstd::std_specs::convert::FromSpecImpl<DecodeError> for CoreError {
    open spec fn obeys_from_spec() -> bool {
        true
    }

    open spec fn from_spec(error: DecodeError) -> CoreError {
        CoreError::Decode(error)
    }
}

impl From<EncodeError> for CoreError {
    fn from(error: EncodeError) -> (r: CoreError) {
        CoreError::Encode(error)
    }
}

impl vstd::std_specs::convert::FromSpecImpl<EncodeError> for CoreError {
    open spec fn obeys_from_spec() -> bool {
        true
    }

    open spec fn from_spec(error: EncodeError) -> CoreError {
        CoreError::Encode(error)
    }
}

/// Result type for connector operations.
pub type CoreResult<T> = Result<T, CoreError>;

/// What a [`ClientConnector`] holds.
pub struct ConnectorView {
    /// Optional routing token / cookie.
    pub cookie: Option<Seq<char>>,
    /// Protocols to request.
    pub requested_protocols: u32,
    /// GCC client core data.
    pub core: ClientCoreData,
    /// GCC client security data.
    pub security: ClientSecurityData,
    /// GCC client network data.
    pub network: Seq<crate::rdp::config::ChannelDef>,
    /// Where the sequence stands.
    pub state: ConnectorState,
    /// The protocol that the server selected.
    pub selected_protocol: u32,
    /// The user channel that the server assigned.
    pub user_id: u16,
    /// The I/O channel.
    pub io_channel: u16,
    /// The channels to join.
    pub join_queue: Seq<u16>,
    /// How many of them were joined.
    pub join_index: nat,
}

impl ConnectorView {
    /// Whether a channel is being joined only while there is one to join.
    pub open spec fn wf(self) -> bool {
        self.state == ConnectorState::JoiningChannels ==> self.join_index < self.join_queue.len()
    }

    /// The MCS Connect Initial that the configuration asks for.
    pub open spec fn connect_initial(self) -> Seq<CoreOutputView> {
        seq![
            CoreOutputView::SendData(
                RequestView::ConnectInitial {
                    core: self.core,
                    security: self.security,
                    network: self.network,
                },
            ),
        ]
    }

    /// The request to join the next channel.
    pub open spec fn join(self) -> Seq<CoreOutputView> {
        seq![
            CoreOutputView::SendData(
                RequestView::ChannelJoin {
                    user_id: self.user_id,
                    channel_id: self.join_queue[self.join_index as int],
                },
            ),
        ]
    }

    /// The connector in another state.
    pub open spec fn to(self, state: ConnectorState) -> ConnectorView {
        ConnectorView { state, ..self }
    }

    /// What starting the sequence gives, and what it leaves.
    pub open spec fn started(self) -> (CoreResult<Seq<CoreOutputView>>, ConnectorView) {
        if self.state == ConnectorState::Initial {
            (
                Ok(
                    seq![
                        CoreOutputView::SendData(
                            RequestView::Connection {
                                cookie: self.cookie,
                                requested_protocols: self.requested_protocols,
                            },
                        ),
                    ],
                ),
                self.to(ConnectorState::SentConnectionRequest),
            )
        } else {
            (Err(CoreError::UnexpectedState), self)
        }
    }

    /// What resuming behind the TLS upgrade gives, and what it leaves.
    pub open spec fn resumed(self) -> (CoreResult<Seq<CoreOutputView>>, ConnectorView) {
        if self.state == ConnectorState::NeedTls {
            (Ok(self.connect_initial()), self.to(ConnectorState::SentConnectInitial))
        } else {
            (Err(CoreError::UnexpectedState), self)
        }
    }

    /// What a reply gives, and what it leaves. The state says which reply is due; any other is
    /// out of place.
    pub open spec fn stepped(self, reply: ReplyView) -> (
        CoreResult<Seq<CoreOutputView>>,
        ConnectorView,
    ) {
        match (self.state, reply) {
            (ConnectorState::SentConnectionRequest, ReplyView::Confirmed) => (
                Ok(self.connect_initial()),
                self.to(ConnectorState::SentConnectInitial),
            ),
            (ConnectorState::SentConnectionRequest, ReplyView::Refused(code)) => (
                Err(CoreError::NegotiationFailed(code)),
                self,
            ),
            (ConnectorState::SentConnectionRequest, ReplyView::Selected(protocol)) => {
                let after = ConnectorView { selected_protocol: protocol, ..self };
                if protocol != PROTOCOL_RDP {
                    (Ok(seq![CoreOutputView::UpgradeToTls]), after.to(ConnectorState::NeedTls))
                } else {
                    (Ok(after.connect_initial()), after.to(ConnectorState::SentConnectInitial))
                }
            },
            (ConnectorState::SentConnectInitial, ReplyView::ConnectResponse { result, network }) =>
                if result != 0 {
                    (Err(CoreError::ConnectResponseFailed(result)), self)
                } else {
                    (
                        Ok(
                            seq![
                                CoreOutputView::SendData(RequestView::ErectDomain),
                                CoreOutputView::SendData(RequestView::AttachUser),
                            ],
                        ),
                        ConnectorView {
                            io_channel: match network {
                                None => 0,
                                Some(n) => n.0,
                            },
                            join_queue: match network {
                                None => Seq::empty(),
                                Some(n) => n.1,
                            },
                            state: ConnectorState::SentErectAttach,
                            ..self
                        },
                    )
                },
            (ConnectorState::SentErectAttach, ReplyView::AttachUserConfirm { result, user_id }) =>
                if result != 0 {
                    (Err(CoreError::ConnectResponseFailed(result)), self)
                } else {
                    let after = ConnectorView {
                        user_id,
                        join_queue: seq![user_id, self.io_channel] + self.join_queue,
                        join_index: 0,
                        state: ConnectorState::JoiningChannels,
                        ..self
                    };
                    (Ok(after.join()), after)
                },
            (
                ConnectorState::JoiningChannels,
                ReplyView::ChannelJoinConfirm { result, channel_id },
            ) => if result != 0 {
                (Err(CoreError::ChannelJoinFailed(channel_id)), self)
            } else {
                let after = ConnectorView { join_index: self.join_index + 1, ..self };
                if after.join_index < after.join_queue.len() {
                    (Ok(after.join()), after)
                } else {
                    (
                        Ok(
                            seq![
                                CoreOutputView::Connected {
                                    selected_protocol: self.selected_protocol,
                                    user_channel: self.user_id,
                                    io_channel: self.io_channel,
                                },
                            ],
                        ),
                        after.to(ConnectorState::Connected),
                    )
                }
            },
            _ => (Err(CoreError::UnexpectedState), self),
        }
    }
}

/// Whether `r` and `after` are what was owed.
pub open spec fn gives(
    owed: (CoreResult<Seq<CoreOutputView>>, ConnectorView),
    r: CoreResult<Vec<CoreOutput>>,
    after: ConnectorView,
) -> bool {
    &&& after == owed.1
    &&& match r {
        Ok(outputs) => owed.0 == Ok::<_, CoreError>(output_views(outputs@)),
        Err(e) => owed.0 == Err::<Seq<CoreOutputView>, _>(e),
    }
}

/// RDP connector driving the connection sequence up to the end of MCS channel join.
#[derive(Debug)]
pub struct ClientConnector {
    config: ConnectorConfig,
    state: ConnectorState,
    selected_protocol: u32,
    user_id: u16,
    io_channel: u16,
    join_queue: Vec<u16>,
    join_index: usize,
}

impl View for ClientConnector {
    type V = ConnectorView;

    closed spec fn view(&self) -> ConnectorView {
        ConnectorView {
            cookie: cookie_view(self.config.cookie),
            requested_protocols: self.config.requested_protocols,
            core: self.config.core,
            security: self.config.security,
            network: self.config.network.channels@,
            state: self.state,
            selected_protocol: self.selected_protocol,
            user_id: self.user_id,
            io_channel: self.io_channel,
            join_queue: self.join_queue@,
            join_index: self.join_index as nat,
        }
    }
}

impl ClientConnector {
    #[verifier::type_invariant]
    spec fn inv(self) -> bool {
        self@.wf()
    }

    /// Create a new connector in the initial state.
    pub fn new(config: ConnectorConfig) -> (r: Self)
        ensures
            r@ == (ConnectorView {
                cookie: cookie_view(config.cookie),
                requested_protocols: config.requested_protocols,
                core: config.core,
                security: config.security,
                network: config.network.channels@,
                state: ConnectorState::Initial,
                selected_protocol: 0,
                user_id: 0,
                io_channel: 0,
                join_queue: Seq::empty(),
                join_index: 0,
            }),
    {
        let r = ClientConnector {
            config,
            state: ConnectorState::Initial,
            selected_protocol: 0,
            user_id: 0,
            io_channel: 0,
            join_queue: Vec::new(),
            join_index: 0,
        };
        assert(r@.join_queue =~= Seq::empty());
        r
    }

    /// Return the current connector state.
    pub fn state(&self) -> (r: ConnectorState)
        ensures
            r == self@.state,
            self@.wf(),
    {
        proof {
            use_type_invariant(self);
        }
        self.state
    }

    /// Return true if the connector has reached the connected state.
    pub fn is_connected(&self) -> (r: bool)
        ensures
            r == (self@.state == ConnectorState::Connected),
    {
        self.state == ConnectorState::Connected
    }

    /// Start the connection sequence by sending the X.224 Connection Request.
    ///
    /// # Errors
    ///
    /// [`CoreError::UnexpectedState`] if it was started already.
    pub fn start(&mut self) -> (r: CoreResult<Vec<CoreOutput>>)
        ensures
            gives(old(self)@.started(), r, final(self)@),
    {
        if self.state != ConnectorState::Initial {
            return Err(CoreError::UnexpectedState);
        }
        let request = Request::Connection {
            cookie: self.config.cookie.clone(),
            requested_protocols: self.config.requested_protocols,
        };
        self.state = ConnectorState::SentConnectionRequest;
        let outputs: Vec<CoreOutput> = vec![CoreOutput::SendData(request)];
        assert(output_views(outputs@) =~= old(self)@.started().0->Ok_0);
        Ok(outputs)
    }

    /// Resume after the transport has been upgraded to TLS.
    ///
    /// # Errors
    ///
    /// [`CoreError::UnexpectedState`] if no upgrade was asked for.
    pub fn resume_after_tls(&mut self) -> (r: CoreResult<Vec<CoreOutput>>)
        ensures
            gives(old(self)@.resumed(), r, final(self)@),
    {
        if self.state != ConnectorState::NeedTls {
            return Err(CoreError::UnexpectedState);
        }
        Ok(self.send_connect_initial())
    }

    /// Feed a server reply into the state machine and return the next actions.
    ///
    /// # Errors
    ///
    /// [`CoreError`] if the server refused, or if the reply is out of place.
    pub fn step(&mut self, reply: Reply) -> (r: CoreResult<Vec<CoreOutput>>)
        ensures
            gives(old(self)@.stepped(reply@), r, final(self)@),
    {
        match self.state {
            ConnectorState::SentConnectionRequest => self.handle_connection_confirm(reply),
            ConnectorState::SentConnectInitial => self.handle_connect_response(reply),
            ConnectorState::SentErectAttach => self.handle_attach_user_confirm(reply),
            ConnectorState::JoiningChannels => self.handle_channel_join_confirm(reply),
            _ => Err(CoreError::UnexpectedState),
        }
    }

    fn handle_connection_confirm(&mut self, reply: Reply) -> (r: CoreResult<Vec<CoreOutput>>)
        requires
            old(self)@.state == ConnectorState::SentConnectionRequest,
        ensures
            gives(old(self)@.stepped(reply@), r, final(self)@),
    {
        match reply {
            Reply::Refused(code) => Err(CoreError::NegotiationFailed(code)),
            Reply::Selected(protocol) => {
                self.selected_protocol = protocol;
                if protocol != PROTOCOL_RDP {
                    self.state = ConnectorState::NeedTls;
                    let outputs: Vec<CoreOutput> = vec![CoreOutput::UpgradeToTls];
                    assert(output_views(outputs@) =~= seq![CoreOutputView::UpgradeToTls]);
                    Ok(outputs)
                } else {
                    Ok(self.send_connect_initial())
                }
            },
            Reply::Confirmed => Ok(self.send_connect_initial()),
            _ => Err(CoreError::UnexpectedState),
        }
    }

    fn handle_connect_response(&mut self, reply: Reply) -> (r: CoreResult<Vec<CoreOutput>>)
        requires
            old(self)@.state == ConnectorState::SentConnectInitial,
        ensures
            gives(old(self)@.stepped(reply@), r, final(self)@),
    {
        match reply {
            Reply::ConnectResponse { result, network } => {
                if result != 0 {
                    return Err(CoreError::ConnectResponseFailed(result));
                }
                match network {
                    None => {
                        self.io_channel = 0;
                        self.join_queue = Vec::new();
                    },
                    Some(network) => {
                        self.io_channel = network.mcs_channel_id;
                        self.join_queue = network.channel_ids;
                    },
                }
                self.state = ConnectorState::SentErectAttach;
                let outputs: Vec<CoreOutput> = vec![
                    CoreOutput::SendData(Request::ErectDomain),
                    CoreOutput::SendData(Request::AttachUser),
                ];
                assert(output_views(outputs@) =~= seq![
                    CoreOutputView::SendData(RequestView::ErectDomain),
                    CoreOutputView::SendData(RequestView::AttachUser),
                ]);
                assert(self@ =~= old(self)@.stepped(reply@).1);
                Ok(outputs)
            },
            _ => Err(CoreError::UnexpectedState),
        }
    }

    fn handle_attach_user_confirm(&mut self, reply: Reply) -> (r: CoreResult<Vec<CoreOutput>>)
        requires
            old(self)@.state == ConnectorState::SentErectAttach,
        ensures
            gives(old(self)@.stepped(reply@), r, final(self)@),
    {
        match reply {
            Reply::AttachUserConfirm { result, user_id } => {
                if result != 0 {
                    return Err(CoreError::ConnectResponseFailed(result));
                }
                self.user_id = user_id;
                let mut queue: Vec<u16> = vec![self.user_id, self.io_channel];
                queue.extend_from_slice(self.join_queue.as_slice());
                assert(queue@ =~= seq![user_id, self.io_channel] + old(self)@.join_queue);
                self.join_queue = queue;
                self.join_index = 0;
                Ok(self.send_channel_join())
            },
            _ => Err(CoreError::UnexpectedState),
        }
    }

    fn handle_channel_join_confirm(&mut self, reply: Reply) -> (r: CoreResult<Vec<CoreOutput>>)
        requires
            old(self)@.state == ConnectorState::JoiningChannels,
        ensures
            gives(old(self)@.stepped(reply@), r, final(self)@),
    {
        match reply {
            Reply::ChannelJoinConfirm { result, channel_id } => {
                if result != 0 {
                    return Err(CoreError::ChannelJoinFailed(channel_id));
                }
                proof {
                    use_type_invariant(&*self);
                }
                let waiting: usize = self.join_queue.len();
                let next: usize = self.join_index + 1;
                if next < waiting {
                    self.join_index = next;
                    Ok(self.send_channel_join())
                } else {
                    self.state = ConnectorState::Connected;
                    self.join_index = next;
                    let outputs: Vec<CoreOutput> = vec![
                        CoreOutput::Connected {
                            selected_protocol: self.selected_protocol,
                            user_channel: self.user_id,
                            io_channel: self.io_channel,
                        },
                    ];
                    assert(output_views(outputs@) =~= old(self)@.stepped(reply@).0->Ok_0);
                    Ok(outputs)
                }
            },
            _ => Err(CoreError::UnexpectedState),
        }
    }

    fn send_connect_initial(&mut self) -> (r: Vec<CoreOutput>)
        ensures
            output_views(r@) == old(self)@.connect_initial(),
            final(self)@ == old(self)@.to(ConnectorState::SentConnectInitial),
    {
        let channels = self.config.network.channels.clone();
        assert(channels@ =~= self.config.network.channels@);
        let request = Request::ConnectInitial {
            core: self.config.core,
            security: self.config.security,
            network: ClientNetworkData { channels },
        };
        self.state = ConnectorState::SentConnectInitial;
        let outputs: Vec<CoreOutput> = vec![CoreOutput::SendData(request)];
        assert(output_views(outputs@) =~= old(self)@.connect_initial());
        outputs
    }

    fn send_channel_join(&mut self) -> (r: Vec<CoreOutput>)
        requires
            old(self)@.join_index < old(self)@.join_queue.len(),
        ensures
            output_views(r@) == old(self)@.join(),
            final(self)@ == old(self)@.to(ConnectorState::JoiningChannels),
    {
        let request = Request::ChannelJoin {
            user_id: self.user_id,
            channel_id: self.join_queue[self.join_index],
        };
        self.state = ConnectorState::JoiningChannels;
        let outputs: Vec<CoreOutput> = vec![CoreOutput::SendData(request)];
        assert(output_views(outputs@) =~= old(self)@.join());
        outputs
    }
}

/// How far the sequence has come in a state.
pub open spec fn rank(state: ConnectorState) -> nat {
    match state {
        ConnectorState::Initial => 0,
        ConnectorState::SentConnectionRequest => 1,
        ConnectorState::NeedTls => 2,
        ConnectorState::SentConnectInitial => 3,
        ConnectorState::SentErectAttach => 4,
        ConnectorState::JoiningChannels => 5,
        ConnectorState::Connected => 6,
    }
}

/// The sequence only moves forward: a reply that is accepted takes it to a later state or to the
/// next channel, and a refusal leaves it where it was.
pub proof fn law_the_sequence_moves_forward(c: ConnectorView, reply: ReplyView)
    ensures
        ({
            let (r, after) = c.stepped(reply);
            &&& r is Err ==> after == c
            &&& r is Ok ==> rank(c.state) < rank(after.state) || (c.state
                == ConnectorState::JoiningChannels && after.state == c.state && after.join_index
                == c.join_index + 1)
        }),
{
}

/// The upgrade to TLS is asked for at most once: only in answer to the connection request, and
/// never again behind it.
pub proof fn law_tls_is_asked_for_once(c: ConnectorView, reply: ReplyView, i: int)
    requires
        c.stepped(reply).0 matches Ok(outputs) && 0 <= i < outputs.len() && outputs[i]
            == CoreOutputView::UpgradeToTls,
    ensures
        c.state == ConnectorState::SentConnectionRequest,
        c.stepped(reply).1.state == ConnectorState::NeedTls,
{
}

/// The connector after the first `n` channels were joined.
pub open spec fn joined(c: ConnectorView, n: nat) -> ConnectorView
    decreases n,
{
    if n == 0 {
        c
    } else {
        let before = joined(c, (n - 1) as nat);
        before.stepped(
            ReplyView::ChannelJoinConfirm {
                result: 0,
                channel_id: before.join_queue[before.join_index as int],
            },
        ).1
    }
}

/// Once the user is attached, every channel is joined in its turn (the user's own, the I/O
/// channel, then the virtual ones as the server gave them), and with the last of them the
/// connection stands.
pub proof fn law_every_channel_is_joined_in_turn(c: ConnectorView, user_id: u16, n: nat)
    requires
        c.state == ConnectorState::SentErectAttach,
        n <= c.join_queue.len() + 2,
    ensures
        ({
            let attached = c.stepped(ReplyView::AttachUserConfirm { result: 0, user_id }).1;
            let at = joined(attached, n);
            &&& attached.join_queue == seq![user_id, c.io_channel] + c.join_queue
            &&& at.join_queue == attached.join_queue
            &&& at.join_index == n
            &&& n < at.join_queue.len() ==> at.state == ConnectorState::JoiningChannels
            &&& n == at.join_queue.len() ==> at.state == ConnectorState::Connected
        }),
    decreases n,
{
    if n > 0 {
        law_every_channel_is_joined_in_turn(c, user_id, (n - 1) as nat);
    }
}

/// What a failure of the connection sequence is.
#[derive(Debug, Clone, Copy, PartialEq, Eq)]
pub enum ConnectFailure {
    /// The server did not select a TLS-based security protocol, and nothing else is supported.
    NoTls,
    /// The server asked for TLS a second time.
    SecondUpgrade,
}

/// A connection that stands.
#[derive(Debug, Clone, Copy, PartialEq, Eq)]
pub struct Established {
    /// The security protocol the server selected during negotiation.
    pub selected_protocol: u32,
    /// The MCS user channel assigned to this client.
    pub user_channel: u16,
    /// The MCS I/O channel.
    pub io_channel: u16,
}

/// The requests among some outputs, in order.
pub open spec fn requests(outputs: Seq<CoreOutputView>) -> Seq<RequestView>
    decreases outputs.len(),
{
    if outputs.len() == 0 {
        Seq::empty()
    } else {
        let before = requests(outputs.drop_last());
        match outputs.last() {
            CoreOutputView::SendData(request) => before.push(request),
            _ => before,
        }
    }
}

/// What some requests hold.
pub open spec fn request_views(sent: Seq<Request>) -> Seq<RequestView> {
    sent.map_values(|request: Request| request@)
}

/// What the answer to the connection request comes to: the requests to send over the plain
/// stream, and whether TLS comes next. A server that selects standard RDP security is rejected.
pub fn after_negotiation(outputs: Vec<CoreOutput>) -> (r: (
    Vec<Request>,
    Result<(), ConnectFailure>,
))
    ensures
        request_views(r.0@) == requests(output_views(outputs@)),
        r.1 == (if output_views(outputs@).contains(CoreOutputView::UpgradeToTls) {
            Ok(())
        } else {
            Err(ConnectFailure::NoTls)
        }),
{
    let mut rest = outputs;
    let ghost all = output_views(rest@);
    let mut sent: Vec<Request> = Vec::new();
    let mut upgrade = false;
    let ghost mut k: int = 0;
    assert(request_views(sent@) =~= requests(all.take(0)));
    while rest.len() > 0
        invariant
            0 <= k <= all.len(),
            all == output_views(outputs@),
            output_views(rest@) == all.skip(k),
            request_views(sent@) == requests(all.take(k)),
            upgrade == all.take(k).contains(CoreOutputView::UpgradeToTls),
        decreases rest.len(),
    {
        let ghost held = rest@;
        let output = rest.remove(0);
        proof {
            assert(output_views(held).len() == all.len() - k);
            assert(output_views(held)[0] == output@);
            assert(all.skip(k)[0] == all[k]);
            assert(output_views(rest@) =~= output_views(held).skip(1));
            assert(all.skip(k).skip(1) =~= all.skip(k + 1));
            let (head, next) = (all.take(k), all.take(k + 1));
            assert(next.drop_last() =~= head);
            if head.contains(CoreOutputView::UpgradeToTls) {
                let j = choose|j: int| 0 <= j < k && head[j] == CoreOutputView::UpgradeToTls;
                assert(next[j] == CoreOutputView::UpgradeToTls);
            }
            if all[k] == CoreOutputView::UpgradeToTls {
                assert(next[k] == CoreOutputView::UpgradeToTls);
            } else if next.contains(CoreOutputView::UpgradeToTls) {
                let j = choose|j: int| 0 <= j < k + 1 && next[j] == CoreOutputView::UpgradeToTls;
                assert(head[j] == CoreOutputView::UpgradeToTls);
            }
        }
        match output {
            CoreOutput::UpgradeToTls => {
                upgrade = true;
            },
            CoreOutput::SendData(request) => {
                let ghost before = request_views(sent@);
                sent.push(request);
                assert(request_views(sent@) =~= before.push(request@));
            },
            CoreOutput::Connected { .. } => {},
        }
        proof {
            k = k + 1;
        }
    }
    assert(all.take(k) =~= all);
    if upgrade {
        (sent, Ok(()))
    } else {
        (sent, Err(ConnectFailure::NoTls))
    }
}

/// What some outputs behind the TLS upgrade come to: the requests up to the first output that is
/// none, and what that output means.
pub open spec fn over_tls(outputs: Seq<CoreOutputView>) -> (
    Seq<RequestView>,
    Option<Result<Established, ConnectFailure>>,
)
    decreases outputs.len(),
{
    if outputs.len() == 0 {
        (Seq::empty(), None)
    } else {
        match outputs.first() {
            CoreOutputView::SendData(request) => {
                let (sent, end) = over_tls(outputs.drop_first());
                (seq![request] + sent, end)
            },
            CoreOutputView::UpgradeToTls => (
                Seq::empty(),
                Some(Err(ConnectFailure::SecondUpgrade)),
            ),
            CoreOutputView::Connected { selected_protocol, user_channel, io_channel } => (
                Seq::empty(),
                Some(Ok(Established { selected_protocol, user_channel, io_channel })),
            ),
        }
    }
}

/// What some outputs behind the TLS upgrade come to: the requests to send, and, if the sequence
/// ends there, how. Otherwise another reply is due.
pub fn after_tls(outputs: Vec<CoreOutput>) -> (r: (
    Vec<Request>,
    Option<Result<Established, ConnectFailure>>,
))
    ensures
        request_views(r.0@) == over_tls(output_views(outputs@)).0,
        r.1 == over_tls(output_views(outputs@)).1,
{
    let mut rest = outputs;
    let ghost all = output_views(rest@);
    let mut sent: Vec<Request> = Vec::new();
    assert(request_views(sent@) + over_tls(all).0 =~= over_tls(all).0);
    while rest.len() > 0
        invariant
            all == output_views(outputs@),
            over_tls(all) == (
                request_views(sent@) + over_tls(output_views(rest@)).0,
                over_tls(output_views(rest@)).1,
            ),
        decreases rest.len(),
    {
        let ghost held = output_views(rest@);
        let output = rest.remove(0);
        proof {
            assert(held.first() == output@);
            assert(output_views(rest@) =~= held.drop_first());
        }
        match output {
            CoreOutput::SendData(request) => {
                let ghost before = request_views(sent@);
                sent.push(request);
                proof {
                    let tail = over_tls(held.drop_first()).0;
                    assert(request_views(sent@) =~= before.push(request@));
                    assert(before.push(request@) + tail =~= before + (seq![request@] + tail));
                }
            },
            CoreOutput::UpgradeToTls => {
                assert(request_views(sent@) + Seq::<RequestView>::empty() =~= request_views(
                    sent@,
                ));
                return (sent, Some(Err(ConnectFailure::SecondUpgrade)));
            },
            CoreOutput::Connected { selected_protocol, user_channel, io_channel } => {
                assert(request_views(sent@) + Seq::<RequestView>::empty() =~= request_views(
                    sent@,
                ));
                return (
                    sent,
                    Some(Ok(Established { selected_protocol, user_channel, io_channel })),
                );
            },
        }
    }
    assert(request_views(sent@) + Seq::<RequestView>::empty() =~= request_views(sent@));
    (sent, None)
}

/// A sequence starts once, with the configuration's cookie and protocols.
pub proof fn law_the_sequence_starts_with_the_request(config: ConnectorConfig)
    ensures
        forall|c: ClientConnector, state: ConnectorState, connected: bool|
            #![trigger call_ensures(ClientConnector::new, (config,), c), call_ensures(ClientConnector::state, (&c,), state), call_ensures(ClientConnector::is_connected, (&c,), connected)]
            call_ensures(ClientConnector::new, (config,), c) && call_ensures(
                ClientConnector::state,
                (&c,),
                state,
            ) && call_ensures(ClientConnector::is_connected, (&c,), connected) ==> {
                &&& state == ConnectorState::Initial && !connected
                &&& c@.requested_protocols == config.requested_protocols
                &&& c@.cookie is Some <==> config.cookie is Some
                &&& config.cookie is Some ==> c@.cookie->0 == config.cookie->0@
                &&& c@.core == config.core && c@.security == config.security && c@.network
                    == config.network.channels@
            },
        forall|c: &mut ClientConnector, r: CoreResult<Vec<CoreOutput>>| #[trigger]
            call_ensures(ClientConnector::start, (c,), r) ==> {
                &&& (*c)@.state == ConnectorState::Initial ==> {
                    &&& r matches Ok(out)
                    &&& out@.len() == 1
                    &&& out@[0] matches CoreOutput::SendData(Request::Connection {
                        cookie,
                        requested_protocols,
                    })
                    &&& requested_protocols == (*c)@.requested_protocols
                    &&& cookie is Some <==> (*c)@.cookie is Some
                    &&& cookie is Some ==> cookie->0@ == (*c)@.cookie->0
                    &&& final(c)@.state == ConnectorState::SentConnectionRequest
                }
                &&& (*c)@.state != ConnectorState::Initial ==> r == Err::<Vec<CoreOutput>, _>(
                    CoreError::UnexpectedState,
                ) && final(c)@ == (*c)@
            },
{
    assert forall|c: &mut ClientConnector, r: CoreResult<Vec<CoreOutput>>| #[trigger]
        call_ensures(ClientConnector::start, (c,), r) implies {
        &&& (*c)@.state == ConnectorState::Initial ==> {
            &&& r matches Ok(out)
            &&& out@.len() == 1
            &&& out@[0] matches CoreOutput::SendData(Request::Connection {
                cookie,
                requested_protocols,
            })
            &&& requested_protocols == (*c)@.requested_protocols
            &&& cookie is Some <==> (*c)@.cookie is Some
            &&& cookie is Some ==> cookie->0@ == (*c)@.cookie->0
            &&& final(c)@.state == ConnectorState::SentConnectionRequest
        }
        &&& (*c)@.state != ConnectorState::Initial ==> r == Err::<Vec<CoreOutput>, _>(
            CoreError::UnexpectedState,
        ) && final(c)@ == (*c)@
    } by {
        if r is Ok {
            let out = r->Ok_0@;
            assert(output_views(out).len() == out.len());
            assert(output_views(out)[0] == out[0]@);
        }
    }
}

/// Whether some outputs are the one request that introduces the client.
pub open spec fn introduces(out: Seq<CoreOutput>, c: ConnectorView) -> bool {
    &&& out.len() == 1
    &&& out[0] matches CoreOutput::SendData(Request::ConnectInitial { core, security, network })
    &&& core == c.core && security == c.security && network.channels@ == c.network
}

/// A server that selects a protocol other than 0 is spoken to over TLS first. The client introduces
/// itself once it is, or at once where there is nothing to upgrade to; a refusal ends the sequence.
pub proof fn law_the_server_selects_the_protocol(reply: Reply)
    ensures
        forall|c: &mut ClientConnector, r: CoreResult<Vec<CoreOutput>>| #[trigger]
            call_ensures(ClientConnector::step, (c, reply), r) && (*c)@.state
                == ConnectorState::SentConnectionRequest ==> match reply {
                Reply::Refused(code) => r == Err::<Vec<CoreOutput>, _>(
                    CoreError::NegotiationFailed(code),
                ) && final(c)@ == (*c)@,
                Reply::Confirmed => {
                    &&& r matches Ok(out) && introduces(out@, (*c)@)
                    &&& final(c)@.state == ConnectorState::SentConnectInitial
                },
                Reply::Selected(protocol) => {
                    &&& final(c)@.selected_protocol == protocol
                    &&& protocol != 0 ==> (r matches Ok(out) && out@ == seq![
                        CoreOutput::UpgradeToTls,
                    ]) && final(c)@.state == ConnectorState::NeedTls
                    &&& protocol == 0 ==> (r matches Ok(out) && introduces(out@, (*c)@)) && final(c)@.state == ConnectorState::SentConnectInitial
                },
                _ => r == Err::<Vec<CoreOutput>, _>(CoreError::UnexpectedState),
            },
        forall|c: &mut ClientConnector, r: CoreResult<Vec<CoreOutput>>| #[trigger]
            call_ensures(ClientConnector::resume_after_tls, (c,), r) ==> {
                &&& (*c)@.state == ConnectorState::NeedTls ==> (r matches Ok(out) && introduces(
                    out@,
                    (*c)@,
                )) && final(c)@.state == ConnectorState::SentConnectInitial
                &&& (*c)@.state != ConnectorState::NeedTls ==> r == Err::<Vec<CoreOutput>, _>(
                    CoreError::UnexpectedState,
                )
            },
{
    assert forall|c: &mut ClientConnector, r: CoreResult<Vec<CoreOutput>>| #[trigger]
        call_ensures(ClientConnector::step, (c, reply), r) && (*c)@.state
            == ConnectorState::SentConnectionRequest implies match reply {
        Reply::Refused(code) => r == Err::<Vec<CoreOutput>, _>(CoreError::NegotiationFailed(code))
            && final(c)@ == (*c)@,
        Reply::Confirmed => {
            &&& r matches Ok(out) && introduces(out@, (*c)@)
            &&& final(c)@.state == ConnectorState::SentConnectInitial
        },
        Reply::Selected(protocol) => {
            &&& final(c)@.selected_protocol == protocol
            &&& protocol != 0 ==> (r matches Ok(out) && out@ == seq![CoreOutput::UpgradeToTls])
                && final(c)@.state == ConnectorState::NeedTls
            &&& protocol == 0 ==> (r matches Ok(out) && introduces(out@, (*c)@)) && final(c)@.state == ConnectorState::SentConnectInitial
        },
        _ => r == Err::<Vec<CoreOutput>, _>(CoreError::UnexpectedState),
    } by {
        if r is Ok {
            let out = r->Ok_0@;
            assert(output_views(out).len() == out.len());
            assert(output_views(out)[0] == out[0]@);
            if out[0] == CoreOutput::UpgradeToTls {
                assert(out =~= seq![CoreOutput::UpgradeToTls]);
            }
        }
    }
    assert forall|c: &mut ClientConnector, r: CoreResult<Vec<CoreOutput>>| #[trigger]
        call_ensures(ClientConnector::resume_after_tls, (c,), r) implies {
        &&& (*c)@.state == ConnectorState::NeedTls ==> (r matches Ok(out) && introduces(
            out@,
            (*c)@,
        )) && final(c)@.state == ConnectorState::SentConnectInitial
        &&& (*c)@.state != ConnectorState::NeedTls ==> r == Err::<Vec<CoreOutput>, _>(
            CoreError::UnexpectedState,
        )
    } by {
        if r is Ok {
            let out = r->Ok_0@;
            assert(output_views(out).len() == out.len());
            assert(output_views(out)[0] == out[0]@);
        }
    }
}

/// A server that takes the introduction is asked for a domain and then for a user; what it says of the
/// channels is remembered.
pub proof fn law_users_are_attached(result: u8, network: Option<ServerNetwork>)
    ensures
        forall|c: &mut ClientConnector, r: CoreResult<Vec<CoreOutput>>| #[trigger]
            call_ensures(
                ClientConnector::step,
                (c, Reply::ConnectResponse { result, network }),
                r,
            ) && (*c)@.state == ConnectorState::SentConnectInitial ==> {
                &&& result != 0 ==> r == Err::<Vec<CoreOutput>, _>(
                    CoreError::ConnectResponseFailed(result),
                ) && final(c)@ == (*c)@
                &&& result == 0 ==> {
                    &&& r matches Ok(out)
                    &&& out@.len() == 2
                    &&& out@[0] == CoreOutput::SendData(Request::ErectDomain)
                    &&& out@[1] == CoreOutput::SendData(Request::AttachUser)
                    &&& final(c)@.state == ConnectorState::SentErectAttach
                    &&& final(c)@.io_channel == (match network {
                        None => 0,
                        Some(n) => n.mcs_channel_id,
                    })
                    &&& final(c)@.join_queue == (match network {
                        None => Seq::<u16>::empty(),
                        Some(n) => n.channel_ids@,
                    })
                }
            },
{
    assert forall|c: &mut ClientConnector, r: CoreResult<Vec<CoreOutput>>| #[trigger]
        call_ensures(ClientConnector::step, (c, Reply::ConnectResponse { result, network }), r)
            && (*c)@.state == ConnectorState::SentConnectInitial implies {
        &&& result != 0 ==> r == Err::<Vec<CoreOutput>, _>(
            CoreError::ConnectResponseFailed(result),
        ) && final(c)@ == (*c)@
        &&& result == 0 ==> {
            &&& r matches Ok(out)
            &&& out@.len() == 2
            &&& out@[0] == CoreOutput::SendData(Request::ErectDomain)
            &&& out@[1] == CoreOutput::SendData(Request::AttachUser)
            &&& final(c)@.state == ConnectorState::SentErectAttach
            &&& final(c)@.io_channel == (match network {
                None => 0,
                Some(n) => n.mcs_channel_id,
            })
            &&& final(c)@.join_queue == (match network {
                None => Seq::<u16>::empty(),
                Some(n) => n.channel_ids@,
            })
        }
    } by {
        if r is Ok {
            let out = r->Ok_0@;
            assert(output_views(out).len() == out.len());
            assert(output_views(out)[0] == out[0]@);
            assert(output_views(out)[1] == out[1]@);
        }
    }
}

/// The user joins its own channel first, the I/O channel second and then those the server gave, one
/// after the other; when the last is joined the sequence is at its end.
pub proof fn law_channels_are_joined_one_by_one(result: u8, user_id: u16, channel_id: u16)
    ensures
        forall|c: &mut ClientConnector, r: CoreResult<Vec<CoreOutput>>| #[trigger]
            call_ensures(
                ClientConnector::step,
                (c, Reply::AttachUserConfirm { result, user_id }),
                r,
            ) && (*c)@.state == ConnectorState::SentErectAttach ==> {
                &&& result != 0 ==> r == Err::<Vec<CoreOutput>, _>(
                    CoreError::ConnectResponseFailed(result),
                ) && final(c)@ == (*c)@
                &&& result == 0 ==> {
                    &&& r matches Ok(out)
                    &&& out@ == seq![
                        CoreOutput::SendData(Request::ChannelJoin { user_id, channel_id: user_id }),
                    ]
                    &&& final(c)@.state == ConnectorState::JoiningChannels
                    &&& final(c)@.user_id == user_id
                    &&& final(c)@.join_index == 0
                    &&& final(c)@.join_queue == seq![user_id, (*c)@.io_channel] + (*c)@.join_queue
                }
            },
        forall|c: &mut ClientConnector, r: CoreResult<Vec<CoreOutput>>| #[trigger]
            call_ensures(
                ClientConnector::step,
                (c, Reply::ChannelJoinConfirm { result, channel_id }),
                r,
            ) && (*c)@.state == ConnectorState::JoiningChannels ==> {
                let next = (*c)@.join_index + 1;
                let all = (*c)@.join_queue;
                &&& result != 0 ==> r == Err::<Vec<CoreOutput>, _>(
                    CoreError::ChannelJoinFailed(channel_id),
                ) && final(c)@ == (*c)@
                &&& result == 0 && next < all.len() ==> {
                    &&& r matches Ok(out)
                    &&& out@ == seq![
                        CoreOutput::SendData(
                            Request::ChannelJoin {
                                user_id: (*c)@.user_id,
                                channel_id: all[next as int],
                            },
                        ),
                    ]
                    &&& final(c)@.join_index == next
                    &&& final(c)@.state == ConnectorState::JoiningChannels
                }
                &&& result == 0 && next >= all.len() ==> {
                    &&& r matches Ok(out)
                    &&& out@ == seq![
                        CoreOutput::Connected {
                            selected_protocol: (*c)@.selected_protocol,
                            user_channel: (*c)@.user_id,
                            io_channel: (*c)@.io_channel,
                        },
                    ]
                    &&& final(c)@.state == ConnectorState::Connected
                }
            },
{
    assert forall|c: &mut ClientConnector, r: CoreResult<Vec<CoreOutput>>| #[trigger]
        call_ensures(ClientConnector::step, (c, Reply::AttachUserConfirm { result, user_id }), r)
            && (*c)@.state == ConnectorState::SentErectAttach implies {
        &&& result != 0 ==> r == Err::<Vec<CoreOutput>, _>(
            CoreError::ConnectResponseFailed(result),
        ) && final(c)@ == (*c)@
        &&& result == 0 ==> {
            &&& r matches Ok(out)
            &&& out@ == seq![
                CoreOutput::SendData(Request::ChannelJoin { user_id, channel_id: user_id }),
            ]
            &&& final(c)@.state == ConnectorState::JoiningChannels
            &&& final(c)@.user_id == user_id
            &&& final(c)@.join_index == 0
            &&& final(c)@.join_queue == seq![user_id, (*c)@.io_channel] + (*c)@.join_queue
        }
    } by {
        if r is Ok {
            let out = r->Ok_0@;
            assert(output_views(out).len() == out.len());
            assert(output_views(out)[0] == out[0]@);
            assert(final(c)@.join_queue[0] == user_id);
            assert(out =~= seq![
                CoreOutput::SendData(Request::ChannelJoin { user_id, channel_id: user_id }),
            ]);
        }
    }
    assert forall|c: &mut ClientConnector, r: CoreResult<Vec<CoreOutput>>| #[trigger]
        call_ensures(
            ClientConnector::step,
            (c, Reply::ChannelJoinConfirm { result, channel_id }),
            r,
        ) && (*c)@.state == ConnectorState::JoiningChannels implies {
        let next = (*c)@.join_index + 1;
        let all = (*c)@.join_queue;
        &&& result != 0 ==> r == Err::<Vec<CoreOutput>, _>(
            CoreError::ChannelJoinFailed(channel_id),
        ) && final(c)@ == (*c)@
        &&& result == 0 && next < all.len() ==> {
            &&& r matches Ok(out)
            &&& out@ == seq![
                CoreOutput::SendData(
                    Request::ChannelJoin { user_id: (*c)@.user_id, channel_id: all[next as int] },
                ),
            ]
            &&& final(c)@.join_index == next
            &&& final(c)@.state == ConnectorState::JoiningChannels
        }
        &&& result == 0 && next >= all.len() ==> {
            &&& r matches Ok(out)
            &&& out@ == seq![
                CoreOutput::Connected {
                    selected_protocol: (*c)@.selected_protocol,
                    user_channel: (*c)@.user_id,
                    io_channel: (*c)@.io_channel,
                },
            ]
            &&& final(c)@.state == ConnectorState::Connected
        }
    } by {
        if r is Ok {
            let out = r->Ok_0@;
            let next = (*c)@.join_index + 1;
            let all = (*c)@.join_queue;
            assert(output_views(out).len() == out.len());
            assert(output_views(out)[0] == out[0]@);
            if next < all.len() {
                assert(out =~= seq![
                    CoreOutput::SendData(
                        Request::ChannelJoin {
                            user_id: (*c)@.user_id,
                            channel_id: all[next as int],
                        },
                    ),
                ]);
            } else {
                assert(out =~= seq![
                    CoreOutput::Connected {
                        selected_protocol: (*c)@.selected_protocol,
                        user_channel: (*c)@.user_id,
                        io_channel: (*c)@.io_channel,
                    },
                ]);
            }
        }
    }
}

/// Why the sequence failed is said with what the server answered.
pub proof fn law_sequence_errors_are_worded(e: &CoreError, inner: String, r: String)
    requires
        call_ensures(CoreError::message, (e,), r),
        e matches CoreError::Decode(d) ==> call_ensures(DecodeError::message, (d,), inner),
        e matches CoreError::Encode(d) ==> call_ensures(EncodeError::message, (d,), inner),
    ensures
        r@ == match e {
            CoreError::Decode(_) => "decode error: "@ + inner@,
            CoreError::Encode(_) => "encode error: "@ + inner@,
            CoreError::UnexpectedState => "unexpected connector state"@,
            CoreError::NegotiationFailed(code) => "negotiation failed: "@ + text::decimal(
                *code as nat,
            ),
            CoreError::ConnectResponseFailed(result) => "connect response failed: "@
                + text::decimal(*result as nat),
            CoreError::ChannelJoinFailed(id) => "channel join failed: "@ + text::decimal(
                *id as nat,
            ),
        },
{
}

/// What goes out before TLS is what there is to send, and the sequence goes on only if TLS is asked
/// for.
pub proof fn law_only_tls_goes_on(outputs: Vec<CoreOutput>, r: (Vec<Request>, Result<(), ConnectFailure>))
    requires
        call_ensures(after_negotiation, (outputs,), r),
    ensures
        r.1 is Ok <==> exists|i: int|
            0 <= i < outputs@.len() && #[trigger] outputs@[i] == CoreOutput::UpgradeToTls,
        r.1 is Err ==> r.1 == Err::<(), _>(ConnectFailure::NoTls),
        outputs@.len() == 1 ==> match outputs@[0] {
            CoreOutput::SendData(request) => r.0@.len() == 1 && r.0@[0]@ == request@,
            _ => r.0@.len() == 0,
        },
{
    let views = output_views(outputs@);
    if views.contains(CoreOutputView::UpgradeToTls) {
        let i = choose|i: int| 0 <= i < views.len() && views[i] == CoreOutputView::UpgradeToTls;
        assert(views[i] == outputs@[i]@);
        assert(outputs@[i] == CoreOutput::UpgradeToTls);
    }
    if exists|i: int|
        0 <= i < outputs@.len() && #[trigger] outputs@[i] == CoreOutput::UpgradeToTls {
        let i = choose|i: int|
            0 <= i < outputs@.len() && #[trigger] outputs@[i] == CoreOutput::UpgradeToTls;
        assert(views[i] == CoreOutputView::UpgradeToTls);
    }
    if outputs@.len() == 1 {
        reveal_with_fuel(requests, 2);
        assert(views.last() == outputs@[0]@);
        assert(views.drop_last().len() == 0);
        assert(request_views(r.0@).len() == r.0@.len());
        if outputs@[0] is SendData {
            assert(requests(views).len() == 1);
            assert(request_views(r.0@)[0] == r.0@[0]@);
        }
    }
}

/// Behind TLS, requests are sent until the sequence ends: with the connection, or because the server
/// asks for TLS once more.
pub proof fn law_sequences_end_once(
    output: CoreOutput,
    outputs: Vec<CoreOutput>,
    r: (Vec<Request>, Option<Result<Established, ConnectFailure>>),
    rest: Vec<CoreOutput>,
    s: (Vec<Request>, Option<Result<Established, ConnectFailure>>),
)
    requires
        outputs@ == seq![output] + rest@,
        call_ensures(after_tls, (outputs,), r),
        call_ensures(after_tls, (rest,), s),
    ensures
        match output {
            CoreOutput::SendData(request) => {
                &&& r.1 == s.1
                &&& r.0@.len() == s.0@.len() + 1
                &&& r.0@[0]@ == request@
            },
            CoreOutput::UpgradeToTls => r.0@.len() == 0 && r.1 == Some(
                Err::<Established, _>(ConnectFailure::SecondUpgrade),
            ),
            CoreOutput::Connected { selected_protocol, user_channel, io_channel } => r.0@.len()
                == 0 && r.1 == Some(
                Ok::<_, ConnectFailure>(
                    Established { selected_protocol, user_channel, io_channel },
                ),
            ),
        },
        rest@.len() == 0 ==> s.0@.len() == 0 && s.1 is None,
{
    let (all, fewer) = (output_views(outputs@), output_views(rest@));
    assert(all.first() == output@);
    assert(all.drop_first() =~= fewer);
    assert(request_views(r.0@).len() == r.0@.len());
    assert(request_views(s.0@).len() == s.0@.len());
    if output is SendData {
        assert(over_tls(all).0.len() == over_tls(fewer).0.len() + 1);
        assert(request_views(r.0@)[0] == r.0@[0]@);
    }
}

} // verus!
