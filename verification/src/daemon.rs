//! The daemon: what it knows, and what it does about commands, packets and messages.

use vstd::prelude::*;
use crate::ipc::{
    law_peers_event, law_status_events, pairing_event, pairing_event_view, peers_event, peers_event_view, status_event,
    status_event_view, unpaired_event, unpaired_event_view, IpcCommand, IpcCommandView, IpcEvent,
    IpcEventView,
};
use crate::channel::{reaction, ChannelActionView};
use crate::json::{json_text, parsed_json, JsonView};
use crate::peers::{
    by_hostname, distinct, known, law_directory_is_a_map, law_recorded_peer_resolves,
    law_records_are_kept, recorded,
    resolved, NameSet, PeerDirectory, PeerInfo, PeerView,
};
use crate::signaling::{
    Handshake, HandshakeView, IceCandidate, IceCandidateView, Outcome, OutcomeView,
    SessionDescription, SessionDescriptionView, SignalingPayload, SignalingPayloadView, Step,
};
use crate::text::same;
use crate::wire::{
    download_request, download_request_text, law_download_request_arrives,
    law_listing_request_arrives, listing_request, listing_request_text, understood, writes,
};

verus! {

/// What a paired daemon knows.
#[derive(Debug)]
pub struct Daemon {
    hostname: String,
    auth_token: String,
    local_id: Option<String>,
    local_peers: PeerDirectory,
    connections: NameSet,
    channels: NameSet,
}

/// What a paired daemon knows.
pub struct DaemonView {
    /// The name of the own node.
    pub hostname: Seq<char>,
    /// The token that the nodes of one network share.
    pub auth_token: Seq<char>,
    /// The identifier that the signaling server has given.
    pub local_id: Option<Seq<char>>,
    /// The peers of the local network.
    pub local_peers: Seq<PeerView>,
    /// The peers with whom a connection is kept.
    pub connections: Set<Seq<char>>,
    /// The peers to whom a channel is kept.
    pub channels: Set<Seq<char>>,
}

impl View for Daemon {
    type V = DaemonView;

    closed spec fn view(&self) -> DaemonView {
        DaemonView {
            hostname: self.hostname@,
            auth_token: self.auth_token@,
            local_id: self.local_id.deep_view(),
            local_peers: self.local_peers@,
            connections: self.connections@,
            channels: self.channels@,
        }
    }
}

/// What a node tells the local network about itself.
#[derive(Debug)]
pub struct DiscoveryPacket {
    pub id: String,
    pub hostname: String,
    pub token: String,
}

/// What a node tells the local network about itself.
pub struct DiscoveryPacketView {
    pub id: Seq<char>,
    pub hostname: Seq<char>,
    pub token: Seq<char>,
}

impl View for DiscoveryPacket {
    type V = DiscoveryPacketView;

    open spec fn view(&self) -> DiscoveryPacketView {
        DiscoveryPacketView { id: self.id@, hostname: self.hostname@, token: self.token@ }
    }
}

/// What a signaling server tells nodes that have none.
#[derive(Debug)]
pub struct PairingOfferPacket {
    pub packet_type: String,
    pub domain: String,
    pub token: String,
}

/// What the signaling server says.
#[derive(Debug)]
pub enum ServerMessage {
    Welcome { id: String },
    /// Something from a peer; none, where it is nothing that peers say.
    PeerMessage { sender_id: String, payload: Option<SignalingPayload> },
    Error { message: String },
    Unknown,
}

/// What the signaling server says.
pub enum ServerMessageView {
    Welcome { id: Seq<char> },
    PeerMessage { sender_id: Seq<char>, payload: Option<SignalingPayloadView> },
    Error { message: Seq<char> },
    Unknown,
}

impl View for ServerMessage {
    type V = ServerMessageView;

    open spec fn view(&self) -> ServerMessageView {
        match self {
            ServerMessage::Welcome { id } => ServerMessageView::Welcome { id: id@ },
            ServerMessage::PeerMessage { sender_id, payload } => ServerMessageView::PeerMessage {
                sender_id: sender_id@,
                payload: match payload {
                    Some(p) => Some(p@),
                    None => None,
                },
            },
            ServerMessage::Error { message } => ServerMessageView::Error { message: message@ },
            ServerMessage::Unknown => ServerMessageView::Unknown,
        }
    }
}

/// What is to be done about a message of the server.
#[derive(Debug)]
pub enum ServerAction {
    Nothing,
    /// Tell the clients, and tell the local network again and again.
    Announce { event: IpcEvent, packet: DiscoveryPacket },
    /// Begin to answer an offer.
    Answer { handshake: Handshake },
    /// Give a peer's answer to the connection with that peer.
    ApplyAnswer { target_id: String, sdp: SessionDescription },
    /// Give a peer's candidate to the connection with that peer.
    AddCandidate { target_id: String, candidate: IceCandidate },
    /// Report an error of the server.
    Report { message: String },
}

/// What is to be done about a message of the server.
pub enum ServerActionView {
    Nothing,
    Announce { event: IpcEventView, packet: DiscoveryPacketView },
    Answer { handshake: HandshakeView },
    ApplyAnswer { target_id: Seq<char>, sdp: SessionDescriptionView },
    AddCandidate { target_id: Seq<char>, candidate: IceCandidateView },
    Report { message: Seq<char> },
}

impl View for ServerAction {
    type V = ServerActionView;

    open spec fn view(&self) -> ServerActionView {
        match self {
            ServerAction::Nothing => ServerActionView::Nothing,
            ServerAction::Announce { event, packet } => ServerActionView::Announce {
                event: event@,
                packet: packet@,
            },
            ServerAction::Answer { handshake } => ServerActionView::Answer {
                handshake: handshake@,
            },
            ServerAction::ApplyAnswer { target_id, sdp } => ServerActionView::ApplyAnswer {
                target_id: target_id@,
                sdp: sdp@,
            },
            ServerAction::AddCandidate { target_id, candidate } => ServerActionView::AddCandidate {
                target_id: target_id@,
                candidate: candidate@,
            },
            ServerAction::Report { message } => ServerActionView::Report { message: message@ },
        }
    }
}

/// What is to be done about a command.
#[derive(Debug)]
pub enum CommandAction {
    Nothing,
    /// Tell the clients.
    Publish { event: IpcEvent },
    /// Begin to call a peer.
    Call { handshake: Handshake },
    /// Send a text over the channel to a peer.
    SendText { target_id: String, text: String },
    /// Send a file over the channel to a peer.
    SendFile { target_id: String, path: String },
    /// Report that there is no channel to a peer.
    NoTunnel { target_id: String },
}

/// What is to be done about a command.
pub enum CommandActionView {
    Nothing,
    Publish { event: IpcEventView },
    Call { handshake: HandshakeView },
    SendText { target_id: Seq<char>, text: Seq<char> },
    SendFile { target_id: Seq<char>, path: Seq<char> },
    NoTunnel { target_id: Seq<char> },
}

impl View for CommandAction {
    type V = CommandActionView;

    open spec fn view(&self) -> CommandActionView {
        match self {
            CommandAction::Nothing => CommandActionView::Nothing,
            CommandAction::Publish { event } => CommandActionView::Publish { event: event@ },
            CommandAction::Call { handshake } => CommandActionView::Call {
                handshake: handshake@,
            },
            CommandAction::SendText { target_id, text } => CommandActionView::SendText {
                target_id: target_id@,
                text: text@,
            },
            CommandAction::SendFile { target_id, path } => CommandActionView::SendFile {
                target_id: target_id@,
                path: path@,
            },
            CommandAction::NoTunnel { target_id } => CommandActionView::NoTunnel {
                target_id: target_id@,
            },
        }
    }
}

impl DaemonView {
    /// What a client is told when it connects.
    pub open spec fn greeting(self) -> Option<IpcEventView> {
        match self.local_id {
            Some(id) => Some(status_event_view(id, self.hostname)),
            None => None,
        }
    }

    /// The record of a node that told of itself from an address.
    pub open spec fn heard(packet: DiscoveryPacketView, ip: Seq<char>) -> PeerView {
        PeerView { hostname: packet.hostname, id: packet.id, ip }
    }

    /// Whether a packet is from another node of the own network.
    pub open spec fn concerns(self, packet: DiscoveryPacketView) -> bool {
        packet.token == self.auth_token && packet.hostname != self.hostname
    }

    /// The daemon after a node has told of itself.
    pub open spec fn after_packet(self, packet: DiscoveryPacketView, ip: Seq<char>) -> DaemonView {
        if self.concerns(packet) {
            DaemonView {
                local_peers: recorded(self.local_peers, DaemonView::heard(packet, ip)),
                ..self
            }
        } else {
            self
        }
    }

    /// What the clients are told when a node has told of itself: the peers, where there is a
    /// new one among them.
    pub open spec fn told_of_packet(self, packet: DiscoveryPacketView, ip: Seq<char>) -> Option<
        IpcEventView,
    > {
        if self.concerns(packet) && !known(self.local_peers, packet.hostname) {
            Some(peers_event_view(self.after_packet(packet, ip).local_peers))
        } else {
            None
        }
    }

    /// The daemon after a message of the server.
    pub open spec fn after_message(self, message: ServerMessageView) -> DaemonView {
        match message {
            ServerMessageView::Welcome { id } => DaemonView { local_id: Some(id), ..self },
            _ => self,
        }
    }

    /// What is to be done about something from a peer.
    pub open spec fn about_peer(
        self,
        sender_id: Seq<char>,
        payload: SignalingPayloadView,
    ) -> ServerActionView {
        match payload {
            SignalingPayloadView::Chat { .. } => ServerActionView::Nothing,
            SignalingPayloadView::Offer { sdp, .. } => ServerActionView::Answer {
                handshake: HandshakeView::answer(sender_id, self.hostname, sdp),
            },
            SignalingPayloadView::Answer { sdp, .. } => if self.connections.contains(sender_id) {
                ServerActionView::ApplyAnswer { target_id: sender_id, sdp }
            } else {
                ServerActionView::Nothing
            },
            SignalingPayloadView::IceCandidate { candidate } => if self.connections.contains(
                sender_id,
            ) {
                ServerActionView::AddCandidate { target_id: sender_id, candidate }
            } else {
                ServerActionView::Nothing
            },
        }
    }

    /// What is to be done about a message of the server.
    pub open spec fn about_message(self, message: ServerMessageView) -> ServerActionView {
        match message {
            ServerMessageView::Welcome { id } => ServerActionView::Announce {
                event: status_event_view(id, self.hostname),
                packet: DiscoveryPacketView {
                    id,
                    hostname: self.hostname,
                    token: self.auth_token,
                },
            },
            ServerMessageView::PeerMessage { sender_id, payload: Some(payload) } => {
                self.about_peer(sender_id, payload)
            },
            ServerMessageView::PeerMessage { payload: None, .. } => ServerActionView::Nothing,
            ServerMessageView::Error { message } => ServerActionView::Report { message },
            ServerMessageView::Unknown => ServerActionView::Nothing,
        }
    }

    /// The record that a command to add a peer at an address makes: the address is the name.
    pub open spec fn added(id: Seq<char>, ip: Seq<char>) -> PeerView {
        PeerView { hostname: ip, id, ip }
    }

    /// The daemon after a command.
    pub open spec fn after_command(self, c: IpcCommandView) -> DaemonView {
        match (c.target, c.msg) {
            (Some(target), Some(ip)) => if c.action == "add_peer"@ {
                DaemonView {
                    local_peers: recorded(self.local_peers, DaemonView::added(target, ip)),
                    ..self
                }
            } else {
                self
            },
            _ => self,
        }
    }

    /// What is to be done about a command that names a target.
    pub open spec fn about_target(self, c: IpcCommandView, target: Seq<char>) -> CommandActionView {
        let id = resolved(self.local_peers, target);
        let open = self.channels.contains(id);
        if c.action == "add_peer"@ {
            match c.msg {
                Some(_) => CommandActionView::Publish {
                    event: peers_event_view(self.after_command(c).local_peers),
                },
                None => CommandActionView::Nothing,
            }
        } else if c.action == "connect"@ {
            CommandActionView::Call { handshake: HandshakeView::call(id, self.hostname) }
        } else if c.action == "p2p"@ {
            match c.msg {
                Some(text) => if open {
                    CommandActionView::SendText { target_id: id, text }
                } else {
                    CommandActionView::NoTunnel { target_id: id }
                },
                None => CommandActionView::Nothing,
            }
        } else if c.action == "ls"@ {
            match c.path {
                Some(path) => if open {
                    CommandActionView::SendText {
                        target_id: id,
                        text: json_text(listing_request(path)),
                    }
                } else {
                    CommandActionView::Nothing
                },
                None => CommandActionView::Nothing,
            }
        } else if c.action == "download_req"@ {
            match c.path {
                Some(path) => if open {
                    CommandActionView::SendText {
                        target_id: id,
                        text: json_text(download_request(path)),
                    }
                } else {
                    CommandActionView::Nothing
                },
                None => CommandActionView::Nothing,
            }
        } else if c.action == "sendfile"@ {
            match c.path {
                Some(path) => if open {
                    CommandActionView::SendFile { target_id: id, path }
                } else {
                    CommandActionView::NoTunnel { target_id: id }
                },
                None => CommandActionView::Nothing,
            }
        } else {
            CommandActionView::Nothing
        }
    }

    /// What is to be done about a command.
    pub open spec fn about_command(self, c: IpcCommandView) -> CommandActionView {
        if c.action == "list"@ {
            CommandActionView::Publish { event: peers_event_view(self.local_peers) }
        } else {
            match c.target {
                Some(target) => self.about_target(c, target),
                None => CommandActionView::Nothing,
            }
        }
    }

    /// Whether the text that a request becomes reads back, at the peer, as that request.
    pub open spec fn readable(c: IpcCommandView, action: CommandActionView) -> bool {
        match (action, c.path) {
            (CommandActionView::SendText { text, .. }, Some(path)) => {
                &&& c.action == "ls"@ ==> writes(text, listing_request(path))
                &&& c.action == "download_req"@ ==> writes(text, download_request(path))
            },
            _ => true,
        }
    }

    /// The daemon after a step of a handshake has come to something: the caller's channel is
    /// kept once it is open, and the connection once the peer has been sent a description.
    pub open spec fn after_step(self, h: HandshakeView, outcome: OutcomeView) -> DaemonView {
        DaemonView {
            channels: if h.stage is OpeningChannel && outcome is Done {
                self.channels.insert(h.target_id)
            } else {
                self.channels
            },
            connections: if h.step(outcome) is Finish {
                self.connections.insert(h.target_id)
            } else {
                self.connections
            },
            ..self
        }
    }
}

/// What a client is told when it connects: by a daemon that is not paired, that it is not, and
/// by one that is, who it is, once it knows.
pub fn client_greeting(daemon: Option<&Daemon>) -> (r: Option<IpcEvent>)
    ensures
        daemon matches Some(d) ==> (r is Some <==> d@.greeting() is Some),
        daemon matches Some(d) ==> (r matches Some(e) ==> d@.greeting() == Some(e@)),
        daemon is None ==> (r matches Some(e) && e@ == unpaired_event_view()),
{
    match daemon {
        Some(d) => d.greeting(),
        None => Some(unpaired_event()),
    }
}

/// What the clients of an unpaired daemon are told about a packet: the offer in it, where it is
/// one.
pub fn on_pairing_packet(packet: &PairingOfferPacket) -> (r: Option<IpcEvent>)
    ensures
        r is Some <==> packet.packet_type@ == "pairing_offer"@,
        r matches Some(e) ==> e@ == pairing_event_view(packet.domain@, packet.token@),
{
    if same(packet.packet_type.as_str(), "pairing_offer") {
        Some(pairing_event(packet.domain.as_str(), packet.token.as_str()))
    } else {
        None
    }
}

impl Daemon {
    /// Whether no two peers of the local network go by one name.
    pub open spec fn wf(self) -> bool {
        distinct(self@.local_peers)
    }

    /// A daemon that knows nobody.
    pub fn new(hostname: String, auth_token: String) -> (r: Daemon)
        ensures
            r.wf(),
            r@ == (DaemonView {
                hostname: hostname@,
                auth_token: auth_token@,
                local_id: None,
                local_peers: Seq::empty(),
                connections: Set::empty(),
                channels: Set::empty(),
            }),
    {
        Daemon {
            hostname,
            auth_token,
            local_id: None,
            local_peers: PeerDirectory::new(),
            connections: NameSet::new(),
            channels: NameSet::new(),
        }
    }

    /// The name of the own node.
    pub fn hostname(&self) -> (r: &str)
        ensures
            r@ == self@.hostname,
    {
        self.hostname.as_str()
    }

    /// What a client is told when it connects.
    pub fn greeting(&self) -> (r: Option<IpcEvent>)
        ensures
            r is Some <==> self@.greeting() is Some,
            r matches Some(e) ==> self@.greeting() == Some(e@),
    {
        match &self.local_id {
            Some(id) => Some(status_event(id.as_str(), self.hostname.as_str())),
            None => None,
        }
    }

    /// The identifier that a target stands for.
    pub fn resolve_target(&self, target: &str) -> (r: String)
        requires
            self.wf(),
        ensures
            r@ == resolved(self@.local_peers, target@),
    {
        self.local_peers.resolve(target)
    }

    /// Takes in what a node of the local network has told of itself from an address.
    pub fn on_discovery(&mut self, packet: DiscoveryPacket, ip: String) -> (r: Option<IpcEvent>)
        requires
            old(self).wf(),
        ensures
            final(self).wf(),
            final(self)@ == old(self)@.after_packet(packet@, ip@),
            r is Some <==> old(self)@.told_of_packet(packet@, ip@) is Some,
            r matches Some(e) ==> old(self)@.told_of_packet(packet@, ip@) == Some(e@),
    {
        if !same(packet.token.as_str(), self.auth_token.as_str()) || same(
            packet.hostname.as_str(),
            self.hostname.as_str(),
        ) {
            return None;
        }
        let is_new = !self.local_peers.contains(packet.hostname.as_str());
        self.local_peers.insert(PeerInfo { hostname: packet.hostname, id: packet.id, ip });
        if is_new {
            Some(peers_event(&self.local_peers))
        } else {
            None
        }
    }

    /// Takes in a message of the server.
    pub fn on_message(&mut self, message: ServerMessage) -> (r: ServerAction)
        requires
            old(self).wf(),
        ensures
            final(self).wf(),
            final(self)@ == old(self)@.after_message(message@),
            r@ == old(self)@.about_message(message@),
    {
        match message {
            ServerMessage::Welcome { id } => {
                let event = status_event(id.as_str(), self.hostname.as_str());
                let packet = DiscoveryPacket {
                    id: id.clone(),
                    hostname: self.hostname.clone(),
                    token: self.auth_token.clone(),
                };
                self.local_id = Some(id);
                ServerAction::Announce { event, packet }
            },
            ServerMessage::PeerMessage { sender_id, payload: Some(payload) } => {
                self.on_peer(sender_id, payload)
            },
            ServerMessage::PeerMessage { sender_id: _, payload: None } => ServerAction::Nothing,
            ServerMessage::Error { message } => ServerAction::Report { message },
            ServerMessage::Unknown => ServerAction::Nothing,
        }
    }

    /// Says what is to be done about something from a peer.
    fn on_peer(&self, sender_id: String, payload: SignalingPayload) -> (r: ServerAction)
        ensures
            r@ == self@.about_peer(sender_id@, payload@),
    {
        match payload {
            SignalingPayload::Chat { message: _ } => ServerAction::Nothing,
            SignalingPayload::Offer { sdp, hostname: _ } => ServerAction::Answer {
                handshake: Handshake::answer(sender_id.as_str(), self.hostname.as_str(), sdp),
            },
            SignalingPayload::Answer { sdp, hostname: _ } => {
                if self.connections.contains(sender_id.as_str()) {
                    ServerAction::ApplyAnswer { target_id: sender_id, sdp }
                } else {
                    ServerAction::Nothing
                }
            },
            SignalingPayload::IceCandidate { candidate } => {
                if self.connections.contains(sender_id.as_str()) {
                    ServerAction::AddCandidate { target_id: sender_id, candidate }
                } else {
                    ServerAction::Nothing
                }
            },
        }
    }

    /// Takes in a command of a client.
    pub fn on_command(&mut self, c: IpcCommand) -> (r: CommandAction)
        requires
            old(self).wf(),
        ensures
            final(self).wf(),
            final(self)@ == old(self)@.after_command(c@),
            r@ == old(self)@.about_command(c@),
            DaemonView::readable(c@, r@),
    {
        proof {
            reveal_strlit("list");
            reveal_strlit("add_peer");
            assert("list"@.len() == 4 && "add_peer"@.len() == 8);
        }
        if same(c.action.as_str(), "list") {
            return CommandAction::Publish { event: peers_event(&self.local_peers) };
        }
        match c.target {
            Some(target) => self.on_targeted(c.action, target, c.msg, c.path),
            None => CommandAction::Nothing,
        }
    }

    /// Takes in a command that names a target.
    fn on_targeted(
        &mut self,
        action: String,
        target: String,
        msg: Option<String>,
        path: Option<String>,
    ) -> (r: CommandAction)
        requires
            old(self).wf(),
        ensures
            final(self).wf(),
            ({
                let c = IpcCommandView {
                    action: action@,
                    target: Some(target@),
                    msg: msg.deep_view(),
                    path: path.deep_view(),
                };
                &&& final(self)@ == old(self)@.after_command(c)
                &&& r@ == old(self)@.about_target(c, target@)
                &&& DaemonView::readable(c, r@)
            }),
    {
        proof {
            reveal_strlit("p2p");
            reveal_strlit("ls");
            reveal_strlit("download_req");
            assert("p2p"@.len() == 3 && "ls"@.len() == 2 && "download_req"@.len() == 12);
        }
        let id = self.local_peers.resolve(target.as_str());
        let open = self.channels.contains(id.as_str());
        if same(action.as_str(), "add_peer") {
            match msg {
                Some(ip) => {
                    self.local_peers.insert(PeerInfo { hostname: ip.clone(), id: target, ip });
                    CommandAction::Publish { event: peers_event(&self.local_peers) }
                },
                None => CommandAction::Nothing,
            }
        } else if same(action.as_str(), "connect") {
            CommandAction::Call { handshake: Handshake::call(id.as_str(), self.hostname.as_str()) }
        } else if same(action.as_str(), "p2p") {
            match msg {
                Some(text) => {
                    if open {
                        CommandAction::SendText { target_id: id, text }
                    } else {
                        CommandAction::NoTunnel { target_id: id }
                    }
                },
                None => CommandAction::Nothing,
            }
        } else if same(action.as_str(), "ls") {
            match path {
                Some(path) => {
                    if open {
                        CommandAction::SendText {
                            target_id: id,
                            text: listing_request_text(path.as_str()),
                        }
                    } else {
                        CommandAction::Nothing
                    }
                },
                None => CommandAction::Nothing,
            }
        } else if same(action.as_str(), "download_req") {
            match path {
                Some(path) => {
                    if open {
                        CommandAction::SendText {
                            target_id: id,
                            text: download_request_text(path.as_str()),
                        }
                    } else {
                        CommandAction::Nothing
                    }
                },
                None => CommandAction::Nothing,
            }
        } else if same(action.as_str(), "sendfile") {
            match path {
                Some(path) => {
                    if open {
                        CommandAction::SendFile { target_id: id, path }
                    } else {
                        CommandAction::NoTunnel { target_id: id }
                    }
                },
                None => CommandAction::Nothing,
            }
        } else {
            CommandAction::Nothing
        }
    }

    /// Takes in what the last step of a handshake has come to, and says what is to be done
    /// next.
    pub fn on_step(&mut self, h: &mut Handshake, outcome: Outcome) -> (r: Step)
        requires
            old(self).wf(),
        ensures
            final(self).wf(),
            final(self)@ == old(self)@.after_step(old(h)@, outcome@),
            final(h)@ == old(h)@.after(outcome@),
            r@ == old(h)@.step(outcome@),
    {
        let opened = h.opens_channel() && matches!(outcome, Outcome::Done);
        if opened {
            self.channels.insert(h.target_id());
        }
        let step = h.advance(outcome);
        if matches!(step, Step::Finish { .. }) {
            self.connections.insert(h.target_id());
        }
        step
    }

    /// Notes that a peer has opened a channel.
    pub fn channel_opened(&mut self, target_id: &str)
        requires
            old(self).wf(),
        ensures
            final(self).wf(),
            final(self)@ == (DaemonView {
                channels: old(self)@.channels.insert(target_id@),
                ..old(self)@
            }),
    {
        self.channels.insert(target_id);
    }
}

/// A packet with another network's token, or under the own name, changes nothing, and nobody is
/// told of it.
pub proof fn law_foreign_packet_is_ignored(
    d: DaemonView,
    packet: DiscoveryPacketView,
    ip: Seq<char>,
)
    requires
        packet.token != d.auth_token || packet.hostname == d.hostname,
    ensures
        d.after_packet(packet, ip) == d,
        d.told_of_packet(packet, ip) is None,
{
}

/// The own name does not come among the peers by what the local network tells.
pub proof fn law_own_name_is_not_heard(d: DaemonView, packet: DiscoveryPacketView, ip: Seq<char>)
    requires
        !known(d.local_peers, d.hostname),
    ensures
        !known(d.after_packet(packet, ip).local_peers, d.hostname),
{
    let t = d.after_packet(packet, ip).local_peers;
    if known(t, d.hostname) {
        let i = choose|i: int| 0 <= i < t.len() && (#[trigger] t[i]).hostname == d.hostname;
        if i < d.local_peers.len() {
            assert(d.local_peers[i].hostname == d.hostname);
        }
    }
}

/// The clients are told of a peer when it is first heard of, and not when it is heard of again.
pub proof fn law_peer_is_told_of_once(
    d: DaemonView,
    packet: DiscoveryPacketView,
    ip: Seq<char>,
    later: DiscoveryPacketView,
    later_ip: Seq<char>,
)
    requires
        distinct(d.local_peers),
        d.concerns(packet),
        later.hostname == packet.hostname,
    ensures
        d.told_of_packet(packet, ip) is Some <==> !known(d.local_peers, packet.hostname),
        d.after_packet(packet, ip).told_of_packet(later, later_ip) is None,
{
    let p = DaemonView::heard(packet, ip);
    law_directory_is_a_map(d.local_peers, p);
    assert(by_hostname(recorded(d.local_peers, p)).dom().contains(p.hostname));
}

/// A peer that was heard of can be called by its name: the call goes to the identifier that it
/// told last.
pub proof fn law_heard_peer_can_be_called(
    d: DaemonView,
    packet: DiscoveryPacketView,
    ip: Seq<char>,
    c: IpcCommandView,
)
    requires
        distinct(d.local_peers),
        d.concerns(packet),
        c.action == "connect"@,
        c.target == Some(packet.hostname),
    ensures
        d.after_packet(packet, ip).about_command(c) == (CommandActionView::Call {
            handshake: HandshakeView::call(packet.id, d.hostname),
        }),
{
    law_recorded_peer_resolves(d.local_peers, DaemonView::heard(packet, ip));
    reveal_strlit("connect");
    reveal_strlit("list");
    reveal_strlit("add_peer");
    assert("connect"@.len() == 7 && "list"@.len() == 4 && "add_peer"@.len() == 8);
}

/// A peer that was added by hand can be called by its address.
pub proof fn law_added_peer_can_be_called(
    d: DaemonView,
    add: IpcCommandView,
    id: Seq<char>,
    ip: Seq<char>,
    c: IpcCommandView,
)
    requires
        distinct(d.local_peers),
        add.action == "add_peer"@,
        add.target == Some(id),
        add.msg == Some(ip),
        c.action == "connect"@,
        c.target == Some(ip),
    ensures
        d.after_command(add).about_command(c) == (CommandActionView::Call {
            handshake: HandshakeView::call(id, d.hostname),
        }),
{
    law_recorded_peer_resolves(d.local_peers, DaemonView::added(id, ip));
    reveal_strlit("connect");
    reveal_strlit("list");
    reveal_strlit("add_peer");
    assert("connect"@.len() == 7 && "list"@.len() == 4 && "add_peer"@.len() == 8);
}

/// A command changes nothing but the peers, and only a command to add a peer changes those.
pub proof fn law_commands_change_only_the_peers(d: DaemonView, c: IpcCommandView)
    ensures
        d.after_command(c) == (DaemonView {
            local_peers: d.after_command(c).local_peers,
            ..d
        }),
        c.action != "add_peer"@ ==> d.after_command(c) == d,
{
}

/// A request for a directory that goes out over a channel is taken, at the peer, for a request
/// for that directory.
pub proof fn law_listing_command_reaches_the_peer(
    d: DaemonView,
    c: IpcCommandView,
    path: Seq<char>,
    caller: Seq<char>,
)
    requires
        c.action == "ls"@,
        c.path == Some(path),
        d.about_command(c) is SendText,
        DaemonView::readable(c, d.about_command(c)),
    ensures
        reaction(
            caller,
            d.about_command(c)->SendText_text,
            understood(parsed_json(d.about_command(c)->SendText_text)),
        ) == (ChannelActionView::List { path }),
{
    law_listing_request_arrives(d.about_command(c)->SendText_text, path);
}

/// A request for a file that goes out over a channel is taken, at the peer, for a request for
/// that file.
pub proof fn law_download_command_reaches_the_peer(
    d: DaemonView,
    c: IpcCommandView,
    path: Seq<char>,
    caller: Seq<char>,
)
    requires
        c.action == "download_req"@,
        c.path == Some(path),
        d.about_command(c) is SendText,
        DaemonView::readable(c, d.about_command(c)),
    ensures
        reaction(
            caller,
            d.about_command(c)->SendText_text,
            understood(parsed_json(d.about_command(c)->SendText_text)),
        ) == (ChannelActionView::Send { path }),
{
    law_download_request_arrives(d.about_command(c)->SendText_text, path);
}

/// Nothing is sent to a peer to whom there is no channel.
pub proof fn law_nothing_is_sent_without_a_channel(d: DaemonView, c: IpcCommandView)
    ensures
        match d.about_command(c) {
            CommandActionView::SendText { target_id, .. } => d.channels.contains(target_id),
            CommandActionView::SendFile { target_id, .. } => d.channels.contains(target_id),
            CommandActionView::NoTunnel { target_id } => !d.channels.contains(target_id),
            _ => true,
        },
{
}

/// What a peer signals touches a connection only where one with this very peer is kept; only an
/// offer begins a new one.
pub proof fn law_signals_touch_only_kept_connections(
    d: DaemonView,
    sender_id: Seq<char>,
    payload: SignalingPayloadView,
)
    ensures
        match d.about_peer(sender_id, payload) {
            ServerActionView::ApplyAnswer { target_id, .. } => target_id == sender_id
                && d.connections.contains(sender_id),
            ServerActionView::AddCandidate { target_id, .. } => target_id == sender_id
                && d.connections.contains(sender_id),
            ServerActionView::Answer { handshake } => payload is Offer && handshake.target_id
                == sender_id,
            other => other is Nothing,
        },
{
}

/// A handshake that ends well leaves the connection with the peer among those that are kept,
/// so that the peer's answer and its candidates find it.
pub proof fn law_finished_handshake_is_kept(
    d: DaemonView,
    h: HandshakeView,
    outcome: OutcomeView,
    payload: SignalingPayloadView,
)
    requires
        h.step(outcome) is Finish,
        payload is Answer || payload is IceCandidate,
    ensures
        d.after_step(h, outcome).connections.contains(h.target_id),
        !(d.after_step(h, outcome).about_peer(h.target_id, payload) is Nothing),
{
}

/// A step of a handshake that fails leaves the connections and channels as they were. A channel
/// that an earlier step of the same handshake has opened stays.
pub proof fn law_failed_handshake_keeps_nothing(d: DaemonView, h: HandshakeView)
    ensures
        d.after_step(h, OutcomeView::Failed) == d,
{
}

/// Whether a row of an event tells of a peer, by its name, its identifier and its address.
pub open spec fn tells_of(row: JsonView, p: PeerView) -> bool {
    &&& row.field("hostname"@) == Some(JsonView::Text(p.hostname))
    &&& row.field("id"@) == Some(JsonView::Text(p.id))
    &&& row.field("ip"@) == Some(JsonView::Text(p.ip))
}

/// Whether an event lists peers: one row for each, in order, and no other.
pub open spec fn lists_peers(e: IpcEventView, peers: Seq<PeerView>) -> bool {
    &&& e.event == "peers_updated"@
    &&& e.data.field("peers"@) matches Some(JsonView::List(rows)) && rows.len() == peers.len() && (
    forall|k: int| 0 <= k < peers.len() ==> tells_of(#[trigger] rows[k], peers[k]))
}

proof fn lemma_lists_peers(peers: Seq<PeerView>)
    ensures
        lists_peers(peers_event_view(peers), peers),
{
    law_peers_event(peers, 0);
    let rows = peers_event_view(peers).data.field("peers"@)->0->List_0;
    assert forall|k: int| 0 <= k < peers.len() implies tells_of(#[trigger] rows[k], peers[k]) by {
        law_peers_event(peers, k);
    }
}

/// A client is greeted with the identifier and the name of the node, once the node has an
/// identifier, and not before.
pub proof fn law_greeting(d: DaemonView)
    ensures
        d.local_id is None ==> d.greeting() is None,
        d.local_id matches Some(id) ==> (d.greeting() matches Some(e) && e.event == "status"@
            && e.data.field("id"@) == Some(JsonView::Text(id)) && e.data.field("hostname"@) == Some(
            JsonView::Text(d.hostname),
        ) && e.data.field("unpaired"@) is None),
{
    match d.local_id {
        Some(id) => {
            law_status_events(id, d.hostname, id, id);
        },
        None => {},
    }
}

/// What a node of the own network tells of itself is recorded as it was told, with the address it
/// came from; every other record is kept, and nothing else changes. What any other node tells
/// changes nothing.
pub proof fn law_packets_are_recorded(
    d: DaemonView,
    packet: DiscoveryPacketView,
    ip: Seq<char>,
    q: PeerView,
)
    requires
        distinct(d.local_peers),
    ensures
        ({
            let after = d.after_packet(packet, ip);
            let known_now = after.local_peers;
            &&& after == (DaemonView { local_peers: known_now, ..d })
            &&& packet.token == d.auth_token && packet.hostname != d.hostname ==> {
                &&& known_now.contains(
                    PeerView { hostname: packet.hostname, id: packet.id, ip },
                )
                &&& q.hostname != packet.hostname ==> (known_now.contains(q)
                    <==> d.local_peers.contains(q))
            }
            &&& packet.token != d.auth_token || packet.hostname == d.hostname ==> known_now
                == d.local_peers
        }),
{
    law_records_are_kept(
        d.local_peers,
        PeerView { hostname: packet.hostname, id: packet.id, ip },
        q,
    );
}

/// The clients are told of a packet exactly where it is the first from its node, and they are
/// then told of all peers that the daemon knows: each that it knew before, and the new one.
pub proof fn law_clients_are_told_of_all_peers(
    d: DaemonView,
    packet: DiscoveryPacketView,
    ip: Seq<char>,
    i: int,
)
    requires
        distinct(d.local_peers),
    ensures
        d.told_of_packet(packet, ip) is Some <==> {
            &&& packet.token == d.auth_token
            &&& packet.hostname != d.hostname
            &&& forall|k: int|
                0 <= k < d.local_peers.len() ==> (#[trigger] d.local_peers[k]).hostname
                    != packet.hostname
        },
        d.told_of_packet(packet, ip) matches Some(e) ==> {
            &&& lists_peers(e, d.after_packet(packet, ip).local_peers)
            &&& e.data.field("peers"@) matches Some(JsonView::List(rows)) && rows.len()
                == d.local_peers.len() + 1 && (0 <= i < d.local_peers.len() ==> (exists|k: int|
                0 <= k < rows.len() && tells_of(#[trigger] rows[k], d.local_peers[i]))) && (exists|
                k: int,
            |
                0 <= k < rows.len() && tells_of(
                    #[trigger] rows[k],
                    PeerView { hostname: packet.hostname, id: packet.id, ip },
                ))
        },
{
    let now = d.after_packet(packet, ip).local_peers;
    lemma_lists_peers(now);
    if d.told_of_packet(packet, ip) is Some {
        let rows = peers_event_view(now).data.field("peers"@)->0->List_0;
        let n = d.local_peers.len() as int;
        assert(now[n] == PeerView { hostname: packet.hostname, id: packet.id, ip });
        assert(tells_of(rows[n], now[n]));
        if 0 <= i < n {
            assert(now[i] == d.local_peers[i]);
            assert(tells_of(rows[i], now[i]));
        }
    }
}

/// A welcome gives the daemon its identifier, and is announced with the identifier, the own name
/// and the own token; no other message changes what the daemon knows.
pub proof fn law_welcome(d: DaemonView, id: Seq<char>, other: ServerMessageView)
    ensures
        ({
            let welcome = ServerMessageView::Welcome { id };
            &&& d.after_message(welcome) == (DaemonView { local_id: Some(id), ..d })
            &&& d.about_message(welcome) matches ServerActionView::Announce { event, packet }
                && event.event == "status"@ && event.data.field("id"@) == Some(JsonView::Text(id))
                && event.data.field("hostname"@) == Some(JsonView::Text(d.hostname)) && packet.id
                == id && packet.hostname == d.hostname && packet.token == d.auth_token
        }),
        !(other is Welcome) ==> d.after_message(other) == d,
{
    law_status_events(id, d.hostname, id, id);
}

/// What a peer signals is handed on as it came: an offer is answered, an answer is given to the
/// connection with its sender, and so is a candidate; without such a connection, and for a
/// message, nothing is done.
pub proof fn law_signals_are_handed_on(
    d: DaemonView,
    sender_id: Seq<char>,
    payload: SignalingPayloadView,
)
    ensures
        ({
            let action = d.about_message(
                ServerMessageView::PeerMessage { sender_id, payload: Some(payload) },
            );
            let kept = d.connections.contains(sender_id);
            match payload {
                SignalingPayloadView::Offer { sdp, hostname } => {
                    action matches ServerActionView::Answer { handshake } && handshake.target_id
                        == sender_id && handshake.hostname == d.hostname && (handshake.offer
                        matches Some(offer) && offer.kind == sdp.kind && offer.sdp == sdp.sdp)
                        && handshake.stage is Creating
                },
                SignalingPayloadView::Answer { sdp, hostname } => {
                    &&& kept ==> (action matches ServerActionView::ApplyAnswer {
                        target_id,
                        sdp: given,
                    } && target_id == sender_id && given.kind == sdp.kind && given.sdp == sdp.sdp)
                    &&& !kept ==> action is Nothing
                },
                SignalingPayloadView::IceCandidate { candidate } => {
                    &&& kept ==> (action matches ServerActionView::AddCandidate {
                        target_id,
                        candidate: given,
                    } && target_id == sender_id && given.candidate == candidate.candidate
                        && given.sdp_mid == candidate.sdp_mid && given.sdp_mline_index
                        == candidate.sdp_mline_index && given.username_fragment
                        == candidate.username_fragment)
                    &&& !kept ==> action is Nothing
                },
                SignalingPayloadView::Chat { message } => action is Nothing,
            }
        }),
{
}

/// An error of the server is reported as it came; what cannot be read, or is unknown, is passed
/// over.
pub proof fn law_other_server_messages(d: DaemonView, sender_id: Seq<char>, message: Seq<char>)
    ensures
        d.about_message(ServerMessageView::Error { message }) == (ServerActionView::Report {
            message,
        }),
        d.about_message(ServerMessageView::PeerMessage { sender_id, payload: None }) is Nothing,
        d.about_message(ServerMessageView::Unknown) is Nothing,
{
}

proof fn lemma_command_words()
    ensures
        "list"@.len() == 4,
        "add_peer"@.len() == 8,
        "add_peer"@[0] == 'a',
        "connect"@.len() == 7,
        "p2p"@.len() == 3,
        "ls"@.len() == 2,
        "download_req"@.len() == 12,
        "sendfile"@.len() == 8,
        "sendfile"@[0] == 's',
{
    reveal_strlit("list");
    reveal_strlit("add_peer");
    reveal_strlit("connect");
    reveal_strlit("p2p");
    reveal_strlit("ls");
    reveal_strlit("download_req");
    reveal_strlit("sendfile");
}

/// A client that asks for the peers is told of all of them.
pub proof fn law_peers_are_listed(d: DaemonView, c: IpcCommandView)
    requires
        c.action == "list"@,
    ensures
        d.about_command(c) matches CommandActionView::Publish { event } && lists_peers(
            event,
            d.local_peers,
        ),
        d.after_command(c) == d,
{
    lemma_command_words();
    lemma_lists_peers(d.local_peers);
}

/// A peer that is added is recorded by its address, under the identifier that was given; every
/// other record is kept, and the clients are told of all of them. Without an address nothing is
/// done.
pub proof fn law_peers_are_added(d: DaemonView, c: IpcCommandView, id: Seq<char>, q: PeerView)
    requires
        distinct(d.local_peers),
        c.action == "add_peer"@,
        c.target == Some(id),
    ensures
        c.msg matches Some(ip) ==> {
            let after = d.after_command(c);
            &&& after == (DaemonView { local_peers: after.local_peers, ..d })
            &&& after.local_peers.contains(PeerView { hostname: ip, id, ip })
            &&& q.hostname != ip ==> (after.local_peers.contains(q) <==> d.local_peers.contains(q))
            &&& d.about_command(c) matches CommandActionView::Publish { event } && lists_peers(
                event,
                after.local_peers,
            )
        },
        c.msg is None ==> d.about_command(c) is Nothing && d.after_command(c) == d,
{
    lemma_command_words();
    lemma_lists_peers(d.after_command(c).local_peers);
    match c.msg {
        Some(ip) => {
            law_records_are_kept(d.local_peers, PeerView { hostname: ip, id, ip }, q);
        },
        None => {},
    }
}

/// A command that concerns a peer goes to the identifier that its target stands for, over the
/// channel to it: a message as it was written, a request for a directory or for a file by the
/// very path, a file by the very path. Without a channel, a message and a file are refused, and
/// a request is dropped. A connection is made by calling that identifier under the own name.
pub proof fn law_commands_go_to_their_target(
    d: DaemonView,
    c: IpcCommandView,
    target: Seq<char>,
)
    requires
        c.target == Some(target),
    ensures
        ({
            let id = resolved(d.local_peers, target);
            let open = d.channels.contains(id);
            let action = d.about_command(c);
            &&& c.action == "connect"@ ==> (action matches CommandActionView::Call { handshake }
                && handshake.target_id == id && handshake.hostname == d.hostname && handshake.offer
                is None && handshake.stage is Creating)
            &&& c.action == "p2p"@ ==> match c.msg {
                Some(msg) => if open {
                    action matches CommandActionView::SendText { target_id, text } && target_id
                        == id && text == msg
                } else {
                    action matches CommandActionView::NoTunnel { target_id } && target_id == id
                },
                None => action is Nothing,
            }
            &&& c.action == "sendfile"@ ==> match c.path {
                Some(path) => if open {
                    action matches CommandActionView::SendFile { target_id, path: given }
                        && target_id == id && given == path
                } else {
                    action matches CommandActionView::NoTunnel { target_id } && target_id == id
                },
                None => action is Nothing,
            }
            &&& c.action == "ls"@ ==> match c.path {
                Some(path) => if open {
                    action matches CommandActionView::SendText { target_id, text } && target_id
                        == id && text == json_text(
                        JsonView::Object(
                            map![
                                "path"@ => JsonView::Text(path),
                                "type"@ => JsonView::Text("ls"@),
                            ],
                        ),
                    )
                } else {
                    action is Nothing
                },
                None => action is Nothing,
            }
            &&& c.action == "download_req"@ ==> match c.path {
                Some(path) => if open {
                    action matches CommandActionView::SendText { target_id, text } && target_id
                        == id && text == json_text(
                        JsonView::Object(
                            map![
                                "path"@ => JsonView::Text(path),
                                "type"@ => JsonView::Text("download_req"@),
                            ],
                        ),
                    )
                } else {
                    action is Nothing
                },
                None => action is Nothing,
            }
        }),
{
    lemma_command_words();
    reveal_strlit("type");
    reveal_strlit("path");
    assert("type"@[0] == 't' && "path"@[0] == 'p');
    match c.path {
        Some(path) => {
            assert(listing_request(path) == JsonView::Object(
                map!["path"@ => JsonView::Text(path), "type"@ => JsonView::Text("ls"@)],
            )) by {
                assert(listing_request(path)->Object_0 =~= map![
                    "path"@ => JsonView::Text(path),
                    "type"@ => JsonView::Text("ls"@),
                ]);
            }
            assert(download_request(path) == JsonView::Object(
                map!["path"@ => JsonView::Text(path), "type"@ => JsonView::Text("download_req"@)],
            )) by {
                assert(download_request(path)->Object_0 =~= map![
                    "path"@ => JsonView::Text(path),
                    "type"@ => JsonView::Text("download_req"@),
                ]);
            }
        },
        None => {},
    }
}

/// A command that is not known, or that lacks its target, does nothing and changes nothing.
pub proof fn law_other_commands_do_nothing(d: DaemonView, c: IpcCommandView)
    requires
        c.action != "list"@,
        c.target is None || (c.action != "connect"@ && c.action != "p2p"@ && c.action != "sendfile"@
            && c.action != "ls"@ && c.action != "download_req"@ && c.action != "add_peer"@),
    ensures
        d.about_command(c) is Nothing,
        d.after_command(c) == d,
{
}

/// The caller's channel is kept once it has been opened, a connection once the peer has been
/// sent a description, and nothing else changes with a handshake.
pub proof fn law_handshakes_are_kept(d: DaemonView, h: HandshakeView, outcome: OutcomeView)
    ensures
        ({
            let after = d.after_step(h, outcome);
            &&& after == (DaemonView {
                channels: after.channels,
                connections: after.connections,
                ..d
            })
            &&& after.channels == (if h.stage is OpeningChannel && outcome is Done {
                d.channels.insert(h.target_id)
            } else {
                d.channels
            })
            &&& after.connections == (if h.stage is ApplyingLocal && outcome is Done {
                d.connections.insert(h.target_id)
            } else {
                d.connections
            })
        }),
{
}

} // verus!
