//! What the daemon and its clients say to each other over the local socket.

use vstd::prelude::*;
use vstd::string::*;
use crate::json::{list_view, Json, JsonView};
use crate::peers::{PeerDirectory, PeerInfo, PeerView};

verus! {

/// A request of a client to the daemon.
#[derive(Debug)]
pub struct IpcCommand {
    pub action: String,
    pub target: Option<String>,
    pub msg: Option<String>,
    pub path: Option<String>,
}

/// What a command says.
pub struct IpcCommandView {
    pub action: Seq<char>,
    pub target: Option<Seq<char>>,
    pub msg: Option<Seq<char>>,
    pub path: Option<Seq<char>>,
}

impl View for IpcCommand {
    type V = IpcCommandView;

    open spec fn view(&self) -> IpcCommandView {
        IpcCommandView {
            action: self.action@,
            target: self.target.deep_view(),
            msg: self.msg.deep_view(),
            path: self.path.deep_view(),
        }
    }
}

/// A notice of the daemon to its clients: a name, and the fields that stand beside it.
#[derive(Debug)]
pub struct IpcEvent {
    pub event: String,
    pub data: Json,
}

/// What an event says.
pub struct IpcEventView {
    pub event: Seq<char>,
    pub data: JsonView,
}

impl View for IpcEvent {
    type V = IpcEventView;

    open spec fn view(&self) -> IpcEventView {
        IpcEventView { event: self.event@, data: self.data@ }
    }
}

/// The event of a daemon that has no signaling server yet.
pub open spec fn unpaired_event_view() -> IpcEventView {
    IpcEventView {
        event: "status"@,
        data: JsonView::Object(map!["unpaired"@ => JsonView::Bool(true)]),
    }
}

/// The event of a daemon that the signaling server has welcomed.
pub open spec fn status_event_view(id: Seq<char>, hostname: Seq<char>) -> IpcEventView {
    IpcEventView {
        event: "status"@,
        data: JsonView::Object(
            map!["id"@ => JsonView::Text(id), "hostname"@ => JsonView::Text(hostname)],
        ),
    }
}

/// The event of a signaling server that offers itself on the local network.
pub open spec fn pairing_event_view(domain: Seq<char>, token: Seq<char>) -> IpcEventView {
    IpcEventView {
        event: "pairing_discovered"@,
        data: JsonView::Object(
            map!["domain"@ => JsonView::Text(domain), "token"@ => JsonView::Text(token)],
        ),
    }
}

/// A peer's record as it stands in an event.
pub open spec fn peer_json(p: PeerView) -> JsonView {
    JsonView::Object(
        map![
            "hostname"@ => JsonView::Text(p.hostname),
            "id"@ => JsonView::Text(p.id),
            "ip"@ => JsonView::Text(p.ip),
        ],
    )
}

/// The event that lists the peers of the local network.
pub open spec fn peers_event_view(peers: Seq<PeerView>) -> IpcEventView {
    IpcEventView {
        event: "peers_updated"@,
        data: JsonView::Object(
            map!["peers"@ => JsonView::List(peers.map_values(|p: PeerView| peer_json(p)))],
        ),
    }
}

/// The event of a message that a peer has sent.
pub open spec fn chat_event_view(from: Seq<char>, msg: Seq<char>) -> IpcEventView {
    IpcEventView {
        event: "chat"@,
        data: JsonView::Object(
            map!["from"@ => JsonView::Text(from), "msg"@ => JsonView::Text(msg)],
        ),
    }
}

/// The event that says how far a file has been sent.
pub open spec fn progress_event_view(
    filename: Seq<char>,
    sent: u64,
    total: u64,
    target: Seq<char>,
) -> IpcEventView {
    IpcEventView {
        event: "file_progress"@,
        data: JsonView::Object(
            map![
                "filename"@ => JsonView::Text(filename),
                "bytes_sent"@ => JsonView::Unsigned(sent),
                "total"@ => JsonView::Unsigned(total),
                "target"@ => JsonView::Text(target),
                "direction"@ => JsonView::Text("send"@),
            ],
        ),
    }
}

/// The event that hands on a peer's answer to a directory request, field by field.
pub open spec fn listing_event_view(answer: JsonView) -> IpcEventView {
    IpcEventView { event: "ls_result"@, data: answer }
}

/// The event of a daemon that has no signaling server yet.
pub fn unpaired_event() -> (r: IpcEvent)
    ensures
        r@ == unpaired_event_view(),
{
    IpcEvent { event: "status".to_owned(), data: Json::object().with("unpaired", Json::Bool(true)) }
}

/// The event of a daemon that the signaling server has welcomed.
pub fn status_event(id: &str, hostname: &str) -> (r: IpcEvent)
    ensures
        r@ == status_event_view(id@, hostname@),
{
    let data = Json::object().with("id", Json::of_text(id)).with(
        "hostname",
        Json::of_text(hostname),
    );
    IpcEvent { event: "status".to_owned(), data }
}

/// The event of a signaling server that offers itself on the local network.
pub fn pairing_event(domain: &str, token: &str) -> (r: IpcEvent)
    ensures
        r@ == pairing_event_view(domain@, token@),
{
    let data = Json::object().with("domain", Json::of_text(domain)).with(
        "token",
        Json::of_text(token),
    );
    IpcEvent { event: "pairing_discovered".to_owned(), data }
}

fn peer_value(p: &PeerInfo) -> (r: Json)
    ensures
        r@ == peer_json(p@),
{
    Json::object().with("hostname", Json::of_text(p.hostname.as_str())).with(
        "id",
        Json::of_text(p.id.as_str()),
    ).with("ip", Json::of_text(p.ip.as_str()))
}

/// The event that lists the peers of the local network.
pub fn peers_event(peers: &PeerDirectory) -> (r: IpcEvent)
    ensures
        r@ == peers_event_view(peers@),
{
    let mut list: Vec<Json> = Vec::new();
    let mut i: usize = 0;
    let ghost want = peers@.map_values(|p: PeerView| peer_json(p));
    while i < peers.len()
        invariant
            i <= peers@.len(),
            want == peers@.map_values(|p: PeerView| peer_json(p)),
            list@.len() == i,
            forall|k: int| 0 <= k < i ==> (#[trigger] list@[k])@ == want[k],
        decreases peers@.len() - i,
    {
        list.push(peer_value(peers.at(i)));
        i += 1;
    }
    assert(list_view(list@) =~= want);
    IpcEvent {
        event: "peers_updated".to_owned(),
        data: Json::object().with("peers", Json::List(list)),
    }
}

/// The event of a message that a peer has sent.
pub fn chat_event(from: &str, msg: &str) -> (r: IpcEvent)
    ensures
        r@ == chat_event_view(from@, msg@),
{
    let data = Json::object().with("from", Json::of_text(from)).with("msg", Json::of_text(msg));
    IpcEvent { event: "chat".to_owned(), data }
}

/// The event that says how far a file has been sent.
pub fn progress_event(filename: &str, sent: u64, total: u64, target: &str) -> (r: IpcEvent)
    ensures
        r@ == progress_event_view(filename@, sent, total, target@),
{
    let data = Json::object().with("filename", Json::of_text(filename)).with(
        "bytes_sent",
        Json::Unsigned(sent),
    ).with("total", Json::Unsigned(total)).with("target", Json::of_text(target)).with(
        "direction",
        Json::of_text("send"),
    );
    IpcEvent { event: "file_progress".to_owned(), data }
}

/// The event that hands on a peer's answer to a directory request.
pub fn listing_event(answer: Json) -> (r: IpcEvent)
    ensures
        r@ == listing_event_view(answer@),
{
    IpcEvent { event: "ls_result".to_owned(), data: answer }
}

/// The event by which a client tells itself that it has reached the daemon, or lost it.
pub open spec fn link_event_view(reached: bool) -> IpcEventView {
    IpcEventView {
        event: if reached {
            "_connected"@
        } else {
            "_disconnected"@
        },
        data: JsonView::Object(Map::empty()),
    }
}

/// The event by which a client tells itself that it has reached the daemon, or lost it.
pub fn link_event(reached: bool) -> (r: IpcEvent)
    ensures
        r@ == link_event_view(reached),
{
    let event = if reached {
        "_connected".to_owned()
    } else {
        "_disconnected".to_owned()
    };
    IpcEvent { event, data: Json::object() }
}

/// The line that a client sends before any other: it asks for the peers.
pub fn first_line() -> (r: String)
    ensures
        r@ == "{\"action\": \"list\"}\n"@,
{
    "{\"action\": \"list\"}\n".to_owned()
}

/// A command or an event as a line of the socket, given its JSON text.
pub fn line_of(json: &str) -> (r: String)
    ensures
        r@ == json@ + "\n"@,
{
    json.to_owned().concat("\n")
}

/// What stands in a text before its first line break.
pub open spec fn first_line_in(s: Seq<char>) -> Seq<char>
    decreases s.len(),
{
    if s.len() == 0 || s[0] == '\n' {
        Seq::empty()
    } else {
        seq![s[0]] + first_line_in(s.skip(1))
    }
}

/// A JSON text without line breaks makes exactly one line: the line break stands at its end and
/// nowhere else, and a reader that goes by line breaks gets the text back, whatever follows.
pub proof fn law_a_line_is_one_line(json: Seq<char>, more: Seq<char>)
    requires
        forall|i: int| 0 <= i < json.len() ==> #[trigger] json[i] != '\n',
    ensures
        (json + "\n"@).len() == json.len() + 1,
        forall|i: int|
            0 <= i < (json + "\n"@).len() ==> (#[trigger] (json + "\n"@)[i] == '\n' <==> i
                == json.len()),
        first_line_in(json + "\n"@ + more) == json,
    decreases json.len(),
{
    reveal_strlit("\n");
    let s = json + "\n"@ + more;
    if json.len() > 0 {
        let rest = json.skip(1);
        assert forall|i: int| 0 <= i < rest.len() implies #[trigger] rest[i] != '\n' by {
            assert(rest[i] == json[i + 1]);
        }
        law_a_line_is_one_line(rest, more);
        assert(s.skip(1) =~= rest + "\n"@ + more);
        assert(s[0] == json[0]);
        assert(seq![json[0]] + rest =~= json);
    } else {
        assert(s[0] == '\n');
        assert(json =~= Seq::empty());
    }
}

proof fn lemma_keys()
    ensures
        "id"@.len() == 2,
        "id"@[1] == 'd',
        "ip"@.len() == 2,
        "ip"@[1] == 'p',
        "hostname"@.len() == 8,
        "domain"@.len() == 6,
        "token"@.len() == 5,
        "from"@.len() == 4,
        "msg"@.len() == 3,
        "filename"@.len() == 8,
        "bytes_sent"@.len() == 10,
        "total"@.len() == 5,
        "target"@.len() == 6,
        "direction"@.len() == 9,
{
    reveal_strlit("id");
    reveal_strlit("ip");
    reveal_strlit("hostname");
    reveal_strlit("domain");
    reveal_strlit("token");
    reveal_strlit("from");
    reveal_strlit("msg");
    reveal_strlit("filename");
    reveal_strlit("bytes_sent");
    reveal_strlit("total");
    reveal_strlit("target");
    reveal_strlit("direction");
}

/// The events on the state of a node carry its identifier and its name, or that it is unpaired
/// and nothing else; the event on an offer carries the server and the token.
pub proof fn law_status_events(
    id: Seq<char>,
    hostname: Seq<char>,
    domain: Seq<char>,
    token: Seq<char>,
)
    ensures
        unpaired_event_view().event == "status"@,
        unpaired_event_view().data.field("unpaired"@) == Some(JsonView::Bool(true)),
        unpaired_event_view().data.field("id"@) is None,
        status_event_view(id, hostname).event == "status"@,
        status_event_view(id, hostname).data.field("id"@) == Some(JsonView::Text(id)),
        status_event_view(id, hostname).data.field("hostname"@) == Some(JsonView::Text(hostname)),
        status_event_view(id, hostname).data.field("unpaired"@) is None,
        pairing_event_view(domain, token).event == "pairing_discovered"@,
        pairing_event_view(domain, token).data.field("domain"@) == Some(JsonView::Text(domain)),
        pairing_event_view(domain, token).data.field("token"@) == Some(JsonView::Text(token)),
{
    lemma_keys();
    reveal_strlit("unpaired");
    reveal_strlit("hostname");
    assert("unpaired"@.len() == 8 && "unpaired"@[0] == 'u' && "hostname"@[0] == 'h');
}

/// The event on the peers carries one row for each record, in order, with the record's own name,
/// identifier and address.
pub proof fn law_peers_event(peers: Seq<PeerView>, k: int)
    ensures
        peers_event_view(peers).event == "peers_updated"@,
        peers_event_view(peers).data.field("peers"@) matches Some(JsonView::List(rows))
            && rows.len() == peers.len() && (0 <= k < peers.len() ==> {
            &&& rows[k].field("hostname"@) == Some(JsonView::Text(peers[k].hostname))
            &&& rows[k].field("id"@) == Some(JsonView::Text(peers[k].id))
            &&& rows[k].field("ip"@) == Some(JsonView::Text(peers[k].ip))
        }),
{
    lemma_keys();
}

/// The event on a message carries its sender and its text.
pub proof fn law_chat_event(from: Seq<char>, msg: Seq<char>)
    ensures
        chat_event_view(from, msg).event == "chat"@,
        chat_event_view(from, msg).data.field("from"@) == Some(JsonView::Text(from)),
        chat_event_view(from, msg).data.field("msg"@) == Some(JsonView::Text(msg)),
{
    lemma_keys();
}

/// The event on a file on its way carries its name, the bytes sent, its size, and to whom it
/// goes.
pub proof fn law_progress_event(filename: Seq<char>, sent: u64, total: u64, target: Seq<char>)
    ensures
        ({
            let e = progress_event_view(filename, sent, total, target);
            &&& e.event == "file_progress"@
            &&& e.data.field("filename"@) == Some(JsonView::Text(filename))
            &&& e.data.field("bytes_sent"@) == Some(JsonView::Unsigned(sent))
            &&& e.data.field("total"@) == Some(JsonView::Unsigned(total))
            &&& e.data.field("target"@) == Some(JsonView::Text(target))
            &&& e.data.field("direction"@) == Some(JsonView::Text("send"@))
        }),
{
    lemma_keys();
}

/// The event on a peer's directory hands the peer's answer on whole.
pub proof fn law_listing_event(answer: JsonView)
    ensures
        listing_event_view(answer).event == "ls_result"@,
        listing_event_view(answer).data == answer,
{
}

/// A client tells itself under two names of its own that it has reached the daemon or lost it.
pub proof fn law_link_events()
    ensures
        link_event_view(true).event == "_connected"@,
        link_event_view(false).event == "_disconnected"@,
{
}

} // verus!
