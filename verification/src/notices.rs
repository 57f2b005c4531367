//! What a client reads from the events of the daemon.

use vstd::prelude::*;
use crate::ipc::{
    chat_event_view, link_event_view, listing_event_view, pairing_event_view, peer_json, peers_event_view,
    progress_event_view, status_event_view, unpaired_event_view, IpcEvent, IpcEventView,
};
use crate::json::{list_view, Json, JsonView};
use crate::listing::{DirEntry, DirEntryView};
use crate::peers::PeerView;
use crate::text::same;
use crate::wire::{entry_json, listing_answer};

verus! {

/// A peer as an event tells of it; either may be missing.
#[derive(Debug)]
pub struct PeerRow {
    pub hostname: Option<String>,
    pub id: Option<String>,
}

/// A peer as an event tells of it.
pub struct PeerRowView {
    pub hostname: Option<Seq<char>>,
    pub id: Option<Seq<char>>,
}

impl View for PeerRow {
    type V = PeerRowView;

    open spec fn view(&self) -> PeerRowView {
        PeerRowView { hostname: self.hostname.deep_view(), id: self.id.deep_view() }
    }
}

impl DeepView for PeerRow {
    type V = PeerRowView;

    open spec fn deep_view(&self) -> PeerRowView {
        self@
    }
}

/// What an event says to a client.
#[derive(Debug)]
pub enum Notice {
    /// The daemon has been reached.
    Connected,
    /// The daemon has been lost.
    Disconnected,
    /// The node has no signaling server.
    Unpaired,
    /// The node has one, and says who it is.
    Paired { id: Option<String>, hostname: Option<String> },
    /// A signaling server offers itself.
    Offer { domain: String, token: String },
    /// These are the peers.
    Peers { rows: Vec<PeerRow> },
    /// Somebody has written.
    Chat { from: String, msg: String },
    /// So much of a file has been sent.
    Progress { filename: String, sent: usize, total: usize },
    /// A peer's directory; what is missing stays as it was.
    Listing { path: Option<String>, parent: Option<String>, entries: Option<Vec<DirEntry>> },
    Nothing,
}

/// What an event says to a client.
pub enum NoticeView {
    Connected,
    Disconnected,
    Unpaired,
    Paired { id: Option<Seq<char>>, hostname: Option<Seq<char>> },
    Offer { domain: Seq<char>, token: Seq<char> },
    Peers { rows: Seq<PeerRowView> },
    Chat { from: Seq<char>, msg: Seq<char> },
    Progress { filename: Seq<char>, sent: usize, total: usize },
    Listing {
        path: Option<Seq<char>>,
        parent: Option<Seq<char>>,
        entries: Option<Seq<DirEntryView>>,
    },
    Nothing,
}

impl View for Notice {
    type V = NoticeView;

    open spec fn view(&self) -> NoticeView {
        match self {
            Notice::Connected => NoticeView::Connected,
            Notice::Disconnected => NoticeView::Disconnected,
            Notice::Unpaired => NoticeView::Unpaired,
            Notice::Paired { id, hostname } => NoticeView::Paired {
                id: id.deep_view(),
                hostname: hostname.deep_view(),
            },
            Notice::Offer { domain, token } => NoticeView::Offer {
                domain: domain@,
                token: token@,
            },
            Notice::Peers { rows } => NoticeView::Peers { rows: rows.deep_view() },
            Notice::Chat { from, msg } => NoticeView::Chat { from: from@, msg: msg@ },
            Notice::Progress { filename, sent, total } => NoticeView::Progress {
                filename: filename@,
                sent: *sent,
                total: *total,
            },
            Notice::Listing { path, parent, entries } => NoticeView::Listing {
                path: path.deep_view(),
                parent: parent.deep_view(),
                entries: entries.deep_view(),
            },
            Notice::Nothing => NoticeView::Nothing,
        }
    }
}

/// A text that may be missing, with what stands for it then.
pub open spec fn text_or(s: Option<Seq<char>>, other: Seq<char>) -> Seq<char> {
    match s {
        Some(t) => t,
        None => other,
    }
}

/// A number that may be missing, with what stands for it then.
pub open spec fn number_or(n: Option<u64>, other: u64) -> u64 {
    match n {
        Some(m) => m,
        None => other,
    }
}

/// A peer in a list of peers.
pub open spec fn row_in(j: JsonView) -> PeerRowView {
    PeerRowView { hostname: j.text_field("hostname"@), id: j.text_field("id"@) }
}

/// An entry in a list of entries: a file without a name and of size 0, unless it says more.
pub open spec fn entry_in(j: JsonView) -> DirEntryView {
    DirEntryView {
        name: text_or(j.text_field("name"@), Seq::empty()),
        is_dir: j.bool_field("is_dir"@) == Some(true),
        size: number_or(j.unsigned_field("size"@), 0),
    }
}

/// The peers in a list.
pub open spec fn rows_in(v: Seq<JsonView>) -> Seq<PeerRowView> {
    v.map_values(|j: JsonView| row_in(j))
}

/// The entries in a list.
pub open spec fn entries_in(v: Seq<JsonView>) -> Seq<DirEntryView> {
    v.map_values(|j: JsonView| entry_in(j))
}

/// What an event says to a client.
pub open spec fn noticed(e: IpcEventView) -> NoticeView {
    let d = e.data;
    if e.event == "_connected"@ {
        NoticeView::Connected
    } else if e.event == "_disconnected"@ {
        NoticeView::Disconnected
    } else if e.event == "status"@ {
        if d.bool_field("unpaired"@) == Some(true) {
            NoticeView::Unpaired
        } else {
            NoticeView::Paired { id: d.text_field("id"@), hostname: d.text_field("hostname"@) }
        }
    } else if e.event == "pairing_discovered"@ {
        match (d.text_field("domain"@), d.text_field("token"@)) {
            (Some(domain), Some(token)) => NoticeView::Offer { domain, token },
            _ => NoticeView::Nothing,
        }
    } else if e.event == "peers_updated"@ {
        match d.list_field("peers"@) {
            Some(v) => NoticeView::Peers { rows: rows_in(v) },
            None => NoticeView::Nothing,
        }
    } else if e.event == "chat"@ {
        NoticeView::Chat {
            from: text_or(d.text_field("from"@), "Unknown"@),
            msg: text_or(d.text_field("msg"@), Seq::empty()),
        }
    } else if e.event == "file_progress"@ {
        NoticeView::Progress {
            filename: text_or(d.text_field("filename"@), Seq::empty()),
            sent: number_or(d.unsigned_field("bytes_sent"@), 0) as usize,
            total: number_or(d.unsigned_field("total"@), 1) as usize,
        }
    } else if e.event == "ls_result"@ {
        NoticeView::Listing {
            path: d.text_field("path"@),
            parent: d.text_field("parent"@),
            entries: match d.list_field("entries"@) {
                Some(v) => Some(entries_in(v)),
                None => None,
            },
        }
    } else {
        NoticeView::Nothing
    }
}

fn text_or_else(s: Option<String>, other: &str) -> (r: String)
    ensures
        r@ == text_or(s.deep_view(), other@),
{
    match s {
        Some(t) => t,
        None => other.to_owned(),
    }
}

fn number_or_else(n: Option<u64>, other: u64) -> (r: u64)
    ensures
        r == number_or(n, other),
{
    match n {
        Some(m) => m,
        None => other,
    }
}

fn read_rows(v: &Vec<Json>) -> (r: Vec<PeerRow>)
    ensures
        r.deep_view() == rows_in(list_view(v@)),
{
    let mut r: Vec<PeerRow> = Vec::new();
    let mut i: usize = 0;
    while i < v.len()
        invariant
            i <= v.len(),
            r@.len() == i,
            forall|k: int| 0 <= k < i ==> (#[trigger] r@[k])@ == row_in(v@[k]@),
        decreases v.len() - i,
    {
        r.push(PeerRow { hostname: v[i].text("hostname"), id: v[i].text("id") });
        i += 1;
    }
    assert(r.deep_view() =~= rows_in(list_view(v@)));
    r
}

fn read_entries(v: &Vec<Json>) -> (r: Vec<DirEntry>)
    ensures
        r.deep_view() == entries_in(list_view(v@)),
{
    let mut r: Vec<DirEntry> = Vec::new();
    let mut i: usize = 0;
    proof {
        reveal_strlit("");
        assert(""@ =~= Seq::empty());
    }
    while i < v.len()
        invariant
            i <= v.len(),
            r@.len() == i,
            ""@ == Seq::<char>::empty(),
            forall|k: int| 0 <= k < i ==> (#[trigger] r@[k])@ == entry_in(v@[k]@),
        decreases v.len() - i,
    {
        r.push(
            DirEntry {
                name: text_or_else(v[i].text("name"), ""),
                is_dir: matches!(v[i].boolean("is_dir"), Some(true)),
                size: number_or_else(v[i].unsigned("size"), 0),
            },
        );
        i += 1;
    }
    assert(r.deep_view() =~= entries_in(list_view(v@)));
    r
}

/// What an event says to a client.
pub fn read_event(e: &IpcEvent) -> (r: Notice)
    ensures
        r@ == noticed(e@),
{
    let d = &e.data;
    let event = e.event.as_str();
    proof {
        reveal_strlit("");
        assert(""@ =~= Seq::empty());
    }
    if same(event, "_connected") {
        Notice::Connected
    } else if same(event, "_disconnected") {
        Notice::Disconnected
    } else if same(event, "status") {
        if matches!(d.boolean("unpaired"), Some(true)) {
            Notice::Unpaired
        } else {
            Notice::Paired { id: d.text("id"), hostname: d.text("hostname") }
        }
    } else if same(event, "pairing_discovered") {
        match (d.text("domain"), d.text("token")) {
            (Some(domain), Some(token)) => Notice::Offer { domain, token },
            _ => Notice::Nothing,
        }
    } else if same(event, "peers_updated") {
        match d.list("peers") {
            Some(v) => Notice::Peers { rows: read_rows(v) },
            None => Notice::Nothing,
        }
    } else if same(event, "chat") {
        Notice::Chat {
            from: text_or_else(d.text("from"), "Unknown"),
            msg: text_or_else(d.text("msg"), ""),
        }
    } else if same(event, "file_progress") {
        Notice::Progress {
            filename: text_or_else(d.text("filename"), ""),
            sent: number_or_else(d.unsigned("bytes_sent"), 0) as usize,
            total: number_or_else(d.unsigned("total"), 1) as usize,
        }
    } else if same(event, "ls_result") {
        Notice::Listing {
            path: d.text("path"),
            parent: d.text("parent"),
            entries: match d.list("entries") {
                Some(v) => Some(read_entries(v)),
                None => None,
            },
        }
    } else {
        Notice::Nothing
    }
}

proof fn lemma_event_names()
    ensures
        "_connected"@.len() == 10,
        "_disconnected"@.len() == 13,
        "_disconnected"@[0] == '_',
        "status"@.len() == 6,
        "pairing_discovered"@.len() == 18,
        "peers_updated"@.len() == 13,
        "peers_updated"@[0] == 'p',
        "chat"@.len() == 4,
        "file_progress"@.len() == 13,
        "file_progress"@[0] == 'f',
        "ls_result"@.len() == 9,
{
    reveal_strlit("_connected");
    reveal_strlit("_disconnected");
    reveal_strlit("status");
    reveal_strlit("pairing_discovered");
    reveal_strlit("peers_updated");
    reveal_strlit("chat");
    reveal_strlit("file_progress");
    reveal_strlit("ls_result");
}

/// A client reads from the events of a daemon's state and of its signaling server what the
/// daemon put into them.
pub proof fn law_status_is_read(
    id: Seq<char>,
    hostname: Seq<char>,
    domain: Seq<char>,
    token: Seq<char>,
)
    ensures
        noticed(unpaired_event_view()) == NoticeView::Unpaired,
        noticed(status_event_view(id, hostname)) == (NoticeView::Paired {
            id: Some(id),
            hostname: Some(hostname),
        }),
        noticed(pairing_event_view(domain, token)) == (NoticeView::Offer { domain, token }),
{
    lemma_event_names();
    reveal_strlit("id");
    reveal_strlit("hostname");
    reveal_strlit("unpaired");
    reveal_strlit("domain");
    reveal_strlit("token");
    assert("id"@.len() == 2 && "hostname"@.len() == 8 && "unpaired"@[0] == 'u' && "hostname"@[0]
        == 'h');
    assert("domain"@.len() == 6 && "token"@.len() == 5);
}

/// A client reads from its own events that it has reached the daemon, or lost it.
pub proof fn law_link_is_read()
    ensures
        noticed(link_event_view(true)) == NoticeView::Connected,
        noticed(link_event_view(false)) == NoticeView::Disconnected,
{
    lemma_event_names();
}

/// A client reads the peers of the local network, each with its name and its identifier, in the
/// order in which the daemon lists them.
pub proof fn law_peers_are_read(peers: Seq<PeerView>)
    ensures
        noticed(peers_event_view(peers)) == (NoticeView::Peers {
            rows: peers.map_values(
                |p: PeerView| PeerRowView { hostname: Some(p.hostname), id: Some(p.id) },
            ),
        }),
{
    lemma_event_names();
    reveal_strlit("hostname");
    reveal_strlit("id");
    reveal_strlit("ip");
    assert("hostname"@.len() == 8 && "id"@.len() == 2 && "id"@[1] == 'd' && "ip"@[1] == 'p');
    let v = peers.map_values(|p: PeerView| peer_json(p));
    assert forall|k: int| 0 <= k < peers.len() implies #[trigger] rows_in(v)[k] == (PeerRowView {
        hostname: Some(peers[k].hostname),
        id: Some(peers[k].id),
    }) by {
        assert(v[k] == peer_json(peers[k]));
    }
    assert(rows_in(v) =~= peers.map_values(
        |p: PeerView| PeerRowView { hostname: Some(p.hostname), id: Some(p.id) },
    ));
}

/// A client reads a peer's message, with its sender, as the daemon hands it on.
pub proof fn law_chat_is_read(from: Seq<char>, msg: Seq<char>)
    ensures
        noticed(chat_event_view(from, msg)) == (NoticeView::Chat { from, msg }),
{
    lemma_event_names();
    reveal_strlit("from");
    reveal_strlit("msg");
    assert("from"@.len() == 4 && "msg"@.len() == 3);
}

/// A client reads how far a file has been sent as the daemon reports it.
pub proof fn law_progress_is_read(
    filename: Seq<char>,
    sent: u64,
    total: u64,
    target: Seq<char>,
)
    ensures
        noticed(progress_event_view(filename, sent, total, target)) == (NoticeView::Progress {
            filename,
            sent: sent as usize,
            total: total as usize,
        }),
{
    lemma_event_names();
    reveal_strlit("filename");
    reveal_strlit("bytes_sent");
    reveal_strlit("total");
    reveal_strlit("target");
    reveal_strlit("direction");
    assert("filename"@.len() == 8 && "bytes_sent"@.len() == 10 && "total"@.len() == 5
        && "target"@.len() == 6 && "direction"@.len() == 9);
}

/// A client reads a peer's directory, entry by entry, as the peer has answered.
pub proof fn law_listing_is_read(path: Seq<char>, parent: Seq<char>, entries: Seq<DirEntryView>)
    ensures
        noticed(listing_event_view(listing_answer(path, parent, entries))) == (
        NoticeView::Listing { path: Some(path), parent: Some(parent), entries: Some(entries) }),
{
    lemma_event_names();
    reveal_strlit("type");
    reveal_strlit("path");
    reveal_strlit("parent");
    reveal_strlit("entries");
    reveal_strlit("name");
    reveal_strlit("is_dir");
    reveal_strlit("size");
    assert("type"@[0] == 't' && "path"@[0] == 'p' && "path"@.len() == 4 && "parent"@.len() == 6
        && "entries"@.len() == 7);
    assert("name"@[0] == 'n' && "is_dir"@[0] == 'i' && "size"@[0] == 's');
    let v = entries.map_values(|e: DirEntryView| entry_json(e));
    assert forall|k: int| 0 <= k < entries.len() implies #[trigger] entries_in(v)[k]
        == entries[k] by {
        assert(v[k] == entry_json(entries[k]));
    }
    assert(entries_in(v) =~= entries);
}

/// A client reads each peer of a list by its own name and identifier, where they are texts, and
/// no more and no fewer peers than there are, in order.
pub proof fn law_rows_are_read(v: Seq<JsonView>, k: int)
    ensures
        rows_in(v).len() == v.len(),
        0 <= k < v.len() ==> {
            &&& forall|s: Seq<char>| #[trigger]
                (rows_in(v)[k].hostname) == Some(s) <==> v[k].field("hostname"@) == Some(
                    JsonView::Text(s),
                )
            &&& forall|s: Seq<char>| #[trigger]
                (rows_in(v)[k].id) == Some(s) <==> v[k].field("id"@) == Some(JsonView::Text(s))
        },
{
}

/// A client reads each entry of a list by its own name, kind and size, where they are there, in
/// order; without them it is a file without a name and of no size.
pub proof fn law_entries_are_read(v: Seq<JsonView>, k: int, name: Seq<char>, size: u64)
    ensures
        entries_in(v).len() == v.len(),
        0 <= k < v.len() ==> {
            let e = entries_in(v)[k];
            &&& v[k].field("name"@) == Some(JsonView::Text(name)) ==> e.name == name
            &&& v[k].text_field("name"@) is None ==> e.name.len() == 0
            &&& e.is_dir <==> v[k].field("is_dir"@) == Some(JsonView::Bool(true))
            &&& v[k].field("size"@) == Some(JsonView::Unsigned(size)) ==> e.size == size
            &&& v[k].unsigned_field("size"@) is None ==> e.size == 0
        },
{
}

/// What a client reads from an event goes by the event's name, and by the very fields beside it.
pub proof fn law_events_are_read(e: IpcEventView)
    ensures
        ({
            let n = noticed(e);
            let d = e.data;
            &&& e.event == "_connected"@ ==> n is Connected
            &&& e.event == "_disconnected"@ ==> n is Disconnected
            &&& e.event == "status"@ ==> (n is Unpaired <==> d.field("unpaired"@) == Some(
                JsonView::Bool(true),
            ))
            &&& e.event == "status"@ && !(n is Unpaired) ==> n == (NoticeView::Paired {
                id: d.text_field("id"@),
                hostname: d.text_field("hostname"@),
            })
            &&& e.event == "pairing_discovered"@ ==> match (
                d.text_field("domain"@),
                d.text_field("token"@),
            ) {
                (Some(domain), Some(token)) => n == (NoticeView::Offer { domain, token }),
                _ => n is Nothing,
            }
            &&& e.event == "peers_updated"@ ==> match d.list_field("peers"@) {
                Some(v) => n == (NoticeView::Peers { rows: rows_in(v) }),
                None => n is Nothing,
            }
            &&& e.event == "chat"@ ==> (n matches NoticeView::Chat { from, msg } && from == (
            match d.text_field("from"@) {
                Some(s) => s,
                None => "Unknown"@,
            }) && msg == (match d.text_field("msg"@) {
                Some(s) => s,
                None => Seq::empty(),
            }))
            &&& e.event == "file_progress"@ ==> (n matches NoticeView::Progress {
                filename,
                sent,
                total,
            } && filename == (match d.text_field("filename"@) {
                Some(s) => s,
                None => Seq::empty(),
            }) && sent == (match d.unsigned_field("bytes_sent"@) {
                Some(b) => b as usize,
                None => 0,
            }) && total == (match d.unsigned_field("total"@) {
                Some(b) => b as usize,
                None => 1,
            }))
            &&& e.event == "ls_result"@ ==> (n matches NoticeView::Listing {
                path,
                parent,
                entries,
            } && path == d.text_field("path"@) && parent == d.text_field("parent"@) && (
            match d.list_field("entries"@) {
                Some(v) => entries == Some(entries_in(v)),
                None => entries is None,
            }))
        }),
{
    lemma_event_names();
}

/// A client passes over every event of another name.
pub proof fn law_other_events_are_passed_over(e: IpcEventView)
    requires
        e.event != "_connected"@,
        e.event != "_disconnected"@,
        e.event != "status"@,
        e.event != "pairing_discovered"@,
        e.event != "peers_updated"@,
        e.event != "chat"@,
        e.event != "file_progress"@,
        e.event != "ls_result"@,
    ensures
        noticed(e) is Nothing,
{
}

} // verus!
