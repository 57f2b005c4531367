//! A desktop client: what it shows, and what it asks of the daemon.

use vstd::prelude::*;
use vstd::string::*;
use crate::config::{law_text_of_settings, settings, settings_text};
use crate::ipc::{IpcCommand, IpcCommandView, IpcEvent, IpcEventView};
use crate::listing::{in_order, law_shown_order_is_in_order, shown_order, sort_entries};
use crate::listing::{DirEntry, DirEntryView};
use crate::notices::{noticed, read_event, text_or, Notice, NoticeView, PeerRow, PeerRowView};
use crate::paths::{is_pushed, path_push};
use crate::prefs::{AppPrefs, AppPrefsView};
use crate::text::{blank, is_blank, same};

verus! {

/// The parts of the window on a peer.
#[derive(Debug, Clone, Copy, PartialEq, Eq, Structural)]
pub enum Tab {
    Chat,
    Files,
    RemoteFiles,
}

/// How far a file has been sent.
#[derive(Debug)]
pub struct FileProgress {
    pub filename: String,
    pub sent: usize,
    pub total: usize,
}

/// How far a file has been sent.
pub struct FileProgressView {
    pub filename: Seq<char>,
    pub sent: usize,
    pub total: usize,
}

impl View for FileProgress {
    type V = FileProgressView;

    open spec fn view(&self) -> FileProgressView {
        FileProgressView { filename: self.filename@, sent: self.sent, total: self.total }
    }
}

/// A file that the user is about to send: its path, and the path as it is shown.
#[derive(Debug)]
pub struct PendingFile {
    pub path: String,
    pub shown: String,
}

/// A file that the user is about to send.
pub struct PendingFileView {
    pub path: Seq<char>,
    pub shown: Seq<char>,
}

impl View for PendingFile {
    type V = PendingFileView;

    open spec fn view(&self) -> PendingFileView {
        PendingFileView { path: self.path@, shown: self.shown@ }
    }
}

/// The signaling server that a node is offered, with its token.
#[derive(Debug)]
pub struct PairingOffer {
    pub domain: String,
    pub token: String,
}

/// The signaling server that a node is offered, with its token.
pub struct PairingOfferView {
    pub domain: Seq<char>,
    pub token: Seq<char>,
}

impl View for PairingOffer {
    type V = PairingOfferView;

    open spec fn view(&self) -> PairingOfferView {
        PairingOfferView { domain: self.domain@, token: self.token@ }
    }
}

/// What a client knows and shows.
#[derive(Debug)]
pub struct Session {
    /// Whether the daemon has been reached.
    pub connected: bool,
    /// Whether the node has no signaling server.
    pub unpaired: bool,
    pub my_id: Option<String>,
    pub my_hostname: Option<String>,
    pub peers: Vec<PeerRow>,
    pub prefs: AppPrefs,
    pub selected_target: Option<String>,
    pub current_tab: Tab,
    pub chat_messages: Vec<String>,
    /// The message that is being written.
    pub input_message: String,
    pub file_progress: Option<FileProgress>,
    pub pending_file: Option<PendingFile>,
    /// The address of a signaling server that is being written.
    pub pairing_domain_input: String,
    /// The token for it that is being written.
    pub pairing_token_input: String,
    pub discovered_pairing: Option<PairingOffer>,
    /// The peer's directory that is shown, the one above it, and the entries.
    pub remote_current_path: String,
    pub remote_parent_path: String,
    pub remote_entries: Vec<DirEntry>,
}

/// What a client knows and shows.
#[verifier::ext_equal]
pub struct SessionView {
    pub connected: bool,
    pub unpaired: bool,
    pub my_id: Option<Seq<char>>,
    pub my_hostname: Option<Seq<char>>,
    pub peers: Seq<PeerRowView>,
    pub prefs: AppPrefsView,
    pub selected_target: Option<Seq<char>>,
    pub current_tab: Tab,
    pub chat_messages: Seq<Seq<char>>,
    pub input_message: Seq<char>,
    pub file_progress: Option<FileProgressView>,
    pub pending_file: Option<PendingFileView>,
    pub pairing_domain_input: Seq<char>,
    pub pairing_token_input: Seq<char>,
    pub discovered_pairing: Option<PairingOfferView>,
    pub remote_current_path: Seq<char>,
    pub remote_parent_path: Seq<char>,
    pub remote_entries: Seq<DirEntryView>,
}

impl View for Session {
    type V = SessionView;

    open spec fn view(&self) -> SessionView {
        SessionView {
            connected: self.connected,
            unpaired: self.unpaired,
            my_id: self.my_id.deep_view(),
            my_hostname: self.my_hostname.deep_view(),
            peers: self.peers.deep_view(),
            prefs: self.prefs@,
            selected_target: self.selected_target.deep_view(),
            current_tab: self.current_tab,
            chat_messages: self.chat_messages.deep_view(),
            input_message: self.input_message@,
            file_progress: match self.file_progress {
                Some(p) => Some(p@),
                None => None,
            },
            pending_file: match self.pending_file {
                Some(p) => Some(p@),
                None => None,
            },
            pairing_domain_input: self.pairing_domain_input@,
            pairing_token_input: self.pairing_token_input@,
            discovered_pairing: match self.discovered_pairing {
                Some(p) => Some(p@),
                None => None,
            },
            remote_current_path: self.remote_current_path@,
            remote_parent_path: self.remote_parent_path@,
            remote_entries: self.remote_entries.deep_view(),
        }
    }
}

/// The command for the peers of the local network.
pub open spec fn list_command_view() -> IpcCommandView {
    IpcCommandView { action: "list"@, target: None, msg: None, path: None }
}

/// A command that concerns a peer.
pub open spec fn peer_command_view(
    action: Seq<char>,
    target: Seq<char>,
    msg: Option<Seq<char>>,
    path: Option<Seq<char>>,
) -> IpcCommandView {
    IpcCommandView { action, target: Some(target), msg, path }
}

/// The command for a directory of a peer.
pub open spec fn ls_command_view(target: Seq<char>, path: Seq<char>) -> IpcCommandView {
    peer_command_view("ls"@, target, None, Some(path))
}

/// The command for a file of a peer.
pub open spec fn download_command_view(target: Seq<char>, path: Seq<char>) -> IpcCommandView {
    peer_command_view("download_req"@, target, None, Some(path))
}

/// A line of the conversation: who has written, and what.
pub open spec fn chat_line(name: Seq<char>, msg: Seq<char>) -> Seq<char> {
    "["@ + name + "] "@ + msg
}

impl SessionView {
    /// A client that has just been started.
    pub open spec fn start(prefs: AppPrefsView) -> SessionView {
        SessionView {
            connected: false,
            unpaired: false,
            my_id: None,
            my_hostname: None,
            peers: Seq::empty(),
            prefs,
            selected_target: None,
            current_tab: Tab::Chat,
            chat_messages: Seq::empty(),
            input_message: Seq::empty(),
            file_progress: None,
            pending_file: None,
            pairing_domain_input: Seq::empty(),
            pairing_token_input: Seq::empty(),
            discovered_pairing: None,
            remote_current_path: Seq::empty(),
            remote_parent_path: Seq::empty(),
            remote_entries: Seq::empty(),
        }
    }

    /// The client with one more line in the conversation.
    pub open spec fn saying(self, line: Seq<char>) -> SessionView {
        SessionView { chat_messages: self.chat_messages.push(line), ..self }
    }

    /// The client after word of how far a file has been sent.
    pub open spec fn after_progress(
        self,
        filename: Seq<char>,
        sent: usize,
        total: usize,
    ) -> SessionView {
        if sent >= total {
            SessionView { file_progress: None, ..self }.saying(">>> File transfer complete."@)
        } else {
            SessionView {
                file_progress: Some(FileProgressView { filename, sent, total }),
                ..self
            }
        }
    }

    /// The client after a peer's directory has come.
    pub open spec fn after_listing(
        self,
        path: Option<Seq<char>>,
        parent: Option<Seq<char>>,
        entries: Option<Seq<DirEntryView>>,
    ) -> SessionView {
        SessionView {
            remote_current_path: text_or(path, self.remote_current_path),
            remote_parent_path: text_or(parent, self.remote_parent_path),
            remote_entries: match entries {
                Some(e) => shown_order(e),
                None => self.remote_entries,
            },
            ..self
        }
    }

    /// The client after an event.
    pub open spec fn after_notice(self, n: NoticeView) -> SessionView {
        match n {
            NoticeView::Connected => SessionView { connected: true, ..self },
            NoticeView::Disconnected => SessionView { connected: false, unpaired: false, ..self },
            NoticeView::Unpaired => SessionView { unpaired: true, ..self },
            NoticeView::Paired { id, hostname } => SessionView {
                unpaired: false,
                my_id: if id is Some {
                    id
                } else {
                    self.my_id
                },
                my_hostname: if hostname is Some {
                    hostname
                } else {
                    self.my_hostname
                },
                ..self
            },
            NoticeView::Offer { domain, token } => SessionView {
                discovered_pairing: Some(PairingOfferView { domain, token }),
                ..self
            },
            NoticeView::Peers { rows } => SessionView { peers: rows, ..self },
            NoticeView::Chat { from, msg } => self.saying(
                chat_line(self.prefs.shown_name(from, from), msg),
            ),
            NoticeView::Progress { filename, sent, total } => self.after_progress(
                filename,
                sent,
                total,
            ),
            NoticeView::Listing { path, parent, entries } => self.after_listing(
                path,
                parent,
                entries,
            ),
            NoticeView::Nothing => self,
        }
    }

    /// What the daemon is asked after an event: the peers, once it has been reached.
    pub open spec fn asked_after(n: NoticeView) -> Option<IpcCommandView> {
        match n {
            NoticeView::Connected => Some(list_command_view()),
            _ => None,
        }
    }
}

/// A peer as it is shown: its identifier, the name that it is shown under, and whether it is
/// a favorite and the one that is selected.
#[derive(Debug)]
pub struct ShownPeer {
    pub id: String,
    pub name: String,
    pub favorite: bool,
    pub selected: bool,
}

/// A peer as it is shown.
pub struct ShownPeerView {
    pub id: Seq<char>,
    pub name: Seq<char>,
    pub favorite: bool,
    pub selected: bool,
}

impl View for ShownPeer {
    type V = ShownPeerView;

    open spec fn view(&self) -> ShownPeerView {
        ShownPeerView {
            id: self.id@,
            name: self.name@,
            favorite: self.favorite,
            selected: self.selected,
        }
    }
}

impl DeepView for ShownPeer {
    type V = ShownPeerView;

    open spec fn deep_view(&self) -> ShownPeerView {
        self@
    }
}

/// Whether a peer goes to the top of the list. A peer without an identifier has the empty one.
pub open spec fn goes_first(favorites: Seq<Seq<char>>, row: PeerRowView) -> bool {
    favorites.contains(text_or(row.id, Seq::empty()))
}

/// The peers that go to the top of the list, or those that do not.
pub open spec fn part(
    rows: Seq<PeerRowView>,
    favorites: Seq<Seq<char>>,
    first: bool,
) -> Seq<PeerRowView> {
    rows.filter(|row: PeerRowView| goes_first(favorites, row) == first)
}

/// The peers in the order in which they are listed: favorites first.
pub open spec fn listed(rows: Seq<PeerRowView>, favorites: Seq<Seq<char>>) -> Seq<PeerRowView> {
    part(rows, favorites, true) + part(rows, favorites, false)
}

impl SessionView {
    /// A peer as it is shown. One without an identifier is shown with a question mark for it.
    pub open spec fn shown(self, row: PeerRowView) -> ShownPeerView {
        let id = text_or(row.id, "?"@);
        ShownPeerView {
            id,
            name: self.prefs.shown_name(id, text_or(row.hostname, "Unknown"@)),
            favorite: self.prefs.favorites.contains(id),
            selected: self.selected_target == Some(id),
        }
    }

    /// The peers as they are shown.
    pub open spec fn shown_peers(self) -> Seq<ShownPeerView> {
        listed(self.peers, self.prefs.favorites).map_values(|row: PeerRowView| self.shown(row))
    }

    /// The name of the selected peer.
    pub open spec fn target_name(self) -> Option<Seq<char>> {
        match self.selected_target {
            Some(t) => Some(self.prefs.shown_name(t, t)),
            None => None,
        }
    }

    /// The client after the user has given the selected peer a name.
    pub open spec fn after_rename(self, name: Seq<char>) -> SessionView {
        match self.selected_target {
            Some(t) => SessionView { prefs: self.prefs.renamed(t, name), ..self },
            None => self,
        }
    }

    /// The client after the user has taken the offered signaling server.
    pub open spec fn after_pairing(self) -> SessionView {
        SessionView { discovered_pairing: None, ..self }
    }

    /// The settings for the offered signaling server.
    pub open spec fn offered_settings(self) -> Option<Seq<char>> {
        match self.discovered_pairing {
            Some(o) => Some(settings(o.domain, o.token)),
            None => None,
        }
    }

    /// The client after the user has asked for a connection with the selected peer.
    pub open spec fn after_connect(self) -> SessionView {
        match self.selected_target {
            Some(_) => self.saying(">>> WebRTC Connection Initiated..."@),
            None => self,
        }
    }

    /// The command for a connection with the selected peer.
    pub open spec fn connect_command(self) -> Option<IpcCommandView> {
        match self.selected_target {
            Some(t) => Some(peer_command_view("connect"@, t, None, None)),
            None => None,
        }
    }

    /// The client after the user has turned to a part of the window on the selected peer.
    pub open spec fn after_tab(self, tab: Tab) -> SessionView {
        match self.selected_target {
            Some(_) => SessionView { current_tab: tab, ..self },
            None => self,
        }
    }

    /// The command that follows: the peer's files are asked for when they are turned to.
    pub open spec fn tab_command(self, tab: Tab) -> Option<IpcCommandView> {
        match self.selected_target {
            Some(t) => if tab == Tab::RemoteFiles {
                Some(ls_command_view(t, Seq::empty()))
            } else {
                None
            },
            None => None,
        }
    }

    /// The command that sends what the user has written, unless it is blank.
    pub open spec fn message_command(self) -> Option<IpcCommandView> {
        match self.selected_target {
            Some(t) => if blank(self.input_message) {
                None
            } else {
                Some(peer_command_view("p2p"@, t, Some(self.input_message), None))
            },
            None => None,
        }
    }

    /// The client after the user has sent what they have written.
    pub open spec fn after_message(self) -> SessionView {
        if self.message_command() is Some {
            SessionView { input_message: Seq::empty(), ..self }.saying(
                "[Me] "@ + self.input_message,
            )
        } else {
            self
        }
    }

    /// The command that sends the file that the user is about to send.
    pub open spec fn file_command(self) -> Option<IpcCommandView> {
        match (self.selected_target, self.pending_file) {
            (Some(t), Some(f)) => Some(peer_command_view("sendfile"@, t, None, Some(f.path))),
            _ => None,
        }
    }

    /// The client after the user has sent that file.
    pub open spec fn after_file(self) -> SessionView {
        match (self.selected_target, self.pending_file) {
            (Some(_), Some(f)) => SessionView {
                pending_file: None,
                current_tab: Tab::Chat,
                ..self
            }.saying(">>> Started sending file "@ + f.shown),
            _ => self,
        }
    }

    /// The command for a directory of the selected peer.
    pub open spec fn listing_command(self, path: Seq<char>) -> Option<IpcCommandView> {
        match self.selected_target {
            Some(t) => Some(ls_command_view(t, path)),
            None => None,
        }
    }

    /// The command for the directory above the one that is shown.
    pub open spec fn up_command(self) -> Option<IpcCommandView> {
        if self.remote_parent_path.len() > 0 {
            self.listing_command(self.remote_parent_path)
        } else {
            None
        }
    }

    /// The command for a file of the selected peer.
    pub open spec fn download_command(self, path: Seq<char>) -> Option<IpcCommandView> {
        match self.selected_target {
            Some(t) => Some(download_command_view(t, path)),
            None => None,
        }
    }

    /// The client after the user has asked for a file of the selected peer.
    pub open spec fn after_download(self, name: Seq<char>) -> SessionView {
        match self.selected_target {
            Some(_) => SessionView { current_tab: Tab::Chat, ..self }.saying(
                ">>> Requesting download for "@ + name,
            ),
            None => self,
        }
    }

    /// Whether a path leads from the directory that is shown to an entry of it.
    pub open spec fn leads_to(self, path: Seq<char>, name: Seq<char>) -> bool {
        is_pushed(path, self.remote_current_path, name)
    }
}

/// The command for the peers of the local network.
pub fn list_command() -> (r: IpcCommand)
    ensures
        r@ == list_command_view(),
{
    IpcCommand { action: "list".to_owned(), target: None, msg: None, path: None }
}

/// A command that concerns a peer.
fn peer_command(
    action: &str,
    target: &str,
    msg: Option<String>,
    path: Option<String>,
) -> (r: IpcCommand)
    ensures
        r@ == peer_command_view(action@, target@, msg.deep_view(), path.deep_view()),
{
    IpcCommand { action: action.to_owned(), target: Some(target.to_owned()), msg, path }
}

impl Session {
    /// A client that has just been started.
    pub fn new(prefs: AppPrefs) -> (r: Session)
        ensures
            r@ == SessionView::start(prefs@),
    {
        let r = Session {
            connected: false,
            unpaired: false,
            my_id: None,
            my_hostname: None,
            peers: Vec::new(),
            prefs,
            selected_target: None,
            current_tab: Tab::Chat,
            chat_messages: Vec::new(),
            input_message: String::new(),
            file_progress: None,
            pending_file: None,
            pairing_domain_input: String::new(),
            pairing_token_input: String::new(),
            discovered_pairing: None,
            remote_current_path: String::new(),
            remote_parent_path: String::new(),
            remote_entries: Vec::new(),
        };
        assert(r@ =~= SessionView::start(prefs@));
        r
    }

    /// Puts one more line into the conversation.
    fn say(&mut self, line: String)
        ensures
            final(self)@ == old(self)@.saying(line@),
    {
        let ghost before = self.chat_messages.deep_view();
        self.chat_messages.push(line);
        assert(self.chat_messages.deep_view() =~= before.push(line@));
    }

    /// Takes in an event, and says what the daemon is asked.
    pub fn on_notice(&mut self, n: Notice) -> (r: Option<IpcCommand>)
        ensures
            final(self)@ == old(self)@.after_notice(n@),
            r is Some <==> SessionView::asked_after(n@) is Some,
            r matches Some(c) ==> SessionView::asked_after(n@) == Some(c@),
    {
        match n {
            Notice::Connected => {
                self.connected = true;
                return Some(list_command());
            },
            Notice::Disconnected => {
                self.connected = false;
                self.unpaired = false;
            },
            Notice::Unpaired => {
                self.unpaired = true;
            },
            Notice::Paired { id, hostname } => {
                self.unpaired = false;
                if id.is_some() {
                    self.my_id = id;
                }
                if hostname.is_some() {
                    self.my_hostname = hostname;
                }
            },
            Notice::Offer { domain, token } => {
                self.discovered_pairing = Some(PairingOffer { domain, token });
            },
            Notice::Peers { rows } => {
                self.peers = rows;
            },
            Notice::Chat { from, msg } => {
                let name = self.prefs.shown_name(from.as_str(), from.as_str());
                self.say("[".to_owned().concat(name.as_str()).concat("] ").concat(msg.as_str()));
            },
            Notice::Progress { filename, sent, total } => {
                if sent >= total {
                    self.file_progress = None;
                    self.say(">>> File transfer complete.".to_owned());
                } else {
                    self.file_progress = Some(FileProgress { filename, sent, total });
                }
            },
            Notice::Listing { path, parent, entries } => {
                if let Some(path) = path {
                    self.remote_current_path = path;
                }
                if let Some(parent) = parent {
                    self.remote_parent_path = parent;
                }
                if let Some(entries) = entries {
                    self.remote_entries = sort_entries(entries);
                }
            },
            Notice::Nothing => {},
        }
        None
    }

    /// Takes in an event of the daemon, and says what the daemon is asked.
    pub fn on_event(&mut self, e: &IpcEvent) -> (r: Option<IpcCommand>)
        ensures
            final(self)@ == old(self)@.after_notice(noticed(e@)),
            r is Some <==> SessionView::asked_after(noticed(e@)) is Some,
            r matches Some(c) ==> SessionView::asked_after(noticed(e@)) == Some(c@),
    {
        self.on_notice(read_event(e))
    }

    /// Says whether a peer goes to the top of the list.
    fn goes_first(&self, row: &PeerRow) -> (r: bool)
        ensures
            r == goes_first(self@.prefs.favorites, row@),
    {
        match &row.id {
            Some(id) => self.prefs.is_favorite(id.as_str()),
            None => {
                proof {
                    reveal_strlit("");
                    assert(""@ =~= Seq::empty());
                }
                self.prefs.is_favorite("")
            },
        }
    }

    /// A peer as it is shown.
    fn show(&self, row: &PeerRow) -> (r: ShownPeer)
        ensures
            r@ == self@.shown(row@),
    {
        let id = match &row.id {
            Some(id) => id.clone(),
            None => "?".to_owned(),
        };
        let host = match &row.hostname {
            Some(h) => h.clone(),
            None => "Unknown".to_owned(),
        };
        let selected = match &self.selected_target {
            Some(t) => same(t.as_str(), id.as_str()),
            None => false,
        };
        let name = self.prefs.shown_name(id.as_str(), host.as_str());
        let favorite = self.prefs.is_favorite(id.as_str());
        ShownPeer { id, name, favorite, selected }
    }

    /// The peers that go to the top of the list, or those that do not, as they are shown.
    fn show_part(&self, first: bool) -> (r: Vec<ShownPeer>)
        ensures
            r@.len() == part(self@.peers, self@.prefs.favorites, first).len(),
            forall|k: int|
                0 <= k < r@.len() ==> (#[trigger] r@[k])@ == self@.shown(
                    part(self@.peers, self@.prefs.favorites, first)[k],
                ),
    {
        let mut r: Vec<ShownPeer> = Vec::new();
        let mut i: usize = 0;
        let ghost rows = self@.peers;
        let ghost favorites = self@.prefs.favorites;
        proof {
            reveal(Seq::filter);
            assert(part(rows.take(0), favorites, first) =~= Seq::empty());
        }
        while i < self.peers.len()
            invariant
                i <= self.peers.len(),
                rows == self@.peers,
                favorites == self@.prefs.favorites,
                r@.len() == part(rows.take(i as int), favorites, first).len(),
                forall|k: int|
                    0 <= k < r@.len() ==> (#[trigger] r@[k])@ == self@.shown(
                        part(rows.take(i as int), favorites, first)[k],
                    ),
            decreases self.peers.len() - i,
        {
            proof {
                reveal(Seq::filter);
                assert(rows.take(i + 1).drop_last() =~= rows.take(i as int));
                assert(rows.take(i + 1).last() == self.peers@[i as int]@);
            }
            if self.goes_first(&self.peers[i]) == first {
                r.push(self.show(&self.peers[i]));
            }
            i += 1;
        }
        assert(rows.take(rows.len() as int) =~= rows);
        r
    }

    /// The peers as they are shown: favorites first.
    pub fn shown_peers(&self) -> (r: Vec<ShownPeer>)
        ensures
            r.deep_view() == self@.shown_peers(),
    {
        let mut r = self.show_part(true);
        let ghost top = r@;
        let mut rest = self.show_part(false);
        let ghost bottom = rest@;
        r.append(&mut rest);
        assert(r@ =~= top + bottom);
        assert forall|k: int| 0 <= k < r@.len() implies (#[trigger] r@[k])@
            == self@.shown_peers()[k] by {
            if k < top.len() {
                assert(r@[k] == top[k]);
            } else {
                assert(r@[k] == bottom[k - top.len()]);
            }
        }
        assert(r.deep_view() =~= self@.shown_peers());
        r
    }

    /// The name of the selected peer.
    pub fn target_name(&self) -> (r: Option<String>)
        ensures
            r.deep_view() == self@.target_name(),
    {
        match &self.selected_target {
            Some(t) => Some(self.prefs.shown_name(t.as_str(), t.as_str())),
            None => None,
        }
    }

    /// Selects a peer.
    pub fn select(&mut self, id: &str)
        ensures
            final(self)@ == (SessionView { selected_target: Some(id@), ..old(self)@ }),
    {
        self.selected_target = Some(id.to_owned());
    }

    /// Makes a peer a favorite, or no favorite any more.
    pub fn toggle_favorite(&mut self, id: &str)
        ensures
            final(self)@ == (SessionView { prefs: old(self)@.prefs.toggled(id@), ..old(self)@ }),
    {
        self.prefs.toggle_favorite(id);
    }

    /// Gives the selected peer a name.
    pub fn rename(&mut self, name: String)
        ensures
            final(self)@ == old(self)@.after_rename(name@),
    {
        match &self.selected_target {
            Some(t) => {
                self.prefs.rename(t.as_str(), name);
            },
            None => {},
        }
    }

    /// Takes the offered signaling server, and gives the settings to write for it.
    pub fn accept_pairing(&mut self) -> (r: Option<String>)
        ensures
            final(self)@ == old(self)@.after_pairing(),
            r.deep_view() == old(self)@.offered_settings(),
    {
        let r = match &self.discovered_pairing {
            Some(o) => Some(settings_text(o.domain.as_str(), o.token.as_str())),
            None => None,
        };
        self.discovered_pairing = None;
        r
    }

    /// Turns the offered signaling server down.
    pub fn dismiss_pairing(&mut self)
        ensures
            final(self)@ == old(self)@.after_pairing(),
    {
        self.discovered_pairing = None;
    }

    /// The settings for the signaling server that the user has written down.
    pub fn manual_settings(&self) -> (r: String)
        ensures
            r@ == settings(self@.pairing_domain_input, self@.pairing_token_input),
    {
        settings_text(self.pairing_domain_input.as_str(), self.pairing_token_input.as_str())
    }

    /// Asks for a connection with the selected peer.
    pub fn connect(&mut self) -> (r: Option<IpcCommand>)
        ensures
            final(self)@ == old(self)@.after_connect(),
            r is Some <==> old(self)@.connect_command() is Some,
            r matches Some(c) ==> old(self)@.connect_command() == Some(c@),
    {
        let c = match &self.selected_target {
            Some(t) => peer_command("connect", t.as_str(), None, None),
            None => {
                return None;
            },
        };
        self.say(">>> WebRTC Connection Initiated...".to_owned());
        Some(c)
    }

    /// Turns to a part of the window on the selected peer.
    pub fn open_tab(&mut self, tab: Tab) -> (r: Option<IpcCommand>)
        ensures
            final(self)@ == old(self)@.after_tab(tab),
            r is Some <==> old(self)@.tab_command(tab) is Some,
            r matches Some(c) ==> old(self)@.tab_command(tab) == Some(c@),
    {
        proof {
            reveal_strlit("");
            assert(""@ =~= Seq::empty());
        }
        let c = match &self.selected_target {
            Some(t) => {
                if tab == Tab::RemoteFiles {
                    Some(peer_command("ls", t.as_str(), None, Some("".to_owned())))
                } else {
                    None
                }
            },
            None => {
                return None;
            },
        };
        self.current_tab = tab;
        c
    }

    /// Sends what the user has written, unless it is blank.
    pub fn send_message(&mut self) -> (r: Option<IpcCommand>)
        ensures
            final(self)@ == old(self)@.after_message(),
            r is Some <==> old(self)@.message_command() is Some,
            r matches Some(c) ==> old(self)@.message_command() == Some(c@),
    {
        if is_blank(self.input_message.as_str()) {
            return None;
        }
        let c = match &self.selected_target {
            Some(t) => peer_command("p2p", t.as_str(), Some(self.input_message.clone()), None),
            None => {
                return None;
            },
        };
        let line = "[Me] ".to_owned().concat(self.input_message.as_str());
        self.input_message = String::new();
        assert(self.input_message@ =~= Seq::empty());
        self.say(line);
        Some(c)
    }

    /// Takes a file that the user is about to send.
    pub fn drop_file(&mut self, file: PendingFile)
        ensures
            final(self)@ == (SessionView { pending_file: Some(file@), ..old(self)@ }),
    {
        self.pending_file = Some(file);
    }

    /// Lays that file aside.
    pub fn cancel_file(&mut self)
        ensures
            final(self)@ == (SessionView { pending_file: None, ..old(self)@ }),
    {
        self.pending_file = None;
    }

    /// Sends that file.
    pub fn send_file(&mut self) -> (r: Option<IpcCommand>)
        ensures
            final(self)@ == old(self)@.after_file(),
            r is Some <==> old(self)@.file_command() is Some,
            r matches Some(c) ==> old(self)@.file_command() == Some(c@),
    {
        let (c, line) = match (&self.selected_target, &self.pending_file) {
            (Some(t), Some(f)) => (
                peer_command("sendfile", t.as_str(), None, Some(f.path.clone())),
                ">>> Started sending file ".to_owned().concat(f.shown.as_str()),
            ),
            _ => {
                return None;
            },
        };
        self.pending_file = None;
        self.current_tab = Tab::Chat;
        self.say(line);
        Some(c)
    }

    /// Asks for a directory of the selected peer.
    pub fn list_remote(&self, path: &str) -> (r: Option<IpcCommand>)
        ensures
            r is Some <==> self@.listing_command(path@) is Some,
            r matches Some(c) ==> self@.listing_command(path@) == Some(c@),
    {
        match &self.selected_target {
            Some(t) => Some(peer_command("ls", t.as_str(), None, Some(path.to_owned()))),
            None => None,
        }
    }

    /// Asks for the directory that is shown once more.
    pub fn refresh_remote(&self) -> (r: Option<IpcCommand>)
        ensures
            r is Some <==> self@.listing_command(self@.remote_current_path) is Some,
            r matches Some(c) ==> self@.listing_command(self@.remote_current_path) == Some(c@),
    {
        self.list_remote(self.remote_current_path.as_str())
    }

    /// Asks for the directory above the one that is shown, where there is one.
    pub fn go_up(&self) -> (r: Option<IpcCommand>)
        ensures
            r is Some <==> self@.up_command() is Some,
            r matches Some(c) ==> self@.up_command() == Some(c@),
    {
        if self.remote_parent_path.as_str().is_empty() {
            None
        } else {
            self.list_remote(self.remote_parent_path.as_str())
        }
    }

    /// Asks for a directory in the one that is shown.
    pub fn open_remote(&self, name: &str) -> (r: Option<IpcCommand>)
        ensures
            r is Some <==> self@.selected_target is Some,
            r matches Some(c) ==> c@.path is Some && self@.listing_command(c@.path->0) == Some(c@)
                && self@.leads_to(c@.path->0, name@),
    {
        let path = path_push(self.remote_current_path.as_str(), name);
        self.list_remote(path.as_str())
    }

    /// Asks for the file of the selected peer at a path, and says so under the file's name.
    pub fn download_at(&mut self, name: &str, path: &str) -> (r: Option<IpcCommand>)
        ensures
            final(self)@ == old(self)@.after_download(name@),
            r is Some <==> old(self)@.download_command(path@) is Some,
            r matches Some(c) ==> old(self)@.download_command(path@) == Some(c@),
    {
        let c = match &self.selected_target {
            Some(t) => peer_command("download_req", t.as_str(), None, Some(path.to_owned())),
            None => {
                return None;
            },
        };
        self.current_tab = Tab::Chat;
        self.say(">>> Requesting download for ".to_owned().concat(name));
        Some(c)
    }

    /// Asks for a file in the directory that is shown.
    pub fn download(&mut self, name: &str) -> (r: Option<IpcCommand>)
        ensures
            final(self)@ == old(self)@.after_download(name@),
            r is Some <==> old(self)@.selected_target is Some,
            r matches Some(c) ==> c@.path is Some && old(self)@.download_command(c@.path->0)
                == Some(c@) && old(self)@.leads_to(c@.path->0, name@),
    {
        let path = path_push(self.remote_current_path.as_str(), name);
        self.download_at(name, path.as_str())
    }
}

proof fn lemma_part(
    rows: Seq<PeerRowView>,
    favorites: Seq<Seq<char>>,
    first: bool,
    i: int,
)
    requires
        0 <= i < part(rows, favorites, first).len(),
    ensures
        goes_first(favorites, part(rows, favorites, first)[i]) == first,
    decreases rows.len(),
{
    reveal(Seq::filter);
    if rows.len() > 0 && i < part(rows.drop_last(), favorites, first).len() {
        lemma_part(rows.drop_last(), favorites, first, i);
    }
}

/// No favorite is listed below a peer that is none.
pub proof fn law_favorites_are_listed_first(
    rows: Seq<PeerRowView>,
    favorites: Seq<Seq<char>>,
    i: int,
    j: int,
)
    requires
        0 <= i <= j < listed(rows, favorites).len(),
        goes_first(favorites, listed(rows, favorites)[j]),
    ensures
        goes_first(favorites, listed(rows, favorites)[i]),
{
    let top = part(rows, favorites, true);
    let bottom = part(rows, favorites, false);
    if j >= top.len() {
        lemma_part(rows, favorites, false, j - top.len());
    }
    if i < top.len() {
        lemma_part(rows, favorites, true, i);
    }
}

proof fn lemma_part_of_part(
    rows: Seq<PeerRowView>,
    favorites: Seq<Seq<char>>,
    first: bool,
    again: bool,
)
    ensures
        part(part(rows, favorites, first), favorites, again) == (if first == again {
            part(rows, favorites, first)
        } else {
            Seq::empty()
        }),
    decreases rows.len(),
{
    reveal(Seq::filter);
    if rows.len() > 0 {
        lemma_part_of_part(rows.drop_last(), favorites, first, again);
        let p = part(rows.drop_last(), favorites, first);
        assert(p.push(rows.last()).drop_last() =~= p);
    } else {
        assert(part(rows, favorites, first) =~= Seq::empty());
        assert(part(Seq::empty(), favorites, again) =~= Seq::empty());
    }
}

proof fn lemma_part_of_sum(
    a: Seq<PeerRowView>,
    b: Seq<PeerRowView>,
    favorites: Seq<Seq<char>>,
    first: bool,
)
    ensures
        part(a + b, favorites, first) == part(a, favorites, first) + part(b, favorites, first),
    decreases b.len(),
{
    reveal(Seq::filter);
    if b.len() > 0 {
        lemma_part_of_sum(a, b.drop_last(), favorites, first);
        assert((a + b).drop_last() =~= a + b.drop_last());
        assert((a + b).last() == b.last());
        assert(part(a + b, favorites, first) =~= part(a, favorites, first) + part(
            b,
            favorites,
            first,
        ));
    } else {
        assert(a + b =~= a);
        assert(part(b, favorites, first) =~= Seq::empty());
        assert(part(a + b, favorites, first) =~= part(a, favorites, first) + part(
            b,
            favorites,
            first,
        ));
    }
}

/// Favorites stay in the order in which the daemon lists them, and so do the others.
pub proof fn law_listing_peers_is_stable(
    rows: Seq<PeerRowView>,
    favorites: Seq<Seq<char>>,
    first: bool,
)
    ensures
        part(listed(rows, favorites), favorites, first) == part(rows, favorites, first),
{
    lemma_part_of_sum(part(rows, favorites, true), part(rows, favorites, false), favorites, first);
    lemma_part_of_part(rows, favorites, true, first);
    lemma_part_of_part(rows, favorites, false, first);
    assert(part(listed(rows, favorites), favorites, first) =~= part(rows, favorites, first));
}

/// Every peer is listed, as often as the daemon lists it.
pub proof fn law_every_peer_is_listed(rows: Seq<PeerRowView>, favorites: Seq<Seq<char>>)
    ensures
        listed(rows, favorites).to_multiset() == rows.to_multiset(),
    decreases rows.len(),
{
    broadcast use vstd::seq_lib::group_to_multiset_ensures;

    reveal(Seq::filter);
    let top = part(rows, favorites, true);
    let bottom = part(rows, favorites, false);
    vstd::seq_lib::lemma_multiset_commutative(top, bottom);
    if rows.len() > 0 {
        let rest = rows.drop_last();
        law_every_peer_is_listed(rest, favorites);
        vstd::seq_lib::lemma_multiset_commutative(
            part(rest, favorites, true),
            part(rest, favorites, false),
        );
        assert(rest.push(rows.last()) =~= rows);
        assert(listed(rows, favorites).to_multiset() =~= rows.to_multiset());
    } else {
        assert(listed(rows, favorites) =~= rows);
    }
}

/// The entries of a peer's directory are in order when a client starts, and no event leaves them
/// out of order.
pub proof fn law_entries_stay_in_order(s: SessionView, e: IpcEventView, prefs: AppPrefsView)
    ensures
        in_order(SessionView::start(prefs).remote_entries),
        in_order(s.remote_entries) ==> in_order(s.after_notice(noticed(e)).remote_entries),
{
    match noticed(e) {
        NoticeView::Listing { entries: Some(entries), .. } => {
            law_shown_order_is_in_order(entries);
        },
        _ => {},
    }
}

/// No event takes a line out of the conversation, and none touches what the user has chosen or
/// is writing.
pub proof fn law_events_leave_the_user_alone(s: SessionView, e: IpcEventView)
    ensures
        s.chat_messages.is_prefix_of(s.after_notice(noticed(e)).chat_messages),
        s.after_notice(noticed(e)).prefs == s.prefs,
        s.after_notice(noticed(e)).selected_target == s.selected_target,
        s.after_notice(noticed(e)).current_tab == s.current_tab,
        s.after_notice(noticed(e)).input_message == s.input_message,
        s.after_notice(noticed(e)).pending_file == s.pending_file,
        s.after_notice(noticed(e)).pairing_domain_input == s.pairing_domain_input,
        s.after_notice(noticed(e)).pairing_token_input == s.pairing_token_input,
{
}

/// Whether a file of which progress is shown has not been sent as a whole.
pub open spec fn progress_is_open(s: SessionView) -> bool {
    s.file_progress matches Some(p) ==> p.sent < p.total
}

/// Progress is shown only of files that have not been sent as a whole: it is so when a client
/// starts, and no event and no action of the user changes it.
pub proof fn law_shown_progress_is_open(
    s: SessionView,
    prefs: AppPrefsView,
    e: IpcEventView,
    tab: Tab,
    name: Seq<char>,
)
    ensures
        progress_is_open(SessionView::start(prefs)),
        progress_is_open(s) ==> {
            &&& progress_is_open(s.after_notice(noticed(e)))
            &&& progress_is_open(s.after_rename(name))
            &&& progress_is_open(s.after_pairing())
            &&& progress_is_open(s.after_connect())
            &&& progress_is_open(s.after_tab(tab))
            &&& progress_is_open(s.after_message())
            &&& progress_is_open(s.after_file())
            &&& progress_is_open(s.after_download(name))
        },
{
}

/// No action of the user takes a line out of the conversation, and none touches what the client
/// knows of the daemon, the node and the peers, or what it shows of a peer's files and of the
/// progress of its own.
pub proof fn law_actions_only_add_lines(
    s: SessionView,
    tab: Tab,
    name: Seq<char>,
    after: SessionView,
)
    requires
        ({
            ||| after == s.after_rename(name)
            ||| after == s.after_pairing()
            ||| after == s.after_connect()
            ||| after == s.after_tab(tab)
            ||| after == s.after_message()
            ||| after == s.after_file()
            ||| after == s.after_download(name)
        }),
    ensures
        s.chat_messages.is_prefix_of(after.chat_messages),
        after.chat_messages.len() <= s.chat_messages.len() + 1,
        after.connected == s.connected,
        after.unpaired == s.unpaired,
        after.my_id == s.my_id,
        after.my_hostname == s.my_hostname,
        after.peers == s.peers,
        after.selected_target == s.selected_target,
        after.file_progress == s.file_progress,
        after.remote_current_path == s.remote_current_path,
        after.remote_parent_path == s.remote_parent_path,
        after.remote_entries == s.remote_entries,
{
}

/// A blank message is not sent and stays where it is, and without a selected peer the daemon is
/// asked nothing about one.
pub proof fn law_nothing_to_send(s: SessionView, tab: Tab, path: Seq<char>)
    ensures
        blank(s.input_message) ==> s.message_command() is None && s.after_message() == s,
        s.selected_target is None ==> {
            &&& s.connect_command() is None
            &&& s.tab_command(tab) is None
            &&& s.message_command() is None
            &&& s.file_command() is None
            &&& s.listing_command(path) is None
            &&& s.up_command() is None
            &&& s.download_command(path) is None
        },
{
}

/// A peer goes to the top of the list exactly where its identifier is a favorite; one without an
/// identifier goes by the empty one.
pub proof fn law_who_goes_first(favorites: Seq<Seq<char>>, row: PeerRowView)
    ensures
        row.id matches Some(id) ==> (goes_first(favorites, row) <==> favorites.contains(id)),
        row.id is None ==> (goes_first(favorites, row) <==> favorites.contains(Seq::empty())),
{
}

/// The list is made of the peers that go first and then of the others, each part in the order in
/// which the daemon lists them.
pub proof fn law_making_of_the_list(
    rows: Seq<PeerRowView>,
    favorites: Seq<Seq<char>>,
    row: PeerRowView,
    first: bool,
)
    ensures
        listed(rows, favorites) == part(rows, favorites, true) + part(rows, favorites, false),
        part(Seq::empty(), favorites, first) == Seq::<PeerRowView>::empty(),
        goes_first(favorites, row) == first ==> part(rows.push(row), favorites, first) == part(
            rows,
            favorites,
            first,
        ).push(row),
        goes_first(favorites, row) != first ==> part(rows.push(row), favorites, first) == part(
            rows,
            favorites,
            first,
        ),
{
    reveal(Seq::filter);
    assert(rows.push(row).drop_last() =~= rows);
}

/// Each peer is shown by its identifier and under the name that the user has given to that
/// identifier, or else under its own hostname, whichever peer is selected and whichever are
/// favorites; it is marked as a favorite and as selected exactly where it is.
pub proof fn law_peers_are_shown(s: SessionView, k: int, id: Seq<char>, hostname: Seq<char>)
    ensures
        s.shown_peers().len() == listed(s.peers, s.prefs.favorites).len(),
        0 <= k < s.shown_peers().len() ==> {
            let row = listed(s.peers, s.prefs.favorites)[k];
            let p = s.shown_peers()[k];
            &&& row.id == Some(id) ==> {
                &&& p.id == id
                &&& s.prefs.aliases.dom().contains(id) ==> p.name == s.prefs.aliases[id]
                &&& !s.prefs.aliases.dom().contains(id) && row.hostname == Some(hostname) ==> p.name
                    == hostname
                &&& !s.prefs.aliases.dom().contains(id) && row.hostname is None ==> p.name
                    == "Unknown"@
                &&& p.favorite <==> s.prefs.favorites.contains(id)
                &&& p.selected <==> s.selected_target == Some(id)
            }
            &&& row.id is None ==> {
                &&& p.id == "?"@
                &&& s.prefs.aliases.dom().contains("?"@) ==> p.name == s.prefs.aliases["?"@]
                &&& !s.prefs.aliases.dom().contains("?"@) && row.hostname == Some(hostname)
                    ==> p.name == hostname
                &&& !s.prefs.aliases.dom().contains("?"@) && row.hostname is None ==> p.name
                    == "Unknown"@
                &&& p.favorite <==> s.prefs.favorites.contains("?"@)
                &&& p.selected <==> s.selected_target == Some("?"@)
            }
        },
{
}

/// Selecting a peer changes neither which peers are shown nor under which names, nor which of
/// them are favorites: only which one is selected. The selected peer is named by its alias, or by
/// its identifier.
pub proof fn law_selecting_changes_no_name(s: SessionView, id: Seq<char>, k: int)
    ensures
        ({
            let t = SessionView { selected_target: Some(id), ..s };
            &&& t.shown_peers().len() == s.shown_peers().len()
            &&& 0 <= k < s.shown_peers().len() ==> {
                &&& t.shown_peers()[k].id == s.shown_peers()[k].id
                &&& t.shown_peers()[k].name == s.shown_peers()[k].name
                &&& t.shown_peers()[k].favorite == s.shown_peers()[k].favorite
                &&& t.shown_peers()[k].selected <==> t.shown_peers()[k].id == id
            }
            &&& s.prefs.aliases.dom().contains(id) ==> t.target_name() == Some(s.prefs.aliases[id])
            &&& !s.prefs.aliases.dom().contains(id) ==> t.target_name() == Some(id)
        }),
        s.selected_target is None ==> s.target_name() is None,
{
}

/// What an event changes in what a client knows and shows, and that it changes nothing else.
pub proof fn law_what_events_change(s: SessionView, n: NoticeView)
    ensures
        ({
            let t = s.after_notice(n);
            match n {
                NoticeView::Connected => t == (SessionView { connected: true, ..s }),
                NoticeView::Disconnected => t == (SessionView {
                    connected: false,
                    unpaired: false,
                    ..s
                }),
                NoticeView::Unpaired => t == (SessionView { unpaired: true, ..s }),
                NoticeView::Paired { id, hostname } => {
                    &&& t == (SessionView {
                        unpaired: false,
                        my_id: t.my_id,
                        my_hostname: t.my_hostname,
                        ..s
                    })
                    &&& t.my_id == (if id is Some {
                        id
                    } else {
                        s.my_id
                    })
                    &&& t.my_hostname == (if hostname is Some {
                        hostname
                    } else {
                        s.my_hostname
                    })
                },
                NoticeView::Offer { domain, token } => {
                    &&& t == (SessionView { discovered_pairing: t.discovered_pairing, ..s })
                    &&& t.discovered_pairing matches Some(o) && o.domain == domain && o.token
                        == token
                },
                NoticeView::Peers { rows } => t == (SessionView { peers: rows, ..s }),
                NoticeView::Chat { from, msg } => {
                    let name = if s.prefs.aliases.dom().contains(from) {
                        s.prefs.aliases[from]
                    } else {
                        from
                    };
                    t == (SessionView {
                        chat_messages: s.chat_messages.push("["@ + name + "] "@ + msg),
                        ..s
                    })
                },
                NoticeView::Progress { filename, sent, total } => {
                    &&& sent >= total ==> t == (SessionView {
                        file_progress: None,
                        chat_messages: s.chat_messages.push(">>> File transfer complete."@),
                        ..s
                    })
                    &&& sent < total ==> {
                        &&& t == (SessionView { file_progress: t.file_progress, ..s })
                        &&& t.file_progress matches Some(p) && p.filename == filename && p.sent
                            == sent && p.total == total
                    }
                },
                NoticeView::Listing { path, parent, entries } => {
                    &&& t == (SessionView {
                        remote_current_path: t.remote_current_path,
                        remote_parent_path: t.remote_parent_path,
                        remote_entries: t.remote_entries,
                        ..s
                    })
                    &&& path matches Some(p) ==> t.remote_current_path == p
                    &&& path is None ==> t.remote_current_path == s.remote_current_path
                    &&& parent matches Some(p) ==> t.remote_parent_path == p
                    &&& parent is None ==> t.remote_parent_path == s.remote_parent_path
                    &&& entries matches Some(e) ==> t.remote_entries == shown_order(e)
                    &&& entries is None ==> t.remote_entries == s.remote_entries
                },
                NoticeView::Nothing => t == s,
            }
        }),
{
}

/// The daemon is asked for the peers when it has been reached, and for nothing after any other
/// event.
pub proof fn law_what_is_asked_after_events(n: NoticeView)
    ensures
        n is Connected ==> (SessionView::asked_after(n) matches Some(c) && c.action == "list"@
            && c.target is None && c.msg is None && c.path is None),
        !(n is Connected) ==> SessionView::asked_after(n) is None,
        list_command_view().action == "list"@,
        list_command_view().target is None,
        list_command_view().msg is None,
        list_command_view().path is None,
{
}

/// What the daemon is asked for the selected peer: always under that peer's identifier, with the
/// very message or the very path.
pub proof fn law_what_actions_ask(s: SessionView, target: Seq<char>, path: Seq<char>)
    requires
        s.selected_target == Some(target),
    ensures
        s.connect_command() matches Some(c) && c.action == "connect"@ && c.target == Some(target)
            && c.msg is None && c.path is None,
        s.tab_command(Tab::RemoteFiles) matches Some(c) && c.action == "ls"@ && c.target == Some(
            target,
        ) && c.msg is None && c.path == Some(Seq::<char>::empty()),
        s.tab_command(Tab::Chat) is None,
        s.tab_command(Tab::Files) is None,
        s.listing_command(path) matches Some(c) && c.action == "ls"@ && c.target == Some(target)
            && c.msg is None && c.path == Some(path),
        s.download_command(path) matches Some(c) && c.action == "download_req"@ && c.target == Some(
            target,
        ) && c.msg is None && c.path == Some(path),
        s.remote_parent_path.len() > 0 ==> (s.up_command() matches Some(c) && c.action == "ls"@
            && c.target == Some(target) && c.msg is None && c.path == Some(s.remote_parent_path)),
        s.remote_parent_path.len() == 0 ==> s.up_command() is None,
        !blank(s.input_message) ==> (s.message_command() matches Some(c) && c.action == "p2p"@
            && c.target == Some(target) && c.msg == Some(s.input_message) && c.path is None),
        s.pending_file matches Some(f) ==> (s.file_command() matches Some(c) && c.action
            == "sendfile"@ && c.target == Some(target) && c.msg is None && c.path == Some(f.path)),
        s.pending_file is None ==> s.file_command() is None,
{
}

/// What the user's actions on the selected peer change, and that they change nothing else.
pub proof fn law_what_actions_change(
    s: SessionView,
    target: Seq<char>,
    tab: Tab,
    name: Seq<char>,
)
    requires
        s.selected_target == Some(target),
    ensures
        s.after_connect() == (SessionView {
            chat_messages: s.chat_messages.push(">>> WebRTC Connection Initiated..."@),
            ..s
        }),
        s.after_tab(tab) == (SessionView { current_tab: tab, ..s }),
        !blank(s.input_message) ==> s.after_message() == (SessionView {
            input_message: Seq::empty(),
            chat_messages: s.chat_messages.push("[Me] "@ + s.input_message),
            ..s
        }),
        s.pending_file matches Some(f) ==> s.after_file() == (SessionView {
            pending_file: None,
            current_tab: Tab::Chat,
            chat_messages: s.chat_messages.push(">>> Started sending file "@ + f.shown),
            ..s
        }),
        s.pending_file is None ==> s.after_file() == s,
        s.after_download(name) == (SessionView {
            current_tab: Tab::Chat,
            chat_messages: s.chat_messages.push(">>> Requesting download for "@ + name),
            ..s
        }),
        s.after_rename(name) == (SessionView { prefs: s.after_rename(name).prefs, ..s }),
        s.after_rename(name).prefs.favorites == s.prefs.favorites,
        s.after_rename(name).prefs.aliases == s.prefs.aliases.insert(target, name),
{
}

/// Without a selected peer none of these actions changes anything.
pub proof fn law_no_peer_no_change(s: SessionView, tab: Tab, name: Seq<char>)
    requires
        s.selected_target is None,
    ensures
        s.after_connect() == s,
        s.after_tab(tab) == s,
        s.after_message() == s,
        s.after_file() == s,
        s.after_download(name) == s,
        s.after_rename(name) == s,
{
}

/// An offer that is taken gives the settings for its very server and token, and is gone; without
/// an offer there are none.
pub proof fn law_taking_an_offer(s: SessionView)
    ensures
        s.after_pairing() == (SessionView { discovered_pairing: None, ..s }),
        s.discovered_pairing is None ==> s.offered_settings() is None,
        s.discovered_pairing matches Some(o) ==> s.offered_settings() == Some(
            "RELAY_DOMAIN="@ + o.domain + "\nAUTH_TOKEN="@ + o.token + "\n"@,
        ),
{
    match s.discovered_pairing {
        Some(o) => {
            law_text_of_settings(o.domain, o.token);
        },
        None => {},
    }
}

/// A client starts with nothing but what it remembers of peers, on the conversation.
pub proof fn law_a_client_starts_empty(prefs: AppPrefsView)
    ensures
        ({
            let s = SessionView::start(prefs);
            &&& s.prefs == prefs
            &&& !s.connected && !s.unpaired
            &&& s.my_id is None && s.my_hostname is None && s.selected_target is None
            &&& s.current_tab == Tab::Chat
            &&& s.peers.len() == 0 && s.chat_messages.len() == 0 && s.remote_entries.len() == 0
            &&& s.input_message.len() == 0 && s.pairing_domain_input.len() == 0
                && s.pairing_token_input.len() == 0
            &&& s.remote_current_path.len() == 0 && s.remote_parent_path.len() == 0
            &&& s.file_progress is None && s.pending_file is None && s.discovered_pairing is None
        }),
{
}

/// Every peer that the daemon lists is shown, and no other: by its identifier, and under the name
/// that the user has given to that identifier, or else under exactly its hostname.
pub proof fn law_every_peer_is_shown_under_its_name(
    s: SessionView,
    i: int,
    id: Seq<char>,
    hostname: Seq<char>,
)
    requires
        0 <= i < s.peers.len(),
        s.peers[i].id == Some(id),
        s.peers[i].hostname == Some(hostname),
    ensures
        s.shown_peers().len() == s.peers.len(),
        exists|k: int|
            0 <= k < s.shown_peers().len() && (#[trigger] s.shown_peers()[k]).id == id
                && s.shown_peers()[k].name == (if s.prefs.aliases.dom().contains(id) {
                s.prefs.aliases[id]
            } else {
                hostname
            }),
{
    broadcast use vstd::seq_lib::group_to_multiset_ensures;

    let rows = listed(s.peers, s.prefs.favorites);
    law_every_peer_is_listed(s.peers, s.prefs.favorites);
    assert(s.peers.contains(s.peers[i]));
    assert(rows.to_multiset().count(s.peers[i]) > 0);
    assert(rows.contains(s.peers[i]));
    let k = choose|k: int| 0 <= k < rows.len() && rows[k] == s.peers[i];
    assert(rows.len() == rows.to_multiset().len());
    law_peers_are_shown(s, k, id, hostname);
    assert(s.shown_peers()[k].id == id);
}

} // verus!
