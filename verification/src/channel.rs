//! One peer's channel: what the daemon does about what comes in over it.

use vstd::prelude::*;
use vstd::utf8::*;
use crate::ipc::{
    chat_event, chat_event_view, law_chat_event, listing_event, listing_event_view, IpcEvent,
    IpcEventView,
};
use crate::json::{parsed_json, JsonView};
use crate::names::{download_path, make_download_path, make_safe_name, safe_name};
use crate::paths::{text_of_bytes, utf8};
use crate::wire::{
    law_other_texts_are_chat, law_types, read_message, understood, PeerMessage, PeerMessageView,
};

verus! {

/// A channel to a peer, and the name of the file that is being received over it.
#[derive(Debug)]
pub struct Channel {
    target: String,
    receiving: Option<String>,
}

/// The state of a channel.
pub struct ChannelView {
    pub target: Seq<char>,
    /// The name under which the bytes that come in are stored, once a file was opened.
    pub receiving: Option<Seq<char>>,
}

impl View for Channel {
    type V = ChannelView;

    closed spec fn view(&self) -> ChannelView {
        ChannelView { target: self.target@, receiving: self.receiving.deep_view() }
    }
}

/// What is to be done about something that a peer has said.
#[derive(Debug)]
pub enum ChannelAction {
    Nothing,
    /// Make the directory for downloads, and a file in it; from then on its bytes come in.
    Receive { name: String, safe: String, path: String },
    /// Write the bytes to the file that was opened last, which is the one of this name.
    Store { safe: String },
    /// Answer with the entries of a directory; the empty path is the current one.
    List { path: String },
    /// Tell the clients.
    Publish { event: IpcEvent },
    /// Send the file at a path.
    Send { path: String },
}

/// What is to be done about something that a peer has said.
pub enum ChannelActionView {
    Nothing,
    Receive { name: Seq<char>, safe: Seq<char>, path: Seq<char> },
    Store { safe: Seq<char> },
    List { path: Seq<char> },
    Publish { event: IpcEventView },
    Send { path: Seq<char> },
}

impl View for ChannelAction {
    type V = ChannelActionView;

    open spec fn view(&self) -> ChannelActionView {
        match self {
            ChannelAction::Nothing => ChannelActionView::Nothing,
            ChannelAction::Receive { name, safe, path } => ChannelActionView::Receive {
                name: name@,
                safe: safe@,
                path: path@,
            },
            ChannelAction::Store { safe } => ChannelActionView::Store { safe: safe@ },
            ChannelAction::List { path } => ChannelActionView::List { path: path@ },
            ChannelAction::Publish { event } => ChannelActionView::Publish { event: event@ },
            ChannelAction::Send { path } => ChannelActionView::Send { path: path@ },
        }
    }
}

/// What is to be done about a text of a peer, given what the text says.
pub open spec fn reaction(
    target: Seq<char>,
    text: Seq<char>,
    message: PeerMessageView,
) -> ChannelActionView {
    match message {
        PeerMessageView::FileNotice { name: Some(name) } => ChannelActionView::Receive {
            name,
            safe: safe_name(name),
            path: download_path(name),
        },
        PeerMessageView::ListingRequest { path: Some(path) } => ChannelActionView::List { path },
        PeerMessageView::DownloadRequest { path: Some(path) } => ChannelActionView::Send { path },
        PeerMessageView::ListingAnswer { answer } => ChannelActionView::Publish {
            event: listing_event_view(answer),
        },
        PeerMessageView::Chat => ChannelActionView::Publish {
            event: chat_event_view(target, text),
        },
        _ => ChannelActionView::Nothing,
    }
}

impl ChannelView {
    /// What is to be done about bytes that are no text: they are part of the file that was opened
    /// last, and there is nothing to do about them before that.
    pub open spec fn about_bytes(self) -> ChannelActionView {
        match self.receiving {
            Some(safe) => ChannelActionView::Store { safe },
            None => ChannelActionView::Nothing,
        }
    }

    /// What is to be done about a message, which is a text or bytes.
    pub open spec fn about_message(self, is_text: bool, data: Seq<u8>) -> ChannelActionView {
        if is_text {
            match text_of_bytes(data) {
                Some(text) => reaction(self.target, text, understood(parsed_json(text))),
                None => ChannelActionView::Nothing,
            }
        } else {
            self.about_bytes()
        }
    }
}

impl Channel {
    /// A channel over which no file has come yet.
    pub fn new(target: String) -> (r: Channel)
        ensures
            r@ == (ChannelView { target: target@, receiving: None }),
    {
        Channel { target, receiving: None }
    }

    /// The peer at the other end.
    pub fn target(&self) -> (r: &str)
        ensures
            r@ == self@.target,
    {
        self.target.as_str()
    }

    /// What is to be done about a text, given what the text says.
    pub fn react(&self, text: &str, message: PeerMessage) -> (r: ChannelAction)
        ensures
            r@ == reaction(self@.target, text@, message@),
    {
        match message {
            PeerMessage::FileNotice { name: Some(name) } => {
                let safe = make_safe_name(name.as_str());
                let path = make_download_path(safe.as_str());
                ChannelAction::Receive { name, safe, path }
            },
            PeerMessage::ListingRequest { path: Some(path) } => ChannelAction::List { path },
            PeerMessage::DownloadRequest { path: Some(path) } => ChannelAction::Send { path },
            PeerMessage::ListingAnswer { answer } => ChannelAction::Publish {
                event: listing_event(answer),
            },
            PeerMessage::Chat => ChannelAction::Publish {
                event: chat_event(self.target.as_str(), text),
            },
            _ => ChannelAction::Nothing,
        }
    }

    /// What is to be done about a text.
    pub fn on_text(&self, text: &str) -> (r: ChannelAction)
        ensures
            r@ == reaction(self@.target, text@, understood(parsed_json(text@))),
    {
        self.react(text, read_message(text))
    }

    /// What is to be done about the bytes of a text: nothing, where they are not UTF-8.
    pub fn on_text_bytes(&self, bytes: &[u8]) -> (r: ChannelAction)
        ensures
            r@ == (match text_of_bytes(bytes@) {
                Some(text) => reaction(self@.target, text, understood(parsed_json(text))),
                None => ChannelActionView::Nothing,
            }),
    {
        match utf8(bytes) {
            Some(text) => self.on_text(text.as_str()),
            None => ChannelAction::Nothing,
        }
    }

    /// What is to be done about a message, which is a text or bytes.
    pub fn on_message(&self, is_text: bool, data: &[u8]) -> (r: ChannelAction)
        ensures
            r@ == self@.about_message(is_text, data@),
    {
        if is_text {
            return self.on_text_bytes(data);
        }
        match &self.receiving {
            Some(safe) => ChannelAction::Store { safe: safe.clone() },
            None => ChannelAction::Nothing,
        }
    }

    /// Notes that the file for what comes in has been made, under a name.
    pub fn file_opened(&mut self, safe: String)
        ensures
            final(self)@ == (ChannelView { receiving: Some(safe@), ..old(self)@ }),
    {
        self.receiving = Some(safe);
    }
}

/// A text that is no request and no answer reaches the clients as it was written.
pub proof fn law_chat_arrives(target: Seq<char>, text: Seq<char>)
    requires
        understood(parsed_json(text)) is Chat,
    ensures
        reaction(target, text, understood(parsed_json(text))) == (ChannelActionView::Publish {
            event: chat_event_view(target, text),
        }),
{
}

/// What happens on a channel.
pub enum ChannelEvent {
    /// A message has come, which is a text or bytes.
    Message { is_text: bool, data: Seq<u8> },
    /// The file for what comes in has been made, under a name.
    Opened { safe: Seq<char> },
}

/// A file that was made for what comes in, with what has been written to it.
pub struct ReceivedFile {
    pub safe: Seq<char>,
    pub bytes: Seq<u8>,
}

/// A channel, with the files that were made for what comes in over it, in the order in which
/// they were made.
pub struct Reception {
    pub channel: ChannelView,
    pub files: Seq<ReceivedFile>,
}

impl Reception {
    /// The reception after an event, given that what is to be written is written.
    pub open spec fn after(self, e: ChannelEvent) -> Reception {
        match e {
            ChannelEvent::Opened { safe } => Reception {
                channel: ChannelView { receiving: Some(safe), ..self.channel },
                files: self.files.push(ReceivedFile { safe, bytes: Seq::empty() }),
            },
            ChannelEvent::Message { is_text, data } => match self.channel.about_message(
                is_text,
                data,
            ) {
                ChannelActionView::Store { .. } => Reception {
                    files: self.files.drop_last().push(
                        ReceivedFile {
                            bytes: self.files.last().bytes + data,
                            ..self.files.last()
                        },
                    ),
                    ..self
                },
                _ => self,
            },
        }
    }

    /// The reception after several events.
    pub open spec fn after_all(self, events: Seq<ChannelEvent>) -> Reception
        decreases events.len(),
    {
        if events.len() == 0 {
            self
        } else {
            self.after_all(events.drop_last()).after(events.last())
        }
    }
}

/// The bytes of the messages that are no text, one after the other.
pub open spec fn bytes_in(events: Seq<ChannelEvent>) -> Seq<u8>
    decreases events.len(),
{
    if events.len() == 0 {
        Seq::empty()
    } else {
        match events.last() {
            ChannelEvent::Message { is_text: false, data } => bytes_in(events.drop_last()) + data,
            _ => bytes_in(events.drop_last()),
        }
    }
}

/// Whether no file is made in the course of events.
pub open spec fn only_messages(events: Seq<ChannelEvent>) -> bool {
    forall|i: int| 0 <= i < events.len() ==> #[trigger] events[i] is Message
}

proof fn lemma_only_messages(events: Seq<ChannelEvent>)
    requires
        only_messages(events),
        events.len() > 0,
    ensures
        only_messages(events.drop_last()),
        events.last() is Message,
{
    assert(events[events.len() - 1] is Message);
    assert forall|i: int| 0 <= i < events.drop_last().len() implies #[trigger] events.drop_last()[i]
        is Message by {
        assert(events.drop_last()[i] == events[i]);
    }
}

/// A text is never taken for bytes of a file, and bytes are written to a file or dropped: they
/// make no event for the clients, and no reply.
pub proof fn law_bytes_are_only_stored(c: ChannelView, data: Seq<u8>)
    ensures
        !(c.about_message(true, data) is Store),
        c.about_message(false, data) is Store || c.about_message(false, data) is Nothing,
        c.about_message(false, data) is Store <==> c.receiving is Some,
{
}

/// Before a file is made, bytes that come in are dropped, whatever texts come between.
pub proof fn law_bytes_before_a_file_are_dropped(r: Reception, events: Seq<ChannelEvent>)
    requires
        r.channel.receiving is None,
        only_messages(events),
    ensures
        r.after_all(events) == r,
    decreases events.len(),
{
    if events.len() > 0 {
        lemma_only_messages(events);
        law_bytes_before_a_file_are_dropped(r, events.drop_last());
    }
}

/// Once a file is made, it gets exactly the bytes that come in, in order, until another is made,
/// whatever has come before and whatever texts come between; no other file changes.
pub proof fn law_bytes_go_to_the_file_made_last(
    r: Reception,
    safe: Seq<char>,
    events: Seq<ChannelEvent>,
)
    requires
        only_messages(events),
    ensures
        r.after(ChannelEvent::Opened { safe }).after_all(events).files == r.files.push(
            ReceivedFile { safe, bytes: bytes_in(events) },
        ),
        r.after(ChannelEvent::Opened { safe }).after_all(events).channel == (ChannelView {
            receiving: Some(safe),
            ..r.channel
        }),
    decreases events.len(),
{
    let opened = r.after(ChannelEvent::Opened { safe });
    if events.len() > 0 {
        lemma_only_messages(events);
        law_bytes_go_to_the_file_made_last(r, safe, events.drop_last());
        let before = opened.after_all(events.drop_last());
        assert(before.files.drop_last() =~= r.files);
        assert(opened.after_all(events).files =~= r.files.push(
            ReceivedFile { safe, bytes: bytes_in(events) },
        ));
    } else {
        assert(opened.after_all(events).files =~= r.files.push(
            ReceivedFile { safe, bytes: bytes_in(events) },
        ));
    }
}

/// What is done about a text that is a JSON object goes by the type in it: a directory is listed
/// and a file is sent by the very path that the text names, a file is received under the safe
/// form of the very name, and an answer is told whole to the clients.
pub proof fn law_requests_are_acted_on(
    target: Seq<char>,
    text: Seq<char>,
    m: Map<Seq<char>, JsonView>,
    word: Seq<char>,
)
    requires
        parsed_json(text) == Some(JsonView::Object(m)),
        m.dom().contains("type"@),
        m["type"@] == JsonView::Text(word),
    ensures
        ({
            let action = reaction(target, text, understood(parsed_json(text)));
            let has_path = m.dom().contains("path"@) && m["path"@] is Text;
            let has_name = m.dom().contains("name"@) && m["name"@] is Text;
            &&& word == "ls"@ ==> action == (if has_path {
                ChannelActionView::List { path: m["path"@]->Text_0 }
            } else {
                ChannelActionView::Nothing
            })
            &&& word == "download_req"@ ==> action == (if has_path {
                ChannelActionView::Send { path: m["path"@]->Text_0 }
            } else {
                ChannelActionView::Nothing
            })
            &&& word == "file_start"@ && has_name ==> (action matches ChannelActionView::Receive {
                name,
                safe,
                path,
            } && name == m["name"@]->Text_0 && safe == safe_name(name) && path == download_path(
                name,
            ))
            &&& word == "file_start"@ && !has_name ==> action is Nothing
            &&& word == "ls_result"@ ==> (action matches ChannelActionView::Publish { event }
                && event.event == "ls_result"@ && event.data == JsonView::Object(m))
        }),
{
    law_types(m, word);
}

/// Every text that is not such an object is told to the clients as a message of the peer, as it
/// was written.
pub proof fn law_other_texts_are_told(target: Seq<char>, text: Seq<char>)
    requires
        parsed_json(text) matches Some(JsonView::Object(m)) ==> {
            ||| !m.dom().contains("type"@)
            ||| !(m["type"@] is Text)
            ||| {
                let word = m["type"@]->Text_0;
                word != "ls"@ && word != "download_req"@ && word != "file_start"@ && word
                    != "ls_result"@
            }
        },
    ensures
        reaction(target, text, understood(parsed_json(text))) matches ChannelActionView::Publish {
            event,
        } && event.event == "chat"@ && event.data.field("from"@) == Some(JsonView::Text(target))
            && event.data.field("msg"@) == Some(JsonView::Text(text)),
{
    law_chat_event(target, text);
    match parsed_json(text) {
        Some(j) => {
            law_other_texts_are_chat(j);
            if let JsonView::Object(m) = j {
                if m.dom().contains("type"@) && m["type"@] is Text {
                    law_types(m, m["type"@]->Text_0);
                }
            }
        },
        None => {
            law_other_texts_are_chat(JsonView::Null);
        },
    }
}

/// The bytes of a text are taken for that text, and bytes that are not UTF-8 for nothing.
pub proof fn law_texts_come_as_bytes(c: ChannelView, text: Seq<char>, data: Seq<u8>)
    ensures
        c.about_message(true, encode_utf8(text)) == reaction(
            c.target,
            text,
            understood(parsed_json(text)),
        ),
        !valid_utf8(data) ==> c.about_message(true, data) is Nothing,
        c.receiving matches Some(name) ==> c.about_message(false, data) == (
        ChannelActionView::Store { safe: name }),
{
    encode_utf8_valid_utf8(text);
    encode_utf8_decode_utf8(text);
}

} // verus!
