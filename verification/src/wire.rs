//! What two peers say to each other over the channel between them.
//!
//! Everything a peer says is a text. A text that is a JSON object with one of four types is a
//! request or an answer; every other text is a message from person to person.

use vstd::prelude::*;
use crate::json::{json_text, list_view, parse, parsed_json, plain, to_text, Json, JsonView};
use crate::listing::{
    known_places, law_entries_for_a_peer, law_places, list_for_peer, remote_entries, DirEntry,
    DirEntryView, Found, FoundView,
};
use crate::paths::{lies_above, parent_or_empty, parent_text, path_parent};
use crate::text::same;

verus! {

/// The request for a directory.
pub open spec fn listing_request(path: Seq<char>) -> JsonView {
    JsonView::Object(map!["type"@ => JsonView::Text("ls"@), "path"@ => JsonView::Text(path)])
}

/// The request for a file.
pub open spec fn download_request(path: Seq<char>) -> JsonView {
    JsonView::Object(
        map!["type"@ => JsonView::Text("download_req"@), "path"@ => JsonView::Text(path)],
    )
}

/// The notice that the bytes of a file follow.
pub open spec fn file_notice(name: Seq<char>, size: u64) -> JsonView {
    JsonView::Object(
        map![
            "type"@ => JsonView::Text("file_start"@),
            "name"@ => JsonView::Text(name),
            "size"@ => JsonView::Unsigned(size),
        ],
    )
}

/// An entry of a directory as it stands in an answer.
pub open spec fn entry_json(e: DirEntryView) -> JsonView {
    JsonView::Object(
        map![
            "name"@ => JsonView::Text(e.name),
            "is_dir"@ => JsonView::Bool(e.is_dir),
            "size"@ => JsonView::Unsigned(e.size),
        ],
    )
}

/// The answer to a request for a directory.
pub open spec fn listing_answer(
    path: Seq<char>,
    parent: Seq<char>,
    entries: Seq<DirEntryView>,
) -> JsonView {
    JsonView::Object(
        map![
            "type"@ => JsonView::Text("ls_result"@),
            "path"@ => JsonView::Text(path),
            "parent"@ => JsonView::Text(parent),
            "entries"@ => JsonView::List(entries.map_values(|e: DirEntryView| entry_json(e))),
        ],
    )
}

/// Whether a text is what the library writes for a JSON value, and reads back as that value.
pub open spec fn writes(text: Seq<char>, j: JsonView) -> bool {
    text == json_text(j) && parsed_json(text) == Some(j)
}

/// The text of a request for a directory.
pub fn listing_request_text(path: &str) -> (r: String)
    ensures
        writes(r@, listing_request(path@)),
{
    let j = Json::object().with("type", Json::of_text("ls")).with("path", Json::of_text(path));
    assert(plain(j@, 127)) by {
        reveal_with_fuel(plain, 2);
    }
    to_text(j)
}

/// The text of a request for a file.
pub fn download_request_text(path: &str) -> (r: String)
    ensures
        writes(r@, download_request(path@)),
{
    let j = Json::object().with("type", Json::of_text("download_req")).with(
        "path",
        Json::of_text(path),
    );
    assert(plain(j@, 127)) by {
        reveal_with_fuel(plain, 2);
    }
    to_text(j)
}

/// The text of the notice that the bytes of a file follow.
pub fn file_notice_text(name: &str, size: u64) -> (r: String)
    ensures
        writes(r@, file_notice(name@, size)),
{
    let j = Json::object().with("type", Json::of_text("file_start")).with(
        "name",
        Json::of_text(name),
    ).with("size", Json::Unsigned(size));
    assert(plain(j@, 127)) by {
        reveal_with_fuel(plain, 2);
    }
    to_text(j)
}

fn entry_value(e: &DirEntry) -> (r: Json)
    ensures
        r@ == entry_json(e@),
{
    Json::object().with("name", Json::of_text(e.name.as_str())).with(
        "is_dir",
        Json::Bool(e.is_dir),
    ).with("size", Json::Unsigned(e.size))
}

/// The text of an answer to a request for a directory.
pub fn listing_answer_text(path: &str, parent: &str, entries: &Vec<DirEntry>) -> (r: String)
    ensures
        writes(r@, listing_answer(path@, parent@, entries.deep_view())),
{
    let mut list: Vec<Json> = Vec::new();
    let mut i: usize = 0;
    let ghost want = entries.deep_view().map_values(|e: DirEntryView| entry_json(e));
    while i < entries.len()
        invariant
            i <= entries.len(),
            want == entries.deep_view().map_values(|e: DirEntryView| entry_json(e)),
            list@.len() == i,
            forall|k: int| 0 <= k < i ==> (#[trigger] list@[k])@ == want[k],
        decreases entries.len() - i,
    {
        list.push(entry_value(&entries[i]));
        i += 1;
    }
    assert(list_view(list@) =~= want);
    let j = Json::object().with("type", Json::of_text("ls_result")).with(
        "path",
        Json::of_text(path),
    ).with("parent", Json::of_text(parent)).with("entries", Json::List(list));
    proof {
        assert forall|k: int| 0 <= k < want.len() implies plain(#[trigger] want[k], 125) by {
            reveal_with_fuel(plain, 2);
            let e = entries.deep_view()[k];
            assert(want[k] == entry_json(e));
        }
        assert(plain(JsonView::List(want), 126));
        assert(plain(j@, 127)) by {
            reveal_with_fuel(plain, 2);
        }
    }
    to_text(j)
}

/// The text that answers a request for a directory in which files were found, given the
/// directory above it where there is one.
pub fn answer_below(path: &str, parent: Option<String>, found: Vec<Found>) -> (r: String)
    ensures
        writes(
            r@,
            listing_answer(
                path@,
                parent_text(parent.deep_view()),
                remote_entries(found.deep_view()),
            ),
        ),
{
    let entries = list_for_peer(found);
    listing_answer_text(path, parent_or_empty(parent).as_str(), &entries)
}

/// Whether a text answers a request for a directory in which files were found, and names a
/// directory that may lie above it.
pub open spec fn answers(text: Seq<char>, path: Seq<char>, found: Seq<FoundView>) -> bool {
    exists|parent: Seq<char>| #[trigger]
        lies_above(parent, path) && writes(
            text,
            listing_answer(path, parent, remote_entries(found)),
        )
}

/// The text that answers a request for a directory in which files were found. Which directory
/// lies above a path that is not portable is the system's to say.
pub fn answer(path: &str, found: Vec<Found>) -> (r: String)
    ensures
        answers(r@, path@, found.deep_view()),
{
    let parent = path_parent(path);
    assert(lies_above(parent_text(parent.deep_view()), path@));
    answer_below(path, parent, found)
}

/// What a peer has said.
#[derive(Debug)]
pub enum PeerMessage {
    /// The bytes of a file follow; without a name there is nothing to do about it.
    FileNotice { name: Option<String> },
    /// The peer asks for a directory; without a path there is nothing to do about it.
    ListingRequest { path: Option<String> },
    /// The peer answers a request for a directory.
    ListingAnswer { answer: Json },
    /// The peer asks for a file; without a path there is nothing to do about it.
    DownloadRequest { path: Option<String> },
    /// A message from person to person.
    Chat,
}

/// What a peer has said.
pub enum PeerMessageView {
    FileNotice { name: Option<Seq<char>> },
    ListingRequest { path: Option<Seq<char>> },
    ListingAnswer { answer: JsonView },
    DownloadRequest { path: Option<Seq<char>> },
    Chat,
}

impl View for PeerMessage {
    type V = PeerMessageView;

    open spec fn view(&self) -> PeerMessageView {
        match self {
            PeerMessage::FileNotice { name } => PeerMessageView::FileNotice {
                name: name.deep_view(),
            },
            PeerMessage::ListingRequest { path } => PeerMessageView::ListingRequest {
                path: path.deep_view(),
            },
            PeerMessage::ListingAnswer { answer } => PeerMessageView::ListingAnswer {
                answer: answer@,
            },
            PeerMessage::DownloadRequest { path } => PeerMessageView::DownloadRequest {
                path: path.deep_view(),
            },
            PeerMessage::Chat => PeerMessageView::Chat,
        }
    }
}

/// What a peer has said, given the JSON value that its text is, where it is one.
pub open spec fn understood(json: Option<JsonView>) -> PeerMessageView {
    match json {
        Some(j) => match j.text_field("type"@) {
            Some(t) => if t == "file_start"@ {
                PeerMessageView::FileNotice { name: j.text_field("name"@) }
            } else if t == "ls"@ {
                PeerMessageView::ListingRequest { path: j.text_field("path"@) }
            } else if t == "ls_result"@ {
                PeerMessageView::ListingAnswer { answer: j }
            } else if t == "download_req"@ {
                PeerMessageView::DownloadRequest { path: j.text_field("path"@) }
            } else {
                PeerMessageView::Chat
            },
            None => PeerMessageView::Chat,
        },
        None => PeerMessageView::Chat,
    }
}

/// What a peer has said, given the JSON value that its text is, where it is one.
pub fn understand(json: Option<Json>) -> (r: PeerMessage)
    ensures
        json matches Some(j) ==> r@ == understood(Some(j@)),
        json is None ==> r@ == understood(None),
{
    match json {
        Some(j) => match j.text("type") {
            Some(t) => {
                if same(t.as_str(), "file_start") {
                    PeerMessage::FileNotice { name: j.text("name") }
                } else if same(t.as_str(), "ls") {
                    PeerMessage::ListingRequest { path: j.text("path") }
                } else if same(t.as_str(), "ls_result") {
                    PeerMessage::ListingAnswer { answer: j }
                } else if same(t.as_str(), "download_req") {
                    PeerMessage::DownloadRequest { path: j.text("path") }
                } else {
                    PeerMessage::Chat
                }
            },
            None => PeerMessage::Chat,
        },
        None => PeerMessage::Chat,
    }
}

/// What a peer has said.
pub fn read_message(text: &str) -> (r: PeerMessage)
    ensures
        r@ == understood(parsed_json(text@)),
{
    understand(parse(text))
}

/// A request for a directory arrives as that request.
pub proof fn law_listing_request_arrives(text: Seq<char>, path: Seq<char>)
    requires
        writes(text, listing_request(path)),
    ensures
        understood(parsed_json(text)) == (PeerMessageView::ListingRequest { path: Some(path) }),
{
    reveal_strlit("type");
    reveal_strlit("path");
    reveal_strlit("ls");
    reveal_strlit("file_start");
    assert("ls"@.len() != "file_start"@.len());
    assert("type"@[0] != "path"@[0]);
}

/// A request for a file arrives as that request.
pub proof fn law_download_request_arrives(text: Seq<char>, path: Seq<char>)
    requires
        writes(text, download_request(path)),
    ensures
        understood(parsed_json(text)) == (PeerMessageView::DownloadRequest { path: Some(path) }),
{
    reveal_strlit("type");
    reveal_strlit("path");
    reveal_strlit("ls");
    reveal_strlit("ls_result");
    reveal_strlit("file_start");
    reveal_strlit("download_req");
    assert("download_req"@.len() == 12 && "file_start"@.len() == 10);
    assert("type"@[0] != "path"@[0]);
}

/// The notice of a file arrives with the file's name.
pub proof fn law_file_notice_arrives(text: Seq<char>, name: Seq<char>, size: u64)
    requires
        writes(text, file_notice(name, size)),
    ensures
        understood(parsed_json(text)) == (PeerMessageView::FileNotice { name: Some(name) }),
{
    reveal_strlit("type");
    reveal_strlit("name");
    reveal_strlit("size");
    assert("type"@[0] == 't' && "name"@[0] == 'n' && "size"@[0] == 's');
}

/// The answer to a request for a directory arrives as it was given.
pub proof fn law_listing_answer_arrives(
    text: Seq<char>,
    path: Seq<char>,
    parent: Seq<char>,
    entries: Seq<DirEntryView>,
)
    requires
        writes(text, listing_answer(path, parent, entries)),
    ensures
        understood(parsed_json(text)) == (PeerMessageView::ListingAnswer {
            answer: listing_answer(path, parent, entries),
        }),
{
    reveal_strlit("type");
    reveal_strlit("path");
    reveal_strlit("parent");
    reveal_strlit("entries");
    reveal_strlit("ls");
    reveal_strlit("ls_result");
    reveal_strlit("file_start");
    assert("ls_result"@.len() == 9 && "ls"@.len() == 2 && "file_start"@.len() == 10);
    assert("type"@[0] == 't' && "path"@[0] == 'p' && "parent"@[0] == 'p' && "entries"@[0] == 'e');
}

proof fn lemma_words()
    ensures
        "type"@.len() == 4,
        "type"@[0] == 't',
        "path"@.len() == 4,
        "path"@[0] == 'p',
        "name"@.len() == 4,
        "name"@[0] == 'n',
        "size"@.len() == 4,
        "size"@[0] == 's',
        "parent"@.len() == 6,
        "entries"@.len() == 7,
        "is_dir"@.len() == 6,
        "ls"@.len() == 2,
        "ls_result"@.len() == 9,
        "file_start"@.len() == 10,
        "download_req"@.len() == 12,
{
    reveal_strlit("type");
    reveal_strlit("path");
    reveal_strlit("name");
    reveal_strlit("size");
    reveal_strlit("parent");
    reveal_strlit("entries");
    reveal_strlit("is_dir");
    reveal_strlit("ls");
    reveal_strlit("ls_result");
    reveal_strlit("file_start");
    reveal_strlit("download_req");
}

/// Requests and notices carry their type and what they ask for or announce.
pub proof fn law_requests(path: Seq<char>, name: Seq<char>, size: u64)
    ensures
        listing_request(path).field("type"@) == Some(JsonView::Text("ls"@)),
        listing_request(path).field("path"@) == Some(JsonView::Text(path)),
        download_request(path).field("type"@) == Some(JsonView::Text("download_req"@)),
        download_request(path).field("path"@) == Some(JsonView::Text(path)),
        file_notice(name, size).field("type"@) == Some(JsonView::Text("file_start"@)),
        file_notice(name, size).field("name"@) == Some(JsonView::Text(name)),
        file_notice(name, size).field("size"@) == Some(JsonView::Unsigned(size)),
{
    lemma_words();
}

/// An answer carries the directory, the one above it, and one entry for each entry, in order,
/// with its own name, kind and size.
pub proof fn law_answers(
    path: Seq<char>,
    parent: Seq<char>,
    entries: Seq<DirEntryView>,
    k: int,
)
    ensures
        ({
            let j = listing_answer(path, parent, entries);
            &&& j.field("type"@) == Some(JsonView::Text("ls_result"@))
            &&& j.field("path"@) == Some(JsonView::Text(path))
            &&& j.field("parent"@) == Some(JsonView::Text(parent))
            &&& j.field("entries"@) matches Some(JsonView::List(v)) && v.len() == entries.len()
                && (0 <= k < entries.len() ==> {
                &&& v[k].field("name"@) == Some(JsonView::Text(entries[k].name))
                &&& v[k].field("is_dir"@) == Some(JsonView::Bool(entries[k].is_dir))
                &&& v[k].field("size"@) == Some(JsonView::Unsigned(entries[k].size))
            })
        }),
{
    lemma_words();
}

/// What a text that is a JSON object says goes by the type in it, and by the path or the name
/// beside the type; an object with any other type, or none, says nothing but itself.
pub proof fn law_types(m: Map<Seq<char>, JsonView>, word: Seq<char>)
    requires
        m.dom().contains("type"@),
        m["type"@] == JsonView::Text(word),
    ensures
        ({
            let said = understood(Some(JsonView::Object(m)));
            let has_path = m.dom().contains("path"@) && m["path"@] is Text;
            let has_name = m.dom().contains("name"@) && m["name"@] is Text;
            &&& word == "ls"@ ==> (said matches PeerMessageView::ListingRequest { path } && path
                == (if has_path {
                Some(m["path"@]->Text_0)
            } else {
                None
            }))
            &&& word == "download_req"@ ==> (said matches PeerMessageView::DownloadRequest { path }
                && path == (if has_path {
                Some(m["path"@]->Text_0)
            } else {
                None
            }))
            &&& word == "file_start"@ ==> (said matches PeerMessageView::FileNotice { name } && name
                == (if has_name {
                Some(m["name"@]->Text_0)
            } else {
                None
            }))
            &&& word == "ls_result"@ ==> said == (PeerMessageView::ListingAnswer {
                answer: JsonView::Object(m),
            })
            &&& word != "ls"@ && word != "download_req"@ && word != "file_start"@ && word
                != "ls_result"@ ==> said is Chat
        }),
{
    lemma_words();
}

/// A text that is no JSON, or no object, or has no text for its type, is a message from person
/// to person.
pub proof fn law_other_texts_are_chat(j: JsonView)
    ensures
        understood(None) is Chat,
        !(j is Object) ==> understood(Some(j)) is Chat,
        j matches JsonView::Object(m) ==> ((!m.dom().contains("type"@) || !(m["type"@] is Text))
            ==> understood(Some(j)) is Chat),
{
}

/// A text that answers a request for a directory reads as an answer on that very directory, below
/// one that may lie above it, with one entry for each file of which something is known, in the
/// order in which they were found: under its own name, as the directory or the file that it is,
/// with its size.
pub proof fn law_answers_tell_what_was_found(
    text: Seq<char>,
    path: Seq<char>,
    found: Seq<FoundView>,
    k: int,
)
    requires
        answers(text, path, found),
    ensures
        parsed_json(text) matches Some(j) && {
            &&& j.field("type"@) == Some(JsonView::Text("ls_result"@))
            &&& j.field("path"@) == Some(JsonView::Text(path))
            &&& j.field("parent"@) matches Some(JsonView::Text(parent)) && lies_above(parent, path)
            &&& j.field("entries"@) matches Some(JsonView::List(v)) && v.len() == known_places(
                found,
            ).len() && (0 <= k < v.len() ==> {
                let f = found[known_places(found)[k]];
                &&& f.stat is Some
                &&& v[k].field("name"@) == Some(JsonView::Text(f.name))
                &&& v[k].field("is_dir"@) == Some(JsonView::Bool(f.stat->0.is_dir))
                &&& v[k].field("size"@) == Some(JsonView::Unsigned(f.stat->0.size))
            })
        },
{
    let parent = choose|parent: Seq<char>| #[trigger]
        lies_above(parent, path) && writes(
            text,
            listing_answer(path, parent, remote_entries(found)),
        );
    law_answers(path, parent, remote_entries(found), k);
    law_entries_for_a_peer(found, k);
    if 0 <= k < known_places(found).len() {
        let i = known_places(found)[k];
        assert(known_places(found).contains(i));
        law_places(found, 0, 0, i);
    }
}

/// A text is written for a value where it is the value's text and reads back as the value.
pub proof fn law_written_texts(text: Seq<char>, j: JsonView)
    ensures
        writes(text, j) <==> text == json_text(j) && parsed_json(text) == Some(j),
{
}

} // verus!
