//! What two users get from their clients, their daemons and the channel between them.

use vstd::prelude::*;
use crate::channel::{reaction, ChannelActionView};
use crate::config::settings;
use crate::daemon::{
    law_download_command_reaches_the_peer, law_listing_command_reaches_the_peer,
    CommandActionView, DaemonView, DiscoveryPacketView,
};
use crate::ipc::{
    chat_event_view, listing_event_view, pairing_event_view, peers_event_view, status_event_view,
    unpaired_event_view,
};
use crate::json::parsed_json;
use crate::listing::{
    known_places, law_entries_for_a_peer, law_places, law_shown_order_keeps_entries, remote_entries,
    shown_order, DirEntryView, FoundView,
};
use crate::names::{download_path, safe_name};
use crate::notices::{
    law_chat_is_read, law_listing_is_read, law_peers_are_read, law_progress_is_read,
    law_status_is_read, noticed, NoticeView, PeerRowView,
};
use crate::peers::{resolved, PeerView};
use crate::session::{chat_line, SessionView};
use crate::text::blank;
use crate::transfer::{law_completed_upload_is_reported, total, UploadView};
use crate::wire::{
    file_notice, law_file_notice_arrives, law_listing_answer_arrives, listing_answer, understood,
    writes,
};

verus! {

proof fn lemma_actions()
    ensures
        "list"@.len() == 4,
        "add_peer"@.len() == 8,
        "add_peer"@[0] == 'a',
        "connect"@.len() == 7,
        "p2p"@.len() == 3,
        "ls"@.len() == 2,
        "download_req"@.len() == 12,
        "sendfile"@.len() == 8,
        "sendfile"@[0] == 's',
{
    reveal_strlit("list");
    reveal_strlit("add_peer");
    reveal_strlit("connect");
    reveal_strlit("p2p");
    reveal_strlit("ls");
    reveal_strlit("download_req");
    reveal_strlit("sendfile");
}

/// A client that reaches a daemon asks for the peers and then shows them, each with its name and
/// its identifier.
pub proof fn law_client_learns_of_the_peers(s: SessionView, d: DaemonView)
    ensures
        SessionView::asked_after(NoticeView::Connected) is Some,
        d.about_command(SessionView::asked_after(NoticeView::Connected)->0) == (
        CommandActionView::Publish { event: peers_event_view(d.local_peers) }),
        s.after_notice(noticed(peers_event_view(d.local_peers))).peers
            == d.local_peers.map_values(
            |p: PeerView| PeerRowView { hostname: Some(p.hostname), id: Some(p.id) },
        ),
{
    law_peers_are_read(d.local_peers);
}

/// A client shows whether its node is paired, and under which identifier and name.
pub proof fn law_client_learns_of_the_node(s: SessionView, id: Seq<char>, hostname: Seq<char>)
    ensures
        s.after_notice(noticed(unpaired_event_view())).unpaired,
        !s.after_notice(noticed(status_event_view(id, hostname))).unpaired,
        s.after_notice(noticed(status_event_view(id, hostname))).my_id == Some(id),
        s.after_notice(noticed(status_event_view(id, hostname))).my_hostname == Some(hostname),
{
    law_status_is_read(id, hostname, id, hostname);
}

/// A signaling server that offers itself is what the node is paired with when the user takes the
/// offer.
pub proof fn law_offer_is_taken(s: SessionView, domain: Seq<char>, token: Seq<char>)
    ensures
        s.after_notice(noticed(pairing_event_view(domain, token))).offered_settings() == Some(
            settings(domain, token),
        ),
{
    law_status_is_read(domain, token, domain, token);
}

/// What a user sends to a peer over an open channel is shown to the peer's user as it was
/// written, under the sender's name, provided that it is not a request in itself.
pub proof fn law_message_arrives(
    s: SessionView,
    d: DaemonView,
    target: Seq<char>,
    sender: Seq<char>,
    receiver: SessionView,
)
    requires
        s.selected_target == Some(target),
        !blank(s.input_message),
        d.channels.contains(resolved(d.local_peers, target)),
        understood(parsed_json(s.input_message)) is Chat,
    ensures
        s.message_command() is Some,
        d.about_command(s.message_command()->0) == (CommandActionView::SendText {
            target_id: resolved(d.local_peers, target),
            text: s.input_message,
        }),
        reaction(sender, s.input_message, understood(parsed_json(s.input_message))) == (
        ChannelActionView::Publish { event: chat_event_view(sender, s.input_message) }),
        receiver.after_notice(noticed(chat_event_view(sender, s.input_message))).chat_messages
            == receiver.chat_messages.push(
            chat_line(receiver.prefs.shown_name(sender, sender), s.input_message),
        ),
{
    lemma_actions();
    law_chat_is_read(sender, s.input_message);
}

/// A user who asks for a directory of a peer over an open channel has the peer asked for that
/// very directory, and is shown what the peer answers, in order.
pub proof fn law_directory_is_shown(
    s: SessionView,
    d: DaemonView,
    target: Seq<char>,
    path: Seq<char>,
    caller: Seq<char>,
    text: Seq<char>,
    found: Seq<char>,
    parent: Seq<char>,
    entries: Seq<DirEntryView>,
)
    requires
        s.selected_target == Some(target),
        d.channels.contains(resolved(d.local_peers, target)),
        DaemonView::readable(
            s.listing_command(path)->0,
            d.about_command(s.listing_command(path)->0),
        ),
        writes(text, listing_answer(found, parent, entries)),
    ensures
        s.listing_command(path) is Some,
        d.about_command(s.listing_command(path)->0) is SendText,
        ({
            let request = d.about_command(s.listing_command(path)->0)->SendText_text;
            reaction(caller, request, understood(parsed_json(request))) == (
            ChannelActionView::List { path })
        }),
        ({
            let event = listing_event_view(listing_answer(found, parent, entries));
            &&& reaction(target, text, understood(parsed_json(text))) == (
            ChannelActionView::Publish { event })
            &&& s.after_notice(noticed(event)) == (SessionView {
                remote_current_path: found,
                remote_parent_path: parent,
                remote_entries: shown_order(entries),
                ..s
            })
        }),
{
    lemma_actions();
    law_listing_command_reaches_the_peer(d, s.listing_command(path)->0, path, caller);
    law_listing_answer_arrives(text, found, parent, entries);
    law_listing_is_read(found, parent, entries);
}

/// A user who asks for a file of a peer over an open channel has the peer send that very file.
pub proof fn law_file_is_asked_for(
    s: SessionView,
    d: DaemonView,
    target: Seq<char>,
    path: Seq<char>,
    caller: Seq<char>,
)
    requires
        s.selected_target == Some(target),
        d.channels.contains(resolved(d.local_peers, target)),
        DaemonView::readable(
            s.download_command(path)->0,
            d.about_command(s.download_command(path)->0),
        ),
    ensures
        s.download_command(path) is Some,
        d.about_command(s.download_command(path)->0) is SendText,
        ({
            let request = d.about_command(s.download_command(path)->0)->SendText_text;
            reaction(caller, request, understood(parsed_json(request))) == (
            ChannelActionView::Send { path })
        }),
{
    lemma_actions();
    law_download_command_reaches_the_peer(d, s.download_command(path)->0, path, caller);
}

/// A file that a user sends to a peer over an open channel is announced to the peer, who stores
/// it under a safe form of its name; and when the last of its bytes has gone out, the user is
/// told that the transfer is complete.
pub proof fn law_file_is_sent(
    s: SessionView,
    d: DaemonView,
    target: Seq<char>,
    caller: Seq<char>,
    name: Seq<char>,
    size: u64,
    notice: Seq<char>,
    chunks: Seq<nat>,
)
    requires
        s.selected_target == Some(target),
        s.pending_file is Some,
        d.channels.contains(resolved(d.local_peers, target)),
        writes(notice, file_notice(name, size)),
        chunks.len() > 0,
        total(chunks) == size,
        size <= usize::MAX,
    ensures
        s.file_command() is Some,
        d.about_command(s.file_command()->0) == (CommandActionView::SendFile {
            target_id: resolved(d.local_peers, target),
            path: s.pending_file->0.path,
        }),
        reaction(caller, notice, understood(parsed_json(notice))) == (ChannelActionView::Receive {
            name,
            safe: safe_name(name),
            path: download_path(name),
        }),
        ({
            let last = UploadView::start(name, size, target).after(chunks.drop_last()).report(
                chunks.last(),
            );
            &&& last is Some
            &&& s.after_notice(noticed(last->0)) == (SessionView {
                file_progress: None,
                chat_messages: s.chat_messages.push(">>> File transfer complete."@),
                ..s
            })
        }),
{
    lemma_actions();
    law_file_notice_arrives(notice, name, size);
    law_completed_upload_is_reported(name, size, target, chunks);
    law_progress_is_read(name, size, size, target);
}

/// Every report on a file before the last of its bytes has gone out is shown as progress of that
/// file, by the bytes sent and the size that it had when it was opened, and never as its end;
/// the report on the last byte is shown as the end.
pub proof fn law_progress_is_shown(s: SessionView, u: UploadView, n: nat)
    requires
        u.size <= usize::MAX,
        u.sent + n <= u.size,
        u.report(n) is Some,
    ensures
        ({
            let t = s.after_notice(noticed(u.report(n)->0));
            &&& u.sent + n < u.size ==> {
                &&& t.chat_messages == s.chat_messages
                &&& t.file_progress matches Some(p) && p.filename == u.name && p.sent == u.sent + n
                    && p.total == u.size && p.sent < p.total
            }
            &&& u.sent + n == u.size ==> {
                &&& t.chat_messages == s.chat_messages.push(">>> File transfer complete."@)
                &&& t.file_progress is None
            }
        }),
{
    law_progress_is_read(u.name, (u.sent + n) as u64, u.size, u.target);
}

/// A client that is told of a newly heard peer then shows every peer that the daemon knows, each
/// with its name and its identifier, those from before among them.
pub proof fn law_heard_peers_are_shown(
    s: SessionView,
    d: DaemonView,
    packet: DiscoveryPacketView,
    ip: Seq<char>,
    i: int,
)
    requires
        d.told_of_packet(packet, ip) is Some,
        0 <= i < d.local_peers.len(),
    ensures
        ({
            let rows = s.after_notice(noticed(d.told_of_packet(packet, ip)->0)).peers;
            &&& rows.len() == d.local_peers.len() + 1
            &&& rows.contains(
                PeerRowView {
                    hostname: Some(d.local_peers[i].hostname),
                    id: Some(d.local_peers[i].id),
                },
            )
            &&& rows.contains(
                PeerRowView { hostname: Some(packet.hostname), id: Some(packet.id) },
            )
        }),
{
    let now = d.after_packet(packet, ip).local_peers;
    law_peers_are_read(now);
    let rows = s.after_notice(noticed(d.told_of_packet(packet, ip)->0)).peers;
    assert(now[i] == d.local_peers[i]);
    assert(rows[i] == PeerRowView { hostname: Some(now[i].hostname), id: Some(now[i].id) });
    let n = d.local_peers.len() as int;
    assert(now[n].hostname == packet.hostname && now[n].id == packet.id);
    assert(rows[n] == PeerRowView { hostname: Some(now[n].hostname), id: Some(now[n].id) });
}

/// The files that a peer finds in a directory are those that the user is shown: each of which
/// something is known, under its own name, as the directory or file that it is, with its size.
pub proof fn law_found_files_are_shown(
    s: SessionView,
    path: Seq<char>,
    parent: Seq<char>,
    found: Seq<FoundView>,
    i: int,
)
    requires
        0 <= i < found.len(),
        found[i].stat is Some,
    ensures
        s.after_notice(
            noticed(listing_event_view(listing_answer(path, parent, remote_entries(found)))),
        ).remote_entries.contains(
            DirEntryView {
                name: found[i].name,
                is_dir: found[i].stat->0.is_dir,
                size: found[i].stat->0.size,
            },
        ),
{
    broadcast use vstd::seq_lib::group_to_multiset_ensures;

    let entries = remote_entries(found);
    let e = DirEntryView {
        name: found[i].name,
        is_dir: found[i].stat->0.is_dir,
        size: found[i].stat->0.size,
    };
    law_listing_is_read(path, parent, entries);
    law_places(found, 0, 0, i);
    let k = choose|k: int| 0 <= k < known_places(found).len() && known_places(found)[k] == i;
    law_entries_for_a_peer(found, k);
    assert(entries[k] == e);
    assert(entries.contains(e));
    law_shown_order_keeps_entries(entries);
    assert(entries.to_multiset().count(e) > 0);
    assert(shown_order(entries).to_multiset().count(e) > 0);
    assert(shown_order(entries).contains(e));
}

} // verus!
