//! Sending a file to a peer, chunk by chunk, with word of how far it has come.

use vstd::prelude::*;
use crate::ipc::{
    law_progress_event, progress_event, progress_event_view, IpcEvent, IpcEventView,
};
use crate::json::JsonView;
use crate::paths::{is_file_name, path_file_name};
use crate::wire::{file_notice, file_notice_text, writes};

verus! {

/// The number of bytes that are read from a file at a time.
pub const CHUNK_BYTES: usize = 16384;

/// More bytes than this are never left unreported.
pub const REPORT_BYTES: usize = 524288;

/// A file on its way to a peer.
#[derive(Debug)]
pub struct Upload {
    name: String,
    target: String,
    size: u64,
    sent: usize,
    reported: usize,
}

/// How far a file is on its way.
pub struct UploadView {
    pub name: Seq<char>,
    pub target: Seq<char>,
    /// The size of the file when it was opened.
    pub size: u64,
    /// The bytes that have been sent.
    pub sent: nat,
    /// The bytes that had been sent at the last report.
    pub reported: nat,
}

impl View for Upload {
    type V = UploadView;

    closed spec fn view(&self) -> UploadView {
        UploadView {
            name: self.name@,
            target: self.target@,
            size: self.size,
            sent: self.sent as nat,
            reported: self.reported as nat,
        }
    }
}

impl UploadView {
    /// A file of which nothing has been sent.
    pub open spec fn start(name: Seq<char>, size: u64, target: Seq<char>) -> UploadView {
        UploadView { name, target, size, sent: 0, reported: 0 }
    }

    /// Whether a chunk of `n` bytes calls for a report: too much would be left unreported, or
    /// the whole file has been sent.
    pub open spec fn due(self, n: nat) -> bool {
        self.sent + n - self.reported > REPORT_BYTES || self.sent + n == self.size as usize
    }

    /// The file after a chunk of `n` more bytes.
    pub open spec fn advanced(self, n: nat) -> UploadView {
        UploadView {
            sent: self.sent + n,
            reported: if self.due(n) {
                self.sent + n
            } else {
                self.reported
            },
            ..self
        }
    }

    /// The report on a chunk of `n` more bytes.
    pub open spec fn report(self, n: nat) -> Option<IpcEventView> {
        if self.due(n) {
            Some(
                progress_event_view(self.name, (self.sent + n) as u64, self.size, self.target),
            )
        } else {
            None
        }
    }

    /// The file after several chunks.
    pub open spec fn after(self, chunks: Seq<nat>) -> UploadView
        decreases chunks.len(),
    {
        if chunks.len() == 0 {
            self
        } else {
            self.after(chunks.drop_last()).advanced(chunks.last())
        }
    }
}

/// The bytes in several chunks.
pub open spec fn total(chunks: Seq<nat>) -> nat
    decreases chunks.len(),
{
    if chunks.len() == 0 {
        0
    } else {
        total(chunks.drop_last()) + chunks.last()
    }
}

impl Upload {
    /// Whether no more is unreported than may be.
    pub open spec fn wf(self) -> bool {
        self@.reported <= self@.sent <= self@.reported + REPORT_BYTES
    }

    /// A file of a given name, of which nothing has been sent.
    pub fn begin_named(name: String, size: u64, target: String) -> (r: Upload)
        ensures
            r.wf(),
            r@ == UploadView::start(name@, size, target@),
    {
        Upload { name, target, size, sent: 0, reported: 0 }
    }

    /// The file at a path, of which nothing has been sent; none where the path has no file
    /// name.
    pub fn begin(path: &str, size: u64, target: String) -> (r: Option<Upload>)
        ensures
            r matches Some(u) ==> u.wf() && u@ == UploadView::start(u@.name, size, target@),
            is_file_name(
                match r {
                    Some(u) => Some(u@.name),
                    None => None,
                },
                path@,
            ),
    {
        match path_file_name(path) {
            Some(name) => Some(Upload::begin_named(name, size, target)),
            None => None,
        }
    }

    /// The name under which the file is announced.
    pub fn name(&self) -> (r: &str)
        ensures
            r@ == self@.name,
    {
        self.name.as_str()
    }

    /// The bytes that have been sent.
    pub fn sent(&self) -> (r: usize)
        ensures
            r == self@.sent,
    {
        self.sent
    }

    /// The text that announces the file.
    pub fn notice(&self) -> (r: String)
        ensures
            writes(r@, file_notice(self@.name, self@.size)),
    {
        file_notice_text(self.name.as_str(), self.size)
    }

    /// Counts a chunk of `n` bytes that has been sent, and reports where a report is due.
    pub fn advance(&mut self, n: usize) -> (r: Option<IpcEvent>)
        requires
            old(self).wf(),
            old(self)@.sent + n <= usize::MAX,
        ensures
            final(self).wf(),
            final(self)@ == old(self)@.advanced(n as nat),
            r is Some <==> old(self)@.report(n as nat) is Some,
            r matches Some(e) ==> old(self)@.report(n as nat) == Some(e@),
    {
        self.sent = self.sent + n;
        if self.sent - self.reported > REPORT_BYTES || self.sent == self.size as usize {
            self.reported = self.sent;
            Some(
                progress_event(
                    self.name.as_str(),
                    self.sent as u64,
                    self.size,
                    self.target.as_str(),
                ),
            )
        } else {
            None
        }
    }
}

/// Whatever the chunks, every byte is counted, and no more than the allowed number of bytes
/// is ever left unreported.
pub proof fn law_upload_counts_every_byte(u: UploadView, chunks: Seq<nat>)
    requires
        u.reported <= u.sent <= u.reported + REPORT_BYTES,
    ensures
        u.after(chunks).sent == u.sent + total(chunks),
        u.after(chunks).reported <= u.after(chunks).sent,
        u.after(chunks).sent <= u.after(chunks).reported + REPORT_BYTES,
        u.after(chunks).name == u.name,
        u.after(chunks).size == u.size,
        u.after(chunks).target == u.target,
    decreases chunks.len(),
{
    if chunks.len() > 0 {
        law_upload_counts_every_byte(u, chunks.drop_last());
    }
}

/// The chunk that completes a file is reported, with the file's size for the bytes sent.
pub proof fn law_completed_upload_is_reported(
    name: Seq<char>,
    size: u64,
    target: Seq<char>,
    chunks: Seq<nat>,
)
    requires
        chunks.len() > 0,
        total(chunks) == size,
        size <= usize::MAX,
    ensures
        UploadView::start(name, size, target).after(chunks.drop_last()).report(chunks.last())
            == Some(progress_event_view(name, size, size, target)),
        UploadView::start(name, size, target).after(chunks).reported == size,
{
    law_upload_counts_every_byte(UploadView::start(name, size, target), chunks.drop_last());
}

/// Every report that is made names the file, the bytes sent with this chunk, the size of the
/// file when it was opened, and the target.
pub proof fn law_reports_say_how_far(u: UploadView, n: nat)
    requires
        u.sent + n <= u64::MAX,
    ensures
        u.report(n) matches Some(e) ==> {
            &&& e.event == "file_progress"@
            &&& e.data.field("filename"@) == Some(JsonView::Text(u.name))
            &&& e.data.field("bytes_sent"@) == Some(JsonView::Unsigned((u.sent + n) as u64))
            &&& e.data.field("total"@) == Some(JsonView::Unsigned(u.size))
            &&& e.data.field("target"@) == Some(JsonView::Text(u.target))
        },
{
    law_progress_event(u.name, (u.sent + n) as u64, u.size, u.target);
}

/// A chunk is reported exactly where more than 512 KiB have been sent since the last report, or
/// the file has been sent as a whole.
pub proof fn law_when_reports_are_made(u: UploadView, n: nat)
    ensures
        u.report(n) is Some <==> u.sent + n > u.reported + 524288 || u.sent + n == u.size as usize,
        u.size <= usize::MAX ==> (u.report(n) is Some <==> u.sent + n > u.reported + 524288 || u.sent
            + n == u.size),
{
}

/// A chunk adds its bytes to those sent, and a report is made on all of them; the file, its size
/// and its target stay.
pub proof fn law_a_chunk_counts(u: UploadView, n: nat, name: Seq<char>, size: u64, to: Seq<char>)
    ensures
        u.advanced(n).sent == u.sent + n,
        u.advanced(n).reported == (if u.report(n) is Some {
            u.sent + n
        } else {
            u.reported
        }),
        u.advanced(n).name == u.name,
        u.advanced(n).size == u.size,
        u.advanced(n).target == u.target,
        UploadView::start(name, size, to).name == name,
        UploadView::start(name, size, to).size == size,
        UploadView::start(name, size, to).target == to,
        UploadView::start(name, size, to).sent == 0,
        UploadView::start(name, size, to).reported == 0,
{
}

} // verus!
