//! A client's way to the daemon: where to look for it, and when to look again.

use vstd::prelude::*;
use crate::config::RETRY_SECONDS;
use crate::ipc::{link_event, link_event_view, IpcEvent, IpcEventView};

verus! {

/// What a client's last step on the way to the daemon has come to.
#[derive(Debug)]
pub enum LinkEvent {
    /// What was written down leads to this address; none, where it leads nowhere.
    Looked { address: Option<String> },
    /// The daemon has taken the call.
    Reached,
    /// The daemon has not taken the call.
    Refused,
    /// A line of the daemon has come.
    Heard,
    /// The connection to the daemon has come to its end.
    Lost,
    /// The time to wait is over.
    Waited,
}

/// What a client's last step on the way to the daemon has come to.
pub enum LinkEventView {
    Looked { address: Option<Seq<char>> },
    Reached,
    Refused,
    Heard,
    Lost,
    Waited,
}

impl View for LinkEvent {
    type V = LinkEventView;

    open spec fn view(&self) -> LinkEventView {
        match self {
            LinkEvent::Looked { address } => LinkEventView::Looked { address: address.deep_view() },
            LinkEvent::Reached => LinkEventView::Reached,
            LinkEvent::Refused => LinkEventView::Refused,
            LinkEvent::Heard => LinkEventView::Heard,
            LinkEvent::Lost => LinkEventView::Lost,
            LinkEvent::Waited => LinkEventView::Waited,
        }
    }
}

/// What a client does next on the way to the daemon.
#[derive(Debug)]
pub enum LinkStep {
    /// Look for what the daemon has written down.
    Look,
    /// Call the daemon at an address.
    Call { address: String },
    /// Hand commands and events on until the connection comes to its end.
    Serve,
    /// Wait for so many seconds.
    Wait { seconds: u64 },
}

/// What a client does next on the way to the daemon.
pub enum LinkStepView {
    Look,
    Call { address: Seq<char> },
    Serve,
    Wait { seconds: u64 },
}

impl View for LinkStep {
    type V = LinkStepView;

    open spec fn view(&self) -> LinkStepView {
        match self {
            LinkStep::Look => LinkStepView::Look,
            LinkStep::Call { address } => LinkStepView::Call { address: address@ },
            LinkStep::Serve => LinkStepView::Serve,
            LinkStep::Wait { seconds } => LinkStepView::Wait { seconds: *seconds },
        }
    }
}

/// What a client does after a step has come to something.
pub open spec fn link_step(e: LinkEventView) -> LinkStepView {
    match e {
        LinkEventView::Looked { address: Some(address) } => LinkStepView::Call { address },
        LinkEventView::Looked { address: None } => LinkStepView::Wait { seconds: RETRY_SECONDS },
        LinkEventView::Reached => LinkStepView::Serve,
        LinkEventView::Heard => LinkStepView::Serve,
        LinkEventView::Refused => LinkStepView::Wait { seconds: RETRY_SECONDS },
        LinkEventView::Lost => LinkStepView::Look,
        LinkEventView::Waited => LinkStepView::Look,
    }
}

/// Says what a client does after a step has come to something.
pub fn next_link_step(e: LinkEvent) -> (r: LinkStep)
    ensures
        r@ == link_step(e@),
{
    match e {
        LinkEvent::Looked { address: Some(address) } => LinkStep::Call { address },
        LinkEvent::Looked { address: None } => LinkStep::Wait { seconds: RETRY_SECONDS },
        LinkEvent::Reached => LinkStep::Serve,
        LinkEvent::Heard => LinkStep::Serve,
        LinkEvent::Refused => LinkStep::Wait { seconds: RETRY_SECONDS },
        LinkEvent::Lost => LinkStep::Look,
        LinkEvent::Waited => LinkStep::Look,
    }
}

/// What a client tells itself of what a step has come to: that it has reached the daemon, or
/// lost it.
pub open spec fn link_notice(e: LinkEventView) -> Option<IpcEventView> {
    match e {
        LinkEventView::Reached => Some(link_event_view(true)),
        LinkEventView::Lost => Some(link_event_view(false)),
        _ => None,
    }
}

/// Says what a client tells itself of what a step has come to.
pub fn notice_of(e: &LinkEvent) -> (r: Option<IpcEvent>)
    ensures
        r is Some <==> link_notice(e@) is Some,
        r matches Some(n) ==> link_notice(e@) == Some(n@),
{
    match e {
        LinkEvent::Reached => Some(link_event(true)),
        LinkEvent::Lost => Some(link_event(false)),
        _ => None,
    }
}

/// Whether a step can come to this.
pub open spec fn can_follow(step: LinkStepView, e: LinkEventView) -> bool {
    match step {
        LinkStepView::Look => e is Looked,
        LinkStepView::Call { .. } => e is Reached || e is Refused,
        LinkStepView::Serve => e is Heard || e is Lost,
        LinkStepView::Wait { .. } => e is Waited,
    }
}

/// What a client does after a run of events; it begins by looking for the daemon.
pub open spec fn step_after(run: Seq<LinkEventView>) -> LinkStepView {
    if run.len() == 0 {
        LinkStepView::Look
    } else {
        link_step(run.last())
    }
}

/// Whether each event of a run is one that the step before it can come to.
pub open spec fn is_run(run: Seq<LinkEventView>) -> bool {
    forall|k: int| 0 <= k < run.len() ==> can_follow(step_after(run.take(k)), #[trigger] run[k])
}

/// What a client tells itself over a run of events.
pub open spec fn notices(run: Seq<LinkEventView>) -> Seq<IpcEventView>
    decreases run.len(),
{
    if run.len() == 0 {
        Seq::empty()
    } else {
        match link_notice(run.last()) {
            Some(n) => notices(run.drop_last()).push(n),
            None => notices(run.drop_last()),
        }
    }
}

proof fn lemma_run_is_shorter(run: Seq<LinkEventView>)
    requires
        is_run(run),
        run.len() > 0,
    ensures
        is_run(run.drop_last()),
        can_follow(step_after(run.drop_last()), run.last()),
{
    let n = run.len() - 1;
    let front = run.drop_last();
    assert(run.take(n) =~= front);
    assert(can_follow(step_after(run.take(n)), run[n]));
    assert forall|k: int| 0 <= k < front.len() implies can_follow(
        step_after(front.take(k)),
        #[trigger] front[k],
    ) by {
        assert(front[k] == run[k]);
        assert(front.take(k) =~= run.take(k));
    }
}

/// Over a run of any length, what a client tells itself alternates, beginning with the daemon
/// reached: one of each per connection that has ended. The last one says that the daemon is
/// reached exactly while a connection is served.
pub proof fn law_notices_alternate(run: Seq<LinkEventView>)
    requires
        is_run(run),
    ensures
        forall|i: int|
            0 <= i < notices(run).len() ==> #[trigger] notices(run)[i] == link_event_view(
                i % 2 == 0,
            ),
        notices(run).len() % 2 == 1 <==> step_after(run) is Serve,
    decreases run.len(),
{
    if run.len() > 0 {
        lemma_run_is_shorter(run);
        let front = run.drop_last();
        law_notices_alternate(front);
        let before = notices(front);
        assert forall|i: int| 0 <= i < notices(run).len() implies #[trigger] notices(run)[i]
            == link_event_view(i % 2 == 0) by {
            if i < before.len() {
                assert(notices(run)[i] == before[i]);
            }
        }
    }
}

/// A line of the daemon comes, and a connection is lost, only while a connection is served, that
/// is after it was reached and before it was lost; a call that is refused tells nothing.
pub proof fn law_lines_come_while_connected(run: Seq<LinkEventView>)
    requires
        is_run(run),
        run.len() > 0,
    ensures
        run.last() is Heard || run.last() is Lost ==> notices(run.drop_last()).len() % 2 == 1
            && notices(run.drop_last()).last() == link_event_view(true),
        run.last() is Reached ==> notices(run.drop_last()).len() % 2 == 0,
        run.last() is Heard || run.last() is Refused ==> notices(run) == notices(run.drop_last()),
{
    lemma_run_is_shorter(run);
    law_notices_alternate(run.drop_last());
}

/// What a client does next: it calls the very address that it has found, waits two seconds where
/// there is none or nobody answers, serves a connection while it lasts, and then looks again.
pub proof fn law_link_steps(address: Seq<char>)
    ensures
        link_step(LinkEventView::Looked { address: Some(address) }) == (LinkStepView::Call {
            address,
        }),
        link_step(LinkEventView::Looked { address: None }) == (LinkStepView::Wait { seconds: 2 }),
        link_step(LinkEventView::Refused) == (LinkStepView::Wait { seconds: 2 }),
        link_step(LinkEventView::Reached) is Serve,
        link_step(LinkEventView::Heard) is Serve,
        link_step(LinkEventView::Lost) is Look,
        link_step(LinkEventView::Waited) is Look,
{
}

} // verus!
