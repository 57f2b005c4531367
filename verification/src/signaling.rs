//! What peers tell each other through the signaling server, and how two of them come to a
//! connection.

use vstd::prelude::*;

verus! {

/// A session description: its kind and its text.
#[derive(Debug)]
pub struct SessionDescription {
    pub kind: String,
    pub sdp: String,
}

/// What a session description says.
pub struct SessionDescriptionView {
    pub kind: Seq<char>,
    pub sdp: Seq<char>,
}

impl View for SessionDescription {
    type V = SessionDescriptionView;

    open spec fn view(&self) -> SessionDescriptionView {
        SessionDescriptionView { kind: self.kind@, sdp: self.sdp@ }
    }
}

impl SessionDescription {
    /// The same description once more.
    pub fn copy(&self) -> (r: SessionDescription)
        ensures
            r@ == self@,
    {
        SessionDescription { kind: self.kind.clone(), sdp: self.sdp.clone() }
    }
}

/// A way on which a peer may be reached.
#[derive(Debug)]
pub struct IceCandidate {
    pub candidate: String,
    pub sdp_mid: Option<String>,
    pub sdp_mline_index: Option<u16>,
    pub username_fragment: Option<String>,
}

/// What a candidate says.
pub struct IceCandidateView {
    pub candidate: Seq<char>,
    pub sdp_mid: Option<Seq<char>>,
    pub sdp_mline_index: Option<u16>,
    pub username_fragment: Option<Seq<char>>,
}

impl View for IceCandidate {
    type V = IceCandidateView;

    open spec fn view(&self) -> IceCandidateView {
        IceCandidateView {
            candidate: self.candidate@,
            sdp_mid: self.sdp_mid.deep_view(),
            sdp_mline_index: self.sdp_mline_index,
            username_fragment: self.username_fragment.deep_view(),
        }
    }
}

/// What one peer sends another through the server.
#[derive(Debug)]
pub enum SignalingPayload {
    Offer { sdp: SessionDescription, hostname: String },
    Answer { sdp: SessionDescription, hostname: String },
    IceCandidate { candidate: IceCandidate },
    Chat { message: String },
}

/// What one peer sends another through the server.
pub enum SignalingPayloadView {
    Offer { sdp: SessionDescriptionView, hostname: Seq<char> },
    Answer { sdp: SessionDescriptionView, hostname: Seq<char> },
    IceCandidate { candidate: IceCandidateView },
    Chat { message: Seq<char> },
}

impl View for SignalingPayload {
    type V = SignalingPayloadView;

    open spec fn view(&self) -> SignalingPayloadView {
        match self {
            SignalingPayload::Offer { sdp, hostname } => SignalingPayloadView::Offer {
                sdp: sdp@,
                hostname: hostname@,
            },
            SignalingPayload::Answer { sdp, hostname } => SignalingPayloadView::Answer {
                sdp: sdp@,
                hostname: hostname@,
            },
            SignalingPayload::IceCandidate { candidate } => SignalingPayloadView::IceCandidate {
                candidate: candidate@,
            },
            SignalingPayload::Chat { message } => SignalingPayloadView::Chat { message: message@ },
        }
    }
}

/// A request to the signaling server.
#[derive(Debug)]
pub struct ClientAction {
    pub action: String,
    pub target_id: String,
    pub payload: SignalingPayload,
}

/// What a request to the signaling server says.
pub struct ClientActionView {
    pub action: Seq<char>,
    pub target_id: Seq<char>,
    pub payload: SignalingPayloadView,
}

impl View for ClientAction {
    type V = ClientActionView;

    open spec fn view(&self) -> ClientActionView {
        ClientActionView {
            action: self.action@,
            target_id: self.target_id@,
            payload: self.payload@,
        }
    }
}

/// The request to hand something on to a peer.
pub open spec fn sent_to(target_id: Seq<char>, payload: SignalingPayloadView) -> ClientActionView {
    ClientActionView { action: "send"@, target_id, payload }
}

/// The request to hand something on to a peer.
pub fn send_to(target_id: &str, payload: SignalingPayload) -> (r: ClientAction)
    ensures
        r@ == sent_to(target_id@, payload@),
{
    ClientAction { action: "send".to_owned(), target_id: target_id.to_owned(), payload }
}

/// The request that tells a peer of a way on which it may be tried.
pub fn candidate_action(target_id: &str, candidate: IceCandidate) -> (r: ClientAction)
    ensures
        r@ == sent_to(
            target_id@,
            SignalingPayloadView::IceCandidate { candidate: candidate@ },
        ),
{
    send_to(target_id, SignalingPayload::IceCandidate { candidate })
}

/// How far a handshake is: what is being waited for.
#[derive(Debug)]
pub enum Stage {
    /// The connection.
    Creating,
    /// The channel on the connection, which the caller opens.
    OpeningChannel,
    /// That the connection takes the caller's description, which the other side applies.
    ApplyingRemote,
    /// The own description.
    Describing,
    /// That the connection takes the own description.
    ApplyingLocal { sdp: SessionDescription },
    Finished,
    Aborted,
}

/// How far a handshake is.
pub enum StageView {
    Creating,
    OpeningChannel,
    ApplyingRemote,
    Describing,
    ApplyingLocal { sdp: SessionDescriptionView },
    Finished,
    Aborted,
}

impl View for Stage {
    type V = StageView;

    open spec fn view(&self) -> StageView {
        match self {
            Stage::Creating => StageView::Creating,
            Stage::OpeningChannel => StageView::OpeningChannel,
            Stage::ApplyingRemote => StageView::ApplyingRemote,
            Stage::Describing => StageView::Describing,
            Stage::ApplyingLocal { sdp } => StageView::ApplyingLocal { sdp: sdp@ },
            Stage::Finished => StageView::Finished,
            Stage::Aborted => StageView::Aborted,
        }
    }
}

/// A connection in the making. The side that has an offer answers it; the other side calls.
#[derive(Debug)]
pub struct Handshake {
    target_id: String,
    hostname: String,
    offer: Option<SessionDescription>,
    stage: Stage,
}

/// The state of a handshake.
pub struct HandshakeView {
    pub target_id: Seq<char>,
    /// The name of the own node.
    pub hostname: Seq<char>,
    pub offer: Option<SessionDescriptionView>,
    pub stage: StageView,
}

impl View for Handshake {
    type V = HandshakeView;

    closed spec fn view(&self) -> HandshakeView {
        HandshakeView {
            target_id: self.target_id@,
            hostname: self.hostname@,
            offer: match self.offer {
                Some(sdp) => Some(sdp@),
                None => None,
            },
            stage: self.stage@,
        }
    }
}

/// What the last step of a handshake has come to.
#[derive(Debug)]
pub enum Outcome {
    Done,
    /// A description has been made.
    Described { sdp: SessionDescription },
    Failed,
}

/// What the last step of a handshake has come to.
pub enum OutcomeView {
    Done,
    Described { sdp: SessionDescriptionView },
    Failed,
}

impl View for Outcome {
    type V = OutcomeView;

    open spec fn view(&self) -> OutcomeView {
        match self {
            Outcome::Done => OutcomeView::Done,
            Outcome::Described { sdp } => OutcomeView::Described { sdp: sdp@ },
            Outcome::Failed => OutcomeView::Failed,
        }
    }
}

/// What a handshake does next.
#[derive(Debug)]
pub enum Step {
    OpenChannel { label: String },
    ApplyRemote { sdp: SessionDescription },
    CreateOffer,
    CreateAnswer,
    ApplyLocal { sdp: SessionDescription },
    /// Send the own description to the peer, and keep the connection.
    Finish { action: ClientAction },
    Abort,
}

/// What a handshake does next.
pub enum StepView {
    OpenChannel { label: Seq<char> },
    ApplyRemote { sdp: SessionDescriptionView },
    CreateOffer,
    CreateAnswer,
    ApplyLocal { sdp: SessionDescriptionView },
    Finish { action: ClientActionView },
    Abort,
}

impl View for Step {
    type V = StepView;

    open spec fn view(&self) -> StepView {
        match self {
            Step::OpenChannel { label } => StepView::OpenChannel { label: label@ },
            Step::ApplyRemote { sdp } => StepView::ApplyRemote { sdp: sdp@ },
            Step::CreateOffer => StepView::CreateOffer,
            Step::CreateAnswer => StepView::CreateAnswer,
            Step::ApplyLocal { sdp } => StepView::ApplyLocal { sdp: sdp@ },
            Step::Finish { action } => StepView::Finish { action: action@ },
            Step::Abort => StepView::Abort,
        }
    }
}

impl HandshakeView {
    /// A call to a peer, for which a connection is to be created.
    pub open spec fn call(target_id: Seq<char>, hostname: Seq<char>) -> HandshakeView {
        HandshakeView { target_id, hostname, offer: None, stage: StageView::Creating }
    }

    /// The answer to a peer's offer, for which a connection is to be created.
    pub open spec fn answer(
        target_id: Seq<char>,
        hostname: Seq<char>,
        offer: SessionDescriptionView,
    ) -> HandshakeView {
        HandshakeView { target_id, hostname, offer: Some(offer), stage: StageView::Creating }
    }

    /// What the peer is sent in the end.
    pub open spec fn message(self, sdp: SessionDescriptionView) -> ClientActionView {
        sent_to(
            self.target_id,
            if self.offer is Some {
                SignalingPayloadView::Answer { sdp, hostname: self.hostname }
            } else {
                SignalingPayloadView::Offer { sdp, hostname: self.hostname }
            },
        )
    }

    /// The stage that follows an outcome, and what is to be done then.
    pub open spec fn followed_by(self, outcome: OutcomeView) -> (StageView, StepView) {
        match (self.stage, outcome) {
            (StageView::Creating, OutcomeView::Done) => match self.offer {
                Some(sdp) => (StageView::ApplyingRemote, StepView::ApplyRemote { sdp }),
                None => (StageView::OpeningChannel, StepView::OpenChannel { label: "data"@ }),
            },
            (StageView::OpeningChannel, OutcomeView::Done) => (
                StageView::Describing,
                StepView::CreateOffer,
            ),
            (StageView::ApplyingRemote, OutcomeView::Done) => (
                StageView::Describing,
                StepView::CreateAnswer,
            ),
            (StageView::Describing, OutcomeView::Described { sdp }) => (
                StageView::ApplyingLocal { sdp },
                StepView::ApplyLocal { sdp },
            ),
            (StageView::ApplyingLocal { sdp }, OutcomeView::Done) => (
                StageView::Finished,
                StepView::Finish { action: self.message(sdp) },
            ),
            _ => (StageView::Aborted, StepView::Abort),
        }
    }

    /// The handshake after an outcome.
    pub open spec fn after(self, outcome: OutcomeView) -> HandshakeView {
        HandshakeView { stage: self.followed_by(outcome).0, ..self }
    }

    /// What is done after an outcome.
    pub open spec fn step(self, outcome: OutcomeView) -> StepView {
        self.followed_by(outcome).1
    }
}

impl Handshake {
    /// A call to a peer.
    pub fn call(target_id: &str, hostname: &str) -> (r: Handshake)
        ensures
            r@ == HandshakeView::call(target_id@, hostname@),
    {
        Handshake {
            target_id: target_id.to_owned(),
            hostname: hostname.to_owned(),
            offer: None,
            stage: Stage::Creating,
        }
    }

    /// The answer to a peer's offer.
    pub fn answer(target_id: &str, hostname: &str, offer: SessionDescription) -> (r: Handshake)
        ensures
            r@ == HandshakeView::answer(target_id@, hostname@, offer@),
    {
        Handshake {
            target_id: target_id.to_owned(),
            hostname: hostname.to_owned(),
            offer: Some(offer),
            stage: Stage::Creating,
        }
    }

    /// The peer with whom the connection is made.
    pub fn target_id(&self) -> (r: &str)
        ensures
            r@ == self@.target_id,
    {
        self.target_id.as_str()
    }

    /// Whether the channel to the peer has just been opened by this side.
    pub fn opens_channel(&self) -> (r: bool)
        ensures
            r == (self@.stage is OpeningChannel),
    {
        matches!(self.stage, Stage::OpeningChannel)
    }

    /// Takes in what the last step has come to, and says what is to be done next. A step that
    /// failed, or that came to something else than it was for, ends the handshake.
    pub fn advance(&mut self, outcome: Outcome) -> (r: Step)
        ensures
            final(self)@ == old(self)@.after(outcome@),
            r@ == old(self)@.step(outcome@),
    {
        let mut stage = Stage::Aborted;
        core::mem::swap(&mut stage, &mut self.stage);
        match (stage, outcome) {
            (Stage::Creating, Outcome::Done) => {
                match &self.offer {
                    Some(sdp) => {
                        let sdp = sdp.copy();
                        self.stage = Stage::ApplyingRemote;
                        Step::ApplyRemote { sdp }
                    },
                    None => {
                        self.stage = Stage::OpeningChannel;
                        Step::OpenChannel { label: "data".to_owned() }
                    },
                }
            },
            (Stage::OpeningChannel, Outcome::Done) => {
                self.stage = Stage::Describing;
                Step::CreateOffer
            },
            (Stage::ApplyingRemote, Outcome::Done) => {
                self.stage = Stage::Describing;
                Step::CreateAnswer
            },
            (Stage::Describing, Outcome::Described { sdp }) => {
                let local = sdp.copy();
                self.stage = Stage::ApplyingLocal { sdp };
                Step::ApplyLocal { sdp: local }
            },
            (Stage::ApplyingLocal { sdp }, Outcome::Done) => {
                self.stage = Stage::Finished;
                let hostname = self.hostname.clone();
                let payload = if self.offer.is_some() {
                    SignalingPayload::Answer { sdp, hostname }
                } else {
                    SignalingPayload::Offer { sdp, hostname }
                };
                Step::Finish { action: send_to(self.target_id.as_str(), payload) }
            },
            _ => Step::Abort,
        }
    }
}

/// A call in which every step succeeds opens a channel, makes an offer, applies it, and sends
/// exactly this offer to the peer, under the name of the own node.
pub proof fn law_call_offers(
    target_id: Seq<char>,
    hostname: Seq<char>,
    sdp: SessionDescriptionView,
)
    ensures
        ({
            let h0 = HandshakeView::call(target_id, hostname);
            let h1 = h0.after(OutcomeView::Done);
            let h2 = h1.after(OutcomeView::Done);
            let h3 = h2.after(OutcomeView::Described { sdp });
            &&& h0.step(OutcomeView::Done) == (StepView::OpenChannel { label: "data"@ })
            &&& h1.step(OutcomeView::Done) == StepView::CreateOffer
            &&& h2.step(OutcomeView::Described { sdp }) == (StepView::ApplyLocal { sdp })
            &&& h3.step(OutcomeView::Done) == (StepView::Finish {
                action: sent_to(target_id, SignalingPayloadView::Offer { sdp, hostname }),
            })
        }),
{
}

/// An answer in which every step succeeds applies the offer, makes an answer, applies it, and
/// sends exactly this answer to the peer, under the name of the own node.
pub proof fn law_answer_answers(
    target_id: Seq<char>,
    hostname: Seq<char>,
    offer: SessionDescriptionView,
    sdp: SessionDescriptionView,
)
    ensures
        ({
            let h0 = HandshakeView::answer(target_id, hostname, offer);
            let h1 = h0.after(OutcomeView::Done);
            let h2 = h1.after(OutcomeView::Done);
            let h3 = h2.after(OutcomeView::Described { sdp });
            &&& h0.step(OutcomeView::Done) == (StepView::ApplyRemote { sdp: offer })
            &&& h1.step(OutcomeView::Done) == StepView::CreateAnswer
            &&& h2.step(OutcomeView::Described { sdp }) == (StepView::ApplyLocal { sdp })
            &&& h3.step(OutcomeView::Done) == (StepView::Finish {
                action: sent_to(target_id, SignalingPayloadView::Answer { sdp, hostname }),
            })
        }),
{
}

/// A failed step ends a handshake, whatever its stage, and nothing is sent from then on.
pub proof fn law_failure_aborts(h: HandshakeView, later: OutcomeView)
    ensures
        h.step(OutcomeView::Failed) is Abort,
        h.after(OutcomeView::Failed).stage is Aborted,
        h.after(OutcomeView::Failed).step(later) is Abort,
        h.after(OutcomeView::Failed).after(later).stage is Aborted,
{
}

/// A peer is sent a description only when the connection has just taken it, and is sent that
/// very description.
pub proof fn law_only_an_applied_description_is_sent(h: HandshakeView, outcome: OutcomeView)
    requires
        h.step(outcome) is Finish,
    ensures
        h.stage is ApplyingLocal,
        outcome is Done,
        h.step(outcome) == (StepView::Finish { action: h.message(h.stage->sdp) }),
{
}

/// What is sent to a peer goes through the server as a request to send it to that very peer.
pub proof fn law_sending(target_id: Seq<char>, payload: SignalingPayloadView)
    ensures
        sent_to(target_id, payload).action == "send"@,
        sent_to(target_id, payload).target_id == target_id,
        sent_to(target_id, payload).payload == payload,
{
}

/// A handshake keeps its peer, its name and its offer from beginning to end; a call has no offer
/// and an answer has the peer's.
pub proof fn law_handshake_keeps_its_parties(
    h: HandshakeView,
    outcome: OutcomeView,
    target_id: Seq<char>,
    hostname: Seq<char>,
    offer: SessionDescriptionView,
)
    ensures
        h.after(outcome).target_id == h.target_id,
        h.after(outcome).hostname == h.hostname,
        h.after(outcome).offer == h.offer,
        HandshakeView::call(target_id, hostname).target_id == target_id,
        HandshakeView::call(target_id, hostname).hostname == hostname,
        HandshakeView::call(target_id, hostname).offer is None,
        HandshakeView::call(target_id, hostname).stage is Creating,
        HandshakeView::answer(target_id, hostname, offer).target_id == target_id,
        HandshakeView::answer(target_id, hostname, offer).hostname == hostname,
        HandshakeView::answer(target_id, hostname, offer).offer == Some(offer),
        HandshakeView::answer(target_id, hostname, offer).stage is Creating,
{
}

/// What each step of a handshake does with what the last one came to: nothing that was made or
/// received is changed on the way, and whatever is out of turn ends the handshake.
pub proof fn law_handshake_steps(h: HandshakeView, outcome: OutcomeView)
    ensures
        match h.step(outcome) {
            StepView::OpenChannel { label } => h.stage is Creating && outcome is Done && h.offer
                is None && label == "data"@ && h.after(outcome).stage is OpeningChannel,
            StepView::ApplyRemote { sdp } => h.stage is Creating && outcome is Done && h.offer
                == Some(sdp) && h.after(outcome).stage is ApplyingRemote,
            StepView::CreateOffer => h.stage is OpeningChannel && outcome is Done && h.after(
                outcome,
            ).stage is Describing,
            StepView::CreateAnswer => h.stage is ApplyingRemote && outcome is Done && h.after(
                outcome,
            ).stage is Describing,
            StepView::ApplyLocal { sdp } => h.stage is Describing && outcome == (
            OutcomeView::Described { sdp }) && h.after(outcome).stage == (
            StageView::ApplyingLocal { sdp }),
            StepView::Finish { action } => {
                &&& outcome is Done
                &&& h.after(outcome).stage is Finished
                &&& h.stage matches StageView::ApplyingLocal { sdp } && action.action == "send"@
                    && action.target_id == h.target_id && (match action.payload {
                    SignalingPayloadView::Offer { sdp: s, hostname } => h.offer is None && s == sdp
                        && hostname == h.hostname,
                    SignalingPayloadView::Answer { sdp: s, hostname } => h.offer is Some && s == sdp
                        && hostname == h.hostname,
                    _ => false,
                })
            },
            StepView::Abort => {
                &&& h.after(outcome).stage is Aborted
                &&& outcome is Done ==> h.stage is Describing || h.stage is Finished || h.stage
                    is Aborted
                &&& outcome is Described ==> !(h.stage is Describing)
            },
        },
{
}

} // verus!
