//! The mixing stage: for each message that comes in, the policy decides
//! which messages go out, and to whom.
//!
//! The policy is chosen when the mixer is made. What a policy remembers
//! between messages lives in the mixer and nowhere else.

use vstd::prelude::*;
use crate::channel::offer;
use crate::message::{views, AudioMessage, AudioMessageView};
use crate::peer::PeerAddress;
use crate::schema::{payload_is_well_formed, payload_well_formed};
use crate::stage::{StopCause, Verdict};

verus! {

/// The rule that maps a message coming in to the messages going out.
#[derive(Clone, Copy, Debug, PartialEq, Eq, Hash, Structural)]
pub enum MixPolicy {
    /// Every message goes back, unchanged, to the peer it came from. Nothing
    /// is remembered.
    Echo,
    /// Every message goes, with its audio unchanged, to every other peer that
    /// has been heard from so far. The peers heard from are remembered, in
    /// the order in which they were first heard.
    FanOut,
}

/// Why the mixer passed over a message.
#[derive(Clone, Copy, Debug, PartialEq, Eq, Hash, Structural)]
pub enum MixError {
    /// The payload is not readable audio.
    UnreadablePayload,
}

/// The mixer: a policy and what the policy remembers.
pub struct Mixer {
    policy: MixPolicy,
    roster: Vec<PeerAddress>,
}

/// Mathematical value of a [`Mixer`].
pub ghost struct MixerView {
    pub policy: MixPolicy,
    /// The peers heard from, each once, in the order of their first message.
    pub roster: Seq<PeerAddress>,
}

/// `roster` with `peer` added at the end, unless it is on it already.
pub open spec fn enrolled(roster: Seq<PeerAddress>, peer: PeerAddress) -> Seq<PeerAddress> {
    if roster.contains(peer) {
        roster
    } else {
        roster.push(peer)
    }
}

/// The peers on `roster` other than `peer`, in the order of the roster.
pub open spec fn others(roster: Seq<PeerAddress>, peer: PeerAddress) -> Seq<PeerAddress> {
    roster.filter(|other: PeerAddress| other != peer)
}

/// One copy of `message` for each of `targets`, in their order.
pub open spec fn copies(message: AudioMessageView, targets: Seq<PeerAddress>) -> Seq<
    AudioMessageView,
> {
    targets.map_values(|target: PeerAddress| message.addressed_to(target))
}

impl MixerView {
    /// What holds of every mixer: nobody is on the roster twice.
    pub open spec fn wf(self) -> bool {
        self.roster.no_duplicates()
    }

    /// The messages that go out for `message`.
    pub open spec fn outputs(self, message: AudioMessageView) -> Seq<AudioMessageView> {
        match self.policy {
            MixPolicy::Echo => seq![message],
            MixPolicy::FanOut => copies(message, others(self.roster, message.peer_address)),
        }
    }

    /// The mixer after it has mixed `message`.
    pub open spec fn after(self, message: AudioMessageView) -> MixerView {
        match self.policy {
            MixPolicy::Echo => self,
            MixPolicy::FanOut => MixerView {
                roster: enrolled(self.roster, message.peer_address),
                ..self
            },
        }
    }

    /// What the mixer answers to a message, given whether the payload is
    /// readable audio.
    pub open spec fn answer(self, message: AudioMessageView, readable: bool) -> Result<
        Seq<AudioMessageView>,
        MixError,
    > {
        if readable {
            Ok(self.outputs(message))
        } else {
            Err(MixError::UnreadablePayload)
        }
    }

    /// The mixer after it was given a message, given whether the payload is
    /// readable audio: a message that is passed over leaves no trace.
    pub open spec fn after_checked(self, message: AudioMessageView, readable: bool) -> MixerView {
        if readable {
            self.after(message)
        } else {
            self
        }
    }
}

impl View for Mixer {
    type V = MixerView;

    closed spec fn view(&self) -> MixerView {
        MixerView { policy: self.policy, roster: self.roster@ }
    }
}

impl Mixer {
    #[verifier::type_invariant]
    spec fn roster_is_a_set(self) -> bool {
        self.roster@.no_duplicates()
    }

    /// A mixer that follows `policy` and has heard from nobody yet.
    pub fn new(policy: MixPolicy) -> (mixer: Mixer)
        ensures
            mixer@ == (MixerView { policy, roster: Seq::empty() }),
            mixer@.wf(),
    {
        Mixer { policy, roster: Vec::new() }
    }

    /// The policy the mixer was made with.
    pub fn policy(&self) -> (policy: MixPolicy)
        ensures
            policy == self@.policy,
    {
        self.policy
    }

    /// The peers heard from so far, each once, in the order of their first
    /// message.
    pub fn roster(&self) -> (roster: &[PeerAddress])
        ensures
            roster@ == self@.roster,
            self@.wf(),
    {
        proof {
            use_type_invariant(self);
        }
        self.roster.as_slice()
    }

    /// Applies the policy to one message.
    ///
    /// Returns the messages that go out, in the order in which they are to be
    /// sent, and remembers what the policy remembers. Under `FanOut` no peer
    /// is sent its own audio and no peer is sent the same message twice.
    pub fn mix(&mut self, message: AudioMessage) -> (out: Vec<AudioMessage>)
        ensures
            views(out@) == old(self)@.outputs(message@),
            final(self)@ == old(self)@.after(message@),
            final(self)@.wf(),
    {
        proof {
            use_type_invariant(&*self);
        }
        match self.policy {
            MixPolicy::Echo => {
                let mut out: Vec<AudioMessage> = Vec::new();
                out.push(message);
                out
            },
            MixPolicy::FanOut => {
                let sender = message.peer_address;
                let mut out: Vec<AudioMessage> = Vec::new();
                let mut known = false;
                let mut i: usize = 0;
                assert(others(self.roster@.take(0), sender) =~= Seq::empty()) by {
                    reveal(Seq::filter);
                }
                while i < self.roster.len()
                    invariant
                        i <= self.roster.len(),
                        self.roster@ == old(self).roster@,
                        self.policy == old(self).policy,
                        sender == message.peer_address,
                        known == self.roster@.take(i as int).contains(sender),
                        views(out@) =~= copies(message@, others(self.roster@.take(i as int), sender)),
                    decreases self.roster.len() - i,
                {
                    let peer = self.roster[i];
                    proof {
                        lemma_roster_step(self.roster@, i as int, sender);
                    }
                    if peer == sender {
                        known = true;
                    } else {
                        let ghost targets = others(self.roster@.take(i as int), sender);
                        let copy = message.addressed_to(peer);
                        out.push(copy);
                        assert(copies(message@, targets.push(peer)) =~= copies(
                            message@,
                            targets,
                        ).push(message@.addressed_to(peer)));
                    }
                    i += 1;
                }
                assert(self.roster@.take(i as int) =~= self.roster@);
                if !known {
                    proof {
                        lemma_push_fresh_keeps_distinct(self.roster@, sender);
                    }
                    let mut roster = self.roster.clone();
                    roster.push(sender);
                    self.roster = roster;
                }
                out
            },
        }
    }

    /// Mixes a message once it is known whether its payload is readable
    /// audio. A message that is not is passed over: nothing goes out and
    /// nothing is remembered of it.
    pub fn mix_checked(&mut self, message: AudioMessage, readable: bool) -> (r: Result<
        Vec<AudioMessage>,
        MixError,
    >)
        ensures
            match r {
                Ok(out) => old(self)@.answer(message@, readable) == Ok::<
                    Seq<AudioMessageView>,
                    MixError,
                >(views(out@)),
                Err(e) => old(self)@.answer(message@, readable) == Err::<
                    Seq<AudioMessageView>,
                    MixError,
                >(e),
            },
            final(self)@ == old(self)@.after_checked(message@, readable),
            final(self)@.wf(),
    {
        proof {
            use_type_invariant(&*self);
        }
        if readable {
            Ok(self.mix(message))
        } else {
            Err(MixError::UnreadablePayload)
        }
    }

    /// Takes one message from the ingestion stage: checks that its payload is
    /// still readable audio, and mixes it if it is.
    pub fn process(&mut self, message: AudioMessage) -> (r: Result<Vec<AudioMessage>, MixError>)
        ensures
            match r {
                Ok(out) => old(self)@.answer(
                    message@,
                    payload_well_formed(message@.payload),
                ) == Ok::<Seq<AudioMessageView>, MixError>(views(out@)),
                Err(e) => old(self)@.answer(message@, payload_well_formed(message@.payload))
                    == Err::<Seq<AudioMessageView>, MixError>(e),
            },
            final(self)@ == old(self)@.after_checked(
                message@,
                payload_well_formed(message@.payload),
            ),
            final(self)@.wf(),
    {
        let readable = payload_is_well_formed(message.payload.as_slice());
        self.mix_checked(message, readable)
    }
}

/// What the mixing stage wakes up to.
#[derive(Clone, Debug, PartialEq, Eq)]
pub enum MixEvent {
    /// A message has come from the ingestion stage.
    Arrived(AudioMessage),
    /// The queue from the ingestion stage is closed and empty.
    Disconnected,
    /// The stage is asked to stop.
    Shutdown,
}

/// What the mixing stage does about an event.
#[derive(Clone, Debug, PartialEq, Eq)]
pub enum MixAction {
    /// Hand these messages to the dispatch stage, in this order.
    Emit(Vec<AudioMessage>),
    /// Pass over the message, for the reason given, and go on.
    Skip(MixError),
    /// Stop.
    Halt(StopCause),
}

/// Mathematical value of a [`MixAction`].
pub ghost enum MixActionView {
    Emit(Seq<AudioMessageView>),
    Skip(MixError),
    Halt(StopCause),
}

impl View for MixAction {
    type V = MixActionView;

    open spec fn view(&self) -> MixActionView {
        match self {
            MixAction::Emit(out) => MixActionView::Emit(views(out@)),
            MixAction::Skip(e) => MixActionView::Skip(*e),
            MixAction::Halt(cause) => MixActionView::Halt(*cause),
        }
    }
}

/// How far a run of messages got on its way to the next stage.
#[derive(Clone, Copy, Debug, PartialEq, Eq, Hash, Structural)]
pub struct Forwarding {
    /// How many messages the queue took, counted from the first.
    pub delivered: usize,
    /// `Continue` if the queue took them all; else why it took no more.
    pub verdict: Verdict,
}

/// How handling one event ended.
#[derive(Clone, Copy, Debug, PartialEq, Eq, Hash, Structural)]
pub enum MixReport {
    /// The message was mixed and this many messages went on to the dispatch
    /// stage: all that the policy made of it.
    Emitted(usize),
    /// The message was passed over, for the reason given.
    Skipped(MixError),
    /// The stage must stop.
    Stopped(StopCause),
}

impl MixReport {
    /// What the report asks of the stage.
    pub open spec fn verdict_spec(self) -> Verdict {
        match self {
            MixReport::Emitted(_) => Verdict::Continue,
            MixReport::Skipped(_) => Verdict::Continue,
            MixReport::Stopped(cause) => Verdict::Stop(cause),
        }
    }

    /// What the report asks of the stage: a message that is passed over
    /// never stops it.
    pub fn verdict(self) -> (verdict: Verdict)
        ensures
            verdict == self.verdict_spec(),
    {
        match self {
            MixReport::Emitted(_) => Verdict::Continue,
            MixReport::Skipped(_) => Verdict::Continue,
            MixReport::Stopped(cause) => Verdict::Stop(cause),
        }
    }
}

/// The action with which a mixer answers `event`, given whether the payload
/// of a message that arrived is readable audio.
pub open spec fn plan_mix_spec(mixer: MixerView, event: MixEvent, readable: bool) -> MixActionView {
    match event {
        MixEvent::Arrived(message) => match mixer.answer(message@, readable) {
            Ok(out) => MixActionView::Emit(out),
            Err(e) => MixActionView::Skip(e),
        },
        MixEvent::Disconnected => MixActionView::Halt(StopCause::ChannelClosed),
        MixEvent::Shutdown => MixActionView::Halt(StopCause::Shutdown),
    }
}

/// The mixer after `event`, given whether the payload of a message that
/// arrived is readable audio.
pub open spec fn mixer_after_event(mixer: MixerView, event: MixEvent, readable: bool) -> MixerView {
    match event {
        MixEvent::Arrived(message) => mixer.after_checked(message@, readable),
        _ => mixer,
    }
}

/// Whether the payload of the message that `event` brings is readable audio;
/// `true` of an event that brings none.
pub open spec fn event_is_readable(event: MixEvent) -> bool {
    match event {
        MixEvent::Arrived(message) => payload_well_formed(message@.payload),
        _ => true,
    }
}

/// The report on a message whose outputs got as far as `forwarding` says.
pub open spec fn settle_mix_spec(forwarding: Forwarding) -> MixReport {
    match forwarding.verdict {
        Verdict::Continue => MixReport::Emitted(forwarding.delivered),
        Verdict::Stop(cause) => MixReport::Stopped(cause),
    }
}

/// Decides what to do about `event`.
///
/// A message that arrives is mixed, unless its payload has become
/// unreadable: then it is passed over. The loss of the queue from the
/// ingestion stage and a request to stop halt the stage and leave the mixer
/// as it is.
pub fn plan_mix(mixer: &mut Mixer, event: MixEvent) -> (action: MixAction)
    ensures
        action@ == plan_mix_spec(old(mixer)@, event, event_is_readable(event)),
        final(mixer)@ == mixer_after_event(old(mixer)@, event, event_is_readable(event)),
        final(mixer)@.wf(),
{
    proof {
        use_type_invariant(&*mixer);
    }
    match event {
        MixEvent::Arrived(message) => match mixer.process(message) {
            Ok(out) => MixAction::Emit(out),
            Err(e) => MixAction::Skip(e),
        },
        MixEvent::Disconnected => MixAction::Halt(StopCause::ChannelClosed),
        MixEvent::Shutdown => MixAction::Halt(StopCause::Shutdown),
    }
}

/// Offers `messages` to the next stage, one after the other in their order,
/// and stops at the first that the queue does not take.
///
/// Whether the queue takes a message is decided at its other end. Whatever
/// it does, `delivered` counts the messages taken, the verdict is `Continue`
/// exactly when all were taken, and otherwise it is the verdict of the offer
/// that failed: a full queue or a closed one.
pub fn forward_all(queue: &flume::Sender<AudioMessage>, messages: Vec<AudioMessage>) -> (forwarding:
    Forwarding)
    ensures
        forwarding.delivered <= messages@.len(),
        forwarding.verdict == Verdict::Continue <==> forwarding.delivered == messages@.len(),
        forwarding.verdict == Verdict::Continue || forwarding.verdict == Verdict::Stop(
            StopCause::ChannelFull,
        ) || forwarding.verdict == Verdict::Stop(StopCause::ChannelClosed),
{
    let mut delivered: usize = 0;
    assert(messages@.len() == messages.len());
    for message in pending: messages
        invariant
            delivered == pending.index(),
            pending.seq() == messages@,
            messages@.len() <= usize::MAX,
    {
        let outcome = offer(queue, message);
        match outcome.verdict() {
            Verdict::Continue => {
                delivered += 1;
            },
            Verdict::Stop(cause) => {
                return Forwarding { delivered, verdict: Verdict::Stop(cause) };
            },
        }
    }
    Forwarding { delivered, verdict: Verdict::Continue }
}

/// Reports on a message whose outputs got as far as `forwarding` says.
pub fn settle_mix(forwarding: Forwarding) -> (report: MixReport)
    ensures
        report == settle_mix_spec(forwarding),
        report.verdict_spec() == forwarding.verdict,
{
    match forwarding.verdict {
        Verdict::Continue => MixReport::Emitted(forwarding.delivered),
        Verdict::Stop(cause) => MixReport::Stopped(cause),
    }
}

/// Handles one event: decides with [`plan_mix`], offers what is to be emitted
/// to `queue` with [`forward_all`], and reports with [`settle_mix`].
///
/// The mixer ends as [`plan_mix`] leaves it. Whether the queue takes a
/// message is decided at its other end. Whatever it does: a message that is
/// passed over is reported as skipped; a mixed message of which the policy
/// makes nothing is reported as emitted, with nothing, and the queue is not
/// touched; a mixed message of which it makes something is reported as
/// emitted, with the number of messages made, unless the queue is full or
/// closed; and the stage is stopped by nothing but a queue or a request.
pub fn mix_step(mixer: &mut Mixer, queue: &flume::Sender<AudioMessage>, event: MixEvent) -> (report:
    MixReport)
    ensures
        final(mixer)@ == mixer_after_event(old(mixer)@, event, event_is_readable(event)),
        final(mixer)@.wf(),
        match plan_mix_spec(old(mixer)@, event, event_is_readable(event)) {
            MixActionView::Emit(out) => {
                ||| report matches MixReport::Emitted(n) && n == out.len()
                ||| out.len() > 0 && report == MixReport::Stopped(StopCause::ChannelFull)
                ||| out.len() > 0 && report == MixReport::Stopped(StopCause::ChannelClosed)
            },
            MixActionView::Skip(e) => report == MixReport::Skipped(e),
            MixActionView::Halt(cause) => report == MixReport::Stopped(cause),
        },
{
    match plan_mix(mixer, event) {
        MixAction::Emit(out) => {
            let forwarding = forward_all(queue, out);
            settle_mix(forwarding)
        },
        MixAction::Skip(e) => MixReport::Skipped(e),
        MixAction::Halt(cause) => MixReport::Stopped(cause),
    }
}

/// Who gets a copy under `FanOut`: of a roster that names nobody twice,
/// every peer but the sender, each once, and never the sender.
pub proof fn lemma_others_are_each_once(roster: Seq<PeerAddress>, sender: PeerAddress)
    requires
        roster.no_duplicates(),
    ensures
        others(roster, sender).no_duplicates(),
        forall|peer: PeerAddress|
            others(roster, sender).contains(peer) <==> roster.contains(peer) && peer != sender,
    decreases roster.len(),
{
    reveal(Seq::filter);
    if roster.len() > 0 {
        let earlier = roster.drop_last();
        let last = roster.last();
        lemma_others_are_each_once(earlier, sender);
        lemma_last_is_one_more(roster);
        assert(!earlier.contains(last)) by {
            if earlier.contains(last) {
                assert(roster[earlier.index_of(last)] == roster[roster.len() - 1]);
            }
        }
        if last != sender {
            let kept = others(earlier, sender);
            lemma_push_fresh_keeps_distinct(kept, last);
            assert(kept.push(last).drop_last() =~= kept);
            lemma_last_is_one_more(kept.push(last));
        }
    }
}

/// What `FanOut` sends: the audio of the message, unchanged, once to every
/// peer on the roster but the sender, and nothing to the sender. And the
/// roster after the message still names nobody twice.
pub proof fn lemma_fan_out_reaches_each_other_peer_once(
    mixer: MixerView,
    message: AudioMessageView,
)
    requires
        mixer.policy == MixPolicy::FanOut,
        mixer.wf(),
    ensures
        mixer.after(message).wf(),
        mixer.outputs(message).len() == others(mixer.roster, message.peer_address).len(),
        forall|i: int|
            0 <= i < mixer.outputs(message).len() ==> {
                let out = #[trigger] mixer.outputs(message)[i];
                &&& out.payload == message.payload
                &&& out.sequence_hint == message.sequence_hint
                &&& out.peer_address != message.peer_address
                &&& mixer.roster.contains(out.peer_address)
            },
        forall|i: int, j: int|
            0 <= i < j < mixer.outputs(message).len() ==> mixer.outputs(message)[i].peer_address
                != mixer.outputs(message)[j].peer_address,
        forall|peer: PeerAddress|
            mixer.roster.contains(peer) && peer != message.peer_address ==> exists|i: int|
                0 <= i < mixer.outputs(message).len() && #[trigger] mixer.outputs(
                    message,
                )[i].peer_address == peer,
{
    let sender = message.peer_address;
    let targets = others(mixer.roster, sender);
    lemma_others_are_each_once(mixer.roster, sender);
    if !mixer.roster.contains(sender) {
        lemma_push_fresh_keeps_distinct(mixer.roster, sender);
    }
    assert forall|i: int| 0 <= i < targets.len() implies targets.contains(#[trigger] targets[i]) by {}
    assert forall|peer: PeerAddress|
        mixer.roster.contains(peer) && peer != sender implies exists|i: int|
        0 <= i < mixer.outputs(message).len() && #[trigger] mixer.outputs(message)[i].peer_address
            == peer by {
        assert(mixer.outputs(message)[targets.index_of(peer)].peer_address == peer);
    }
}

/// Who is on a roster: its last peer, and who is on the roster before that.
proof fn lemma_last_is_one_more(roster: Seq<PeerAddress>)
    requires
        roster.len() > 0,
    ensures
        forall|peer: PeerAddress|
            roster.contains(peer) <==> roster.drop_last().contains(peer) || peer == roster.last(),
{
    let earlier = roster.drop_last();
    assert forall|peer: PeerAddress| roster.contains(peer) implies earlier.contains(peer) || peer
        == roster.last() by {
        let k = roster.index_of(peer);
        if k < earlier.len() {
            assert(earlier[k] == peer);
        }
    }
    assert forall|peer: PeerAddress| earlier.contains(peer) implies roster.contains(peer) by {
        assert(roster[earlier.index_of(peer)] == peer);
    }
    assert(roster[roster.len() - 1] == roster.last());
}

/// A roster without repetitions has none after a peer that is not on it is
/// added.
proof fn lemma_push_fresh_keeps_distinct(roster: Seq<PeerAddress>, peer: PeerAddress)
    requires
        roster.no_duplicates(),
        !roster.contains(peer),
    ensures
        roster.push(peer).no_duplicates(),
{
}

/// What one more peer of the roster adds to what is known of the peers
/// before it: whether the sender is among them, and who the others are.
proof fn lemma_roster_step(roster: Seq<PeerAddress>, i: int, sender: PeerAddress)
    requires
        0 <= i < roster.len(),
    ensures
        roster.take(i + 1).contains(sender) <==> roster.take(i).contains(sender) || roster[i]
            == sender,
        others(roster.take(i + 1), sender) == if roster[i] == sender {
            others(roster.take(i), sender)
        } else {
            others(roster.take(i), sender).push(roster[i])
        },
{
    let seen = roster.take(i);
    let seen_now = roster.take(i + 1);
    reveal(Seq::filter);
    assert(seen_now.drop_last() =~= seen);
    if seen.contains(sender) {
        let k = seen.index_of(sender);
        assert(seen_now[k] == sender);
    }
    if roster[i] == sender {
        assert(seen_now[i] == sender);
    }
}

} // verus!
