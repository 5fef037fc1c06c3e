//! A whole job as a function of what the engine reports: the streams it
//! discovers and how each hot-plug goes.

use crate::address::{Rusoto, RusotoView};
use crate::codec::supported_parser;
use crate::control::{
    announced, ends_job, first_end, fresh, lemma_first_end, lemma_run_outcome, result_of,
    result_view, run, stops, ControlLoop, LoopView, StateView,
};
use crate::dispatch::{
    conclude, conclusion, decision, dispatch, dispatch_with_token, outcome_view, produced_media,
    Dispatch, DispatchView,
};
use crate::message::{EventMessage, EventView, JobError, JobErrorView, MediaView, Request,
    Response};
use crate::template::{has_placeholder, is_token, lemma_substitute_injective};
use crate::text::{slice_text, text_of};
use vstd::pervasive::unreached;
use vstd::prelude::*;

verus! {

/// Bus traffic as plain values.
pub open spec fn traffic_view(messages: Seq<EventMessage>) -> Seq<EventView> {
    messages.map_values(|message: EventMessage| message@)
}

/// Runs a job over recorded bus traffic: the pipeline counts as started, and
/// the messages are taken in order. `None` where the traffic ends before the
/// job does.
pub fn drain(messages: Vec<EventMessage>) -> (result: Option<Result<Response, JobError>>)
    ensures
        result_view(result) == result_of(
            run(fresh(StateView::Running), traffic_view(messages@)),
        ),
{
    let mut control = ControlLoop::new();
    control.start();
    let ghost all = traffic_view(messages@);
    assert(all.take(0) =~= Seq::<EventView>::empty());
    for message in it: messages
        invariant
            it.seq().len() == all.len(),
            all == traffic_view(it.seq()),
            control@ == run(fresh(StateView::Running), all.take(it.index() as int)),
    {
        proof {
            let taken = all.take(it.index() + 1);
            assert(taken.drop_last() =~= all.take(it.index() as int));
            assert(taken.last() == message@);
        }
        control.on_message(message);
    }
    assert(all.take(all.len() as int) =~= all);
    control.finish()
}

/// What the engine reports of one elementary stream: the name of the pad it
/// appeared on, the content type it negotiated, and how the hot-plug of its
/// chain goes where one is asked for.
#[derive(Debug, PartialEq, Eq)]
pub struct Discovery {
    pub stream: String,
    pub content_type: Option<String>,
    pub hot_plug: Result<(), JobError>,
}

/// A discovery as plain values.
pub struct DiscoveryView {
    pub stream: Seq<char>,
    pub content_type: Option<Seq<char>>,
    pub hot_plug: Result<(), JobErrorView>,
}

impl View for Discovery {
    type V = DiscoveryView;

    open spec fn view(&self) -> DiscoveryView {
        DiscoveryView {
            stream: self.stream@,
            content_type: text_of(self.content_type),
            hot_plug: outcome_view(self.hot_plug),
        }
    }
}

/// Discoveries as plain values.
pub open spec fn discoveries_view(discoveries: Seq<Discovery>) -> Seq<DiscoveryView> {
    discoveries.map_values(|discovery: Discovery| discovery@)
}

/// The one message that a discovered stream puts on the bus: what the
/// dispatcher publishes at once, or what it makes of the engine's answer.
pub open spec fn stream_message(sink: RusotoView, discovery: DiscoveryView, token: Seq<char>)
    -> EventView {
    match decision(discovery.stream, discovery.content_type, sink, token) {
        DispatchView::Publish(message) => message,
        DispatchView::HotPlug(plan) => conclusion(plan.media, discovery.hot_plug),
    }
}

/// The traffic of a job whose input ends after `discoveries`: one message
/// for each stream, in order of discovery, then the end of input.
pub open spec fn bus_traffic(
    sink: RusotoView,
    discoveries: Seq<DiscoveryView>,
    tokens: Seq<Seq<char>>,
) -> Seq<EventView> {
    Seq::new(
        discoveries.len(),
        |i: int| stream_message(sink, discoveries[i], tokens[i]),
    ).push(EventView::Terminal)
}

/// What a loop has to show: the failure that stopped it, or else its
/// outputs.
pub open spec fn verdict(view: LoopView) -> Result<Seq<MediaView>, JobErrorView> {
    match view.state {
        StateView::StoppedFailure(cause) => Err(cause),
        _ => Ok(view.medias),
    }
}

/// The result of a job whose input ends after `discoveries`, stream `i`
/// having drawn `tokens[i]`.
pub open spec fn job_result(
    sink: RusotoView,
    discoveries: Seq<DiscoveryView>,
    tokens: Seq<Seq<char>>,
) -> Result<Seq<MediaView>, JobErrorView> {
    verdict(run(fresh(StateView::Running), bus_traffic(sink, discoveries, tokens)))
}

/// A result as plain values.
pub open spec fn response_view(result: Result<Response, JobError>) -> Result<
    Seq<MediaView>,
    JobErrorView,
> {
    match result {
        Ok(response) => Ok(response@),
        Err(cause) => Err(cause@),
    }
}

/// A job whose input ends is over: its traffic stops the loop, and the
/// verdict is the loop's result.
pub proof fn lemma_job_ends(
    sink: RusotoView,
    discoveries: Seq<DiscoveryView>,
    tokens: Seq<Seq<char>>,
)
    ensures
        result_of(run(fresh(StateView::Running), bus_traffic(sink, discoveries, tokens)))
            == Some(job_result(sink, discoveries, tokens)),
{
    let traffic = bus_traffic(sink, discoveries, tokens);
    lemma_first_end(traffic);
    assert(traffic[traffic.len() - 1] is Terminal);
    lemma_run_outcome(fresh(StateView::Running), traffic);
}

fn type_of(discovery: &Discovery) -> (content_type: Option<&str>)
    ensures
        slice_text(content_type) == text_of(discovery.content_type),
{
    match &discovery.content_type {
        Some(content_type) => Some(content_type.as_str()),
        None => None,
    }
}

/// The message that a discovered stream puts on the bus, given the token for
/// its destination.
pub fn publish_with_token(discovery: Discovery, sink: &Rusoto, token: &str) -> (message:
    EventMessage)
    ensures
        message@ == stream_message(sink@, discovery@, token@),
{
    let outcome = dispatch_with_token(
        discovery.stream.as_str(),
        type_of(&discovery),
        sink,
        token,
    );
    match outcome {
        Dispatch::Publish(message) => message,
        Dispatch::HotPlug(plan) => conclude(plan.media, discovery.hot_plug),
    }
}

/// The message that a discovered stream puts on the bus. Where the stream
/// gets a chain of its own, a fresh token is drawn for its destination.
pub fn publish(discovery: Discovery, sink: &Rusoto) -> (message: EventMessage)
    ensures
        exists|token: Seq<char>|
            is_token(token) && message@ == stream_message(sink@, discovery@, token),
{
    let outcome = dispatch(discovery.stream.as_str(), type_of(&discovery), sink);
    match outcome {
        Dispatch::Publish(message) => message,
        Dispatch::HotPlug(plan) => conclude(plan.media, discovery.hot_plug),
    }
}

/// Whether `tokens` holds `count` texts of the shape of a token.
pub open spec fn are_tokens(tokens: Seq<Seq<char>>, count: nat) -> bool {
    &&& tokens.len() == count
    &&& forall|i: int| 0 <= i < tokens.len() ==> is_token(#[trigger] tokens[i])
}

/// Runs a job as the engine reports it: each discovered stream is
/// dispatched, its message goes on the bus in order of discovery, the end of
/// input follows, and the control loop takes the traffic.
///
/// The result is that of `job_result` for the tokens that were drawn, each of
/// which has the shape of a token. The source descriptor has no part in it.
pub fn demux_main(request: Request, discoveries: Vec<Discovery>) -> (result: Result<
    Response,
    JobError,
>)
    ensures
        exists|tokens: Seq<Seq<char>>|
            are_tokens(tokens, discoveries@.len()) && response_view(result)
                == #[trigger] job_result(request.sink@, discoveries_view(discoveries@), tokens),
{
    let ghost sink = request.sink@;
    let ghost reported = discoveries_view(discoveries@);
    let ghost mut tokens: Seq<Seq<char>> = Seq::empty();
    let mut messages: Vec<EventMessage> = Vec::new();
    for discovery in it: discoveries
        invariant
            sink == request.sink@,
            reported == discoveries_view(it.seq()),
            tokens.len() == it.index(),
            messages@.len() == it.index(),
            forall|i: int| 0 <= i < tokens.len() ==> is_token(#[trigger] tokens[i]),
            forall|i: int|
                0 <= i < messages@.len() ==> (#[trigger] messages@[i])@ == stream_message(
                    sink,
                    reported[i],
                    tokens[i],
                ),
    {
        let ghost report = discovery@;
        let message = publish(discovery, &request.sink);
        proof {
            let token = choose|token: Seq<char>|
                is_token(token) && message@ == stream_message(sink, report, token);
            tokens = tokens.push(token);
        }
        messages.push(message);
    }
    messages.push(EventMessage::Terminal);
    proof {
        assert(traffic_view(messages@) =~= bus_traffic(sink, reported, tokens));
        lemma_job_ends(sink, reported, tokens);
    }
    match drain(messages) {
        Some(result) => result,
        None => unreached(),
    }
}

/// Whether a stream shows a content type that the table of codecs holds.
pub open spec fn is_supported(discovery: DiscoveryView) -> bool {
    discovery.content_type matches Some(content_type) && supported_parser(content_type) is Some
}

/// Whether a stream shows a content type that the table of codecs lacks.
pub open spec fn is_unsupported(discovery: DiscoveryView) -> bool {
    discovery.content_type matches Some(content_type) && supported_parser(content_type) is None
}

/// Every stream that shows a content type resolves to exactly one output or
/// to exactly one fatal error: one message, which is one or the other. A
/// stream that shows none leaves a warning and neither of the two.
pub proof fn lemma_stream_resolves_once(
    sink: RusotoView,
    discovery: DiscoveryView,
    token: Seq<char>,
)
    ensures
        discovery.content_type is Some ==> (stream_message(sink, discovery, token)
            is StreamProduced) != (stream_message(sink, discovery, token) is FatalError),
        discovery.content_type is None ==> stream_message(sink, discovery, token) is Diagnostic,
        stream_message(sink, discovery, token) is StreamProduced <==> is_supported(discovery)
            && discovery.hot_plug is Ok,
        !(stream_message(sink, discovery, token) is Terminal),
{
}

/// Messages that each announce an output announce these outputs, in order.
pub proof fn lemma_announced_all(messages: Seq<EventView>, medias: Seq<MediaView>)
    requires
        messages.len() == medias.len(),
        forall|i: int|
            0 <= i < messages.len() ==> #[trigger] messages[i] == EventView::StreamProduced(
                medias[i],
            ),
    ensures
        announced(messages) == medias,
    decreases messages.len(),
{
    if messages.len() > 0 {
        lemma_announced_all(messages.drop_last(), medias.drop_last());
        assert(messages.last() == EventView::StreamProduced(medias.last()));
        assert(announced(messages) =~= medias);
    } else {
        assert(announced(messages) =~= medias);
    }
}

/// Where every one of N discovered streams shows a supported content type and
/// is plugged in, the job succeeds with exactly N outputs, one for each
/// stream in order of discovery, each of the stream's type. The pipeline is
/// stopped once.
pub proof fn lemma_all_streams_produce(
    sink: RusotoView,
    discoveries: Seq<DiscoveryView>,
    tokens: Seq<Seq<char>>,
)
    requires
        tokens.len() == discoveries.len(),
        forall|i: int|
            0 <= i < discoveries.len() ==> is_supported(#[trigger] discoveries[i])
                && discoveries[i].hot_plug is Ok,
    ensures
        job_result(sink, discoveries, tokens) == Ok::<Seq<MediaView>, JobErrorView>(
            Seq::new(
                discoveries.len(),
                |i: int| produced_media(discoveries[i].content_type->0, sink, tokens[i]),
            ),
        ),
        stops(fresh(StateView::Running), bus_traffic(sink, discoveries, tokens)) == 1,
{
    let traffic = bus_traffic(sink, discoveries, tokens);
    let medias = Seq::new(
        discoveries.len(),
        |i: int| produced_media(discoveries[i].content_type->0, sink, tokens[i]),
    );
    let count = discoveries.len() as int;
    lemma_first_end(traffic);
    assert(first_end(traffic) == count) by {
        if first_end(traffic) < count {
            let at = first_end(traffic);
            assert(is_supported(discoveries[at]));
            assert(traffic[at] == stream_message(sink, discoveries[at], tokens[at]));
        }
    }
    let head = traffic.take(count);
    assert forall|i: int| 0 <= i < head.len() implies #[trigger] head[i]
        == EventView::StreamProduced(medias[i]) by {
        assert(is_supported(discoveries[i]));
        assert(head[i] == stream_message(sink, discoveries[i], tokens[i]));
    }
    lemma_announced_all(head, medias);
    lemma_run_outcome(fresh(StateView::Running), traffic);
    assert(Seq::<MediaView>::empty() + medias =~= medias);
}

/// Where the sink's uri holds the placeholder and the streams drew different
/// tokens, the outputs of a job in which every stream produces lie at
/// different uris.
pub proof fn lemma_outputs_are_distinct(
    sink: RusotoView,
    discoveries: Seq<DiscoveryView>,
    tokens: Seq<Seq<char>>,
)
    requires
        tokens.len() == discoveries.len(),
        forall|i: int|
            0 <= i < discoveries.len() ==> is_supported(#[trigger] discoveries[i])
                && discoveries[i].hot_plug is Ok,
        has_placeholder(sink.uri),
        forall|i: int, j: int| 0 <= i < j < tokens.len() ==> tokens[i] != tokens[j],
    ensures
        job_result(sink, discoveries, tokens) is Ok,
        job_result(sink, discoveries, tokens)->Ok_0.len() == discoveries.len(),
        forall|i: int, j: int|
            0 <= i < j < discoveries.len() ==> job_result(sink, discoveries, tokens)->Ok_0[i].uri
                != job_result(sink, discoveries, tokens)->Ok_0[j].uri,
{
    lemma_all_streams_produce(sink, discoveries, tokens);
    let medias = job_result(sink, discoveries, tokens)->Ok_0;
    assert forall|i: int, j: int| 0 <= i < j < discoveries.len() implies medias[i].uri
        != medias[j].uri by {
        lemma_substitute_injective(sink.uri, tokens[i], tokens[j]);
    }
}

/// The job fails with the cause of the first stream that puts a fatal error
/// on the bus, whatever the other streams do, and shows no output. The
/// pipeline is stopped once.
pub proof fn lemma_first_fatal_decides(
    sink: RusotoView,
    discoveries: Seq<DiscoveryView>,
    tokens: Seq<Seq<char>>,
    at: int,
)
    requires
        tokens.len() == discoveries.len(),
        0 <= at < discoveries.len(),
        stream_message(sink, discoveries[at], tokens[at]) is FatalError,
        forall|i: int|
            0 <= i < at ==> !(#[trigger] stream_message(sink, discoveries[i], tokens[i])
                is FatalError),
    ensures
        job_result(sink, discoveries, tokens) == Err::<Seq<MediaView>, JobErrorView>(
            stream_message(sink, discoveries[at], tokens[at])->cause,
        ),
        stops(fresh(StateView::Running), bus_traffic(sink, discoveries, tokens)) == 1,
{
    let traffic = bus_traffic(sink, discoveries, tokens);
    lemma_first_end(traffic);
    assert(traffic[at] == stream_message(sink, discoveries[at], tokens[at]));
    assert(first_end(traffic) == at) by {
        if first_end(traffic) < at {
            let early = first_end(traffic);
            assert(traffic[early] == stream_message(sink, discoveries[early], tokens[early]));
            lemma_stream_resolves_once(sink, discoveries[early], tokens[early]);
        } else if first_end(traffic) > at {
            assert(ends_job(traffic[at]));
        }
    }
    lemma_run_outcome(fresh(StateView::Running), traffic);
}

/// Where a discovered stream shows a content type that the table of codecs
/// lacks, and no hot-plug of an earlier stream has failed, the job fails
/// with an unsupported format and shows no output.
pub proof fn lemma_unsupported_stream_fails(
    sink: RusotoView,
    discoveries: Seq<DiscoveryView>,
    tokens: Seq<Seq<char>>,
    at: int,
)
    requires
        tokens.len() == discoveries.len(),
        0 <= at < discoveries.len(),
        is_unsupported(discoveries[at]),
        forall|i: int|
            0 <= i < at ==> !(is_supported(#[trigger] discoveries[i]) && discoveries[i].hot_plug
                is Err),
    ensures
        job_result(sink, discoveries, tokens) is Err,
        job_result(sink, discoveries, tokens)->Err_0 is UnsupportedFormat,
        (forall|i: int| 0 <= i < at ==> !is_unsupported(#[trigger] discoveries[i]))
            ==> job_result(sink, discoveries, tokens) == Err::<Seq<MediaView>, JobErrorView>(
            JobErrorView::UnsupportedFormat(discoveries[at].content_type->0),
        ),
    decreases at,
{
    if exists|i: int| 0 <= i < at && is_unsupported(#[trigger] discoveries[i]) {
        let earlier = choose|i: int| 0 <= i < at && is_unsupported(#[trigger] discoveries[i]);
        lemma_unsupported_stream_fails(sink, discoveries, tokens, earlier);
    } else {
        assert forall|i: int| 0 <= i < at implies !(#[trigger] stream_message(
            sink,
            discoveries[i],
            tokens[i],
        ) is FatalError) by {
            assert(!is_unsupported(discoveries[i]));
            assert(!(is_supported(discoveries[i]) && discoveries[i].hot_plug is Err));
        }
        lemma_first_fatal_decides(sink, discoveries, tokens, at);
    }
}

/// Where the input ends before any stream is discovered, the job succeeds
/// with no outputs. The pipeline is stopped once.
pub proof fn lemma_no_streams(sink: RusotoView, tokens: Seq<Seq<char>>)
    ensures
        job_result(sink, Seq::empty(), tokens) == Ok::<Seq<MediaView>, JobErrorView>(
            Seq::empty(),
        ),
        stops(fresh(StateView::Running), bus_traffic(sink, Seq::empty(), tokens)) == 1,
{
    let traffic = bus_traffic(sink, Seq::empty(), tokens);
    lemma_first_end(traffic);
    assert(traffic[0] is Terminal);
    lemma_run_outcome(fresh(StateView::Running), traffic);
    assert(traffic.take(0) =~= Seq::<EventView>::empty());
    assert(Seq::<MediaView>::empty() + announced(traffic.take(0)) =~= Seq::<MediaView>::empty());
}

} // verus!
