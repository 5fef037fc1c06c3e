//! The decision taken for each elementary stream that the engine discovers:
//! which elements to plug into the running pipeline, and what to publish on
//! the bus.

use crate::address::{
    effective_address, lemma_address_keeps_placeholder, to_rusoto_region_with_endpoint, Rusoto,
    RusotoView,
};
use crate::codec::{parser_for, supported_parser, Parser};
use crate::message::{description, EventMessage, EventView, JobError, JobErrorView, Level, Media,
    MediaView};
use crate::template::{
    fresh_token, has_placeholder, is_token, lemma_substitute_injective, substitute,
    substitute_token,
};
use crate::text::slice_text;
use vstd::prelude::*;
use vstd::string::*;

verus! {

/// The value of an element's configuration property.
#[derive(Clone, Debug, PartialEq, Eq)]
pub enum PropertyValue {
    Flag(bool),
    Text(String),
    Number(u32),
}

/// A property value as plain values.
pub enum PropertyValueView {
    Flag(bool),
    Text(Seq<char>),
    Number(u32),
}

impl View for PropertyValue {
    type V = PropertyValueView;

    open spec fn view(&self) -> PropertyValueView {
        match self {
            PropertyValue::Flag(on) => PropertyValueView::Flag(*on),
            PropertyValue::Text(text) => PropertyValueView::Text(text@),
            PropertyValue::Number(number) => PropertyValueView::Number(*number),
        }
    }
}

/// A configuration property to set on an element.
#[derive(Clone, Debug, PartialEq, Eq)]
pub struct Property {
    pub name: String,
    pub value: PropertyValue,
}

/// A property as plain values.
pub struct PropertyView {
    pub name: Seq<char>,
    pub value: PropertyValueView,
}

impl View for Property {
    type V = PropertyView;

    open spec fn view(&self) -> PropertyView {
        PropertyView { name: self.name@, value: self.value@ }
    }
}

/// An element for the engine to create: its kind and its configuration.
#[derive(Clone, Debug, PartialEq, Eq)]
pub struct Element {
    pub factory: String,
    pub properties: Vec<Property>,
}

/// An element as plain values.
pub struct ElementView {
    pub factory: Seq<char>,
    pub properties: Seq<PropertyView>,
}

impl View for Element {
    type V = ElementView;

    open spec fn view(&self) -> ElementView {
        ElementView {
            factory: self.factory@,
            properties: self.properties@.map_values(|property: Property| property@),
        }
    }
}

/// A chain of elements as plain values.
pub open spec fn chain_view(elements: Seq<Element>) -> Seq<ElementView> {
    elements.map_values(|element: Element| element@)
}

/// A flag property.
pub open spec fn flag(name: Seq<char>, on: bool) -> PropertyView {
    PropertyView { name, value: PropertyValueView::Flag(on) }
}

/// A text property.
pub open spec fn text(name: Seq<char>, value: Seq<char>) -> PropertyView {
    PropertyView { name, value: PropertyValueView::Text(value) }
}

/// A number property.
pub open spec fn number(name: Seq<char>, value: u32) -> PropertyView {
    PropertyView { name, value: PropertyValueView::Number(value) }
}

/// A text property where there is a value, nothing where there is none.
pub open spec fn optional_text(name: Seq<char>, value: Option<Seq<char>>) -> Seq<PropertyView> {
    match value {
        Some(value) => seq![text(name, value)],
        None => seq![],
    }
}

/// A number property where there is a value, nothing where there is none.
pub open spec fn optional_number(name: Seq<char>, value: Option<u32>) -> Seq<PropertyView> {
    match value {
        Some(value) => seq![number(name, value)],
        None => seq![],
    }
}

/// What the storage source is configured with: its effective address, then
/// the credentials and the block size that the descriptor names.
pub open spec fn source_properties(source: RusotoView) -> Seq<PropertyView> {
    seq![text("uri"@, effective_address(source))] + optional_text(
        "access-key"@,
        source.access_key_id,
    ) + optional_text("secret-access-key"@, source.secret_access_key) + optional_number(
        "blocksize"@,
        source.blocksize,
    )
}

/// The pipeline that a job starts with: the storage source, linked to the
/// element that discovers the streams.
pub open spec fn source_chain(source: RusotoView) -> Seq<ElementView> {
    seq![
        ElementView { factory: "rusotos3src"@, properties: source_properties(source) },
        ElementView { factory: "parsebin"@, properties: seq![] },
    ]
}

/// The chain that one stream is plugged into, in link order: a queue, the
/// parser, the container muxer laid out for progressive playback, and the
/// storage sink that writes to `address`.
pub open spec fn sink_chain(parser: Parser, address: Seq<char>) -> Seq<ElementView> {
    seq![
        ElementView { factory: "queue"@, properties: seq![] },
        ElementView { factory: parser.factory(), properties: seq![] },
        ElementView { factory: "qtmux"@, properties: seq![flag("faststart"@, true)] },
        ElementView {
            factory: "rusotos3sink"@,
            properties: seq![
                flag("async"@, true),
                flag("sync"@, false),
                text("uri"@, address),
            ],
        },
    ]
}

fn flag_property(name: &str, on: bool) -> (property: Property)
    ensures
        property@ == flag(name@, on),
{
    Property { name: String::from_str(name), value: PropertyValue::Flag(on) }
}

fn text_property(name: &str, value: String) -> (property: Property)
    ensures
        property@ == text(name@, value@),
{
    Property { name: String::from_str(name), value: PropertyValue::Text(value) }
}

fn number_property(name: &str, value: u32) -> (property: Property)
    ensures
        property@ == number(name@, value),
{
    Property { name: String::from_str(name), value: PropertyValue::Number(value) }
}

fn element(factory: &str, properties: Vec<Property>) -> (element: Element)
    ensures
        element@ == (ElementView {
            factory: factory@,
            properties: properties@.map_values(|property: Property| property@),
        }),
{
    Element { factory: String::from_str(factory), properties }
}

/// Plans the pipeline that a job starts with.
pub fn source_pipeline(source: &Rusoto) -> (elements: Vec<Element>)
    ensures
        chain_view(elements@) == source_chain(source@),
{
    let mut properties: Vec<Property> = Vec::new();
    properties.push(text_property("uri", to_rusoto_region_with_endpoint(source)));
    match &source.access_key_id {
        Some(key) => {
            properties.push(text_property("access-key", key.clone()));
        },
        None => {},
    }
    match &source.secret_access_key {
        Some(key) => {
            properties.push(text_property("secret-access-key", key.clone()));
        },
        None => {},
    }
    match source.blocksize {
        Some(size) => {
            properties.push(number_property("blocksize", size));
        },
        None => {},
    }
    assert(properties@.map_values(|property: Property| property@) =~= source_properties(
        source@,
    ));
    let mut elements: Vec<Element> = Vec::new();
    elements.push(element("rusotos3src", properties));
    elements.push(element("parsebin", Vec::new()));
    assert(chain_view(elements@) =~= source_chain(source@)) by {
        assert(elements@[1]@.properties =~= Seq::<PropertyView>::empty());
    }
    elements
}

/// Plans the chain that one stream is plugged into.
pub fn sink_pipeline(parser: Parser, address: String) -> (elements: Vec<Element>)
    ensures
        chain_view(elements@) == sink_chain(parser, address@),
{
    let mut mux: Vec<Property> = Vec::new();
    mux.push(flag_property("faststart", true));
    let mut sink: Vec<Property> = Vec::new();
    sink.push(flag_property("async", true));
    sink.push(flag_property("sync", false));
    sink.push(text_property("uri", address));
    let mut elements: Vec<Element> = Vec::new();
    elements.push(element("queue", Vec::new()));
    elements.push(element(parser.factory_name(), Vec::new()));
    elements.push(element("qtmux", mux));
    elements.push(element("rusotos3sink", sink));
    assert(chain_view(elements@) =~= sink_chain(parser, address@)) by {
        assert(elements@[0]@.properties =~= Seq::<PropertyView>::empty());
        assert(elements@[1]@.properties =~= Seq::<PropertyView>::empty());
        assert(elements@[2]@.properties =~= seq![flag("faststart"@, true)]);
        assert(elements@[3]@.properties =~= seq![
            flag("async"@, true),
            flag("sync"@, false),
            text("uri"@, address@),
        ]);
    }
    elements
}

/// What to plug in for one stream, and the output to announce once it is in
/// place.
#[derive(Clone, Debug, PartialEq, Eq)]
pub struct SubgraphPlan {
    pub elements: Vec<Element>,
    pub media: Media,
}

/// A plan as plain values.
pub struct SubgraphPlanView {
    pub elements: Seq<ElementView>,
    pub media: MediaView,
}

impl View for SubgraphPlan {
    type V = SubgraphPlanView;

    open spec fn view(&self) -> SubgraphPlanView {
        SubgraphPlanView { elements: chain_view(self.elements@), media: self.media@ }
    }
}

/// The decision for one discovered stream.
#[derive(Clone, Debug, PartialEq, Eq)]
pub enum Dispatch {
    /// Publish this message and leave the pipeline as it is.
    Publish(EventMessage),
    /// Add these elements, link them in order, bring each to the pipeline's
    /// state and link the stream to the first; then publish what `conclude`
    /// makes of the engine's answer.
    HotPlug(SubgraphPlan),
}

/// A decision as plain values.
pub enum DispatchView {
    Publish(EventView),
    HotPlug(SubgraphPlanView),
}

impl View for Dispatch {
    type V = DispatchView;

    open spec fn view(&self) -> DispatchView {
        match self {
            Dispatch::Publish(message) => DispatchView::Publish(message@),
            Dispatch::HotPlug(plan) => DispatchView::HotPlug(plan@),
        }
    }
}

/// The warning for a stream that shows no content type.
pub open spec fn missing_type_warning(stream: Seq<char>) -> EventView {
    EventView::Diagnostic {
        level: Level::Warning,
        text: "Failed to get media type from pad "@ + stream,
    }
}

/// The message that ends the job with `cause`.
pub open spec fn fatal(cause: JobErrorView) -> EventView {
    EventView::FatalError {
        message: "Failed to insert sink"@,
        debug_info: Some(description(cause)),
        cause,
    }
}

/// The output of a stream of type `content_type` under `token`: the sink's
/// uri as the request gives it, with the token in the place of each
/// placeholder.
pub open spec fn produced_media(content_type: Seq<char>, sink: RusotoView, token: Seq<char>)
    -> MediaView {
    MediaView { media_type: content_type, uri: substitute(sink.uri, token) }
}

/// The address that the storage sink of a stream writes to under `token`:
/// the sink's effective address with the token in the place of each
/// placeholder.
pub open spec fn sink_address(sink: RusotoView, token: Seq<char>) -> Seq<char> {
    substitute(effective_address(sink), token)
}

/// The decision for a stream named `stream` that shows `content_type`, with
/// `token` at hand for its destination.
///
/// A stream without a content type is abandoned with a warning. A content
/// type outside the table of codecs ends the job. Any other stream gets a
/// chain of its own.
pub open spec fn decision(
    stream: Seq<char>,
    content_type: Option<Seq<char>>,
    sink: RusotoView,
    token: Seq<char>,
) -> DispatchView {
    match content_type {
        None => DispatchView::Publish(missing_type_warning(stream)),
        Some(content_type) => match supported_parser(content_type) {
            None => DispatchView::Publish(fatal(JobErrorView::UnsupportedFormat(content_type))),
            Some(parser) => DispatchView::HotPlug(
                SubgraphPlanView {
                    elements: sink_chain(parser, sink_address(sink, token)),
                    media: produced_media(content_type, sink, token),
                },
            ),
        },
    }
}

/// What is published once the engine has answered a hot-plug: the output on
/// success, the engine's failure otherwise.
pub open spec fn conclusion(media: MediaView, outcome: Result<(), JobErrorView>) -> EventView {
    match outcome {
        Ok(_) => EventView::StreamProduced(media),
        Err(cause) => fatal(cause),
    }
}

/// An engine answer as plain values.
pub open spec fn outcome_view(outcome: Result<(), JobError>) -> Result<(), JobErrorView> {
    match outcome {
        Ok(_) => Ok(()),
        Err(cause) => Err(cause@),
    }
}

/// Wraps `cause` in the message that ends the job.
pub fn fatal_error(cause: JobError) -> (message: EventMessage)
    ensures
        message@ == fatal(cause@),
{
    let debug_info = cause.describe();
    EventMessage::FatalError {
        message: String::from_str("Failed to insert sink"),
        debug_info: Some(debug_info),
        cause,
    }
}

/// Decides what to do with a discovered stream, given the token for its
/// destination.
pub fn dispatch_with_token(
    stream: &str,
    content_type: Option<&str>,
    sink: &Rusoto,
    token: &str,
) -> (outcome: Dispatch)
    ensures
        outcome@ == decision(stream@, slice_text(content_type), sink@, token@),
{
    match content_type {
        None => Dispatch::Publish(
            EventMessage::Diagnostic {
                level: Level::Warning,
                text: String::from_str("Failed to get media type from pad ").concat(stream),
            },
        ),
        Some(content_type) => match parser_for(content_type) {
            None => Dispatch::Publish(
                fatal_error(JobError::UnsupportedFormat(String::from_str(content_type))),
            ),
            Some(parser) => {
                let pattern = to_rusoto_region_with_endpoint(sink);
                let address = substitute_token(pattern.as_str(), token);
                let uri = substitute_token(sink.uri.as_str(), token);
                Dispatch::HotPlug(
                    SubgraphPlan {
                        elements: sink_pipeline(parser, address),
                        media: Media { media_type: String::from_str(content_type), uri },
                    },
                )
            },
        },
    }
}

/// There is a text of the shape of a token.
proof fn lemma_token_exists()
    ensures
        exists|token: Seq<char>| is_token(token),
{
    let token = Seq::new(
        36,
        |k: int|
            if k == 8 || k == 13 || k == 18 || k == 23 {
                '-'
            } else {
                '0'
            },
    );
    assert(is_token(token));
}

/// Decides what to do with a discovered stream. Where the stream gets a
/// chain of its own, a fresh token is drawn for its destination.
pub fn dispatch(stream: &str, content_type: Option<&str>, sink: &Rusoto) -> (outcome: Dispatch)
    ensures
        exists|token: Seq<char>|
            is_token(token) && outcome@ == decision(
                stream@,
                slice_text(content_type),
                sink@,
                token,
            ),
{
    let supported = match content_type {
        Some(content_type) => parser_for(content_type).is_some(),
        None => false,
    };
    if supported {
        let token = fresh_token();
        dispatch_with_token(stream, content_type, sink, token.as_str())
    } else {
        proof {
            lemma_token_exists();
        }
        dispatch_with_token(stream, content_type, sink, "")
    }
}

/// Turns the engine's answer to a hot-plug into the message to publish.
pub fn conclude(media: Media, outcome: Result<(), JobError>) -> (message: EventMessage)
    ensures
        message@ == conclusion(media@, outcome_view(outcome)),
{
    match outcome {
        Ok(_) => EventMessage::StreamProduced(media),
        Err(cause) => fatal_error(cause),
    }
}

/// Where the sink's uri holds the placeholder, two streams that drew
/// different tokens write to different addresses and announce different
/// uris.
pub proof fn lemma_destinations_differ(
    sink: RusotoView,
    first: Seq<char>,
    second: Seq<char>,
    first_type: Seq<char>,
    second_type: Seq<char>,
)
    requires
        has_placeholder(sink.uri),
        first != second,
    ensures
        sink_address(sink, first) != sink_address(sink, second),
        produced_media(first_type, sink, first).uri != produced_media(
            second_type,
            sink,
            second,
        ).uri,
{
    lemma_address_keeps_placeholder(sink);
    lemma_substitute_injective(effective_address(sink), first, second);
    lemma_substitute_injective(sink.uri, first, second);
}

} // verus!
