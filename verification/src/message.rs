//! The values that a job exchanges: the request, the result, the failures
//! and the messages that travel over the bus.

use crate::address::Rusoto;
use crate::text::text_of;
use vstd::prelude::*;
use vstd::string::*;

verus! {

/// A job: where the container is read from and where each stream is written.
/// The sink's uri may hold the placeholder `%u`.
#[derive(Clone, Debug, PartialEq, Eq)]
pub struct Request {
    pub src: Rusoto,
    pub sink: Rusoto,
}

/// One output file: what it holds and where it was written.
#[derive(Clone, Debug, PartialEq, Eq)]
pub struct Media {
    pub media_type: String,
    pub uri: String,
}

/// An output file as plain values.
pub struct MediaView {
    pub media_type: Seq<char>,
    pub uri: Seq<char>,
}

impl View for Media {
    type V = MediaView;

    open spec fn view(&self) -> MediaView {
        MediaView { media_type: self.media_type@, uri: self.uri@ }
    }
}

/// The outputs of a finished job, in the order in which they were announced.
#[derive(Clone, Debug, PartialEq, Eq)]
pub struct Response {
    pub medias: Vec<Media>,
}

impl View for Response {
    type V = Seq<MediaView>;

    open spec fn view(&self) -> Seq<MediaView> {
        self.medias@.map_values(|media: Media| media@)
    }
}

/// An error that an element of the pipeline reported over the bus.
#[derive(Clone, Debug, PartialEq, Eq)]
pub struct ErrorMessage {
    pub src: String,
    pub error: String,
    pub debug: Option<String>,
}

/// Why a job failed.
#[derive(Clone, Debug, PartialEq, Eq)]
pub enum JobError {
    /// The engine cannot provide an element of this kind.
    MissingElement(String),
    /// No processing chain is known for this content type.
    UnsupportedFormat(String),
    /// The engine refused to set a property, to add or link elements, or to
    /// change state.
    Engine(String),
    /// An element of the running pipeline reported an error.
    Transport(ErrorMessage),
}

/// A failure as plain values.
pub enum JobErrorView {
    MissingElement(Seq<char>),
    UnsupportedFormat(Seq<char>),
    Engine(Seq<char>),
    Transport { src: Seq<char>, error: Seq<char>, debug: Option<Seq<char>> },
}

impl View for JobError {
    type V = JobErrorView;

    open spec fn view(&self) -> JobErrorView {
        match self {
            JobError::MissingElement(kind) => JobErrorView::MissingElement(kind@),
            JobError::UnsupportedFormat(content_type) => JobErrorView::UnsupportedFormat(
                content_type@,
            ),
            JobError::Engine(text) => JobErrorView::Engine(text@),
            JobError::Transport(report) => JobErrorView::Transport {
                src: report.src@,
                error: report.error@,
                debug: text_of(report.debug),
            },
        }
    }
}

/// How `{:?}` writes an optional string.
pub uninterp spec fn debug_repr(debug: Option<Seq<char>>) -> Seq<char>;

/// Writes `debug` the way `format!("{:?}", ..)` does. Taken on trust: the
/// text depends on the characters of `debug` alone.
#[verifier::external_body]
fn debug_text(debug: &Option<String>) -> (text: String)
    ensures
        text@ == debug_repr(text_of(*debug)),
{
    format!("{:?}", debug)
}

/// The sentence that describes a failure.
pub open spec fn description(error: JobErrorView) -> Seq<char> {
    match error {
        JobErrorView::MissingElement(kind) => "Missing element: "@ + kind,
        JobErrorView::UnsupportedFormat(content_type) => "Unsupported Format: "@ + content_type,
        JobErrorView::Engine(text) => text,
        JobErrorView::Transport { src, error, debug } => "Received error from "@ + src + ": "@
            + error + " (debug: "@ + debug_repr(debug) + ")"@,
    }
}

impl JobError {
    /// Describes the failure in one sentence.
    pub fn describe(&self) -> (text: String)
        ensures
            text@ == description(self@),
    {
        match self {
            JobError::MissingElement(kind) => String::from_str("Missing element: ").concat(
                kind.as_str(),
            ),
            JobError::UnsupportedFormat(content_type) => String::from_str(
                "Unsupported Format: ",
            ).concat(content_type.as_str()),
            JobError::Engine(text) => text.clone(),
            JobError::Transport(report) => {
                let debug = debug_text(&report.debug);
                String::from_str("Received error from ").concat(report.src.as_str()).concat(
                    ": ",
                ).concat(report.error.as_str()).concat(" (debug: ").concat(debug.as_str()).concat(
                    ")",
                )
            },
        }
    }
}

/// The source of a report that names none.
pub open spec fn unnamed_source() -> Seq<char> {
    "None"@
}

/// How loud a diagnostic is.
#[derive(Clone, Copy, Debug, PartialEq, Eq, Structural)]
pub enum Level {
    Debug,
    Info,
    Warning,
}

/// A message on the bus.
#[derive(Clone, Debug, PartialEq, Eq)]
pub enum EventMessage {
    /// The input has ended and no discovery is pending.
    Terminal,
    /// A failure that ends the job.
    FatalError { message: String, debug_info: Option<String>, cause: JobError },
    /// Something worth logging that changes nothing.
    Diagnostic { level: Level, text: String },
    /// A stream has been wired to its output.
    StreamProduced(Media),
}

/// A bus message as plain values.
pub enum EventView {
    Terminal,
    FatalError { message: Seq<char>, debug_info: Option<Seq<char>>, cause: JobErrorView },
    Diagnostic { level: Level, text: Seq<char> },
    StreamProduced(MediaView),
}

impl View for EventMessage {
    type V = EventView;

    open spec fn view(&self) -> EventView {
        match self {
            EventMessage::Terminal => EventView::Terminal,
            EventMessage::FatalError { message, debug_info, cause } => EventView::FatalError {
                message: message@,
                debug_info: text_of(*debug_info),
                cause: cause@,
            },
            EventMessage::Diagnostic { level, text } => EventView::Diagnostic {
                level: *level,
                text: text@,
            },
            EventMessage::StreamProduced(media) => EventView::StreamProduced(media@),
        }
    }
}

/// The message for an error that an element reported: it ends the job, and
/// its cause keeps the element's path (or `None` where the report names no
/// source), the error and the debug text.
pub open spec fn element_failure(
    source: Option<Seq<char>>,
    error: Seq<char>,
    debug: Option<Seq<char>>,
) -> EventView {
    EventView::FatalError {
        message: error,
        debug_info: debug,
        cause: JobErrorView::Transport {
            src: match source {
                Some(path) => path,
                None => unnamed_source(),
            },
            error,
            debug,
        },
    }
}

/// Turns an error that an element reported into the message that ends the
/// job.
pub fn element_error(source: Option<String>, error: String, debug: Option<String>) -> (message:
    EventMessage)
    ensures
        message@ == element_failure(text_of(source), error@, text_of(debug)),
{
    let src = match source {
        Some(path) => path,
        None => String::from_str("None"),
    };
    EventMessage::FatalError {
        message: error.clone(),
        debug_info: debug.clone(),
        cause: JobError::Transport(ErrorMessage { src, error, debug }),
    }
}

} // verus!
