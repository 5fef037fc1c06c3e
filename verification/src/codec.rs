//! The content types that a job can handle, and the parser element that each
//! one needs.

use crate::text::same_text;
use vstd::prelude::*;

verus! {

/// The parser at the head of a stream's processing chain.
#[derive(Clone, Copy, Debug, PartialEq, Eq, Structural)]
pub enum Parser {
    Aac,
    H264,
    H265,
    Av1,
}

/// The parser that handles `content_type`, if there is one.
pub open spec fn supported_parser(content_type: Seq<char>) -> Option<Parser> {
    if content_type == "audio/mpeg"@ {
        Some(Parser::Aac)
    } else if content_type == "video/x-h264"@ {
        Some(Parser::H264)
    } else if content_type == "video/x-h265"@ {
        Some(Parser::H265)
    } else if content_type == "video/x-av1"@ {
        Some(Parser::Av1)
    } else {
        None
    }
}

impl Parser {
    /// The element kind that the engine knows this parser by.
    pub open spec fn factory(self) -> Seq<char> {
        match self {
            Parser::Aac => "aacparse"@,
            Parser::H264 => "h264parse"@,
            Parser::H265 => "h265parse"@,
            Parser::Av1 => "av1parse"@,
        }
    }

    /// The element kind that the engine knows this parser by.
    pub fn factory_name(self) -> (name: &'static str)
        ensures
            name@ == self.factory(),
    {
        match self {
            Parser::Aac => "aacparse",
            Parser::H264 => "h264parse",
            Parser::H265 => "h265parse",
            Parser::Av1 => "av1parse",
        }
    }
}

/// Looks `content_type` up in the table of supported codecs.
pub fn parser_for(content_type: &str) -> (parser: Option<Parser>)
    ensures
        parser == supported_parser(content_type@),
{
    if same_text(content_type, "audio/mpeg") {
        Some(Parser::Aac)
    } else if same_text(content_type, "video/x-h264") {
        Some(Parser::H264)
    } else if same_text(content_type, "video/x-h265") {
        Some(Parser::H265)
    } else if same_text(content_type, "video/x-av1") {
        Some(Parser::Av1)
    } else {
        None
    }
}

} // verus!
