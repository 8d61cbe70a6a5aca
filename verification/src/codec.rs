//! Media types of elementary streams.

use crate::text::str_eq;
use vstd::prelude::*;

verus! {

/// The media type of an elementary stream: one of the four types that the
/// library works with, or the label of a type that it does not recognize.
#[derive(Debug, Clone, PartialEq, Eq)]
pub enum CodecType {
    Attachment,
    Audio,
    Video,
    Subtitle,
    Unknown(String),
}

/// A media type as a plain value.
pub enum CodecKind {
    Attachment,
    Audio,
    Video,
    Subtitle,
    Unknown(Seq<char>),
}

impl View for CodecType {
    type V = CodecKind;

    open spec fn view(&self) -> CodecKind {
        match self {
            CodecType::Attachment => CodecKind::Attachment,
            CodecType::Audio => CodecKind::Audio,
            CodecType::Video => CodecKind::Video,
            CodecType::Subtitle => CodecKind::Subtitle,
            CodecType::Unknown(label) => CodecKind::Unknown(label@),
        }
    }
}

/// The media type that a prober's label stands for. A label other than the
/// four known ones is kept as it is.
pub open spec fn codec_kind(label: Seq<char>) -> CodecKind {
    if label == "attachment"@ {
        CodecKind::Attachment
    } else if label == "audio"@ {
        CodecKind::Audio
    } else if label == "video"@ {
        CodecKind::Video
    } else if label == "subtitle"@ {
        CodecKind::Subtitle
    } else {
        CodecKind::Unknown(label)
    }
}

impl CodecType {
    /// Reads the media type off the label that the prober reports.
    pub fn from(codec_type: &str) -> (kind: CodecType)
        ensures
            kind@ == codec_kind(codec_type@),
    {
        if str_eq(codec_type, "attachment") {
            CodecType::Attachment
        } else if str_eq(codec_type, "audio") {
            CodecType::Audio
        } else if str_eq(codec_type, "video") {
            CodecType::Video
        } else if str_eq(codec_type, "subtitle") {
            CodecType::Subtitle
        } else {
            CodecType::Unknown(codec_type.to_owned())
        }
    }
}

} // verus!
