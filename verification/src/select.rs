//! The operator's selection of streams to mux.

use crate::streams::StreamTable;
use vstd::prelude::*;

verus! {

/// Why a selection was turned down.
#[derive(Debug, Clone, Copy, PartialEq, Eq, Structural)]
pub enum SelectError {
    /// The primary container has no video stream: nothing can be selected.
    NoVideo,
    /// The primary container has no audio stream: nothing can be selected.
    NoAudio,
    /// The secondary container has no subtitle stream.
    NoSubtitle,
    /// The video index is not a position of the video bucket.
    VideoOutOfRange,
    /// The audio index is not a position of the audio bucket.
    AudioOutOfRange,
    /// The subtitle index is not a position of the subtitle bucket.
    SubtitleOutOfRange,
}

/// What stands against choosing video `idx_v` and audio `idx_a` from
/// buckets of `videos` and `audios` streams. An empty bucket comes before
/// an index out of range, and video before audio.
pub open spec fn av_error(videos: nat, audios: nat, idx_v: nat, idx_a: nat) -> Option<
    SelectError,
> {
    if videos == 0 {
        Some(SelectError::NoVideo)
    } else if audios == 0 {
        Some(SelectError::NoAudio)
    } else if idx_v >= videos {
        Some(SelectError::VideoOutOfRange)
    } else if idx_a >= audios {
        Some(SelectError::AudioOutOfRange)
    } else {
        None
    }
}

/// What stands against choosing subtitle `idx` from a bucket of `subs`
/// streams.
pub open spec fn subtitle_error(subs: nat, idx: nat) -> Option<SelectError> {
    if subs == 0 {
        Some(SelectError::NoSubtitle)
    } else if idx >= subs {
        Some(SelectError::SubtitleOutOfRange)
    } else {
        None
    }
}

/// Represents a user's selection of streams.
#[derive(Debug)]
pub struct MuxSettings {
    av_path: String,
    st_path: Option<String>,
    idx_a: usize,
    idx_v: usize,
    ids_st: Option<usize>,
}

/// A selection as plain values.
pub struct MuxView {
    /// Path of the primary container.
    pub av_path: Seq<char>,
    /// Path of the secondary container, if one was supplied.
    pub st_path: Option<Seq<char>>,
    /// Position of the chosen stream in the video bucket.
    pub idx_v: nat,
    /// Position of the chosen stream in the audio bucket.
    pub idx_a: nat,
    /// Position of the chosen stream in the subtitle bucket, if any.
    pub idx_st: Option<nat>,
}

/// Checks that something can be selected from the streams of the primary
/// container: that it has a video stream and an audio stream. Without
/// them the run cannot go on, whatever the operator answers.
pub fn check_selectable(primary: &StreamTable) -> (result: Result<(), SelectError>)
    ensures
        result is Ok <==> primary.video@.len() > 0 && primary.audio@.len() > 0,
        result == Err::<(), SelectError>(SelectError::NoVideo) <==> primary.video@.len() == 0,
        result == Err::<(), SelectError>(SelectError::NoAudio) <==> primary.video@.len() > 0
            && primary.audio@.len() == 0,
{
    if primary.video.len() == 0 {
        Err(SelectError::NoVideo)
    } else if primary.audio.len() == 0 {
        Err(SelectError::NoAudio)
    } else {
        Ok(())
    }
}

/// Checks that a subtitle can be selected from the streams of the
/// secondary container: that it has a subtitle stream.
pub fn check_subtitles(secondary: &StreamTable) -> (result: Result<(), SelectError>)
    ensures
        result is Ok <==> secondary.subs@.len() > 0,
        result is Err ==> result == Err::<(), SelectError>(SelectError::NoSubtitle),
{
    if secondary.subs.len() == 0 {
        Err(SelectError::NoSubtitle)
    } else {
        Ok(())
    }
}

impl MuxView {
    /// A subtitle stream is chosen exactly when a secondary container is named.
    pub open spec fn wf(self) -> bool {
        self.idx_st is Some <==> self.st_path is Some
    }
}

impl View for MuxSettings {
    type V = MuxView;

    closed spec fn view(&self) -> MuxView {
        MuxView {
            av_path: self.av_path@,
            st_path: match self.st_path {
                Some(p) => Some(p@),
                None => None,
            },
            idx_v: self.idx_v as nat,
            idx_a: self.idx_a as nat,
            idx_st: match self.ids_st {
                Some(i) => Some(i as nat),
                None => None,
            },
        }
    }
}

impl MuxSettings {
    #[verifier::type_invariant]
    spec fn inv(self) -> bool {
        self.ids_st is Some <==> self.st_path is Some
    }

    /// Selects video stream `idx_v` and audio stream `idx_a` of the primary
    /// container at `av_path`, whose streams are `primary`. The indices are
    /// positions in the video and the audio bucket. No subtitle is selected.
    pub fn new(av_path: String, primary: &StreamTable, idx_v: usize, idx_a: usize) -> (result:
        Result<MuxSettings, SelectError>)
        ensures
            result is Ok ==> primary.video@.len() > 0 && primary.audio@.len() > 0,
            result is Ok ==> idx_v < primary.video@.len() && idx_a < primary.audio@.len(),
            match result {
                Ok(mux) => {
                    &&& av_error(
                        primary.video@.len(),
                        primary.audio@.len(),
                        idx_v as nat,
                        idx_a as nat,
                    ) is None
                    &&& mux@ == (MuxView {
                        av_path: av_path@,
                        st_path: None,
                        idx_v: idx_v as nat,
                        idx_a: idx_a as nat,
                        idx_st: None,
                    })
                },
                Err(e) => av_error(
                    primary.video@.len(),
                    primary.audio@.len(),
                    idx_v as nat,
                    idx_a as nat,
                ) == Some(e),
            },
    {
        if primary.video.len() == 0 {
            Err(SelectError::NoVideo)
        } else if primary.audio.len() == 0 {
            Err(SelectError::NoAudio)
        } else if idx_v >= primary.video.len() {
            Err(SelectError::VideoOutOfRange)
        } else if idx_a >= primary.audio.len() {
            Err(SelectError::AudioOutOfRange)
        } else {
            Ok(MuxSettings { av_path, st_path: None, idx_a, idx_v, ids_st: None })
        }
    }

    /// Adds the subtitle stream `idx` of the secondary container at
    /// `st_path`, whose streams are `secondary`, to the selection. The index
    /// is a position in the subtitle bucket.
    pub fn with_subtitle(self, st_path: String, secondary: &StreamTable, idx: usize) -> (result:
        Result<MuxSettings, SelectError>)
        ensures
            result is Ok ==> idx < secondary.subs@.len(),
            match result {
                Ok(mux) => {
                    &&& subtitle_error(secondary.subs@.len(), idx as nat) is None
                    &&& mux@ == (MuxView {
                        st_path: Some(st_path@),
                        idx_st: Some(idx as nat),
                        ..self@
                    })
                },
                Err(e) => subtitle_error(secondary.subs@.len(), idx as nat) == Some(e),
            },
    {
        if secondary.subs.len() == 0 {
            Err(SelectError::NoSubtitle)
        } else if idx >= secondary.subs.len() {
            Err(SelectError::SubtitleOutOfRange)
        } else {
            Ok(
                MuxSettings {
                    av_path: self.av_path,
                    st_path: Some(st_path),
                    idx_a: self.idx_a,
                    idx_v: self.idx_v,
                    ids_st: Some(idx),
                },
            )
        }
    }

    /// Path of the primary container.
    pub fn av_path(&self) -> (path: &String)
        ensures
            path@ == self@.av_path,
    {
        &self.av_path
    }

    /// Path of the secondary container, if one was supplied.
    pub fn st_path(&self) -> (path: Option<&String>)
        ensures
            self@.wf(),
            match path {
                Some(p) => self@.st_path == Some(p@),
                None => self@.st_path is None,
            },
    {
        proof {
            use_type_invariant(self);
        }
        self.st_path.as_ref()
    }

    /// Position of the chosen stream in the video bucket.
    pub fn idx_v(&self) -> (idx: usize)
        ensures
            idx == self@.idx_v,
    {
        self.idx_v
    }

    /// Position of the chosen stream in the audio bucket.
    pub fn idx_a(&self) -> (idx: usize)
        ensures
            idx == self@.idx_a,
    {
        self.idx_a
    }

    /// Position of the chosen stream in the subtitle bucket, if any.
    pub fn ids_st(&self) -> (idx: Option<usize>)
        ensures
            self@.wf(),
            match idx {
                Some(i) => self@.idx_st == Some(i as nat),
                None => self@.idx_st is None,
            },
    {
        proof {
            use_type_invariant(self);
        }
        self.ids_st
    }
}

} // verus!
