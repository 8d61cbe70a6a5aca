//! Elementary streams of a probed container, grouped by media type.

use crate::codec::{codec_kind, CodecKind, CodecType};
use vstd::prelude::*;
use vstd::seq_lib::{group_filter_ensures, group_to_multiset_ensures};

verus! {

/// One elementary stream as the prober reports it.
#[derive(Debug, Clone, PartialEq, Eq)]
pub struct StreamResult {
    /// Index of the stream in its container.
    pub index: usize,
    /// Name of the codec.
    pub codec_name: String,
    /// The prober's label for the media type.
    pub codec_type: String,
}

/// A stream as plain values.
pub struct StreamView {
    pub index: nat,
    pub codec_name: Seq<char>,
    pub codec_type: Seq<char>,
}

impl View for StreamResult {
    type V = StreamView;

    open spec fn view(&self) -> StreamView {
        StreamView {
            index: self.index as nat,
            codec_name: self.codec_name@,
            codec_type: self.codec_type@,
        }
    }
}

impl StreamResult {
    /// The media type that the stream's label stands for.
    pub open spec fn kind(self) -> CodecKind {
        codec_kind(self@.codec_type)
    }

    /// Reads the media type off the stream's label.
    pub fn codec(&self) -> (codec: CodecType)
        ensures
            codec@ == self.kind(),
    {
        CodecType::from(self.codec_type.as_str())
    }
}

/// The video streams among `streams`, in their order.
pub open spec fn videos(streams: Seq<StreamResult>) -> Seq<StreamResult> {
    streams.filter(|s: StreamResult| s.kind() is Video)
}

/// The audio streams among `streams`, in their order.
pub open spec fn audios(streams: Seq<StreamResult>) -> Seq<StreamResult> {
    streams.filter(|s: StreamResult| s.kind() is Audio)
}

/// The subtitle streams among `streams`, in their order.
pub open spec fn subtitles(streams: Seq<StreamResult>) -> Seq<StreamResult> {
    streams.filter(|s: StreamResult| s.kind() is Subtitle)
}

/// The attachments among `streams`, in their order.
pub open spec fn attachments(streams: Seq<StreamResult>) -> Seq<StreamResult> {
    streams.filter(|s: StreamResult| s.kind() is Attachment)
}

/// The streams of an unrecognized media type among `streams`, in their order.
pub open spec fn unrecognized(streams: Seq<StreamResult>) -> Seq<StreamResult> {
    streams.filter(|s: StreamResult| s.kind() is Unknown)
}

/// The audio and video streams among `streams`, in their order.
pub open spec fn audio_visual(streams: Seq<StreamResult>) -> Seq<StreamResult> {
    streams.filter(|s: StreamResult| s.kind() is Audio || s.kind() is Video)
}

/// Table of individual sub-streams for a given set of inputs.
#[derive(Debug, Clone, PartialEq, Eq)]
pub struct StreamTable {
    pub video: Vec<StreamResult>,
    pub audio: Vec<StreamResult>,
    pub attach: Vec<StreamResult>,
    pub subs: Vec<StreamResult>,
}

impl StreamTable {
    /// A table with four empty buckets.
    pub fn new() -> (table: Self)
        ensures
            table.video@ == Seq::<StreamResult>::empty(),
            table.audio@ == Seq::<StreamResult>::empty(),
            table.attach@ == Seq::<StreamResult>::empty(),
            table.subs@ == Seq::<StreamResult>::empty(),
    {
        StreamTable { video: Vec::new(), audio: Vec::new(), attach: Vec::new(), subs: Vec::new() }
    }
}

/// The streams of one container, sorted by media type.
#[derive(Debug, Clone, PartialEq, Eq)]
pub struct Classified {
    /// The streams that take part in the selection.
    pub table: StreamTable,
    /// Streams of a known media type that are not taken from this
    /// container. They are reported and otherwise left alone.
    pub ignored: Vec<StreamResult>,
    /// Streams of an unrecognized media type. They are reported and
    /// otherwise left alone.
    pub unknown: Vec<StreamResult>,
}

/// Sorts the streams of the primary container by media type. Each stream
/// goes to the bucket of its type, or to `unknown` when the type is not
/// recognized; within a bucket the streams keep the prober's order.
pub fn classify(streams: Vec<StreamResult>) -> (sorted: Classified)
    ensures
        sorted.table.video@ == videos(streams@),
        sorted.table.audio@ == audios(streams@),
        sorted.table.subs@ == subtitles(streams@),
        sorted.table.attach@ == attachments(streams@),
        sorted.unknown@ == unrecognized(streams@),
        sorted.ignored@ == Seq::<StreamResult>::empty(),
{
    let ghost all = streams@;
    let mut table = StreamTable::new();
    let mut unknown: Vec<StreamResult> = Vec::new();
    for stream in it: streams.into_iter()
        invariant
            it.seq() == all,
            table.video@ == videos(all.take(it.index())),
            table.audio@ == audios(all.take(it.index())),
            table.subs@ == subtitles(all.take(it.index())),
            table.attach@ == attachments(all.take(it.index())),
            unknown@ == unrecognized(all.take(it.index())),
    {
        proof {
            lemma_take_next(all, it.index());
        }
        match stream.codec() {
            CodecType::Audio => table.audio.push(stream),
            CodecType::Video => table.video.push(stream),
            CodecType::Attachment => table.attach.push(stream),
            CodecType::Subtitle => table.subs.push(stream),
            CodecType::Unknown(_) => unknown.push(stream),
        }
    }
    assert(all.take(all.len() as int) =~= all);
    Classified { table, ignored: Vec::new(), unknown }
}

/// Sorts the streams of the secondary container by media type. Only its
/// subtitle streams and attachments take part in the selection: audio and
/// video are muxed from the primary container alone, so those found here go
/// to `ignored`.
pub fn classify_secondary(streams: Vec<StreamResult>) -> (sorted: Classified)
    ensures
        sorted.table.video@ == Seq::<StreamResult>::empty(),
        sorted.table.audio@ == Seq::<StreamResult>::empty(),
        sorted.table.subs@ == subtitles(streams@),
        sorted.table.attach@ == attachments(streams@),
        sorted.ignored@ == audio_visual(streams@),
        sorted.unknown@ == unrecognized(streams@),
{
    let ghost all = streams@;
    let mut table = StreamTable::new();
    let mut ignored: Vec<StreamResult> = Vec::new();
    let mut unknown: Vec<StreamResult> = Vec::new();
    for stream in it: streams.into_iter()
        invariant
            it.seq() == all,
            table.video@ == Seq::<StreamResult>::empty(),
            table.audio@ == Seq::<StreamResult>::empty(),
            table.subs@ == subtitles(all.take(it.index())),
            table.attach@ == attachments(all.take(it.index())),
            ignored@ == audio_visual(all.take(it.index())),
            unknown@ == unrecognized(all.take(it.index())),
    {
        proof {
            lemma_take_next(all, it.index());
        }
        match stream.codec() {
            CodecType::Audio => ignored.push(stream),
            CodecType::Video => ignored.push(stream),
            CodecType::Attachment => table.attach.push(stream),
            CodecType::Subtitle => table.subs.push(stream),
            CodecType::Unknown(_) => unknown.push(stream),
        }
    }
    assert(all.take(all.len() as int) =~= all);
    Classified { table, ignored, unknown }
}

/// In how many of the five classes of `streams` the stream `s` occurs.
pub open spec fn holders(streams: Seq<StreamResult>, s: StreamResult) -> nat {
    let video: nat = if videos(streams).contains(s) { 1 } else { 0 };
    let audio: nat = if audios(streams).contains(s) { 1 } else { 0 };
    let subs: nat = if subtitles(streams).contains(s) { 1 } else { 0 };
    let attach: nat = if attachments(streams).contains(s) { 1 } else { 0 };
    let unknown: nat = if unrecognized(streams).contains(s) { 1 } else { 0 };
    video + audio + subs + attach + unknown
}

/// Every stream of a probe result occurs in exactly one of the five
/// classes: video, audio, subtitle, attachment and unrecognized. Counted
/// with repetitions, the five classes together hold what the probe result
/// holds, no more and no less.
pub proof fn lemma_classes_partition(streams: Seq<StreamResult>)
    ensures
        forall|i: int| 0 <= i < streams.len() ==> holders(streams, #[trigger] streams[i]) == 1,
        streams.to_multiset() == videos(streams).to_multiset().add(
            audios(streams).to_multiset(),
        ).add(subtitles(streams).to_multiset()).add(attachments(streams).to_multiset()).add(
            unrecognized(streams).to_multiset(),
        ),
        streams.len() == videos(streams).len() + audios(streams).len() + subtitles(streams).len()
            + attachments(streams).len() + unrecognized(streams).len(),
    decreases streams.len(),
{
    broadcast use group_to_multiset_ensures;

    assert forall|i: int| 0 <= i < streams.len() implies holders(streams, #[trigger] streams[i])
        == 1 by {
        lemma_member_of_its_class(streams, i);
    }
    reveal(Seq::filter);
    if streams.len() > 0 {
        lemma_classes_partition(streams.drop_last());
        assert(streams =~= streams.drop_last().push(streams.last()));
    }
    assert(streams.to_multiset() =~= videos(streams).to_multiset().add(
        audios(streams).to_multiset(),
    ).add(subtitles(streams).to_multiset()).add(attachments(streams).to_multiset()).add(
        unrecognized(streams).to_multiset(),
    ));
}

/// The stream at position `i` occurs in the class of its media type and in
/// no other.
proof fn lemma_member_of_its_class(streams: Seq<StreamResult>, i: int)
    requires
        0 <= i < streams.len(),
    ensures
        holders(streams, streams[i]) == 1,
{
    let s = streams[i];
    lemma_filter_holds(streams, |s: StreamResult| s.kind() is Video, s);
    lemma_filter_holds(streams, |s: StreamResult| s.kind() is Audio, s);
    lemma_filter_holds(streams, |s: StreamResult| s.kind() is Subtitle, s);
    lemma_filter_holds(streams, |s: StreamResult| s.kind() is Attachment, s);
    lemma_filter_holds(streams, |s: StreamResult| s.kind() is Unknown, s);
}

/// A filtered sequence holds the members of the sequence that meet the
/// predicate, and nothing else.
proof fn lemma_filter_holds(
    streams: Seq<StreamResult>,
    pred: spec_fn(StreamResult) -> bool,
    s: StreamResult,
)
    ensures
        streams.filter(pred).contains(s) <==> streams.contains(s) && pred(s),
{
    broadcast use group_filter_ensures;

    if streams.filter(pred).contains(s) {
        streams.lemma_filter_contains_rev(pred, s);
        let j = choose|j: int| 0 <= j < streams.filter(pred).len() && streams.filter(pred)[j] == s;
        streams.lemma_filter_pred(pred, j);
    }
    if streams.contains(s) && pred(s) {
        let j = choose|j: int| 0 <= j < streams.len() && streams[j] == s;
        streams.lemma_filter_contains(pred, j);
    }
}

/// No audio or video stream of a secondary container reaches its subtitle
/// or attachment bucket, and every one of its streams occurs in exactly one
/// of: subtitles, attachments, the ignored audio and video streams, and the
/// unrecognized streams.
pub proof fn lemma_secondary_policy(streams: Seq<StreamResult>)
    ensures
        forall|s: StreamResult|
            s.kind() is Audio || s.kind() is Video ==> !subtitles(streams).contains(s)
                && !attachments(streams).contains(s),
        forall|i: int|
            #![trigger streams[i]]
            0 <= i < streams.len() ==> {
                let s = streams[i];
                &&& subtitles(streams).contains(s) <==> s.kind() is Subtitle
                &&& attachments(streams).contains(s) <==> s.kind() is Attachment
                &&& audio_visual(streams).contains(s) <==> s.kind() is Audio || s.kind() is Video
                &&& unrecognized(streams).contains(s) <==> s.kind() is Unknown
            },
        streams.len() == subtitles(streams).len() + attachments(streams).len() + audio_visual(
            streams,
        ).len() + unrecognized(streams).len(),
    decreases streams.len(),
{
    assert forall|s: StreamResult| s.kind() is Audio || s.kind() is Video implies !subtitles(
        streams,
    ).contains(s) && !attachments(streams).contains(s) by {
        lemma_filter_holds(streams, |s: StreamResult| s.kind() is Subtitle, s);
        lemma_filter_holds(streams, |s: StreamResult| s.kind() is Attachment, s);
    }
    assert forall|i: int| #![trigger streams[i]] 0 <= i < streams.len() implies {
        let s = streams[i];
        &&& subtitles(streams).contains(s) <==> s.kind() is Subtitle
        &&& attachments(streams).contains(s) <==> s.kind() is Attachment
        &&& audio_visual(streams).contains(s) <==> s.kind() is Audio || s.kind() is Video
        &&& unrecognized(streams).contains(s) <==> s.kind() is Unknown
    } by {
        let s = streams[i];
        lemma_filter_holds(streams, |s: StreamResult| s.kind() is Subtitle, s);
        lemma_filter_holds(streams, |s: StreamResult| s.kind() is Attachment, s);
        lemma_filter_holds(streams, |s: StreamResult| s.kind() is Audio || s.kind() is Video, s);
        lemma_filter_holds(streams, |s: StreamResult| s.kind() is Unknown, s);
    }
    reveal(Seq::filter);
    if streams.len() > 0 {
        lemma_secondary_policy(streams.drop_last());
    }
}

/// How the buckets of the first `i + 1` streams come from those of the
/// first `i`.
proof fn lemma_take_next(streams: Seq<StreamResult>, i: int)
    requires
        0 <= i < streams.len(),
    ensures
        forall|pred: spec_fn(StreamResult) -> bool|
            #![trigger streams.take(i + 1).filter(pred)]
            streams.take(i + 1).filter(pred) == if pred(streams[i]) {
                streams.take(i).filter(pred).push(streams[i])
            } else {
                streams.take(i).filter(pred)
            },
{
    assert forall|pred: spec_fn(StreamResult) -> bool|
        #![trigger streams.take(i + 1).filter(pred)]
        streams.take(i + 1).filter(pred) == if pred(streams[i]) {
            streams.take(i).filter(pred).push(streams[i])
        } else {
            streams.take(i).filter(pred)
        } by {
        assert(streams.take(i + 1) =~= streams.take(i).push(streams[i]));
        Seq::lemma_filter_push(streams.take(i), streams[i], pred);
    }
}

} // verus!
