use vstd::prelude::*;

use crate::json::{jv_get, jv_get_str, jv_of, jv_of_seq, lemma_jv_of_seq, Json, Jv};
use crate::parser::jv_get_u64;
use crate::text::str_eq;

verus! {

/// What one local media file's probe reports, with the duration kept as the
/// tool printed it.
#[derive(Clone, Debug)]
pub struct ProbeInfo {
    pub video_codec: Option<String>,
    pub audio_codec: Option<String>,
    pub width: Option<u32>,
    pub height: Option<u32>,
    pub duration_text: Option<String>,
    pub container: Option<String>,
}

pub struct ProbeInfoV {
    pub video_codec: Option<Seq<char>>,
    pub audio_codec: Option<Seq<char>>,
    pub width: Option<u32>,
    pub height: Option<u32>,
    pub duration_text: Option<Seq<char>>,
    pub container: Option<Seq<char>>,
}

impl DeepView for ProbeInfo {
    type V = ProbeInfoV;

    open spec fn deep_view(&self) -> ProbeInfoV {
        ProbeInfoV {
            video_codec: self.video_codec.deep_view(),
            audio_codec: self.audio_codec.deep_view(),
            width: self.width,
            height: self.height,
            duration_text: self.duration_text.deep_view(),
            container: self.container.deep_view(),
        }
    }
}

/// A stream's codec name, falling back to its tag string, then its long name.
pub open spec fn stream_codec(st: Jv) -> Option<Seq<char>> {
    match jv_get_str(st, "codec_name"@) {
        Some(s) => Some(s),
        None => match jv_get_str(st, "codec_tag_string"@) {
            Some(s) => Some(s),
            None => jv_get_str(st, "codec_long_name"@),
        },
    }
}

/// A stream dimension, truncated into the field that carries it.
pub open spec fn stream_dim(st: Jv, key: Seq<char>) -> Option<u32> {
    match jv_get_u64(st, key) {
        Some(x) => Some(x as u32),
        None => None,
    }
}

/// The codecs and dimensions after the streams are walked in order: the first
/// stream of each type whose codec resolves fills that type's slot, video
/// streams writing the dimensions while the video slot is open.
pub open spec fn probe_streams_fold(
    streams: Seq<Jv>,
    vc: Option<Seq<char>>,
    ac: Option<Seq<char>>,
    w: Option<u32>,
    h: Option<u32>,
) -> (Option<Seq<char>>, Option<Seq<char>>, Option<u32>, Option<u32>)
    decreases streams.len(),
{
    if streams.len() == 0 {
        (vc, ac, w, h)
    } else {
        let st = streams[0];
        let t = jv_get_str(st, "codec_type"@);
        if t == Some("video"@) && vc is None {
            probe_streams_fold(
                streams.drop_first(),
                stream_codec(st),
                ac,
                stream_dim(st, "width"@),
                stream_dim(st, "height"@),
            )
        } else if t == Some("audio"@) && ac is None {
            probe_streams_fold(streams.drop_first(), vc, stream_codec(st), w, h)
        } else {
            probe_streams_fold(streams.drop_first(), vc, ac, w, h)
        }
    }
}

/// The structured report a probe's output value denotes.
pub open spec fn spec_probe_info(v: Jv) -> ProbeInfoV {
    let duration_text = match jv_get(v, "format"@) {
        Some(f) => jv_get_str(f, "duration"@),
        None => None,
    };
    let container = match jv_get(v, "format"@) {
        Some(f) => jv_get_str(f, "format_name"@),
        None => None,
    };
    let folded = match jv_get(v, "streams"@) {
        Some(Jv::Arr(s)) => probe_streams_fold(s, None, None, None, None),
        _ => (
            None::<Seq<char>>,
            None::<Seq<char>>,
            None::<u32>,
            None::<u32>,
        ),
    };
    ProbeInfoV {
        video_codec: folded.0,
        audio_codec: folded.1,
        width: folded.2,
        height: folded.3,
        duration_text,
        container,
    }
}

fn stream_codec_exec(st: &Json) -> (r: Option<String>)
    ensures
        r.deep_view() == stream_codec(st@),
{
    match st.get_string("codec_name") {
        Some(s) => Some(s),
        None => match st.get_string("codec_tag_string") {
            Some(s) => Some(s),
            None => st.get_string("codec_long_name"),
        },
    }
}

fn stream_dim_exec(st: &Json, key: &str) -> (r: Option<u32>)
    ensures
        r == stream_dim(st@, key@),
{
    match st.get(key) {
        Some(j) => match j.as_u64() {
            Some(x) => Some(x as u32),
            None => None,
        },
        None => None,
    }
}

/// Reads a probe's structured output: the duration and container from its
/// format block, and the first video and audio stream's codec and dimensions.
#[verifier::loop_isolation(false)]
pub fn parse_probe_output(v: &Json) -> (r: ProbeInfo)
    ensures
        r.deep_view() == spec_probe_info(v@),
{
    let duration_text = match v.get("format") {
        Some(f) => f.get_string("duration"),
        None => None,
    };
    let container = match v.get("format") {
        Some(f) => f.get_string("format_name"),
        None => None,
    };
    let mut video_codec: Option<String> = None;
    let mut audio_codec: Option<String> = None;
    let mut width: Option<u32> = None;
    let mut height: Option<u32> = None;
    match v.get("streams") {
        Some(sv) => match sv.as_arr() {
            Some(streams) => {
                let ghost full = jv_of_seq(streams@);
                proof {
                    lemma_jv_of_seq(streams@);
                    assert(full.skip(0) =~= full);
                }
                let n = streams.len();
                for i in 0..n
                    invariant
                        n == streams@.len(),
                        full == jv_of_seq(streams@),
                        full.len() == n,
                        forall|k: int| 0 <= k < n ==> full[k] == jv_of(streams@[k]),
                        probe_streams_fold(full, None, None, None, None) == probe_streams_fold(
                            full.skip(i as int),
                            video_codec.deep_view(),
                            audio_codec.deep_view(),
                            width,
                            height,
                        ),
                {
                    proof {
                        assert(full.skip(i as int)[0] == full[i as int]);
                        assert(full.skip(i as int).drop_first() =~= full.skip(i as int + 1));
                    }
                    let st = &streams[i];
                    let is_video = match st.get_str("codec_type") {
                        Some(t) => str_eq(t.as_str(), "video"),
                        None => false,
                    };
                    let is_audio = match st.get_str("codec_type") {
                        Some(t) => str_eq(t.as_str(), "audio"),
                        None => false,
                    };
                    if is_video && video_codec.is_none() {
                        video_codec = stream_codec_exec(st);
                        width = stream_dim_exec(st, "width");
                        height = stream_dim_exec(st, "height");
                    } else if is_audio && audio_codec.is_none() {
                        audio_codec = stream_codec_exec(st);
                    }
                }
                proof {
                    assert(full.skip(n as int) =~= Seq::<Jv>::empty());
                }
            },
            None => {},
        },
        None => {},
    }
    ProbeInfo { video_codec, audio_codec, width, height, duration_text, container }
}

} // verus!
