//! `/player` request and response models, and the choice of an audio format.

use vstd::prelude::*;

use crate::models::context::Context;
use crate::text::{contains_seq, contains_text, opt_view, str_eq};

verus! {

/// `/player` request body. `playback_context` carries the signature timestamp ciphered clients
/// need; `service_integrity_dimensions` the PoToken web clients need.
#[derive(Debug, Clone)]
pub struct PlayerBody {
    pub context: Context,
    pub video_id: String,
    pub playlist_id: Option<String>,
    pub playback_context: Option<PlaybackContext>,
    pub service_integrity_dimensions: Option<ServiceIntegrityDimensions>,
    pub content_check_ok: bool,
    pub racy_check_ok: bool,
}

#[derive(Debug, Clone)]
pub struct PlaybackContext {
    pub content_playback_context: ContentPlaybackContext,
}

#[derive(Debug, Clone)]
pub struct ContentPlaybackContext {
    pub signature_timestamp: i32,
}

#[derive(Debug, Clone)]
pub struct ServiceIntegrityDimensions {
    pub po_token: String,
}

/// The `/player` response, as far as stream selection reads it. Loudness figures stay with the
/// audio engine.
#[derive(Debug, Clone)]
pub struct PlayerResponse {
    pub playability_status: PlayabilityStatus,
    pub streaming_data: Option<StreamingData>,
    pub video_details: Option<VideoDetails>,
    pub playback_tracking: Option<PlaybackTracking>,
}

#[derive(Debug, Clone)]
pub struct PlayabilityStatus {
    pub status: String,
    pub reason: Option<String>,
}

/// A playability status of an age or login gate.
pub open spec fn age_gated(status: Seq<char>) -> bool {
    status == "AGE_CHECK_REQUIRED"@ || status == "AGE_VERIFICATION_REQUIRED"@ || status
        == "LOGIN_REQUIRED"@ || status == "CONTENT_CHECK_REQUIRED"@
}

impl PlayabilityStatus {
    /// The response carries playable streams.
    pub fn is_ok(&self) -> (r: bool)
        ensures
            r == (self.status@ == "OK"@),
    {
        str_eq(self.status.as_str(), "OK")
    }

    /// An age or login gate, which another client may get past.
    pub fn is_age_gated(&self) -> (r: bool)
        ensures
            r == age_gated(self.status@),
    {
        let s = self.status.as_str();
        str_eq(s, "AGE_CHECK_REQUIRED") || str_eq(s, "AGE_VERIFICATION_REQUIRED") || str_eq(
            s,
            "LOGIN_REQUIRED",
        ) || str_eq(s, "CONTENT_CHECK_REQUIRED")
    }
}

#[derive(Debug, Clone)]
pub struct StreamingData {
    pub formats: Option<Vec<Format>>,
    pub adaptive_formats: Vec<Format>,
    pub expires_in_seconds: Option<i64>,
}

/// One stream format. Its loudness figure stays with the audio engine.
#[derive(Debug, Clone)]
pub struct Format {
    pub itag: i32,
    /// Direct URL, or `None` when `signature_cipher` carries it.
    pub url: Option<String>,
    pub mime_type: String,
    pub bitrate: i64,
    /// `None` for audio-only formats.
    pub width: Option<i32>,
    pub height: Option<i32>,
    pub content_length: Option<String>,
    pub audio_quality: Option<String>,
    pub approx_duration_ms: Option<String>,
    pub audio_channels: Option<i32>,
    pub signature_cipher: Option<String>,
    pub cipher: Option<String>,
    pub audio_track: Option<AudioTrack>,
}

#[derive(Debug, Clone)]
pub struct AudioTrack {
    pub is_auto_dubbed: Option<bool>,
}

/// Audio-only formats have no width.
pub open spec fn spec_is_audio(f: Format) -> bool {
    f.width is None
}

/// Not an auto-dubbed foreign-language track: no dubbing flag at all.
pub open spec fn spec_is_original(f: Format) -> bool {
    match f.audio_track {
        None => true,
        Some(t) => t.is_auto_dubbed is None,
    }
}

/// 3 for `AUDIO_QUALITY_HIGH`, 2 for `_MEDIUM`, 1 for `_LOW`, 0 otherwise.
pub open spec fn quality_rank_of(f: Format) -> int {
    match f.audio_quality {
        Some(q) => if q@ == "AUDIO_QUALITY_HIGH"@ {
            3
        } else if q@ == "AUDIO_QUALITY_MEDIUM"@ {
            2
        } else if q@ == "AUDIO_QUALITY_LOW"@ {
            1
        } else {
            0
        },
        None => 0,
    }
}

/// 2 for Opus, 1 for AAC (`mp4a`), 0 otherwise, read from the MIME type.
pub open spec fn codec_score_of(f: Format) -> int {
    if contains_seq(f.mime_type@, "opus"@) {
        2
    } else if contains_seq(f.mime_type@, "mp4a"@) {
        1
    } else {
        0
    }
}

/// Channel count, 2 when absent.
pub open spec fn channels_of(f: Format) -> int {
    match f.audio_channels {
        Some(c) => c as int,
        None => 2,
    }
}

/// `a` ranks strictly below `b` for high quality: by quality rank, then channels, then codec,
/// then bitrate.
pub open spec fn high_below(a: Format, b: Format) -> bool {
    if quality_rank_of(a) != quality_rank_of(b) {
        quality_rank_of(a) < quality_rank_of(b)
    } else if channels_of(a) != channels_of(b) {
        channels_of(a) < channels_of(b)
    } else if codec_score_of(a) != codec_score_of(b) {
        codec_score_of(a) < codec_score_of(b)
    } else {
        a.bitrate < b.bitrate
    }
}

/// `a` ranks strictly below `b` for low quality: originals first, then bitrate.
pub open spec fn low_below(a: Format, b: Format) -> bool {
    if spec_is_original(a) != spec_is_original(b) {
        !spec_is_original(a)
    } else {
        a.bitrate < b.bitrate
    }
}

/// The low-quality bitrate cap.
pub open spec fn under_cap(f: Format) -> bool {
    f.bitrate <= 128_000
}

/// Some audio format is under the cap.
pub open spec fn any_capped(s: Seq<Format>) -> bool {
    exists|j: int| 0 <= j < s.len() && spec_is_audio(#[trigger] s[j]) && under_cap(s[j])
}

/// Some format is audio-only.
pub open spec fn any_audio(s: Seq<Format>) -> bool {
    exists|j: int| 0 <= j < s.len() && spec_is_audio(#[trigger] s[j])
}

/// The formats a quality chooses among: every audio format for high quality; for low quality
/// the audio formats under the cap, or every audio format when none is.
pub open spec fn in_pool(s: Seq<Format>, q: AudioQuality, j: int) -> bool {
    &&& 0 <= j < s.len()
    &&& spec_is_audio(s[j])
    &&& (q is Low && any_capped(s) ==> under_cap(s[j]))
}

/// Strict order of a quality.
pub open spec fn below(q: AudioQuality, a: Format, b: Format) -> bool {
    if q is Low {
        low_below(a, b)
    } else {
        high_below(a, b)
    }
}

/// Format `i` is the one chosen for `q`: in the pool, no pool member above it, and every later
/// pool member strictly below it (the last of equal maxima wins).
pub open spec fn is_best(s: Seq<Format>, q: AudioQuality, i: int) -> bool {
    &&& in_pool(s, q, i)
    &&& forall|j: int| #[trigger] in_pool(s, q, j) ==> !below(q, s[i], s[j])
    &&& forall|j: int| #[trigger] in_pool(s, q, j) && j > i ==> below(q, s[j], s[i])
}

/// The choice of format is well defined and keeps the quality's promises: at most one format is
/// the best for a quality; `Auto` chooses exactly as `High`; and a `Low` choice is at or under
/// 128 kbps whenever some audio format is.
pub proof fn law_format_choice(s: Seq<Format>, q: AudioQuality, i: int, j: int)
    ensures
        is_best(s, q, i) && is_best(s, q, j) ==> i == j,
        is_best(s, AudioQuality::Auto, i) <==> is_best(s, AudioQuality::High, i),
        is_best(s, AudioQuality::Low, i) && any_capped(s) ==> under_cap(s[i]),
{
    if is_best(s, q, i) && is_best(s, q, j) && i != j {
        assert(in_pool(s, q, i) && in_pool(s, q, j));
        if i < j {
            assert(below(q, s[j], s[i]));
        } else {
            assert(below(q, s[i], s[j]));
        }
    }
    let a = AudioQuality::Auto;
    let h = AudioQuality::High;
    if is_best(s, a, i) {
        assert forall|k: int| #[trigger] in_pool(s, h, k) implies !below(h, s[i], s[k]) by {
            assert(in_pool(s, a, k));
        }
        assert forall|k: int| #[trigger] in_pool(s, h, k) && k > i implies below(h, s[k], s[i]) by {
            assert(in_pool(s, a, k));
        }
    }
    if is_best(s, h, i) {
        assert forall|k: int| #[trigger] in_pool(s, a, k) implies !below(a, s[i], s[k]) by {
            assert(in_pool(s, h, k));
        }
        assert forall|k: int| #[trigger] in_pool(s, a, k) && k > i implies below(a, s[k], s[i]) by {
            assert(in_pool(s, h, k));
        }
    }
}

/// What low quality takes: an original (non-dubbed) track whenever the pool holds one, and,
/// among the pool's tracks as original as the one taken, none of a higher bitrate: the highest
/// bitrate at or under 128 kbps whenever some audio format is under the cap.
pub proof fn law_low_quality_choice(s: Seq<Format>, i: int, j: int)
    requires
        is_best(s, AudioQuality::Low, i),
        in_pool(s, AudioQuality::Low, j),
    ensures
        spec_is_original(s[j]) ==> spec_is_original(s[i]),
        spec_is_original(s[j]) == spec_is_original(s[i]) ==> s[j].bitrate <= s[i].bitrate,
        any_capped(s) ==> s[i].bitrate <= 128_000,
        spec_is_audio(s[i]),
{
    assert(!below(AudioQuality::Low, s[i], s[j]));
}

/// What high (and automatic) quality takes: no pool member of a higher quality rank; among those
/// of the same rank none with more channels; then none of a better codec (Opus over AAC); then
/// none of a higher bitrate.
pub proof fn law_high_quality_choice(s: Seq<Format>, q: AudioQuality, i: int, j: int)
    requires
        !(q is Low),
        is_best(s, q, i),
        in_pool(s, q, j),
    ensures
        quality_rank_of(s[j]) <= quality_rank_of(s[i]),
        quality_rank_of(s[j]) == quality_rank_of(s[i]) ==> channels_of(s[j]) <= channels_of(s[i]),
        quality_rank_of(s[j]) == quality_rank_of(s[i]) && channels_of(s[j]) == channels_of(s[i])
            ==> codec_score_of(s[j]) <= codec_score_of(s[i]),
        quality_rank_of(s[j]) == quality_rank_of(s[i]) && channels_of(s[j]) == channels_of(s[i])
            && codec_score_of(s[j]) == codec_score_of(s[i]) ==> s[j].bitrate <= s[i].bitrate,
        spec_is_audio(s[i]),
{
    assert(!below(q, s[i], s[j]));
}

impl Format {
    /// Audio-only formats have no width.
    pub fn is_audio(&self) -> (r: bool)
        ensures
            r == spec_is_audio(*self),
    {
        self.width.is_none()
    }

    /// Not an auto-dubbed foreign-language track.
    pub fn is_original(&self) -> (r: bool)
        ensures
            r == spec_is_original(*self),
    {
        match &self.audio_track {
            None => true,
            Some(t) => t.is_auto_dubbed.is_none(),
        }
    }

    /// Direct, playable URL that needs no cipher.
    pub fn direct_url(&self) -> (r: Option<&str>)
        ensures
            match r {
                Some(u) => self.signature_cipher is None && self.cipher is None && opt_view(self.url)
                    == Some(u@),
                None => self.signature_cipher is Some || self.cipher is Some || self.url is None,
            },
    {
        if self.signature_cipher.is_some() || self.cipher.is_some() {
            return None;
        }
        match &self.url {
            Some(u) => Some(u.as_str()),
            None => None,
        }
    }

    fn quality_rank(&self) -> (r: u8)
        ensures
            r == quality_rank_of(*self),
    {
        match &self.audio_quality {
            Some(q) => {
                let q = q.as_str();
                if str_eq(q, "AUDIO_QUALITY_HIGH") {
                    3
                } else if str_eq(q, "AUDIO_QUALITY_MEDIUM") {
                    2
                } else if str_eq(q, "AUDIO_QUALITY_LOW") {
                    1
                } else {
                    0
                }
            },
            None => 0,
        }
    }

    fn codec_score(&self) -> (r: u8)
        ensures
            r == codec_score_of(*self),
    {
        if contains_text(self.mime_type.as_str(), "opus") {
            2
        } else if contains_text(self.mime_type.as_str(), "mp4a") {
            1
        } else {
            0
        }
    }

    fn channels(&self) -> (r: i32)
        ensures
            r == channels_of(*self),
    {
        match self.audio_channels {
            Some(c) => c,
            None => 2,
        }
    }
}

/// Requested audio quality.
#[derive(Debug, Clone, Copy, PartialEq, Eq, Structural)]
pub enum AudioQuality {
    High,
    Low,
    /// No metered network on desktop: treated as high.
    Auto,
}

fn is_below(q: AudioQuality, a: &Format, b: &Format) -> (r: bool)
    ensures
        r == below(q, *a, *b),
{
    match q {
        AudioQuality::Low => {
            let (oa, ob) = (a.is_original(), b.is_original());
            if oa != ob {
                !oa
            } else {
                a.bitrate < b.bitrate
            }
        },
        _ => {
            let (ra, rb) = (a.quality_rank(), b.quality_rank());
            if ra != rb {
                return ra < rb;
            }
            let (ca, cb) = (a.channels(), b.channels());
            if ca != cb {
                return ca < cb;
            }
            let (sa, sb) = (a.codec_score(), b.codec_score());
            if sa != sb {
                return sa < sb;
            }
            a.bitrate < b.bitrate
        },
    }
}

/// `a` ranks strictly below `b` in the high-quality order.
pub fn is_below_high(a: &Format, b: &Format) -> (r: bool)
    ensures
        r == high_below(*a, *b),
{
    is_below(AudioQuality::High, a, b)
}

/// `below` is a strict weak order: irreflexive, and whatever is not below another is above or
/// tied with everything that is.
proof fn lemma_below_order(q: AudioQuality, a: Format, b: Format, c: Format)
    ensures
        !below(q, a, a),
        below(q, a, b) ==> !below(q, b, a),
        !below(q, a, b) && !below(q, b, c) ==> !below(q, a, c),
        below(q, a, b) && below(q, b, c) ==> below(q, a, c),
        !below(q, a, b) && below(q, c, b) ==> below(q, c, a),
        !below(q, a, b) && !below(q, b, a) && below(q, c, a) ==> below(q, c, b),
{
}

/// Pick the best audio format of `adaptive_formats` for the requested quality. High (and Auto)
/// rank by audio quality, channels, codec (Opus over AAC) and bitrate; Low prefers formats at or
/// under 128 kbps (all audio formats when none is), originals over dubbed tracks, then the
/// highest bitrate. Among equal candidates the later one wins. `None` when no format is
/// audio-only.
pub fn find_format(data: &StreamingData, quality: AudioQuality) -> (r: Option<&Format>)
    ensures
        match r {
            Some(f) => exists|i: int|
                is_best(data.adaptive_formats@, quality, i) && *f == (
                #[trigger] data.adaptive_formats@[i]),
            None => !any_audio(data.adaptive_formats@),
        },
{
    let s = &data.adaptive_formats;
    let ghost sv = s@;
    let mut capped = false;
    let mut j: usize = 0;
    while j < s.len()
        invariant
            sv == s@,
            0 <= j <= sv.len(),
            capped <==> exists|k: int|
                0 <= k < j && spec_is_audio(#[trigger] sv[k]) && under_cap(sv[k]),
        decreases s.len() - j,
    {
        if s[j].is_audio() && s[j].bitrate <= 128_000 {
            capped = true;
        }
        j += 1;
    }
    let low = match quality {
        AudioQuality::Low => true,
        _ => false,
    };
    let mut best: Option<usize> = None;
    let mut i: usize = 0;
    while i < s.len()
        invariant
            sv == s@,
            0 <= i <= sv.len(),
            capped == any_capped(sv),
            low == (quality is Low),
            match best {
                None => forall|k: int| 0 <= k < i ==> !(#[trigger] in_pool(sv, quality, k)),
                Some(b) => {
                    &&& b < i
                    &&& in_pool(sv, quality, b as int)
                    &&& forall|k: int|
                        0 <= k < i && #[trigger] in_pool(sv, quality, k) ==> !below(
                            quality,
                            sv[b as int],
                            sv[k],
                        )
                    &&& forall|k: int|
                        b < k < i && #[trigger] in_pool(sv, quality, k) ==> below(
                            quality,
                            sv[k],
                            sv[b as int],
                        )
                },
            },
        decreases s.len() - i,
    {
        let eligible = s[i].is_audio() && (!low || !capped || s[i].bitrate <= 128_000);
        assert(eligible == in_pool(sv, quality, i as int));
        if eligible {
            match best {
                None => {
                    best = Some(i);
                },
                Some(b) => {
                    if !is_below(quality, &s[i], &s[b]) {
                        proof {
                            assert forall|k: int|
                                0 <= k <= i && #[trigger] in_pool(sv, quality, k) implies !below(
                                quality,
                                sv[i as int],
                                sv[k],
                            ) by {
                                lemma_below_order(quality, sv[i as int], sv[b as int], sv[k]);
                                lemma_below_order(quality, sv[b as int], sv[i as int], sv[k]);
                                lemma_below_order(quality, sv[k], sv[b as int], sv[i as int]);
                            }
                        }
                        best = Some(i);
                    } else {
                        proof {
                            lemma_below_order(quality, sv[i as int], sv[b as int], sv[b as int]);
                        }
                    }
                },
            }
        }
        i += 1;
    }
    match best {
        None => {
            proof {
                if any_audio(sv) {
                    let k = choose|k: int| 0 <= k < sv.len() && spec_is_audio(#[trigger] sv[k]);
                    if low && capped {
                        let c = choose|c: int|
                            0 <= c < sv.len() && spec_is_audio(#[trigger] sv[c]) && under_cap(
                                sv[c],
                            );
                        assert(in_pool(sv, quality, c));
                    } else {
                        assert(in_pool(sv, quality, k));
                    }
                }
            }
            None
        },
        Some(b) => {
            assert(is_best(sv, quality, b as int));
            Some(&s[b])
        },
    }
}

#[derive(Debug, Clone)]
pub struct VideoDetails {
    pub video_id: String,
    pub title: Option<String>,
    pub author: Option<String>,
    pub length_seconds: Option<String>,
    pub music_video_type: Option<String>,
    pub thumbnail: Option<Thumbnails>,
}

#[derive(Debug, Clone)]
pub struct Thumbnails {
    pub thumbnails: Vec<Thumbnail>,
}

#[derive(Debug, Clone)]
pub struct Thumbnail {
    pub url: String,
    pub width: Option<i32>,
    pub height: Option<i32>,
}

#[derive(Debug, Clone)]
pub struct PlaybackTracking {
    pub videostats_playback_url: Option<BaseUrl>,
}

#[derive(Debug, Clone)]
pub struct BaseUrl {
    pub base_url: Option<String>,
}

} // verus!
