//! Stream resolution: a video id to a playable stream. The main web client comes first (with
//! signature timestamp, PoToken, decipher and `n`-transform), then the direct-URL clients, then
//! a last-ditch fallback resolver. Track metadata always comes from the main response.
//!
//! The network calls, the cipher webview and BotGuard are driven from outside: `Resolver::step`
//! takes what the last action produced and says what to do next.

use vstd::prelude::*;

use crate::clients::{Clients, YouTubeClient, MAIN_CLIENT, STREAM_FALLBACK_ORDER};
use crate::codec::{encode, url_encode};
use crate::models::player::{
    age_gated, any_audio, find_format, high_below, is_best, law_format_choice, AudioQuality,
    AudioTrack, Format, PlayerResponse,
};
use crate::queue::contains_name;
use crate::text::{chars_of, contains_char, has_char, opt_view, push_text, str_eq, string_of, strings_view};

verus! {

/// Why resolution failed.
#[derive(Debug, Clone)]
pub enum ResolveError {
    /// No client, not even the fallback resolver, produced a playable stream for the video.
    AllClientsFailed(String),
}

impl ResolveError {
    /// The message shown for the error.
    pub fn message(&self) -> (r: String)
        ensures
            match self {
                ResolveError::AllClientsFailed(v) => r@ == "no client could resolve a playable stream for "@
                    + v@,
            },
    {
        match self {
            ResolveError::AllClientsFailed(v) => {
                let mut out: Vec<char> = Vec::new();
                push_text(&mut out, "no client could resolve a playable stream for ");
                push_text(&mut out, v.as_str());
                string_of(out.as_slice())
            },
        }
    }
}

/// Client keys whose stream URLs need the `n`-transform.
pub const NEEDS_N_TRANSFORM: [&'static str; 4] = ["WEB", "WEB_REMIX", "WEB_CREATOR", "TVHTML5"];

/// The client retried when the main client is age- or login-gated.
pub const AGE_GATE_CLIENT: &'static str = "WEB_CREATOR";

/// A format of the highest audio quality.
pub open spec fn is_high_spec(f: Format) -> bool {
    opt_view(f.audio_quality) == Some("AUDIO_QUALITY_HIGH"@)
}

/// Whether a format is of the highest audio quality.
pub fn is_high(f: &Format) -> (r: bool)
    ensures
        r == is_high_spec(*f),
{
    match &f.audio_quality {
        Some(q) => str_eq(q.as_str(), "AUDIO_QUALITY_HIGH"),
        None => false,
    }
}

/// Better-than for the high-quality second pass: `a` beats `b` by quality rank, then channels,
/// then codec (Opus over AAC), then bitrate; anything beats nothing.
pub fn better(a: &Format, b: Option<&Format>) -> (r: bool)
    ensures
        r == match b {
            None => true,
            Some(b) => high_below(*b, *a),
        },
{
    match b {
        None => true,
        Some(b) => crate::models::player::is_below_high(b, a),
    }
}

/// Any adaptive format of a response is of the highest quality.
pub open spec fn has_high_spec(r: Option<PlayerResponse>) -> bool {
    match r {
        Some(resp) => match resp.streaming_data {
            Some(sd) => exists|i: int|
                0 <= i < sd.adaptive_formats@.len() && is_high_spec(
                    #[trigger] sd.adaptive_formats@[i],
                ),
            None => false,
        },
        None => false,
    }
}

fn has_high(r: &Option<PlayerResponse>) -> (b: bool)
    ensures
        b == has_high_spec(*r),
{
    let resp = match r {
        Some(resp) => resp,
        None => return false,
    };
    let sd = match &resp.streaming_data {
        Some(sd) => sd,
        None => return false,
    };
    let mut i: usize = 0;
    while i < sd.adaptive_formats.len()
        invariant
            0 <= i <= sd.adaptive_formats@.len(),
            has_high_spec(*r) == exists|j: int|
                0 <= j < sd.adaptive_formats@.len() && is_high_spec(
                    #[trigger] sd.adaptive_formats@[j],
                ),
            forall|j: int| 0 <= j < i ==> !is_high_spec(#[trigger] sd.adaptive_formats@[j]),
        decreases sd.adaptive_formats.len() - i,
    {
        if is_high(&sd.adaptive_formats[i]) {
            assert(is_high_spec(sd.adaptive_formats@[i as int]));
            return true;
        }
        i += 1;
    }
    false
}

/// The `n`-transform applies to web clients (those that use PoTokens) and to the keys listed.
pub open spec fn needs_n_spec(key: Seq<char>, client: Option<YouTubeClient>) -> bool {
    (client matches Some(c) && c.use_web_po_tokens) || key == "WEB"@ || key == "WEB_REMIX"@ || key
        == "WEB_CREATOR"@ || key == "TVHTML5"@
}

/// Whether a client's stream URLs need the `n`-transform.
pub fn needs_n_transform(key: &str, client: Option<&YouTubeClient>) -> (r: bool)
    ensures
        r == needs_n_spec(
            key@,
            match client {
                Some(c) => Some(*c),
                None => None,
            },
        ),
{
    let web = match client {
        Some(c) => c.use_web_po_tokens,
        None => false,
    };
    web || str_eq(key, "WEB") || str_eq(key, "WEB_REMIX") || str_eq(key, "WEB_CREATOR") || str_eq(
        key,
        "TVHTML5",
    )
}

/// A stream URL with the streaming PoToken attached: `&pot=` or `?pot=`, percent-encoded.
pub open spec fn with_pot_text(url: Seq<char>, pot: Seq<char>) -> Seq<char> {
    url.push(if contains_char(url, '?') {
        '&'
    } else {
        '?'
    }) + "pot="@ + url_encode(pot)
}

/// Attach the streaming PoToken to a stream URL.
pub fn append_pot(url: &str, pot: &str) -> (r: String)
    ensures
        r@ == with_pot_text(url@, pot@),
{
    let mut out = chars_of(url);
    let sep = if has_char(out.as_slice(), 0, out.len(), '?') {
        '&'
    } else {
        '?'
    };
    assert(out@.subrange(0, out@.len() as int) == url@);
    out.push(sep);
    push_text(&mut out, "pot=");
    let e = encode(pot);
    push_text(&mut out, e.as_str());
    string_of(out.as_slice())
}

/// Session and streaming PoTokens minted for the main web client.
#[derive(Debug, Clone)]
pub struct PoTokens {
    /// Sent in the `/player` request body.
    pub player_request: String,
    /// Attached to the stream URL.
    pub streaming_data: String,
}

/// A stream the last-ditch fallback resolver found. Its loudness figure stays with the audio
/// engine.
#[derive(Debug, Clone)]
pub struct FallbackStream {
    pub url: String,
    pub itag: i64,
    pub expires_in_seconds: i64,
    pub title: Option<String>,
    pub duration: Option<String>,
}

/// Everything the player, the UI and the media layer need for one track. Its loudness figure
/// stays with the audio engine.
#[derive(Debug, Clone)]
pub struct Resolved {
    pub video_id: String,
    pub stream_url: String,
    pub itag: i64,
    /// The `User-Agent` the player must send, when the client has one.
    pub user_agent: Option<String>,
    pub expires_in_seconds: i64,
    /// Watch-history tracking URL of the main response.
    pub playback_url: Option<String>,
    pub title: Option<String>,
    pub artists: Option<String>,
    pub duration: Option<String>,
    pub thumbnail: Option<String>,
    /// Which client produced the stream.
    pub stream_client: String,
}

/// A stream URL kept in the local cache. Its loudness figure stays with the audio engine.
#[derive(Debug, Clone)]
pub struct CachedStream {
    pub url: String,
    pub itag: i64,
    /// Unix seconds.
    pub expires_at: i64,
}

/// Cached entries are looked up as of this many seconds from now: a URL that expires while it
/// loads or buffers fails.
pub const CACHE_MARGIN_SECS: i64 = 60;

/// A cache hit as a resolved track: the cached URL and itag, the seconds it has left, from the
/// `cache` source; it carries no metadata (the queue item has it) and no watch-history URL (a
/// replay from the cache registers no history).
pub fn from_cache(video_id: &str, c: CachedStream, now: i64) -> (r: Resolved)
    requires
        i64::MIN <= c.expires_at - now <= i64::MAX,
    ensures
        r.video_id@ == video_id@,
        r.stream_url == c.url,
        r.itag == c.itag,
        r.expires_in_seconds == c.expires_at - now,
        r.stream_client@ == "cache"@,
        r.user_agent is None && r.playback_url is None,
        r.title is None && r.artists is None && r.duration is None && r.thumbnail is None,
{
    Resolved {
        video_id: video_id.to_owned(),
        stream_url: c.url,
        itag: c.itag,
        user_agent: None,
        expires_in_seconds: c.expires_at - now,
        playback_url: None,
        title: None,
        artists: None,
        duration: None,
        thumbnail: None,
        stream_client: String::from_str("cache"),
    }
}

/// Whether a resolved stream goes into the cache: every one but the fallback resolver's, whose
/// URLs are served only for bounded range requests (cached, it would poison the video for
/// hours).
pub fn cacheable(stream_client: &str) -> (r: bool)
    ensures
        r == (stream_client@ != "rustypipe"@),
{
    !str_eq(stream_client, "rustypipe")
}

fn copy_opt(o: &Option<String>) -> (r: Option<String>)
    ensures
        r == *o,
{
    match o {
        Some(s) => Some(s.clone()),
        None => None,
    }
}

/// A copy of a format.
pub fn copy_format(f: &Format) -> (r: Format)
    ensures
        r == *f,
{
    Format {
        itag: f.itag,
        url: copy_opt(&f.url),
        mime_type: f.mime_type.clone(),
        bitrate: f.bitrate,
        width: f.width,
        height: f.height,
        content_length: copy_opt(&f.content_length),
        audio_quality: copy_opt(&f.audio_quality),
        approx_duration_ms: copy_opt(&f.approx_duration_ms),
        audio_channels: f.audio_channels,
        signature_cipher: copy_opt(&f.signature_cipher),
        cipher: copy_opt(&f.cipher),
        audio_track: match &f.audio_track {
            Some(t) => Some(AudioTrack { is_auto_dubbed: t.is_auto_dubbed }),
            None => None,
        },
    }
}

/// Where a format's URL comes from.
#[derive(Debug, Clone)]
pub enum UrlSource {
    /// A direct URL, playable as it is.
    Direct(String),
    /// A `signatureCipher` (or legacy `cipher`) query to decipher.
    Cipher(String),
}

/// A format's URL source: the direct URL when no cipher is involved, else its cipher query;
/// `None` when it has neither.
pub open spec fn url_source_of(f: Format) -> Option<(bool, Seq<char>)> {
    if f.signature_cipher is None && f.cipher is None && f.url is Some {
        Some((true, opt_view(f.url)->0))
    } else if f.signature_cipher is Some {
        Some((false, opt_view(f.signature_cipher)->0))
    } else if f.cipher is Some {
        Some((false, opt_view(f.cipher)->0))
    } else {
        None
    }
}

/// `src` is the URL source of format `f`.
pub open spec fn source_matches(f: Format, src: UrlSource) -> bool {
    match src {
        UrlSource::Direct(u) => url_source_of(f) == Some((true, u@)),
        UrlSource::Cipher(c) => url_source_of(f) == Some((false, c@)),
    }
}

/// The URL source of a format.
pub fn url_source(f: &Format) -> (r: Option<UrlSource>)
    ensures
        match r {
            Some(UrlSource::Direct(u)) => url_source_of(*f) == Some((true, u@)),
            Some(UrlSource::Cipher(c)) => url_source_of(*f) == Some((false, c@)),
            None => url_source_of(*f) is None,
        },
{
    match f.direct_url() {
        Some(u) => return Some(UrlSource::Direct(u.to_owned())),
        None => {},
    }
    match &f.signature_cipher {
        Some(c) => return Some(UrlSource::Cipher(c.clone())),
        None => {},
    }
    match &f.cipher {
        Some(c) => Some(UrlSource::Cipher(c.clone())),
        None => None,
    }
}

/// The client at a position of the client loop: the main client at -1, then the fallback
/// clients in order.
pub open spec fn key_at(pos: int) -> Seq<char> {
    if pos == -1 {
        MAIN_CLIENT@
    } else {
        STREAM_FALLBACK_ORDER@[pos]@
    }
}

/// `f` is the format the resolver takes from response `resp` for quality `q`: the best audio
/// format of its streaming data, as `find_format` ranks them (see `is_best`).
pub open spec fn picked(resp: PlayerResponse, q: AudioQuality, f: Format) -> bool {
    resp.streaming_data matches Some(sd) && exists|i: int|
        is_best(sd.adaptive_formats@, q, i) && f == #[trigger] sd.adaptive_formats@[i]
}

/// A client of the client loop: the main client or one of the fallback clients.
pub open spec fn loop_key(k: Seq<char>) -> bool {
    k == key_at(-1) || k == key_at(0) || k == key_at(1) || k == key_at(2)
}

/// What the resolver waits for.
#[derive(Debug, Clone, Copy, PartialEq, Eq, Structural)]
pub enum Phase {
    Start,
    AwaitSts,
    AwaitPoTokens,
    AwaitMain,
    AwaitAgeRetry,
    AwaitClient,
    AwaitUrl,
    AwaitN,
    AwaitValidation,
    AwaitHeal,
    AwaitFallback,
    Finished,
}

/// What the last action produced.
#[derive(Debug, Clone)]
pub enum Event {
    /// Resolution starts.
    Begin,
    /// The signature timestamp of the deciphering player, if any.
    Sts(Option<i32>),
    /// The PoTokens, if they could be minted.
    PoTokens(Option<PoTokens>),
    /// A `/player` response; `None` when the call failed.
    Player(Option<PlayerResponse>),
    /// A deciphered stream URL; `None` when deciphering failed.
    Url(Option<String>),
    /// The URL after the `n`-transform (unchanged when it failed).
    Transformed(String),
    /// Whether the HEAD validation answered 2xx.
    Validated(bool),
    /// The self-heal was started.
    Healed,
    /// What the fallback resolver found.
    Fallback(Option<FallbackStream>),
}

/// What to do next.
#[derive(Debug, Clone)]
pub enum Action {
    FetchSts,
    FetchPoTokens { video_id: String, visitor_data: String },
    Player { client: String, sts: Option<i32>, po_token: Option<String> },
    Decipher { cipher: String },
    TransformN { url: String },
    Validate { url: String, user_agent: Option<String> },
    /// Refresh the cipher config off the hot path (clearing the main client's failure memory if
    /// the table changed), then report `Healed`.
    SelfHeal,
    Fallback { prefer_high: bool },
    Done(Resolved),
    Failed(ResolveError),
}

/// The candidate stream being looked at.
#[derive(Debug, Clone)]
pub struct Pending {
    pub key: String,
    pub format: Format,
    pub expires: i64,
    pub url: String,
    pub needs_n: bool,
}

/// The stream resolver's state.
pub struct Resolver {
    video_id: String,
    quality: AudioQuality,
    logged_in: bool,
    visitor_data: Option<String>,
    disabled: Vec<String>,
    main_failed_before: bool,
    clients: Clients,
    sts: Option<i32>,
    po: Option<PoTokens>,
    main_resp: Option<PlayerResponse>,
    main_ok: bool,
    has_high: bool,
    idx: i8,
    pending: Option<Pending>,
    best: Option<Pending>,
    phase: Phase,
    /// The format of the stream handed out, once one is.
    chosen: Ghost<Option<Format>>,
    /// The `/player` response the candidate (and, once handed out, the stream) came from.
    source: Ghost<Option<PlayerResponse>>,
    /// The response the remembered lesser stream came from.
    best_source: Ghost<Option<PlayerResponse>>,
}

/// The title the main response gives the track.
pub open spec fn main_title(resp: Option<PlayerResponse>) -> Option<String> {
    match resp {
        Some(r) => match r.video_details {
            Some(vd) => vd.title,
            None => None,
        },
        None => None,
    }
}

/// The artists (the video's author) the main response gives.
pub open spec fn main_author(resp: Option<PlayerResponse>) -> Option<String> {
    match resp {
        Some(r) => match r.video_details {
            Some(vd) => vd.author,
            None => None,
        },
        None => None,
    }
}

/// The length in seconds the main response gives.
pub open spec fn main_length(resp: Option<PlayerResponse>) -> Option<String> {
    match resp {
        Some(r) => match r.video_details {
            Some(vd) => vd.length_seconds,
            None => None,
        },
        None => None,
    }
}

/// The largest (last) thumbnail of the main response.
pub open spec fn main_thumbnail(resp: Option<PlayerResponse>) -> Option<String> {
    match resp {
        Some(r) => match r.video_details {
            Some(vd) => match vd.thumbnail {
                Some(t) => if t.thumbnails@.len() > 0 {
                    Some(t.thumbnails@.last().url)
                } else {
                    None
                },
                None => None,
            },
            None => None,
        },
        None => None,
    }
}

/// The watch-history tracking URL of the main response.
pub open spec fn main_tracking_url(resp: Option<PlayerResponse>) -> Option<String> {
    match resp {
        Some(r) => match r.playback_tracking {
            Some(pt) => match pt.videostats_playback_url {
                Some(b) => b.base_url,
                None => None,
            },
            None => None,
        },
        None => None,
    }
}

/// A resolved track whose stream came from client `client` of the registry: its metadata is the
/// main response's, whichever client produced the stream, and the player sends that client's
/// `User-Agent`.
pub open spec fn from_client(
    r: Resolved,
    client: Seq<char>,
    registry: Map<Seq<char>, YouTubeClient>,
    main: Option<PlayerResponse>,
) -> bool {
    &&& r.stream_client@ == client
    &&& r.title == main_title(main)
    &&& r.artists == main_author(main)
    &&& r.duration == main_length(main)
    &&& r.thumbnail == main_thumbnail(main)
    &&& r.playback_url == main_tracking_url(main)
    &&& r.user_agent == if registry.dom().contains(client) {
        Some(registry[client].user_agent)
    } else {
        None
    }
}

/// A candidate of less than the highest quality, held back while high quality is wanted and the
/// main response offers a high-quality format.
pub open spec fn held_back(quality: AudioQuality, high_offered: bool, f: Format) -> bool {
    !(quality is Low) && high_offered && !is_high_spec(f)
}

/// A stream handed out from the client loop, of format `chosen`: the format's itag, and a held
/// back format only once every client has been looked at (position 3).
pub open spec fn handed_out(
    r: Resolved,
    chosen: Option<Format>,
    quality: AudioQuality,
    high_offered: bool,
    pos: int,
) -> bool {
    match chosen {
        Some(f) => r.itag == f.itag as i64 && (held_back(quality, high_offered, f) ==> pos == 3),
        None => false,
    }
}

/// Whether an event is the one the resolver waits for in a phase.
pub open spec fn expected(phase: Phase, ev: Event) -> bool {
    match (phase, ev) {
        (Phase::Start, Event::Begin) => true,
        (Phase::AwaitSts, Event::Sts(_)) => true,
        (Phase::AwaitPoTokens, Event::PoTokens(_)) => true,
        (Phase::AwaitMain, Event::Player(_)) => true,
        (Phase::AwaitAgeRetry, Event::Player(_)) => true,
        (Phase::AwaitClient, Event::Player(_)) => true,
        (Phase::AwaitUrl, Event::Url(_)) => true,
        (Phase::AwaitN, Event::Transformed(_)) => true,
        (Phase::AwaitValidation, Event::Validated(_)) => true,
        (Phase::AwaitHeal, Event::Healed) => true,
        (Phase::AwaitFallback, Event::Fallback(_)) => true,
        _ => false,
    }
}

impl Resolver {
    /// The resolver is consistent: the loop position in range, a client of the loop asked while
    /// one is awaited, and a candidate while one is being looked at.
    pub closed spec fn wf(&self) -> bool {
        &&& -1 <= self.idx <= 3
        &&& self.labels_ok()
        &&& self.phase != Phase::Finished ==> self.chosen@ is None
        &&& (self.phase == Phase::Start || self.phase == Phase::AwaitSts || self.phase
            == Phase::AwaitPoTokens || self.phase == Phase::AwaitMain || self.phase
            == Phase::AwaitAgeRetry || self.phase == Phase::AwaitClient) ==> self.pending is None
        &&& self.phase == Phase::AwaitClient ==> !strings_view(self.disabled@).contains(
            key_at(self.idx as int),
        )
        &&& (self.phase == Phase::Start || self.phase == Phase::AwaitSts || self.phase
            == Phase::AwaitPoTokens || self.phase == Phase::AwaitMain || self.phase
            == Phase::AwaitAgeRetry) ==> self.idx == -1
        &&& self.phase == Phase::AwaitClient ==> 0 <= self.idx <= 2
        &&& (self.phase == Phase::AwaitUrl || self.phase == Phase::AwaitN || self.phase
            == Phase::AwaitValidation || self.phase == Phase::AwaitHeal) ==> self.idx <= 2
            && self.pending is Some
        &&& self.has_high == has_high_spec(self.main_resp)
        &&& self.phase == Phase::AwaitValidation ==> (self.pending matches Some(p) && !held_back(
            self.quality,
            self.has_high,
            p.format,
        ))
    }

    /// The requested quality.
    pub closed spec fn quality_spec(&self) -> AudioQuality {
        self.quality
    }

    /// The format of the stream handed out, once one is.
    pub closed spec fn chosen_spec(&self) -> Option<Format> {
        self.chosen@
    }

    /// The candidate being looked at.
    pub closed spec fn pending_spec(&self) -> Option<Pending> {
        self.pending
    }

    /// The position in the client loop: -1 the main client, then the fallback clients in order.
    pub closed spec fn loop_pos(&self) -> int {
        self.idx as int
    }

    /// Whether the main client's stream already failed for this video.
    pub closed spec fn main_failed_before_spec(&self) -> bool {
        self.main_failed_before
    }

    /// The main response (after the age-gate retry, when there was one).
    pub closed spec fn main_resp_spec(&self) -> Option<PlayerResponse> {
        self.main_resp
    }

    /// The client registry.
    pub closed spec fn registry(&self) -> Map<Seq<char>, YouTubeClient> {
        self.clients.view()
    }

    spec fn idx_ok(&self) -> bool {
        &&& -1 <= self.idx <= 3
        &&& self.has_high == has_high_spec(self.main_resp)
        &&& self.labels_ok()
    }

    /// The candidate is labelled with the client at the loop position, and it and the
    /// remembered lesser stream come from clients of the loop that are not disabled.
    spec fn labels_ok(&self) -> bool {
        &&& self.pending matches Some(p) ==> (-1 <= self.idx <= 2 && p.key@ == key_at(
            self.idx as int,
        ) && !strings_view(self.disabled@).contains(p.key@))
        &&& self.best matches Some(b) ==> (loop_key(b.key@) && !strings_view(
            self.disabled@,
        ).contains(b.key@))
        &&& self.pending matches Some(p) ==> (self.source@ matches Some(r) && picked(
            r,
            self.quality,
            p.format,
        ))
        &&& self.best matches Some(b) ==> (self.best_source@ matches Some(r) && picked(
            r,
            self.quality,
            b.format,
        ))
        &&& self.chosen@ matches Some(f) ==> (self.source@ matches Some(r) && picked(
            r,
            self.quality,
            f,
        ))
    }

    /// The remembered lesser stream, if any.
    pub closed spec fn best_spec(&self) -> Option<Pending> {
        self.best
    }

    /// The response the candidate, or the stream handed out, came from.
    pub closed spec fn source_spec(&self) -> Option<PlayerResponse> {
        self.source@
    }

    /// A validation is asked for the candidate being looked at, which is neither the last
    /// client's (accepted as it is) nor the main client's before its stream ever failed for this
    /// video (its authorised URL refuses HEAD).
    pub closed spec fn validating(&self, url: Seq<char>) -> bool {
        &&& self.idx < 2
        &&& self.pending matches Some(p)
        &&& p.url@ == url
        &&& !(self.idx == -1 && p.key@ == MAIN_CLIENT@ && !self.main_failed_before)
    }

    pub closed spec fn phase_spec(&self) -> Phase {
        self.phase
    }

    pub closed spec fn video_id_spec(&self) -> Seq<char> {
        self.video_id@
    }

    pub closed spec fn disabled_spec(&self) -> Seq<Seq<char>> {
        strings_view(self.disabled@)
    }

    /// The signature timestamp the resolver holds.
    pub closed spec fn sts_spec(&self) -> Option<i32> {
        self.sts
    }

    /// The PoToken sent in `/player` request bodies, once minted.
    pub closed spec fn session_pot_spec(&self) -> Option<String> {
        match self.po {
            Some(p) => Some(p.player_request),
            None => None,
        }
    }

    /// The PoTokens minted for this video, if any.
    pub closed spec fn po_spec(&self) -> Option<PoTokens> {
        self.po
    }

    /// Whether the user is signed in.
    pub closed spec fn logged_in_spec(&self) -> bool {
        self.logged_in
    }

    /// The visitor id.
    pub closed spec fn visitor_data_spec(&self) -> Option<String> {
        self.visitor_data
    }

    /// The arguments of a `/player` request to `client`: the main client gets the signature
    /// timestamp and the session PoToken; any other asked client is one of the registry, gets
    /// each only where it uses it, and is asked only when signed in if it requires sign-in.
    pub open spec fn player_args(&self, client: Seq<char>, sts: Option<i32>, pot: Option<String>) -> bool {
        ||| client == MAIN_CLIENT@ && sts == self.sts_spec() && pot == self.session_pot_spec()
        ||| {
            &&& self.registry().dom().contains(client)
            &&& sts == if self.registry()[client].use_signature_timestamp {
                self.sts_spec()
            } else {
                None
            }
            &&& pot == if self.registry()[client].use_web_po_tokens {
                self.session_pot_spec()
            } else {
                None
            }
            &&& self.registry()[client].login_required ==> self.logged_in_spec()
        }
    }

    /// `ua` is the `User-Agent` of the candidate's client: that of the registry entry, none
    /// when the client is not in the registry.
    pub open spec fn agent_of_pending(&self, ua: Option<String>) -> bool {
        &&& self.pending_spec() matches Some(p)
        &&& ua == if self.registry().dom().contains(p.key@) {
            Some(self.registry()[p.key@].user_agent)
        } else {
            None
        }
    }

    /// The URL a candidate goes on with after the `n`-transform gave `u`: the streaming PoToken
    /// attached when PoTokens were minted and the candidate's client is one of the registry
    /// that uses them.
    pub open spec fn with_stream_pot(&self, u: Seq<char>) -> Seq<char> {
        match (self.po_spec(), self.pending_spec()) {
            (Some(po), Some(p)) => if self.registry().dom().contains(p.key@)
                && self.registry()[p.key@].use_web_po_tokens {
                with_pot_text(u, po.streaming_data@)
            } else {
                u
            },
            _ => u,
        }
    }

    /// Fallback client `k` of the order may be asked: enabled, in the registry, and not a
    /// sign-in-only client while signed out.
    pub open spec fn eligible(&self, k: int) -> bool {
        let key = STREAM_FALLBACK_ORDER@[k]@;
        &&& !self.disabled_spec().contains(key)
        &&& self.registry().dom().contains(key)
        &&& !(self.registry()[key].login_required && !self.logged_in_spec())
    }

    /// Whether the main request waits for PoTokens: the main client of the registry uses them,
    /// there is a visitor id to mint them for, and the main client is not disabled.
    pub open spec fn wants_po(&self) -> bool {
        &&& self.registry().dom().contains(MAIN_CLIENT@)
        &&& self.registry()[MAIN_CLIENT@].use_web_po_tokens
        &&& self.visitor_data_spec() is Some
        &&& !self.disabled_spec().contains(MAIN_CLIENT@)
    }

    /// A resolver for one video: the requested quality, whether the user is signed in, the
    /// visitor id, the user-disabled clients, and whether the main client's stream already
    /// failed for this video.
    pub fn new(
        video_id: String,
        quality: AudioQuality,
        logged_in: bool,
        visitor_data: Option<String>,
        disabled: Vec<String>,
        main_failed_before: bool,
        clients: Clients,
    ) -> (r: Resolver)
        ensures
            r.wf(),
            r.phase_spec() == Phase::Start,
            r.video_id_spec() == video_id@,
            r.disabled_spec() == strings_view(disabled@),
            r.main_failed_before_spec() == main_failed_before,
            r.registry() == clients.view(),
            r.loop_pos() == -1,
            r.pending_spec() is None,
    {
        Resolver {
            video_id,
            quality,
            logged_in,
            visitor_data,
            disabled,
            main_failed_before,
            clients,
            sts: None,
            po: None,
            main_resp: None,
            main_ok: false,
            has_high: false,
            idx: -1,
            pending: None,
            best: None,
            phase: Phase::Start,
            chosen: Ghost(None),
            source: Ghost(None),
            best_source: Ghost(None),
        }
    }

    fn disabled_has(&self, key: &str) -> (r: bool)
        ensures
            r == strings_view(self.disabled@).contains(key@),
    {
        contains_name(&self.disabled, key)
    }

    fn prefer_high(&self) -> (r: bool)
        ensures
            r == !(self.quality is Low),
    {
        match self.quality {
            AudioQuality::Low => false,
            _ => true,
        }
    }

    fn session_pot(&self) -> (r: Option<String>)
        ensures
            r == self.session_pot_spec(),
    {
        match &self.po {
            Some(p) => Some(p.player_request.clone()),
            None => None,
        }
    }

    fn fail(&mut self) -> (a: Action)
        requires
            old(self).idx_ok(),
        ensures
            final(self).source@ == old(self).source@,
            final(self).idx >= old(self).idx,
            final(self).wf(),
            final(self).main_resp == old(self).main_resp,
            final(self).main_failed_before == old(self).main_failed_before,
            final(self).clients == old(self).clients,
            final(self).phase == Phase::Finished,
            final(self).video_id == old(self).video_id,
            final(self).disabled == old(self).disabled,
            final(self).sts == old(self).sts,
            final(self).po == old(self).po,
            final(self).logged_in == old(self).logged_in,
            final(self).visitor_data == old(self).visitor_data,
            final(self).quality == old(self).quality,
            a matches Action::Failed(ResolveError::AllClientsFailed(v)) && v@ == old(self).video_id@,
    {
        self.phase = Phase::Finished;
        self.pending = None;
        Action::Failed(ResolveError::AllClientsFailed(self.video_id.clone()))
    }

    fn build(&self, format: &Format, url: String, expires: i64, client: &str) -> (r: Resolved)
        ensures
            r.video_id@ == self.video_id@,
            r.stream_url@ == url@,
            r.itag == format.itag as i64,
            r.expires_in_seconds == expires,
            from_client(r, client@, self.clients.view(), self.main_resp),
    {
        let user_agent = match self.clients.get(client) {
            Some(c) => Some(c.user_agent.clone()),
            None => None,
        };
        let (title, artists, duration, thumbnail) = match &self.main_resp {
            Some(resp) => match &resp.video_details {
                Some(vd) => {
                    let thumb = match &vd.thumbnail {
                        Some(t) => if t.thumbnails.len() > 0 {
                            Some(t.thumbnails[t.thumbnails.len() - 1].url.clone())
                        } else {
                            None
                        },
                        None => None,
                    };
                    (copy_opt(&vd.title), copy_opt(&vd.author), copy_opt(&vd.length_seconds), thumb)
                },
                None => (None, None, None, None),
            },
            None => (None, None, None, None),
        };
        let playback_url = match &self.main_resp {
            Some(resp) => match &resp.playback_tracking {
                Some(pt) => match &pt.videostats_playback_url {
                    Some(b) => copy_opt(&b.base_url),
                    None => None,
                },
                None => None,
            },
            None => None,
        };
        Resolved {
            video_id: self.video_id.clone(),
            stream_url: url,
            itag: format.itag as i64,
            user_agent,
            expires_in_seconds: expires,
            playback_url,
            title,
            artists,
            duration,
            thumbnail,
            stream_client: client.to_owned(),
        }
    }

    /// The main request, or straight on to the loop when the main client is missing or off.
    fn main_request(&mut self) -> (a: Action)
        requires
            old(self).chosen@ is None,
            old(self).pending is None,
            old(self).idx == -1,
            old(self).idx_ok(),
        ensures
            a is Fallback ==> final(self).idx == 3 && final(self).best is None,
            old(self).idx == -1 && final(self).idx == -1 && (final(self).pending is Some
                || a is Done) ==> final(self).source@ == final(self).main_resp,
            a matches Action::Done(r) ==> loop_key(r.stream_client@) && !strings_view(
                old(self).disabled@,
            ).contains(r.stream_client@),
            a matches Action::Done(r) ==> final(self).idx == 3 || r.stream_client@ == key_at(
                final(self).idx as int,
            ),
            a is Player ==> final(self).pending is None,
            final(self).idx >= old(self).idx,
            a is Player ==> forall|k: int|
                old(self).idx <= k < final(self).idx && 0 <= k ==> !#[trigger] final(self).eligible(k),
            a matches Action::Done(r) ==> final(self).idx == 2 || final(self).idx == 3
                || (final(self).idx == -1 && r.stream_client@ == MAIN_CLIENT@
                && !final(self).main_failed_before),
            old(self).clients.view().dom().contains(MAIN_CLIENT@) && !strings_view(
                old(self).disabled@,
            ).contains(MAIN_CLIENT@) ==> (a matches Action::Player { client, .. } && client@
                == MAIN_CLIENT@),
            final(self).wf(),
            final(self).video_id == old(self).video_id,
            final(self).disabled == old(self).disabled,
            final(self).main_failed_before == old(self).main_failed_before,
            final(self).clients == old(self).clients,
            a matches Action::Player { client, .. } ==> !strings_view(old(self).disabled@).contains(client@),
            a matches Action::Done(r) ==> r.video_id@ == old(self).video_id@ && from_client(
                r,
                r.stream_client@,
                old(self).clients.view(),
                final(self).main_resp,
            ),
            !(a is Failed),
            a matches Action::Validate { url, .. } ==> final(self).validating(url@),
            final(self).quality == old(self).quality,
            final(self).sts == old(self).sts,
            final(self).po == old(self).po,
            final(self).logged_in == old(self).logged_in,
            final(self).visitor_data == old(self).visitor_data,
            a matches Action::Player { client, sts, po_token } ==> final(self).player_args(
                client@,
                sts,
                po_token,
            ),
            a matches Action::Fallback { prefer_high } ==> prefer_high == !(old(self).quality is Low),
            a matches Action::Decipher { cipher } ==> (final(self).pending_spec() matches Some(p)
                && url_source_of(p.format) == Some((false, cipher@))),
            a is TransformN ==> (final(self).pending_spec() matches Some(p) && p.needs_n),
            a matches Action::Validate { user_agent, .. } ==> final(self).agent_of_pending(user_agent),
            !(a is FetchPoTokens) && !(a is FetchSts),
            a matches Action::Player { client, .. } ==> client@ == MAIN_CLIENT@ || client@
                == AGE_GATE_CLIENT@ || (0 <= final(self).idx <= 2 && client@
                == STREAM_FALLBACK_ORDER@[final(self).idx as int]@),
            a matches Action::Done(r) ==> handed_out(
                r,
                final(self).chosen@,
                old(self).quality,
                final(self).has_high,
                final(self).idx as int,
            ),
    {
        let available = self.clients.get(MAIN_CLIENT).is_some() && !self.disabled_has(MAIN_CLIENT);
        if available {
            self.phase = Phase::AwaitMain;
            let po_token = self.session_pot();
            return Action::Player { client: MAIN_CLIENT.to_owned(), sts: self.sts, po_token };
        }
        self.main_resp = None;
        self.has_high = false;
        self.after_main()
    }

    /// The main response is in: measure it and start the client loop at the main client.
    fn after_main(&mut self) -> (a: Action)
        requires
            old(self).chosen@ is None,
            old(self).pending is None,
            old(self).idx == -1,
            old(self).idx_ok(),
        ensures
            old(self).main_resp matches Some(r) ==> (!strings_view(old(self).disabled@).contains(
                MAIN_CLIENT@,
            ) && usable(r, old(self).quality, has_high_spec(old(self).main_resp)) ==> (a is Decipher || a is TransformN || a is Validate || a is Done)
                && final(self).idx == -1),
            a is Fallback ==> final(self).idx == 3 && final(self).best is None,
            old(self).idx == -1 && final(self).idx == -1 && (final(self).pending is Some
                || a is Done) ==> final(self).source@ == final(self).main_resp,
            a matches Action::Done(r) ==> loop_key(r.stream_client@) && !strings_view(
                old(self).disabled@,
            ).contains(r.stream_client@),
            a matches Action::Done(r) ==> final(self).idx == 3 || r.stream_client@ == key_at(
                final(self).idx as int,
            ),
            a is Player ==> final(self).pending is None,
            final(self).idx >= old(self).idx,
            a is Player ==> forall|k: int|
                old(self).idx <= k < final(self).idx && 0 <= k ==> !#[trigger] final(self).eligible(k),
            a matches Action::Done(r) ==> final(self).idx == 2 || final(self).idx == 3
                || (final(self).idx == -1 && r.stream_client@ == MAIN_CLIENT@
                && !final(self).main_failed_before),
            final(self).wf(),
            final(self).video_id == old(self).video_id,
            final(self).disabled == old(self).disabled,
            final(self).main_failed_before == old(self).main_failed_before,
            final(self).clients == old(self).clients,
            final(self).main_resp == old(self).main_resp,
            a matches Action::Player { client, .. } ==> !strings_view(old(self).disabled@).contains(client@),
            a matches Action::Done(r) ==> r.video_id@ == old(self).video_id@ && from_client(
                r,
                r.stream_client@,
                old(self).clients.view(),
                final(self).main_resp,
            ),
            !(a is Failed),
            a matches Action::Validate { url, .. } ==> final(self).validating(url@),
            final(self).quality == old(self).quality,
            final(self).sts == old(self).sts,
            final(self).po == old(self).po,
            final(self).logged_in == old(self).logged_in,
            final(self).visitor_data == old(self).visitor_data,
            a matches Action::Player { client, sts, po_token } ==> final(self).player_args(
                client@,
                sts,
                po_token,
            ),
            a matches Action::Fallback { prefer_high } ==> prefer_high == !(old(self).quality is Low),
            a matches Action::Decipher { cipher } ==> (final(self).pending_spec() matches Some(p)
                && url_source_of(p.format) == Some((false, cipher@))),
            a is TransformN ==> (final(self).pending_spec() matches Some(p) && p.needs_n),
            a matches Action::Validate { user_agent, .. } ==> final(self).agent_of_pending(user_agent),
            !(a is FetchPoTokens) && !(a is FetchSts),
            a matches Action::Player { client, .. } ==> client@ == MAIN_CLIENT@ || client@
                == AGE_GATE_CLIENT@ || (0 <= final(self).idx <= 2 && client@
                == STREAM_FALLBACK_ORDER@[final(self).idx as int]@),
            a matches Action::Done(r) ==> handed_out(
                r,
                final(self).chosen@,
                old(self).quality,
                final(self).has_high,
                final(self).idx as int,
            ),
    {
        self.main_ok = match &self.main_resp {
            Some(r) => r.playability_status.is_ok(),
            None => false,
        };
        self.has_high = has_high(&self.main_resp);
        self.idx = -1;
        self.run_loop()
    }

    /// Walk the client loop from the current position to the next thing to do.
    fn run_loop(&mut self) -> (a: Action)
        requires
            old(self).chosen@ is None,
            old(self).pending is None,
            old(self).idx_ok(),
        ensures
            old(self).main_resp matches Some(r) ==> (old(self).idx == -1 && old(self).main_ok
                && !strings_view(old(self).disabled@).contains(MAIN_CLIENT@) && usable(
                r,
                old(self).quality,
                old(self).has_high,
            ) ==> (a is Decipher || a is TransformN || a is Validate || a is Done) && final(self).idx == -1),
            a is Fallback ==> final(self).idx == 3 && final(self).best is None,
            old(self).idx == -1 && final(self).idx == -1 && (final(self).pending is Some
                || a is Done) ==> final(self).source@ == final(self).main_resp,
            a matches Action::Done(r) ==> loop_key(r.stream_client@) && !strings_view(
                old(self).disabled@,
            ).contains(r.stream_client@),
            a matches Action::Done(r) ==> final(self).idx == 3 || r.stream_client@ == key_at(
                final(self).idx as int,
            ),
            a is Player ==> final(self).pending is None,
            final(self).idx >= old(self).idx,
            old(self).idx >= 0 ==> !(a is Validate) && !(a is Decipher) && !(a is TransformN),
            a is Player ==> forall|k: int|
                old(self).idx <= k < final(self).idx && 0 <= k ==> !#[trigger] final(self).eligible(k),
            a matches Action::Done(r) ==> final(self).idx == 2 || final(self).idx == 3
                || (final(self).idx == -1 && r.stream_client@ == MAIN_CLIENT@
                && !final(self).main_failed_before),
            final(self).wf(),
            final(self).video_id == old(self).video_id,
            final(self).disabled == old(self).disabled,
            final(self).main_failed_before == old(self).main_failed_before,
            final(self).clients == old(self).clients,
            final(self).main_resp == old(self).main_resp,
            a matches Action::Player { client, .. } ==> !strings_view(old(self).disabled@).contains(client@),
            a matches Action::Done(r) ==> r.video_id@ == old(self).video_id@ && from_client(
                r,
                r.stream_client@,
                old(self).clients.view(),
                final(self).main_resp,
            ),
            !(a is Failed),
            a matches Action::Validate { url, .. } ==> final(self).validating(url@),
            final(self).quality == old(self).quality,
            final(self).sts == old(self).sts,
            final(self).po == old(self).po,
            final(self).logged_in == old(self).logged_in,
            final(self).visitor_data == old(self).visitor_data,
            a matches Action::Player { client, sts, po_token } ==> final(self).player_args(
                client@,
                sts,
                po_token,
            ),
            a matches Action::Fallback { prefer_high } ==> prefer_high == !(old(self).quality is Low),
            a matches Action::Decipher { cipher } ==> (final(self).pending_spec() matches Some(p)
                && url_source_of(p.format) == Some((false, cipher@))),
            a is TransformN ==> (final(self).pending_spec() matches Some(p) && p.needs_n),
            a matches Action::Validate { user_agent, .. } ==> final(self).agent_of_pending(user_agent),
            !(a is FetchPoTokens) && !(a is FetchSts),
            a matches Action::Player { client, .. } ==> client@ == MAIN_CLIENT@ || client@
                == AGE_GATE_CLIENT@ || (0 <= final(self).idx <= 2 && client@
                == STREAM_FALLBACK_ORDER@[final(self).idx as int]@),
            a matches Action::Done(r) ==> handed_out(
                r,
                final(self).chosen@,
                old(self).quality,
                final(self).has_high,
                final(self).idx as int,
            ),
        decreases 4 - old(self).idx,
    {
        if self.idx > 2 {
            return self.finish();
        }
        if self.idx == -1 {
            if self.main_ok && !self.disabled_has(MAIN_CLIENT) {
                let cand = match &self.main_resp {
                    Some(r) => candidate_of(r, self.quality),
                    None => None,
                };
                proof {
                    if self.main_resp is Some && usable(self.main_resp->0, self.quality, self.has_high) {
                        lemma_usable_candidate(self.main_resp->0, self.quality, self.has_high, cand);
                    }
                }
                match cand {
                    Some((format, expires, source)) => {
                        let ghost mr = self.main_resp->0;
                        return self.begin_candidate(
                            MAIN_CLIENT.to_owned(),
                            format,
                            expires,
                            source,
                            Ghost(mr),
                        );
                    },
                    None => {},
                }
            }
            self.idx = 0;
            return self.run_loop();
        }
        let key: &'static str = if self.idx == 0 {
            STREAM_FALLBACK_ORDER[0]
        } else if self.idx == 1 {
            STREAM_FALLBACK_ORDER[1]
        } else {
            STREAM_FALLBACK_ORDER[2]
        };
        let eligible = !self.disabled_has(key) && match self.clients.get(key) {
            Some(c) => !(c.login_required && !self.logged_in),
            None => false,
        };
        if !eligible {
            self.idx = self.idx + 1;
            return self.run_loop();
        }
        let (sts, po_token) = match self.clients.get(key) {
            Some(c) => (
                if c.use_signature_timestamp {
                    self.sts
                } else {
                    None
                },
                if c.use_web_po_tokens {
                    self.session_pot()
                } else {
                    None
                },
            ),
            None => (None, None),
        };
        self.phase = Phase::AwaitClient;
        Action::Player { client: key.to_owned(), sts, po_token }
    }

    /// Look at a candidate format from client `key`.
    fn begin_candidate(
        &mut self,
        key: String,
        format: Format,
        expires: i64,
        source: UrlSource,
        Ghost(resp): Ghost<PlayerResponse>,
    ) -> (a: Action)
        requires
            old(self).chosen@ is None,
            picked(resp, old(self).quality, format),
            old(self).pending is None,
            key@ == key_at(old(self).idx as int),
            !strings_view(old(self).disabled@).contains(key@),
            old(self).idx_ok(),
            old(self).idx <= 2,
            source_matches(format, source),
        ensures
            !held_back(old(self).quality, old(self).has_high, format) ==> (a is Decipher || a is TransformN || a is Validate || a is Done) 
                && final(self).idx == old(self).idx,
            a is Fallback ==> final(self).idx == 3 && final(self).best is None,
            final(self).idx == old(self).idx && (final(self).pending is Some || a is Done)
                ==> final(self).source@ == Some(resp),
            a matches Action::Done(r) ==> loop_key(r.stream_client@) && !strings_view(
                old(self).disabled@,
            ).contains(r.stream_client@),
            a matches Action::Done(r) ==> final(self).idx == 3 || r.stream_client@ == key_at(
                final(self).idx as int,
            ),
            a is Player ==> final(self).pending is None,
            final(self).idx >= old(self).idx,
            source matches UrlSource::Direct(u) ==> (a matches Action::Validate { url: v, .. } ==> v@
                == u@),
            source matches UrlSource::Direct(u) ==> (a matches Action::TransformN { url: t } ==> t@
                == u@),
            a is Player ==> forall|k: int|
                old(self).idx < k < final(self).idx && 0 <= k ==> !#[trigger] final(self).eligible(k),
            a matches Action::Done(r) ==> final(self).idx == 2 || final(self).idx == 3
                || (final(self).idx == -1 && r.stream_client@ == MAIN_CLIENT@
                && !final(self).main_failed_before),
            a is Player ==> final(self).idx > old(self).idx,
            final(self).wf(),
            final(self).video_id == old(self).video_id,
            final(self).disabled == old(self).disabled,
            final(self).main_failed_before == old(self).main_failed_before,
            final(self).clients == old(self).clients,
            final(self).main_resp == old(self).main_resp,
            a matches Action::Player { client, .. } ==> !strings_view(old(self).disabled@).contains(client@),
            a matches Action::Done(r) ==> r.video_id@ == old(self).video_id@ && from_client(
                r,
                r.stream_client@,
                old(self).clients.view(),
                final(self).main_resp,
            ),
            !(a is Failed),
            a matches Action::Validate { url, .. } ==> final(self).validating(url@),
            final(self).quality == old(self).quality,
            final(self).sts == old(self).sts,
            final(self).po == old(self).po,
            final(self).logged_in == old(self).logged_in,
            final(self).visitor_data == old(self).visitor_data,
            a matches Action::Player { client, sts, po_token } ==> final(self).player_args(
                client@,
                sts,
                po_token,
            ),
            a matches Action::Fallback { prefer_high } ==> prefer_high == !(old(self).quality is Low),
            a matches Action::Decipher { cipher } ==> (final(self).pending_spec() matches Some(p)
                && url_source_of(p.format) == Some((false, cipher@))),
            a is TransformN ==> (final(self).pending_spec() matches Some(p) && p.needs_n),
            a matches Action::Validate { user_agent, .. } ==> final(self).agent_of_pending(user_agent),
            !(a is FetchPoTokens) && !(a is FetchSts),
            a matches Action::Player { client, .. } ==> client@ == MAIN_CLIENT@ || client@
                == AGE_GATE_CLIENT@ || (0 <= final(self).idx <= 2 && client@
                == STREAM_FALLBACK_ORDER@[final(self).idx as int]@),
            a matches Action::Done(r) ==> handed_out(
                r,
                final(self).chosen@,
                old(self).quality,
                final(self).has_high,
                final(self).idx as int,
            ),
        decreases 4 - old(self).idx, 2int,
    {
        self.source = Ghost(Some(resp));
        let needs_n = needs_n_transform(key.as_str(), self.clients.get(key.as_str()));
        match source {
            UrlSource::Direct(url) => {
                self.pending = Some(Pending { key, format, expires, url: String::new(), needs_n });
                self.after_url(url)
            },
            UrlSource::Cipher(c) => {
                self.pending = Some(Pending { key, format, expires, url: String::new(), needs_n });
                self.phase = Phase::AwaitUrl;
                Action::Decipher { cipher: c }
            },
        }
    }

    /// The candidate's URL is known: transform `n` where needed, else decide.
    fn after_url(&mut self, url: String) -> (a: Action)
        requires
            old(self).chosen@ is None,
            old(self).idx_ok(),
            old(self).pending is Some,
            old(self).idx <= 2,
        ensures
            old(self).pending matches Some(p) ==> (!held_back(
                old(self).quality,
                old(self).has_high,
                p.format,
            ) ==> (a is Decipher || a is TransformN || a is Validate || a is Done) && final(self).idx == old(self).idx),
            a is Fallback ==> final(self).idx == 3 && final(self).best is None,
            final(self).idx == old(self).idx && (final(self).pending is Some || a is Done)
                ==> final(self).source@ == old(self).source@,
            a matches Action::Done(r) ==> loop_key(r.stream_client@) && !strings_view(
                old(self).disabled@,
            ).contains(r.stream_client@),
            a matches Action::Done(r) ==> final(self).idx == 3 || r.stream_client@ == key_at(
                final(self).idx as int,
            ),
            a is Player ==> final(self).pending is None,
            final(self).idx >= old(self).idx,
            a matches Action::Validate { url: v, .. } ==> v@ == url@,
            a matches Action::TransformN { url: t } ==> t@ == url@,
            a is Player ==> forall|k: int|
                old(self).idx < k < final(self).idx && 0 <= k ==> !#[trigger] final(self).eligible(k),
            a matches Action::Done(r) ==> final(self).idx == 2 || final(self).idx == 3
                || (final(self).idx == -1 && r.stream_client@ == MAIN_CLIENT@
                && !final(self).main_failed_before),
            a is Player ==> final(self).idx > old(self).idx,
            final(self).wf(),
            final(self).video_id == old(self).video_id,
            final(self).disabled == old(self).disabled,
            final(self).main_failed_before == old(self).main_failed_before,
            final(self).clients == old(self).clients,
            final(self).main_resp == old(self).main_resp,
            a matches Action::Player { client, .. } ==> !strings_view(old(self).disabled@).contains(client@),
            a matches Action::Done(r) ==> r.video_id@ == old(self).video_id@ && from_client(
                r,
                r.stream_client@,
                old(self).clients.view(),
                final(self).main_resp,
            ),
            !(a is Failed),
            a matches Action::Validate { url, .. } ==> final(self).validating(url@),
            final(self).quality == old(self).quality,
            final(self).sts == old(self).sts,
            final(self).po == old(self).po,
            final(self).logged_in == old(self).logged_in,
            final(self).visitor_data == old(self).visitor_data,
            a matches Action::Player { client, sts, po_token } ==> final(self).player_args(
                client@,
                sts,
                po_token,
            ),
            a matches Action::Fallback { prefer_high } ==> prefer_high == !(old(self).quality is Low),
            a matches Action::Decipher { cipher } ==> (final(self).pending_spec() matches Some(p)
                && url_source_of(p.format) == Some((false, cipher@))),
            a is TransformN ==> (final(self).pending_spec() matches Some(p) && p.needs_n),
            a matches Action::Validate { user_agent, .. } ==> final(self).agent_of_pending(user_agent),
            !(a is FetchPoTokens) && !(a is FetchSts),
            a matches Action::Player { client, .. } ==> client@ == MAIN_CLIENT@ || client@
                == AGE_GATE_CLIENT@ || (0 <= final(self).idx <= 2 && client@
                == STREAM_FALLBACK_ORDER@[final(self).idx as int]@),
            a matches Action::Done(r) ==> handed_out(
                r,
                final(self).chosen@,
                old(self).quality,
                final(self).has_high,
                final(self).idx as int,
            ),
        decreases 4 - old(self).idx, 1int,
    {
        let needs_n = match &self.pending {
            Some(p) => p.needs_n,
            None => false,
        };
        if needs_n {
            self.phase = Phase::AwaitN;
            return Action::TransformN { url };
        }
        self.decide(url)
    }

    /// Decide on a candidate with its final URL: remember a lesser one while a high-quality
    /// stream exists elsewhere; accept the last client's and the (not yet failed) main client's
    /// without validation; validate any other.
    fn decide(&mut self, url: String) -> (a: Action)
        requires
            old(self).chosen@ is None,
            old(self).idx_ok(),
            old(self).pending is Some,
            old(self).idx <= 2,
        ensures
            old(self).pending matches Some(p) ==> (!held_back(
                old(self).quality,
                old(self).has_high,
                p.format,
            ) ==> (a is Decipher || a is TransformN || a is Validate || a is Done) && final(self).idx == old(self).idx),
            a is Fallback ==> final(self).idx == 3 && final(self).best is None,
            final(self).idx == old(self).idx && (final(self).pending is Some || a is Done)
                ==> final(self).source@ == old(self).source@,
            a matches Action::Done(r) ==> loop_key(r.stream_client@) && !strings_view(
                old(self).disabled@,
            ).contains(r.stream_client@),
            a matches Action::Done(r) ==> final(self).idx == 3 || r.stream_client@ == key_at(
                final(self).idx as int,
            ),
            a is Player ==> final(self).pending is None,
            final(self).idx >= old(self).idx,
            a matches Action::Validate { url: v, .. } ==> v@ == url@,
            !(a is TransformN) && !(a is Decipher),
            a is Player ==> forall|k: int|
                old(self).idx < k < final(self).idx && 0 <= k ==> !#[trigger] final(self).eligible(k),
            a matches Action::Done(r) ==> final(self).idx == 2 || final(self).idx == 3
                || (final(self).idx == -1 && r.stream_client@ == MAIN_CLIENT@
                && !final(self).main_failed_before),
            a is Player ==> final(self).idx > old(self).idx,
            final(self).wf(),
            final(self).video_id == old(self).video_id,
            final(self).disabled == old(self).disabled,
            final(self).main_failed_before == old(self).main_failed_before,
            final(self).clients == old(self).clients,
            final(self).main_resp == old(self).main_resp,
            a matches Action::Player { client, .. } ==> !strings_view(old(self).disabled@).contains(client@),
            a matches Action::Done(r) ==> r.video_id@ == old(self).video_id@ && from_client(
                r,
                r.stream_client@,
                old(self).clients.view(),
                final(self).main_resp,
            ),
            !(a is Failed),
            a matches Action::Validate { url, .. } ==> final(self).validating(url@),
            final(self).quality == old(self).quality,
            final(self).sts == old(self).sts,
            final(self).po == old(self).po,
            final(self).logged_in == old(self).logged_in,
            final(self).visitor_data == old(self).visitor_data,
            a matches Action::Player { client, sts, po_token } ==> final(self).player_args(
                client@,
                sts,
                po_token,
            ),
            a matches Action::Fallback { prefer_high } ==> prefer_high == !(old(self).quality is Low),
            a matches Action::Decipher { cipher } ==> (final(self).pending_spec() matches Some(p)
                && url_source_of(p.format) == Some((false, cipher@))),
            a is TransformN ==> (final(self).pending_spec() matches Some(p) && p.needs_n),
            a matches Action::Validate { user_agent, .. } ==> final(self).agent_of_pending(user_agent),
            !(a is FetchPoTokens) && !(a is FetchSts),
            a matches Action::Player { client, .. } ==> client@ == MAIN_CLIENT@ || client@
                == AGE_GATE_CLIENT@ || (0 <= final(self).idx <= 2 && client@
                == STREAM_FALLBACK_ORDER@[final(self).idx as int]@),
            a matches Action::Done(r) ==> handed_out(
                r,
                final(self).chosen@,
                old(self).quality,
                final(self).has_high,
                final(self).idx as int,
            ),
        decreases 4 - old(self).idx, 0int,
    {
        let p = match self.pending.take() {
            Some(p) => p,
            None => return self.fail(),
        };
        if self.prefer_high() && !is_high(&p.format) && self.has_high {
            let take = match &self.best {
                Some(b) => better(&p.format, Some(&b.format)),
                None => true,
            };
            if take {
                self.best = Some(Pending { key: p.key, format: p.format, expires: p.expires, url, needs_n: p.needs_n });
                self.best_source = Ghost(self.source@);
            }
            self.idx = self.idx + 1;
            return self.run_loop();
        }
        if self.idx == 2 {
            self.phase = Phase::Finished;
            self.chosen = Ghost(Some(p.format));
            return Action::Done(self.build(&p.format, url, p.expires, p.key.as_str()));
        }
        if self.idx == -1 && str_eq(p.key.as_str(), MAIN_CLIENT) && !self.main_failed_before {
            self.phase = Phase::Finished;
            self.chosen = Ghost(Some(p.format));
            return Action::Done(self.build(&p.format, url, p.expires, p.key.as_str()));
        }
        let user_agent = match self.clients.get(p.key.as_str()) {
            Some(c) => Some(c.user_agent.clone()),
            None => None,
        };
        let v = url.clone();
        self.pending = Some(Pending { key: p.key, format: p.format, expires: p.expires, url, needs_n: p.needs_n });
        self.phase = Phase::AwaitValidation;
        Action::Validate { url: v, user_agent }
    }

    /// All clients looked at: the remembered lesser stream, else the fallback resolver.
    fn finish(&mut self) -> (a: Action)
        requires
            old(self).chosen@ is None,
            old(self).pending is None,
            old(self).idx_ok(),
        ensures
            a is Fallback ==> final(self).idx == 3 && final(self).best is None,
            a matches Action::Done(r) ==> loop_key(r.stream_client@) && !strings_view(
                old(self).disabled@,
            ).contains(r.stream_client@),
            a matches Action::Done(r) ==> final(self).idx == 3 || r.stream_client@ == key_at(
                final(self).idx as int,
            ),
            final(self).idx >= old(self).idx,
            a matches Action::Done(r) ==> final(self).idx == 2 || final(self).idx == 3
                || (final(self).idx == -1 && r.stream_client@ == MAIN_CLIENT@
                && !final(self).main_failed_before),
            final(self).wf(),
            final(self).video_id == old(self).video_id,
            final(self).disabled == old(self).disabled,
            final(self).main_failed_before == old(self).main_failed_before,
            final(self).clients == old(self).clients,
            final(self).main_resp == old(self).main_resp,
            a matches Action::Done(r) ==> r.video_id@ == old(self).video_id@ && from_client(
                r,
                r.stream_client@,
                old(self).clients.view(),
                final(self).main_resp,
            ),
            !(a is Player) && !(a is Failed) && !(a is Validate) && !(a is Decipher) && !(a is TransformN),
            final(self).quality == old(self).quality,
            final(self).sts == old(self).sts,
            final(self).po == old(self).po,
            final(self).logged_in == old(self).logged_in,
            final(self).visitor_data == old(self).visitor_data,
            a matches Action::Player { client, sts, po_token } ==> final(self).player_args(
                client@,
                sts,
                po_token,
            ),
            a matches Action::Fallback { prefer_high } ==> prefer_high == !(old(self).quality is Low),
            a matches Action::Decipher { cipher } ==> (final(self).pending_spec() matches Some(p)
                && url_source_of(p.format) == Some((false, cipher@))),
            a is TransformN ==> (final(self).pending_spec() matches Some(p) && p.needs_n),
            a matches Action::Validate { user_agent, .. } ==> final(self).agent_of_pending(user_agent),
            !(a is FetchPoTokens) && !(a is FetchSts),
            a matches Action::Player { client, .. } ==> client@ == MAIN_CLIENT@ || client@
                == AGE_GATE_CLIENT@ || (0 <= final(self).idx <= 2 && client@
                == STREAM_FALLBACK_ORDER@[final(self).idx as int]@),
            final(self).has_high == old(self).has_high,
            a matches Action::Done(r) ==> handed_out(
                r,
                final(self).chosen@,
                old(self).quality,
                final(self).has_high,
                final(self).idx as int,
            ),
    {
        self.idx = 3;
        match self.best.take() {
            Some(b) => {
                self.phase = Phase::Finished;
                self.source = Ghost(self.best_source@);
                self.chosen = Ghost(Some(b.format));
                Action::Done(self.build(&b.format, b.url, b.expires, b.key.as_str()))
            },
            None => {
                self.phase = Phase::AwaitFallback;
                Action::Fallback { prefer_high: self.prefer_high() }
            },
        }
    }

    /// Move the resolver on by what the last action produced.
    pub fn step(&mut self, ev: Event) -> (a: Action)
        requires
            old(self).wf(),
        ensures
            keeps(*old(self), *final(self)),
            stores(*old(self), *final(self), ev),
            asks(*old(self), *final(self), a),
            hands_out(*old(self), *final(self), a),
            fails(*old(self), *final(self), ev, a),
            moves(*old(self), *final(self), ev, a),
            progresses(*old(self), *final(self), a),
            picks(*old(self), *final(self), ev, a),
            takes(*old(self), *final(self), ev, a),
    {
        match self.phase {
            Phase::Start | Phase::AwaitSts | Phase::AwaitPoTokens | Phase::AwaitMain
            | Phase::AwaitAgeRetry => self.setup_step(ev),
            _ => self.loop_step(ev),
        }
    }

    /// A move before the client loop: timestamp, PoTokens, main request, age-gate retry.
    #[verifier::rlimit(60)]
    fn setup_step(&mut self, ev: Event) -> (a: Action)
        requires
            old(self).wf(),
            old(self).phase == Phase::Start || old(self).phase == Phase::AwaitSts || old(self).phase
                == Phase::AwaitPoTokens || old(self).phase == Phase::AwaitMain || old(self).phase
                == Phase::AwaitAgeRetry,
        ensures
            keeps(*old(self), *final(self)),
            stores(*old(self), *final(self), ev),
            asks(*old(self), *final(self), a),
            hands_out(*old(self), *final(self), a),
            fails(*old(self), *final(self), ev, a),
            moves(*old(self), *final(self), ev, a),
            progresses(*old(self), *final(self), a),
            picks(*old(self), *final(self), ev, a),
            takes(*old(self), *final(self), ev, a),
    {
        match (self.phase, ev) {
            (Phase::Start, Event::Begin) => {
                self.phase = Phase::AwaitSts;
                Action::FetchSts
            },
            (Phase::AwaitSts, Event::Sts(sts)) => {
                self.sts = sts;
                let wants = match self.clients.get(MAIN_CLIENT) {
                    Some(c) => c.use_web_po_tokens,
                    None => false,
                } && self.visitor_data.is_some() && !self.disabled_has(MAIN_CLIENT);
                if wants {
                    let vd = match &self.visitor_data {
                        Some(v) => v.clone(),
                        None => String::new(),
                    };
                    self.phase = Phase::AwaitPoTokens;
                    return Action::FetchPoTokens { video_id: self.video_id.clone(), visitor_data: vd };
                }
                self.po = None;
                self.main_request()
            },
            (Phase::AwaitPoTokens, Event::PoTokens(po)) => {
                self.po = po;
                self.main_request()
            },
            (Phase::AwaitMain, Event::Player(resp)) => {
                let gated = match &resp {
                    Some(r) => r.playability_status.is_age_gated(),
                    None => false,
                };
                self.main_resp = resp;
                self.has_high = has_high(&self.main_resp);
                if self.logged_in && gated {
                    match self.clients.get(AGE_GATE_CLIENT) {
                        Some(cc) => {
                            let po_token = if cc.use_web_po_tokens {
                                self.session_pot()
                            } else {
                                None
                            };
                            let sts = if cc.use_signature_timestamp {
                                self.sts
                            } else {
                                None
                            };
                            self.phase = Phase::AwaitAgeRetry;
                            return Action::Player { client: AGE_GATE_CLIENT.to_owned(), sts, po_token };
                        },
                        None => {},
                    }
                }
                self.after_main()
            },
            (Phase::AwaitAgeRetry, Event::Player(resp)) => {
                match resp {
                    Some(r) => {
                        self.main_resp = Some(r);
                        self.has_high = has_high(&self.main_resp);
                    },
                    None => {},
                }
                self.after_main()
            },
            _ => self.fail(),
        }
    }

    /// A move in the client loop or after it: responses, URLs, validation, self-heal, fallback.
    #[verifier::rlimit(60)]
    fn loop_step(&mut self, ev: Event) -> (a: Action)
        requires
            old(self).wf(),
            !(old(self).phase == Phase::Start || old(self).phase == Phase::AwaitSts || old(
                self,
            ).phase == Phase::AwaitPoTokens || old(self).phase == Phase::AwaitMain || old(
                self,
            ).phase == Phase::AwaitAgeRetry),
        ensures
            keeps(*old(self), *final(self)),
            stores(*old(self), *final(self), ev),
            asks(*old(self), *final(self), a),
            hands_out(*old(self), *final(self), a),
            fails(*old(self), *final(self), ev, a),
            moves(*old(self), *final(self), ev, a),
            progresses(*old(self), *final(self), a),
            picks(*old(self), *final(self), ev, a),
            takes(*old(self), *final(self), ev, a),
    {
        match (self.phase, ev) {
            (Phase::AwaitClient, Event::Player(resp)) => {
                let key: &'static str = if self.idx == 0 {
                    STREAM_FALLBACK_ORDER[0]
                } else if self.idx == 1 {
                    STREAM_FALLBACK_ORDER[1]
                } else {
                    STREAM_FALLBACK_ORDER[2]
                };
                let cand = match &resp {
                    Some(r) => if r.playability_status.is_ok() {
                        candidate_of(r, self.quality)
                    } else {
                        None
                    },
                    None => None,
                };
                proof {
                    if resp is Some && usable(resp->0, self.quality, self.has_high) {
                        lemma_usable_candidate(resp->0, self.quality, self.has_high, cand);
                    }
                }
                match cand {
                    Some((format, expires, source)) => if self.idx <= 2 {
                        let ghost rr = resp->0;
                        self.begin_candidate(key.to_owned(), format, expires, source, Ghost(rr))
                    } else {
                        self.fail()
                    },
                    None => {
                        if self.idx > 2 {
                            return self.fail();
                        }
                        self.idx = self.idx + 1;
                        self.run_loop()
                    },
                }
            },
            (Phase::AwaitUrl, Event::Url(u)) => match u {
                Some(url) => if self.idx <= 2 {
                    self.after_url(url)
                } else {
                    self.fail()
                },
                None => {
                    self.pending = None;
                    if self.idx > 2 {
                        return self.fail();
                    }
                    self.idx = self.idx + 1;
                    self.run_loop()
                },
            },
            (Phase::AwaitN, Event::Transformed(url)) => {
                let web = match &self.pending {
                    Some(p) => match self.clients.get(p.key.as_str()) {
                        Some(c) => c.use_web_po_tokens,
                        None => false,
                    },
                    None => false,
                };
                let url = match (&self.po, web) {
                    (Some(po), true) => append_pot(url.as_str(), po.streaming_data.as_str()),
                    _ => url,
                };
                if self.idx > 2 {
                    return self.fail();
                }
                self.decide(url)
            },
            (Phase::AwaitValidation, Event::Validated(ok)) => {
                let p = match self.pending.take() {
                    Some(p) => p,
                    None => return self.fail(),
                };
                if ok {
                    self.phase = Phase::Finished;
                    self.chosen = Ghost(Some(p.format));
                    return Action::Done(self.build(&p.format, p.url, p.expires, p.key.as_str()));
                }
                if p.needs_n {
                    self.pending = Some(p);
                    self.phase = Phase::AwaitHeal;
                    return Action::SelfHeal;
                }
                if self.idx > 2 {
                    return self.fail();
                }
                self.idx = self.idx + 1;
                self.run_loop()
            },
            (Phase::AwaitHeal, Event::Healed) => {
                self.pending = None;
                if self.idx > 2 {
                    return self.fail();
                }
                self.idx = self.idx + 1;
                self.run_loop()
            },
            (Phase::AwaitFallback, Event::Fallback(found)) => match found {
                Some(c) => {
                    self.phase = Phase::Finished;
                    Action::Done(Resolved {
                        video_id: self.video_id.clone(),
                        stream_url: c.url,
                        itag: c.itag,
                        user_agent: None,
                        expires_in_seconds: c.expires_in_seconds,
                        playback_url: None,
                        title: c.title,
                        artists: None,
                        duration: c.duration,
                        thumbnail: None,
                        stream_client: "rustypipe".to_owned(),
                    })
                },
                None => self.fail(),
            },
            _ => self.fail(),
        }
    }
}

/// What a move of the resolver leaves as it was: the video, the disabled clients, the main
/// client's failure memory, the registry, the sign-in state, the visitor id and the quality;
/// and the resolver stays consistent.
pub open spec fn keeps(old: Resolver, new: Resolver) -> bool {
    &&& new.wf()
    &&& new.video_id_spec() == old.video_id_spec()
    &&& new.disabled_spec() == old.disabled_spec()
    &&& new.main_failed_before_spec() == old.main_failed_before_spec()
    &&& new.registry() == old.registry()
    &&& new.logged_in_spec() == old.logged_in_spec()
    &&& new.visitor_data_spec() == old.visitor_data_spec()
    &&& new.quality_spec() == old.quality_spec()
}

/// What a move stores from its event: the signature timestamp reported; the PoTokens minted
/// (none when the main request does not wait for them); the main response, and the age-gate
/// retry's response in its place when the retry got one.
pub open spec fn stores(old: Resolver, new: Resolver, ev: Event) -> bool {
    &&& new.sts_spec() == match (old.phase_spec(), ev) {
        (Phase::AwaitSts, Event::Sts(s)) => s,
        _ => old.sts_spec(),
    }
    &&& new.po_spec() == match (old.phase_spec(), ev) {
        (Phase::AwaitPoTokens, Event::PoTokens(p)) => p,
        (Phase::AwaitSts, Event::Sts(_)) => if old.wants_po() {
            old.po_spec()
        } else {
            None
        },
        _ => old.po_spec(),
    }
    &&& ev matches Event::Player(resp) ==> (old.phase_spec() == Phase::AwaitMain
        ==> new.main_resp_spec() == resp)
    &&& ev matches Event::Player(resp) ==> (old.phase_spec() == Phase::AwaitAgeRetry
        ==> new.main_resp_spec() == match resp {
        Some(r) => Some(r),
        None => old.main_resp_spec(),
    })
}

/// What the resolver asks for, it asks properly: no disabled client (but for the age-gate
/// retry); besides the main and the age-gate client, only the fallback client at the loop
/// position; each `/player` request with the arguments its client takes; PoTokens for this video
/// and visitor, the fallback with the requested quality, the deciphering of the candidate's own
/// cipher, the `n`-transform only where the candidate needs it, and a validation of the
/// candidate's URL (see `validating`) with its client's `User-Agent`.
pub open spec fn asks(old: Resolver, new: Resolver, a: Action) -> bool {
    &&& a matches Action::Player { client, .. } ==> client@ == AGE_GATE_CLIENT@
        || !old.disabled_spec().contains(client@)
    &&& a matches Action::Player { client, sts, po_token } ==> new.player_args(client@, sts, po_token)
    &&& a matches Action::Player { client, .. } ==> client@ == MAIN_CLIENT@ || client@
        == AGE_GATE_CLIENT@ || (0 <= new.loop_pos() <= 2 && client@
        == STREAM_FALLBACK_ORDER@[new.loop_pos()]@)
    &&& a matches Action::FetchPoTokens { video_id, visitor_data } ==> video_id@ == old.video_id_spec()
        && old.visitor_data_spec() == Some(visitor_data)
    &&& a matches Action::Fallback { prefer_high } ==> prefer_high == !(old.quality_spec() is Low)
    &&& a matches Action::Decipher { cipher } ==> (new.pending_spec() matches Some(p)
        && url_source_of(p.format) == Some((false, cipher@)))
    &&& a is TransformN ==> (new.pending_spec() matches Some(p) && p.needs_n)
    &&& a matches Action::Validate { url, user_agent } ==> new.validating(url@)
        && new.agent_of_pending(user_agent)
}

/// What the resolver hands out: a stream of this video, with the main response's metadata and
/// its client's `User-Agent` (see `from_client`), or the fallback resolver's (`rustypipe`);
/// labelled with a client of the loop that is not disabled: the client at the loop position,
/// whose response carried the format (the main client for the main response, also after the
/// age-gate retry), or, at position 3, the client of the remembered lesser stream; without a
/// validation only from the last client, from the main client before its stream ever failed
/// for this video, or the remembered lesser stream once every client was looked at (position
/// 3); from the client loop, the chosen format's, a held-back one only at position 3.
pub open spec fn hands_out(old: Resolver, new: Resolver, a: Action) -> bool {
    &&& a matches Action::Done(r) ==> r.video_id@ == old.video_id_spec() && ((old.phase_spec()
        == Phase::AwaitFallback && r.stream_client@ == "rustypipe"@) || from_client(
        r,
        r.stream_client@,
        old.registry(),
        new.main_resp_spec(),
    ))
    &&& a matches Action::Done(r) ==> (old.phase_spec() == Phase::AwaitFallback
        && r.stream_client@ == "rustypipe"@) || (loop_key(r.stream_client@)
        && !old.disabled_spec().contains(r.stream_client@))
    &&& a matches Action::Done(r) ==> (old.phase_spec() == Phase::AwaitFallback || new.loop_pos()
        == 3 || r.stream_client@ == key_at(new.loop_pos()))
    &&& a matches Action::Done(r) ==> (old.phase_spec() == Phase::AwaitFallback || old.phase_spec()
        == Phase::AwaitValidation || new.loop_pos() == 2 || new.loop_pos() == 3 || (new.loop_pos()
        == -1 && r.stream_client@ == MAIN_CLIENT@ && !new.main_failed_before_spec()))
    &&& old.phase_spec() != Phase::AwaitFallback ==> match a {
        Action::Done(r) => handed_out(
            r,
            new.chosen_spec(),
            old.quality_spec(),
            has_high_spec(new.main_resp_spec()),
            new.loop_pos(),
        ),
        _ => true,
    }
}

/// The client loop only moves forward: the loop position never goes back, and a fallback
/// client is asked only past the position of the last one asked, so each fallback client is
/// asked at most once and the resolution ends; on the way to the client asked, only clients
/// that may not be asked are passed over (see `eligible`).
pub open spec fn progresses(old: Resolver, new: Resolver, a: Action) -> bool {
    &&& new.loop_pos() >= old.loop_pos()
    &&& a matches Action::Player { client, .. } ==> client@ == MAIN_CLIENT@ || client@
        == AGE_GATE_CLIENT@ || new.loop_pos() > old.loop_pos()
    &&& a is Player ==> forall|k: int|
        old.loop_pos() < k < new.loop_pos() && 0 <= k ==> !#[trigger] new.eligible(k)
}

/// Which format the resolver takes: the candidate's, and the one handed out, is the best audio
/// format for the requested quality of the `/player` response it came from (`picked`); that
/// response is the one a client of the loop just answered with, or the main response (after the
/// age-gate retry, when there was one) for the main client; a candidate keeps its response while
/// its URL is deciphered, transformed and validated; and a validated candidate is handed out
/// with its own format.
pub open spec fn picks(old: Resolver, new: Resolver, ev: Event, a: Action) -> bool {
    &&& new.pending_spec() matches Some(p) ==> (new.source_spec() matches Some(r) && picked(
        r,
        old.quality_spec(),
        p.format,
    ))
    &&& (a is Done && old.phase_spec() != Phase::AwaitFallback) ==> (new.chosen_spec() matches Some(
        f,
    ) && new.source_spec() matches Some(r) && picked(r, old.quality_spec(), f))
    &&& ev matches Event::Player(Some(resp)) ==> (old.phase_spec() == Phase::AwaitClient
        && new.loop_pos() == old.loop_pos() && (new.pending_spec() is Some || a is Done)
        ==> new.source_spec() == Some(resp))
    &&& ((old.phase_spec() == Phase::AwaitMain || old.phase_spec() == Phase::AwaitAgeRetry)
        && ev is Player && new.loop_pos() == -1 && (new.pending_spec() is Some || a is Done))
        ==> new.source_spec() == new.main_resp_spec()
    &&& ((old.phase_spec() == Phase::AwaitUrl || old.phase_spec() == Phase::AwaitN
        || old.phase_spec() == Phase::AwaitValidation) && new.loop_pos() == old.loop_pos() && (
    new.pending_spec() is Some || a is Done)) ==> new.source_spec() == old.source_spec()
    &&& old.pending_spec() matches Some(p) ==> (old.phase_spec() == Phase::AwaitValidation && ev
        == Event::Validated(true) ==> new.chosen_spec() == Some(p.format))
}

/// Whether an action works on the candidate: deciphers, transforms or validates its URL, or
/// hands its stream out.
pub open spec fn works_on_candidate(a: Action) -> bool {
    a is Decipher || a is TransformN || a is Validate || a is Done
}

/// The resolver takes what is playable. A usable answer of a fallback client (`usable`), or a
/// usable main response with the main client enabled (when no age-gate retry is due), becomes
/// the candidate at once: the resolver works on it and stays at that client. So a client is
/// passed over only when its answer gives no usable candidate. The outside fallback is asked
/// only once every client of the loop was looked at (position 3) and no lesser stream was
/// remembered.
pub open spec fn takes(old: Resolver, new: Resolver, ev: Event, a: Action) -> bool {
    &&& ev matches Event::Player(Some(r)) ==> (old.phase_spec() == Phase::AwaitClient && usable(
        r,
        old.quality_spec(),
        has_high_spec(old.main_resp_spec()),
    ) ==> works_on_candidate(a) && new.loop_pos() == old.loop_pos())
    &&& ev matches Event::Player(Some(r)) ==> (((old.phase_spec() == Phase::AwaitMain && !(age_gated(
        r.playability_status.status@,
    ) && old.logged_in_spec() && old.registry().dom().contains(AGE_GATE_CLIENT@)))
        || old.phase_spec() == Phase::AwaitAgeRetry) && !old.disabled_spec().contains(MAIN_CLIENT@)
        && usable(r, old.quality_spec(), has_high_spec(Some(r))) ==> works_on_candidate(a)
        && new.loop_pos() == -1)
    &&& a is Fallback ==> new.loop_pos() == 3 && new.best_spec() is None
}

/// When the resolver gives up: only when the fallback found nothing or the event is not the
/// one it waits for; it then names the video and is finished.
pub open spec fn fails(old: Resolver, new: Resolver, ev: Event, a: Action) -> bool {
    &&& a matches Action::Failed(ResolveError::AllClientsFailed(v)) ==> v@ == old.video_id_spec()
    &&& a is Failed ==> new.phase_spec() == Phase::Finished
    &&& a is Failed ==> (old.phase_spec() == Phase::AwaitFallback && ev matches Event::Fallback(
        None,
    )) || !expected(old.phase_spec(), ev)
}

/// The move a phase makes on its event: the start fetches the timestamp; the timestamp leads
/// to PoTokens exactly when the main request waits for them, else (as the PoTokens do) to the
/// main request when the main client is in the registry and enabled; a gated main response,
/// signed in, to the age-gate client; a deciphered URL goes on to the `n`-transform or to
/// validation as it is, a transformed one with the streaming PoToken attached where the client
/// takes it (see `with_stream_pot`); a validated candidate is handed out, a rejected one that
/// needed the `n`-transform leads to the self-heal; the fallback's stream is handed out, and
/// its failure ends the resolution.
pub open spec fn moves(old: Resolver, new: Resolver, ev: Event, a: Action) -> bool {
    &&& (old.phase_spec() == Phase::Start && ev is Begin) ==> a is FetchSts
    &&& (old.phase_spec() == Phase::AwaitSts && ev is Sts) ==> (a is FetchPoTokens
        <==> old.wants_po())
    &&& ((old.phase_spec() == Phase::AwaitSts && ev is Sts && !old.wants_po()) || (
    old.phase_spec() == Phase::AwaitPoTokens && ev is PoTokens)) && old.registry().dom().contains(
        MAIN_CLIENT@,
    ) && !old.disabled_spec().contains(MAIN_CLIENT@) ==> (a matches Action::Player { client, .. }
        && client@ == MAIN_CLIENT@)
    &&& ev matches Event::Player(Some(r)) ==> (old.phase_spec() == Phase::AwaitMain && age_gated(
        r.playability_status.status@,
    ) && old.logged_in_spec() && old.registry().dom().contains(AGE_GATE_CLIENT@) ==> (
    a matches Action::Player { client, .. } && client@ == AGE_GATE_CLIENT@))
    &&& old.phase_spec() == Phase::AwaitValidation ==> match (ev, old.pending_spec()) {
        (Event::Validated(true), Some(p)) => a matches Action::Done(r) && r.stream_url@ == p.url@
            && r.stream_client@ == p.key@ && r.itag == p.format.itag as i64,
        (Event::Validated(false), Some(p)) => p.needs_n ==> a is SelfHeal,
        _ => true,
    }
    &&& ev matches Event::Url(Some(u)) ==> (old.phase_spec() == Phase::AwaitUrl ==> (
    a matches Action::TransformN { url } ==> url@ == u@))
    &&& ev matches Event::Url(Some(u)) ==> (old.phase_spec() == Phase::AwaitUrl ==> (
    a matches Action::Validate { url, .. } ==> url@ == u@))
    &&& ev matches Event::Transformed(u) ==> (old.phase_spec() == Phase::AwaitN ==> (
    a matches Action::Validate { url, .. } ==> url@ == old.with_stream_pot(u@)))
    &&& (old.phase_spec() == Phase::AwaitFallback && ev matches Event::Fallback(None)) ==> a is Failed
    &&& old.phase_spec() == Phase::AwaitFallback ==> match ev {
        Event::Fallback(Some(c)) => a matches Action::Done(r) && r.stream_client@ == "rustypipe"@
            && r.stream_url == c.url,
        _ => true,
    }
}

/// A playable response the resolver takes a candidate from at once: streaming data with an
/// expiry, whose best audio format for quality `q` has a URL or a cipher and is not held back
/// for a high-quality stream elsewhere (`high_offered`: the main response offers one).
pub open spec fn usable(r: PlayerResponse, q: AudioQuality, high_offered: bool) -> bool {
    &&& r.playability_status.status@ == "OK"@
    &&& r.streaming_data matches Some(sd) && sd.expires_in_seconds is Some && exists|i: int|
        is_best(sd.adaptive_formats@, q, i) && url_source_of(#[trigger] sd.adaptive_formats@[i])
            is Some && !held_back(q, high_offered, sd.adaptive_formats@[i])
}

/// From a usable response a candidate comes out, and it is the one not held back.
proof fn lemma_usable_candidate(
    r: PlayerResponse,
    q: AudioQuality,
    high: bool,
    c: Option<(Format, i64, UrlSource)>,
)
    requires
        usable(r, q, high),
        match c {
            Some((f, e, src)) => r.streaming_data matches Some(sd) && sd.expires_in_seconds
                == Some(e) && (exists|i: int| is_best(sd.adaptive_formats@, q, i) && f
                == #[trigger] sd.adaptive_formats@[i]) && source_matches(f, src),
            None => match r.streaming_data {
                Some(sd) => sd.expires_in_seconds is None || !any_audio(sd.adaptive_formats@)
                    || forall|i: int| #[trigger]
                    is_best(sd.adaptive_formats@, q, i) ==> url_source_of(
                        sd.adaptive_formats@[i],
                    ) is None,
                None => true,
            },
        },
    ensures
        c matches Some((f, _, _)) && !held_back(q, high, f),
{
    let sd = r.streaming_data->0;
    let s = sd.adaptive_formats@;
    let i = choose|i: int|
        is_best(s, q, i) && url_source_of(#[trigger] s[i]) is Some && !held_back(q, high, s[i]);
    assert(crate::models::player::in_pool(s, q, i));
    assert(any_audio(s)) by {
        assert(crate::models::player::spec_is_audio(s[i]));
    }
    match c {
        Some((f, _, _)) => {
            let j = choose|j: int| is_best(s, q, j) && f == #[trigger] s[j];
            law_format_choice(s, q, i, j);
        },
        None => {
            assert(is_best(s, q, i));
        },
    }
}

/// A candidate from a response: the chosen format (a copy), the stream's expiry and the
/// format's URL source; `None` when the response has no streaming data, no expiry, no audio
/// format, or a format with neither URL nor cipher.
pub fn candidate_of(resp: &PlayerResponse, quality: AudioQuality) -> (r: Option<(Format, i64, UrlSource)>)
    ensures
        match r {
            Some((f, e, src)) => resp.streaming_data matches Some(sd) && sd.expires_in_seconds
                == Some(e) && (exists|i: int| is_best(sd.adaptive_formats@, quality, i) && f
                == #[trigger] sd.adaptive_formats@[i]) && source_matches(f, src),
            None => match resp.streaming_data {
                Some(sd) => sd.expires_in_seconds is None || !any_audio(sd.adaptive_formats@)
                    || forall|i: int| #[trigger]
                    is_best(sd.adaptive_formats@, quality, i) ==> url_source_of(
                        sd.adaptive_formats@[i],
                    ) is None,
                None => true,
            },
        },
{
    let sd = match &resp.streaming_data {
        Some(sd) => sd,
        None => return None,
    };
    let expires = match sd.expires_in_seconds {
        Some(e) => e,
        None => return None,
    };
    let f = match find_format(sd, quality) {
        Some(f) => f,
        None => return None,
    };
    match url_source(f) {
        Some(src) => Some((copy_format(f), expires, src)),
        None => {
            proof {
                let s = sd.adaptive_formats@;
                let i = choose|i: int| is_best(s, quality, i) && *f == #[trigger] s[i];
                assert forall|j: int| #[trigger] is_best(s, quality, j) implies url_source_of(
                    s[j],
                ) is None by {
                    law_format_choice(s, quality, i, j);
                }
            }
            None
        },
    }
}

} // verus!
