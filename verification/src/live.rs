//! Provider configuration, base-URL validation, and the decisions of a live
//! dictation session: voice-activity segmentation, preview commits, WAV framing
//! and the choice of the final transcript.

use vstd::prelude::*;
use vstd::string::*;

use crate::state::opt_str;
use crate::text::{is_prefix, lemma_trim_idempotent, same_str, starts_with, trim, trim_str};

verus! {

/// What a transcription request needs to know about the provider.
#[derive(Clone)]
pub struct ApiConfig {
    pub api_key: String,
    pub base_url: String,
    pub model: String,
    pub language: Option<String>,
}

/// The two parts of a parsed URL that the base-URL check reads.
pub struct UrlParts {
    pub scheme: String,
    pub host: Option<String>,
}

/// The view of what the URL parser returned.
pub open spec fn url_parts_view(o: Option<UrlParts>) -> Option<(Seq<char>, Option<Seq<char>>)> {
    match o {
        Some(p) => Some((p.scheme@, opt_str(p.host))),
        None => None,
    }
}

/// What the WHATWG URL parser (`reqwest::Url::parse`) makes of a string:
/// `None` when it is not an absolute URL, else the scheme and the host.
pub uninterp spec fn parsed_url(input: Seq<char>) -> Option<(Seq<char>, Option<Seq<char>>)>;

/// Parses `input` with `reqwest::Url::parse` (the `url` crate) and reads back
/// `Url::scheme` and `Url::host_str`. The contract claims only that the result
/// is the parser's, a function of the input string: `None` exactly when the
/// parse fails, else the scheme and the host as the parser gives them.
#[verifier::external_body]
fn parse_url(input: &str) -> (r: Option<UrlParts>)
    ensures
        url_parts_view(r) == parsed_url(input@),
{
    match reqwest::Url::parse(input) {
        Ok(u) => Some(
            UrlParts { scheme: u.scheme().to_string(), host: u.host_str().map(|h| h.to_string()) },
        ),
        Err(_) => None,
    }
}

/// A lower-case hexadecimal digit, as the URL parser writes IPv6 groups.
pub open spec fn is_hex(c: char) -> bool {
    let u = c as u32;
    (48 <= u <= 57) || (97 <= u <= 102)
}

/// One IPv6 group as the parser writes it: one to four hex digits.
pub open spec fn hex_group(g: Seq<char>) -> bool {
    1 <= g.len() <= 4 && forall|i: int| 0 <= i < g.len() ==> is_hex(#[trigger] g[i])
}

/// The bracketed host is `p` followed by exactly one more group and `]`,
/// i.e. an IPv6 address whose last 32 bits are `a9fe:XXXX` (169.254.0.0/16)
/// under the prefix `p`.
pub open spec fn ends_in_one_group(h: Seq<char>, p: Seq<char>) -> bool {
    &&& is_prefix(p, h)
    &&& h.len() >= p.len() + 1
    &&& h.last() == ']'
    &&& hex_group(h.subrange(p.len() as int, h.len() - 1))
}

/// A bracketed IPv6 host in `fe80::/10`: its first group is four hex digits
/// from `fe80` to `febf`.
pub open spec fn link_local_v6(h: Seq<char>) -> bool {
    &&& h.len() >= 6
    &&& h[0] == '['
    &&& h[1] == 'f'
    &&& h[2] == 'e'
    &&& (h[3] == '8' || h[3] == '9' || h[3] == 'a' || h[3] == 'b')
    &&& is_hex(h[4])
    &&& h[5] == ':'
}

/// A host, as the URL parser writes it, that reaches a cloud or link-local
/// metadata endpoint: an IPv4 address in `169.254.0.0/16`, the same address
/// embedded in IPv6 (IPv4-mapped `::ffff:a9fe:XXXX`, IPv4-compatible
/// `::a9fe:XXXX`, NAT64 `64:ff9b::a9fe:XXXX`), an IPv6 link-local address in
/// `fe80::/10`, or the IPv6 instance-metadata address `fd00:ec2::254`. The
/// parser writes IPv6 hosts in brackets, in lower case, in their shortest
/// form, each group without leading zeros.
pub open spec fn metadata_host(h: Seq<char>) -> bool {
    ||| is_prefix("169.254."@, h)
    ||| ends_in_one_group(h, "[::ffff:a9fe:"@)
    ||| ends_in_one_group(h, "[::a9fe:"@)
    ||| ends_in_one_group(h, "[64:ff9b::a9fe:"@)
    ||| link_local_v6(h)
    ||| h == "[fd00:ec2::254]"@
}

/// A base URL passes only with the `http` or `https` scheme and a host.
pub proof fn lemma_verdict_needs_http_and_host(
    parsed: Option<(Seq<char>, Option<Seq<char>>)>,
)
    ensures
        base_url_verdict_of(parsed) is Ok ==> (parsed matches Some((scheme, host)) && (scheme
            == "http"@ || scheme == "https"@) && host is Some),
        parsed is None ==> base_url_verdict_of(parsed) == Err::<(), Seq<char>>(
            "invalid base URL"@,
        ),
{
}

/// Each refusal says why: an unparsable URL, a scheme other than `http` or
/// `https` (named in the message), a URL without a host, or a host in
/// `169.254.0.0/16` or at an IPv6 metadata or link-local address.
pub proof fn lemma_verdict_errors(scheme: Seq<char>, h: Seq<char>)
    ensures
        !(scheme == "http"@ || scheme == "https"@) ==> base_url_verdict_of(Some((scheme, Some(h))))
            == Err::<(), Seq<char>>("unsupported URL scheme: "@ + scheme),
        (scheme == "http"@ || scheme == "https"@) ==> base_url_verdict_of(Some((scheme, None)))
            == Err::<(), Seq<char>>("base URL has no host"@),
        (scheme == "http"@ || scheme == "https"@) && is_prefix("169.254."@, h)
            ==> base_url_verdict_of(Some((scheme, Some(h)))) == Err::<(), Seq<char>>(
            "base URL host is not allowed"@,
        ),
        (scheme == "http"@ || scheme == "https"@) && (h == "[fd00:ec2::254]"@ || h == "[fe80::1]"@
            || h == "[::ffff:a9fe:a9fe]"@) ==> base_url_verdict_of(Some((scheme, Some(h))))
            == Err::<(), Seq<char>>("base URL host is not allowed"@),
{
    reveal_strlit("[fe80::1]");
    reveal_strlit("[::ffff:a9fe:a9fe]");
    reveal_strlit("[::ffff:a9fe:");
    if h == "[::ffff:a9fe:a9fe]"@ {
        assert(h.subrange(0, 13) =~= "[::ffff:a9fe:"@);
        let g = h.subrange(13, h.len() - 1);
        assert(g =~= seq!['a', '9', 'f', 'e']);
        assert(hex_group(g));
    }
}

/// A host that is not bracketed (a domain name or a dotted IPv4 address) is
/// refused only in `169.254.0.0/16`: LAN and other private hosts such as
/// `10.x.y.z` or `192.168.x.y` pass.
pub proof fn lemma_unbracketed_host_refused_only_link_local(h: Seq<char>)
    requires
        !is_prefix("169.254."@, h),
        h.len() == 0 || h[0] != '[',
    ensures
        !metadata_host(h),
        base_url_verdict_of(Some(("http"@, Some(h)))) == Ok::<(), Seq<char>>(()),
        base_url_verdict_of(Some(("https"@, Some(h)))) == Ok::<(), Seq<char>>(()),
{
    reveal_strlit("[::ffff:a9fe:");
    reveal_strlit("[::a9fe:");
    reveal_strlit("[64:ff9b::a9fe:");
    reveal_strlit("[fd00:ec2::254]");
    if is_prefix("[::ffff:a9fe:"@, h) {
        assert(h[0] == h.subrange(0, 13)[0]);
    }
    if is_prefix("[::a9fe:"@, h) {
        assert(h[0] == h.subrange(0, 8)[0]);
    }
    if is_prefix("[64:ff9b::a9fe:"@, h) {
        assert(h[0] == h.subrange(0, 15)[0]);
    }
}

/// Whether a character is a lower-case hexadecimal digit.
fn is_hex_char(c: char) -> (r: bool)
    ensures
        r == is_hex(c),
{
    let u: u32 = c as u32;
    (48 <= u && u <= 57) || (97 <= u && u <= 102)
}

/// Whether `h` is `p` followed by one IPv6 group and `]`.
fn is_one_group_after(h: &str, p: &str) -> (r: bool)
    ensures
        r == ends_in_one_group(h@, p@),
{
    if !starts_with(h, p) {
        return false;
    }
    let n: usize = h.unicode_len();
    let m: usize = p.unicode_len();
    if n - m < 2 {
        assert(h@.len() < p@.len() + 1 || h@.subrange(m as int, h@.len() - 1).len() == 0);
        return false;
    }
    let ghost g = h@.subrange(m as int, n - 1);
    if n - 1 - m > 4 || h.get_char(n - 1) != ']' {
        assert(g.len() > 4 || h@.last() != ']');
        return false;
    }
    let mut i: usize = m;
    while i < n - 1
        invariant
            n == h@.len(),
            m == p@.len(),
            is_prefix(p@, h@),
            h@.last() == ']',
            m + 2 <= n,
            n - 1 - m <= 4,
            m <= i <= n - 1,
            g == h@.subrange(m as int, n - 1),
            forall|j: int| 0 <= j < i - m ==> is_hex(#[trigger] g[j]),
        decreases n - 1 - i,
    {
        let c: char = h.get_char(i);
        assert(g[i - m] == h@[i as int]);
        if !is_hex_char(c) {
            assert(!is_hex(g[i - m]));
            assert(!hex_group(g));
            return false;
        }
        i = i + 1;
    }
    true
}

/// Whether `h` is a bracketed IPv6 host in `fe80::/10`.
fn is_link_local_v6(h: &str) -> (r: bool)
    ensures
        r == link_local_v6(h@),
{
    let n: usize = h.unicode_len();
    if n < 6 {
        return false;
    }
    let c3: char = h.get_char(3);
    h.get_char(0) == '[' && h.get_char(1) == 'f' && h.get_char(2) == 'e' && (c3 == '8' || c3
        == '9' || c3 == 'a' || c3 == 'b') && is_hex_char(h.get_char(4)) && h.get_char(5) == ':'
}

/// Whether a host reaches a metadata endpoint.
pub fn is_metadata_host(h: &str) -> (r: bool)
    ensures
        r == metadata_host(h@),
{
    starts_with(h, "169.254.") || is_one_group_after(h, "[::ffff:a9fe:") || is_one_group_after(
        h,
        "[::a9fe:",
    ) || is_one_group_after(h, "[64:ff9b::a9fe:") || is_link_local_v6(h) || same_str(
        h,
        "[fd00:ec2::254]",
    )
}

/// The verdict on a provider base URL, given what the URL parser made of it.
pub open spec fn base_url_verdict_of(parsed: Option<(Seq<char>, Option<Seq<char>>)>) -> Result<
    (),
    Seq<char>,
> {
    match parsed {
        None => Err("invalid base URL"@),
        Some((scheme, host)) => if !(scheme == "http"@ || scheme == "https"@) {
            Err("unsupported URL scheme: "@ + scheme)
        } else {
            match host {
                None => Err("base URL has no host"@),
                Some(h) => if metadata_host(h) {
                    Err("base URL host is not allowed"@)
                } else {
                    Ok(())
                },
            }
        },
    }
}

/// The verdict on the base URL `input`.
pub open spec fn base_url_verdict(input: Seq<char>) -> Result<(), Seq<char>> {
    base_url_verdict_of(parsed_url(input))
}

/// The view of a `Result<(), String>`.
pub open spec fn unit_result_view(r: Result<(), String>) -> Result<(), Seq<char>> {
    match r {
        Ok(()) => Ok(()),
        Err(e) => Err(e@),
    }
}

/// Checks the parts of a parsed base URL: the scheme must be `http` or
/// `https`, there must be a host, and the host must not reach a cloud or
/// link-local metadata endpoint ([`metadata_host`]).
pub fn check_url_parts(parts: Option<UrlParts>) -> (r: Result<(), String>)
    ensures
        unit_result_view(r) == base_url_verdict_of(url_parts_view(parts)),
        parts matches Some(q) ==> (q.host matches Some(h) ==> ((q.scheme@ == "http"@
            || q.scheme@ == "https"@) && !is_prefix("169.254."@, h@) && (h@.len() == 0 || h@[0]
            != '[') ==> r is Ok)),
{
    proof {
        if let Some(q) = &parts {
            if let Some(h) = &q.host {
                if !is_prefix("169.254."@, h@) && (h@.len() == 0 || h@[0] != '[') {
                    lemma_unbracketed_host_refused_only_link_local(h@);
                }
            }
        }
    }
    match parts {
        None => Err(String::from_str("invalid base URL")),
        Some(p) => {
            let http = String::from_str("http");
            let https = String::from_str("https");
            if !(p.scheme == http || p.scheme == https) {
                let mut msg = String::from_str("unsupported URL scheme: ");
                msg.append(p.scheme.as_str());
                return Err(msg);
            }
            match p.host {
                None => Err(String::from_str("base URL has no host")),
                Some(h) => {
                    if is_metadata_host(h.as_str()) {
                        Err(String::from_str("base URL host is not allowed"))
                    } else {
                        Ok(())
                    }
                },
            }
        },
    }
}

/// Validates a provider base URL before the stored bearer key is ever sent to
/// it: only `http`/`https` URLs whose host is not a cloud or link-local
/// metadata endpoint (such as `169.254.169.254`, in any of its IPv4 or IPv6
/// forms) pass. Other private and LAN addresses are allowed, for self-hosted
/// servers.
pub fn validate_base_url(base_url: &str) -> (r: Result<(), String>)
    ensures
        unit_result_view(r) == base_url_verdict(base_url@),
{
    let parts = parse_url(base_url);
    check_url_parts(parts)
}

/// Sample rate that transcription requests are encoded at.
pub const TARGET_RATE: u32 = 16000;

/// Analysis frame length, in milliseconds.
pub const FRAME_MS: u64 = 30;

/// Voiced run needed to enter speech, in milliseconds.
pub const SPEECH_ONSET_MS: u64 = 150;

/// Silent run that ends an utterance, in milliseconds.
pub const UTTERANCE_GAP_MS: u64 = 600;

/// Audio kept before the onset so words aren't clipped, in milliseconds.
pub const PREROLL_MS: u64 = 200;

/// Length after which continuous speech is sent off as a chunk, in milliseconds.
pub const MAX_SEGMENT_MS: u64 = 6000;

/// Frame and pre-roll lengths, in samples, for a device sample rate.
pub struct VadParams {
    pub sample_rate: u32,
    pub frame_len: usize,
    pub preroll: usize,
}

/// The frame length in samples: 30 ms of audio, and at least one sample.
pub open spec fn spec_frame_len(sample_rate: u32) -> int {
    let f = sample_rate * FRAME_MS / 1000;
    if f < 1 { 1 } else { f }
}

/// The pre-roll length in samples: 200 ms of audio.
pub open spec fn spec_preroll(sample_rate: u32) -> int {
    sample_rate * PREROLL_MS / 1000
}

impl VadParams {
    /// The segmentation parameters for audio arriving at `sample_rate`.
    pub fn new(sample_rate: u32) -> (p: VadParams)
        ensures
            p.sample_rate == sample_rate,
            p.frame_len == spec_frame_len(sample_rate),
            p.preroll == spec_preroll(sample_rate),
    {
        let f: u64 = (sample_rate as u64) * FRAME_MS / 1000;
        let frame_len: usize = if f < 1 { 1 } else { f as usize };
        let preroll: usize = ((sample_rate as u64) * PREROLL_MS / 1000) as usize;
        VadParams { sample_rate, frame_len, preroll }
    }
}

/// The segmenter's state between frames: the current voiced and silent run
/// lengths in milliseconds, whether an utterance is in progress, whether
/// speech has been detected at all, and how many samples the pending segment
/// holds.
#[derive(Clone, Copy)]
pub struct VadState {
    pub voiced_ms: u64,
    pub silence_ms: u64,
    pub in_speech: bool,
    pub had_speech: bool,
    pub seg_len: usize,
}

/// Why a pending segment is sent off for transcription.
#[derive(Clone, Copy, PartialEq, Eq, Structural)]
pub enum Flush {
    /// Nothing is sent off.
    Keep,
    /// The utterance ended at a pause.
    Pause,
    /// Speech went on for the longest segment allowed.
    Forced,
}

/// What the caller does after a frame: record voice activity, show the
/// speech cue, adapt the noise floor, drop the oldest samples of the pending
/// segment so that `keep` remain, and send the segment off.
#[derive(Clone, Copy)]
pub struct VadStep {
    pub activity: bool,
    pub onset: bool,
    pub adapt_noise: bool,
    pub keep: Option<usize>,
    pub flush: Flush,
}

/// `a + b`, saturated at `u64::MAX`.
pub open spec fn sat_add(a: u64, b: u64) -> u64 {
    if a + b > u64::MAX { u64::MAX } else { (a + b) as u64 }
}

/// A pending segment of `len` samples at `sample_rate` lasts at least the
/// longest segment allowed (`len / rate * 1000 >= 6000`, with an empty
/// segment never counting as long).
pub open spec fn segment_full(len: int, sample_rate: u32) -> bool {
    len > 0 && len * 1000 >= MAX_SEGMENT_MS * sample_rate
}

impl VadState {
    /// The state before the first frame.
    pub fn new() -> (s: VadState)
        ensures
            s.voiced_ms == 0,
            s.silence_ms == 0,
            !s.in_speech,
            !s.had_speech,
            s.seg_len == 0,
    {
        VadState { voiced_ms: 0, silence_ms: 0, in_speech: false, had_speech: false, seg_len: 0 }
    }

    /// The state after a frame, before a long segment is sent off.
    pub open spec fn after_frame(self, p: VadParams, voiced: bool) -> VadState {
        let len = self.seg_len + p.frame_len;
        if voiced {
            VadState {
                voiced_ms: sat_add(self.voiced_ms, FRAME_MS as u64),
                silence_ms: 0,
                in_speech: self.in_speech || sat_add(self.voiced_ms, FRAME_MS as u64)
                    >= SPEECH_ONSET_MS,
                had_speech: self.had_speech || (!self.in_speech && sat_add(
                    self.voiced_ms,
                    FRAME_MS as u64,
                ) >= SPEECH_ONSET_MS),
                seg_len: len as usize,
            }
        } else if !self.in_speech {
            VadState {
                voiced_ms: 0,
                silence_ms: sat_add(self.silence_ms, FRAME_MS as u64),
                in_speech: false,
                had_speech: self.had_speech,
                seg_len: (if len > p.preroll { p.preroll as int } else { len }) as usize,
            }
        } else if sat_add(self.silence_ms, FRAME_MS as u64) >= UTTERANCE_GAP_MS {
            VadState {
                voiced_ms: 0,
                silence_ms: sat_add(self.silence_ms, FRAME_MS as u64),
                in_speech: false,
                had_speech: self.had_speech,
                seg_len: 0,
            }
        } else {
            VadState {
                voiced_ms: 0,
                silence_ms: sat_add(self.silence_ms, FRAME_MS as u64),
                in_speech: true,
                had_speech: self.had_speech,
                seg_len: len as usize,
            }
        }
    }

    /// The state after a frame that was classified `voiced` (its energy above
    /// the adaptive threshold) or silent.
    pub open spec fn next(self, p: VadParams, voiced: bool) -> VadState {
        let a = self.after_frame(p, voiced);
        if a.in_speech && segment_full(a.seg_len as int, p.sample_rate) {
            VadState { seg_len: 0, ..a }
        } else {
            a
        }
    }

    /// Advances the segmenter by one frame of `p.frame_len` samples that was
    /// classified `voiced` or silent, and says what the caller must do:
    /// a voiced frame records activity and, after 150 ms of voiced frames,
    /// starts an utterance (`onset`); a silent frame outside speech adapts
    /// the noise floor and trims the segment to the pre-roll; 600 ms of
    /// silence inside speech ends the utterance (`Flush::Pause`); a segment
    /// that reaches 6 s during speech is sent off (`Flush::Forced`).
    pub fn step(&mut self, p: &VadParams, voiced: bool) -> (r: VadStep)
        requires
            old(self).seg_len + p.frame_len <= usize::MAX,
        ensures
            *final(self) == old(self).next(*p, voiced),
            r.activity == voiced,
            r.onset == (voiced && !old(self).in_speech && final(self).in_speech),
            r.adapt_noise == (!voiced && !old(self).in_speech),
            r.keep == (if !voiced && !old(self).in_speech && old(self).seg_len + p.frame_len
                > p.preroll {
                Some(p.preroll)
            } else {
                None::<usize>
            }),
            r.flush == (if !voiced && old(self).in_speech && !old(self).after_frame(
                *p,
                voiced,
            ).in_speech {
                Flush::Pause
            } else if old(self).after_frame(*p, voiced).in_speech && segment_full(
                old(self).after_frame(*p, voiced).seg_len as int,
                p.sample_rate,
            ) {
                Flush::Forced
            } else {
                Flush::Keep
            }),
            final(self).in_speech ==> !segment_full(final(self).seg_len as int, p.sample_rate),
            !old(self).in_speech && final(self).in_speech ==> voiced && final(self).voiced_ms
                >= SPEECH_ONSET_MS,
            r.flush == Flush::Pause ==> !final(self).in_speech && final(self).silence_ms
                >= UTTERANCE_GAP_MS,
            !voiced && !old(self).in_speech ==> final(self).seg_len <= p.preroll,
            final(self).had_speech == (old(self).had_speech || r.onset),
            !voiced ==> final(self).voiced_ms == 0 && !r.onset,
            voiced ==> final(self).voiced_ms == (if old(self).voiced_ms + FRAME_MS > u64::MAX {
                u64::MAX
            } else {
                (old(self).voiced_ms + FRAME_MS) as u64
            }),
            r.onset <==> (voiced && !old(self).in_speech && old(self).voiced_ms + FRAME_MS
                >= SPEECH_ONSET_MS),
    {
        let len: usize = self.seg_len + p.frame_len;
        let mut onset: bool = false;
        let mut adapt_noise: bool = false;
        let mut keep: Option<usize> = None;
        let mut flush: Flush = Flush::Keep;
        if voiced {
            self.voiced_ms = if self.voiced_ms > u64::MAX - FRAME_MS {
                u64::MAX
            } else {
                self.voiced_ms + FRAME_MS
            };
            self.silence_ms = 0;
            self.seg_len = len;
            if !self.in_speech && self.voiced_ms >= SPEECH_ONSET_MS {
                self.in_speech = true;
                self.had_speech = true;
                onset = true;
            }
        } else {
            self.silence_ms = if self.silence_ms > u64::MAX - FRAME_MS {
                u64::MAX
            } else {
                self.silence_ms + FRAME_MS
            };
            self.voiced_ms = 0;
            if !self.in_speech {
                adapt_noise = true;
                if len > p.preroll {
                    keep = Some(p.preroll);
                    self.seg_len = p.preroll;
                } else {
                    self.seg_len = len;
                }
            } else if self.silence_ms >= UTTERANCE_GAP_MS {
                self.in_speech = false;
                self.seg_len = 0;
                flush = Flush::Pause;
            } else {
                self.seg_len = len;
            }
        }
        if self.in_speech {
            let seg: u128 = self.seg_len as u128;
            assert(seg <= u64::MAX);
            let rate: u128 = p.sample_rate as u128;
            assert(rate <= u32::MAX);
            if seg > 0 && seg * 1000 >= 6000 * rate {
                self.seg_len = 0;
                flush = Flush::Forced;
            }
        }
        VadStep { activity: voiced, onset, adapt_noise, keep, flush }
    }
}

/// A silent frame ends the voiced run, inside or outside speech: the run
/// starts again from nothing, so scattered voiced frames never add up.
pub proof fn lemma_silent_frame_resets_voiced_run(s: VadState, p: VadParams)
    ensures
        s.next(p, false).voiced_ms == 0,
        s.next(p, false).had_speech == s.had_speech,
        !s.in_speech ==> !s.next(p, false).in_speech,
{
}

/// A voiced frame lengthens the voiced run by one frame (30 ms), and speech
/// starts exactly when the run reaches 150 ms.
pub proof fn lemma_voiced_frame_extends_run(s: VadState, p: VadParams)
    ensures
        s.voiced_ms + 30 <= u64::MAX ==> s.next(p, true).voiced_ms == s.voiced_ms + 30,
        s.next(p, true).silence_ms == 0,
        !s.in_speech ==> (s.next(p, true).in_speech <==> s.voiced_ms + 30 >= 150),
        s.in_speech ==> s.next(p, true).in_speech,
        s.seg_len + p.frame_len <= usize::MAX && !s.next(p, true).in_speech ==> s.next(
            p,
            true,
        ).seg_len == s.seg_len + p.frame_len,
        s.next(p, true).had_speech == (s.had_speech || (!s.in_speech && s.next(p, true).in_speech)),
{
}

/// Frames are 30 ms of samples (at least one sample) and the pre-roll is
/// 200 ms of samples, rounded down.
pub proof fn lemma_params_durations(sample_rate: u32)
    ensures
        spec_frame_len(sample_rate) >= 1,
        sample_rate * 30 < 1000 ==> spec_frame_len(sample_rate) == 1,
        sample_rate * 30 >= 1000 ==> spec_frame_len(sample_rate) * 1000 <= sample_rate * 30 < (
        spec_frame_len(sample_rate) + 1) * 1000,
        spec_preroll(sample_rate) * 1000 <= sample_rate * 200 < (spec_preroll(sample_rate) + 1)
            * 1000,
{
}

/// Inside speech, a silent frame ends the utterance exactly when the silent
/// run reaches 600 ms; the segment is then handed off and starts empty.
/// Otherwise the frame joins the segment (unless the segment has reached
/// 6 s and is sent off).
pub proof fn lemma_pause_ends_utterance(s: VadState, p: VadParams)
    requires
        s.in_speech,
        s.silence_ms + 30 <= u64::MAX,
        s.seg_len + p.frame_len <= usize::MAX,
    ensures
        s.next(p, false).silence_ms == s.silence_ms + 30,
        s.next(p, false).in_speech <==> s.silence_ms + 30 < 600,
        !s.next(p, false).in_speech ==> s.next(p, false).seg_len == 0,
        s.next(p, false).in_speech && (s.seg_len + p.frame_len) * 1000 < 6000 * p.sample_rate
            ==> s.next(p, false).seg_len == s.seg_len + p.frame_len,
{
}

/// Outside speech, a silent frame keeps the segment to the last 200 ms (the
/// pre-roll): it holds the frame added, cut to the pre-roll length.
pub proof fn lemma_quiet_keeps_preroll(s: VadState, p: VadParams)
    requires
        !s.in_speech,
        s.seg_len + p.frame_len <= usize::MAX,
    ensures
        s.next(p, false).seg_len == (if s.seg_len + p.frame_len > p.preroll {
            p.preroll as int
        } else {
            s.seg_len + p.frame_len
        }),
        !s.next(p, false).in_speech,
        s.silence_ms + 30 <= u64::MAX ==> s.next(p, false).silence_ms == s.silence_ms + 30,
        s.next(p, false).had_speech == s.had_speech,
{
}

/// During speech, the segment grows by each frame until it holds 6 s of
/// audio (`len * 1000 >= 6000 * rate`), when it is sent off and starts empty.
pub proof fn lemma_long_speech_is_chunked(s: VadState, p: VadParams, voiced: bool)
    requires
        s.in_speech,
        voiced || s.silence_ms + 30 < 600,
        s.seg_len + p.frame_len <= usize::MAX,
    ensures
        s.next(p, voiced).in_speech,
        (s.seg_len + p.frame_len) * 1000 >= 6000 * p.sample_rate ==> s.next(p, voiced).seg_len
            == 0,
        (s.seg_len + p.frame_len) * 1000 < 6000 * p.sample_rate ==> s.next(p, voiced).seg_len
            == s.seg_len + p.frame_len,
{
}

/// The state after a run of frames, each voiced or silent.
pub open spec fn run_frames(s: VadState, p: VadParams, frames: Seq<bool>) -> VadState
    decreases frames.len(),
{
    if frames.len() == 0 {
        s
    } else {
        run_frames(s, p, frames.drop_last()).next(p, frames.last())
    }
}

/// The number of voiced frames at the end of a run, after its last silent one.
pub open spec fn trailing_voiced(frames: Seq<bool>) -> nat
    decreases frames.len(),
{
    if frames.len() == 0 || !frames.last() {
        0
    } else {
        trailing_voiced(frames.drop_last()) + 1
    }
}

/// After a run of frames that contains a silent frame, the voiced run is 30 ms
/// for each voiced frame after the last silent one: only consecutive voiced
/// frames count towards the 150 ms that start speech.
pub proof fn lemma_voiced_run_counts_consecutive_frames(
    s: VadState,
    p: VadParams,
    frames: Seq<bool>,
)
    requires
        frames.len() <= 1000,
        s.voiced_ms == 0,
    ensures
        run_frames(s, p, frames).voiced_ms == 30 * trailing_voiced(frames),
    decreases frames.len(),
{
    if frames.len() > 0 {
        lemma_voiced_run_counts_consecutive_frames(s, p, frames.drop_last());
        lemma_trailing_le_len(frames.drop_last());
    }
}

/// There are no more trailing voiced frames than frames.
proof fn lemma_trailing_le_len(frames: Seq<bool>)
    ensures
        trailing_voiced(frames) <= frames.len(),
    decreases frames.len(),
{
    if frames.len() > 0 {
        lemma_trailing_le_len(frames.drop_last());
    }
}

/// Outside speech, a frame starts speech only when it and the four frames
/// before it were all voiced.
pub proof fn lemma_onset_needs_consecutive_voice(s: VadState, p: VadParams, frames: Seq<bool>)
    requires
        frames.len() <= 1000,
        s.voiced_ms == 0,
        frames.len() > 0,
        !run_frames(s, p, frames.drop_last()).in_speech,
        run_frames(s, p, frames).in_speech,
    ensures
        trailing_voiced(frames) >= 5,
{
    lemma_voiced_run_counts_consecutive_frames(s, p, frames);
    lemma_voiced_run_counts_consecutive_frames(s, p, frames.drop_last());
}

/// Outcome of finishing a live session.
pub enum FinalTranscript {
    /// The best available transcript (final pass, or per-utterance preview).
    Text(String),
    /// Audio was captured but speech was never detected.
    NoSpeech,
    /// Speech was detected but transcription returned no text.
    NoText,
    /// Transcription failed and no preview text was available.
    Error(String),
}

/// A transcript outcome as plain values.
pub enum TranscriptView {
    Text(Seq<char>),
    NoSpeech,
    NoText,
    Error(Seq<char>),
}

impl FinalTranscript {
    /// The outcome with its strings taken by their views.
    pub open spec fn view(self) -> TranscriptView {
        match self {
            FinalTranscript::Text(t) => TranscriptView::Text(t@),
            FinalTranscript::NoSpeech => TranscriptView::NoSpeech,
            FinalTranscript::NoText => TranscriptView::NoText,
            FinalTranscript::Error(e) => TranscriptView::Error(e@),
        }
    }
}

/// What the single re-transcription of all captured speech gave.
pub enum FinalPass {
    /// No pass was made: no speech audio was kept, or resampling failed.
    Skipped,
    /// The provider answered with this text.
    Transcribed(String),
    /// The request failed with this message.
    Failed(String),
}

/// The per-utterance preview as an outcome: its trimmed text, or, when that
/// is empty, whether speech had been heard at all.
pub open spec fn preview_outcome(committed: Seq<char>, had_speech: bool) -> TranscriptView {
    if trim(committed).len() == 0 {
        if had_speech {
            TranscriptView::NoText
        } else {
            TranscriptView::NoSpeech
        }
    } else {
        TranscriptView::Text(trim(committed))
    }
}

/// The final outcome of a session: the final pass's trimmed text when it is
/// not blank, the preview otherwise; a failed pass is reported only when there
/// is no preview text to fall back on.
pub open spec fn final_outcome(
    committed: Seq<char>,
    had_speech: bool,
    pass: FinalPass,
) -> TranscriptView {
    match pass {
        FinalPass::Skipped => preview_outcome(committed, had_speech),
        FinalPass::Transcribed(t) => if trim(t@).len() > 0 {
            TranscriptView::Text(trim(t@))
        } else {
            preview_outcome(committed, had_speech)
        },
        FinalPass::Failed(e) => if trim(committed).len() == 0 {
            TranscriptView::Error(e@)
        } else {
            TranscriptView::Text(trim(committed))
        },
    }
}

/// Chooses the transcript that ends a live session from the committed
/// per-utterance previews, whether speech was detected, and the outcome of the
/// final full-speech pass.
pub fn choose_final_transcript(committed: &str, had_speech: bool, pass: FinalPass) -> (r:
    FinalTranscript)
    ensures
        r.view() == final_outcome(committed@, had_speech, pass),
        pass matches FinalPass::Transcribed(t) ==> (trim(t@).len() > 0 ==> r.view()
            == TranscriptView::Text(trim(t@))),
        pass matches FinalPass::Failed(e) ==> r.view() == (if trim(committed@).len() == 0 {
            TranscriptView::Error(e@)
        } else {
            TranscriptView::Text(trim(committed@))
        }),
{
    let preview: String = trim_str(committed);
    let preview_empty: bool = preview.as_str().unicode_len() == 0;
    match pass {
        FinalPass::Skipped => preview_transcript(preview, had_speech),
        FinalPass::Transcribed(t) => {
            let text: String = trim_str(t.as_str());
            if text.as_str().unicode_len() > 0 {
                FinalTranscript::Text(text)
            } else {
                preview_transcript(preview, had_speech)
            }
        },
        FinalPass::Failed(e) => {
            if preview_empty {
                FinalTranscript::Error(e)
            } else {
                FinalTranscript::Text(preview)
            }
        },
    }
}

/// The preview as an outcome, given the already trimmed preview text.
fn preview_transcript(preview: String, had_speech: bool) -> (r: FinalTranscript)
    ensures
        r.view() == (if preview@.len() == 0 {
            if had_speech {
                TranscriptView::NoText
            } else {
                TranscriptView::NoSpeech
            }
        } else {
            TranscriptView::Text(preview@)
        }),
{
    if preview.as_str().unicode_len() == 0 {
        if had_speech {
            FinalTranscript::NoText
        } else {
            FinalTranscript::NoSpeech
        }
    } else {
        FinalTranscript::Text(preview)
    }
}

/// A session that ends with text ends with non-blank text; it ends with an
/// error only when no preview text was committed, and with "no speech" only
/// when speech was never detected.
pub proof fn lemma_final_outcome_shape(committed: Seq<char>, had_speech: bool, pass: FinalPass)
    ensures
        final_outcome(committed, had_speech, pass) matches TranscriptView::Text(t) ==> t.len() > 0
            && trim(t) == t,
        final_outcome(committed, had_speech, pass) matches TranscriptView::Error(_) ==> trim(
            committed,
        ).len() == 0,
        final_outcome(committed, had_speech, pass) matches TranscriptView::NoSpeech ==> !had_speech,
        final_outcome(committed, had_speech, pass) matches TranscriptView::NoText ==> had_speech,
{
    lemma_trim_idempotent(committed);
    if let FinalPass::Transcribed(t) = pass {
        lemma_trim_idempotent(t@);
    }
}

/// With no usable final pass and no preview text, the outcome says whether
/// speech was detected: `NoText` if it was, `NoSpeech` if not; a failed pass
/// without preview text reports its error.
pub proof fn lemma_empty_preview_outcomes(committed: Seq<char>, had_speech: bool, e: String)
    requires
        trim(committed).len() == 0,
    ensures
        final_outcome(committed, had_speech, FinalPass::Skipped) == (if had_speech {
            TranscriptView::NoText
        } else {
            TranscriptView::NoSpeech
        }),
        final_outcome(committed, had_speech, FinalPass::Failed(e)) == TranscriptView::Error(e@),
{
}

/// A failed final pass falls back to the preview text when there is some.
pub proof fn lemma_failed_pass_keeps_preview(committed: Seq<char>, had_speech: bool, e: String)
    requires
        trim(committed).len() > 0,
    ensures
        final_outcome(committed, had_speech, FinalPass::Failed(e)) == TranscriptView::Text(
            trim(committed),
        ),
{
}

/// A final pass with non-blank text always decides the transcript: its
/// trimmed text, whatever the preview held and whether speech was detected.
pub proof fn lemma_final_pass_wins(
    committed: Seq<char>,
    had_speech: bool,
    other_committed: Seq<char>,
    other_had_speech: bool,
    t: String,
)
    requires
        trim(t@).len() > 0,
    ensures
        final_outcome(committed, had_speech, FinalPass::Transcribed(t)) == TranscriptView::Text(
            trim(t@),
        ),
        final_outcome(committed, had_speech, FinalPass::Transcribed(t)) == final_outcome(
            other_committed,
            other_had_speech,
            FinalPass::Transcribed(t),
        ),
{
}

/// Without a final pass, the outcome is the trimmed preview when there is one.
pub proof fn lemma_preview_is_fallback(committed: Seq<char>, had_speech: bool, t: String)
    requires
        trim(committed).len() > 0,
        trim(t@).len() == 0,
    ensures
        final_outcome(committed, had_speech, FinalPass::Skipped) == TranscriptView::Text(
            trim(committed),
        ),
        final_outcome(committed, had_speech, FinalPass::Transcribed(t)) == TranscriptView::Text(
            trim(committed),
        ),
{
}

/// The running preview after an utterance transcribed as `text`: unchanged
/// when the trimmed text is blank, else extended by it, separated by a space
/// from what was there.
pub open spec fn committed_after(committed: Seq<char>, text: Seq<char>) -> Seq<char> {
    if trim(text).len() == 0 {
        committed
    } else if committed.len() == 0 {
        trim(text)
    } else {
        committed + " "@ + trim(text)
    }
}

/// A committed utterance is joined to a non-empty preview by exactly one
/// space, whatever the preview ends with; on an empty preview it stands alone.
pub proof fn lemma_commit_joins_with_space(committed: Seq<char>, text: Seq<char>)
    requires
        trim(text).len() > 0,
    ensures
        committed.len() > 0 ==> committed_after(committed, text) == committed + seq![' '] + trim(
            text,
        ),
        committed.len() > 0 ==> committed_after(committed, text).len() == committed.len() + 1
            + trim(text).len(),
        committed.len() > 0 ==> committed_after(committed, text)[committed.len() as int] == ' ',
        committed.len() == 0 ==> committed_after(committed, text) == trim(text),
{
    reveal_strlit(" ");
    assert(" "@ =~= seq![' ']);
}

/// The preview only grows: what was committed stays at its front.
pub proof fn lemma_commit_extends(committed: Seq<char>, text: Seq<char>)
    ensures
        is_prefix(committed, committed_after(committed, text)),
{
    let n = committed_after(committed, text);
    assert(n.subrange(0, committed.len() as int) =~= committed);
}

/// Appends the transcription of one utterance to the running preview and
/// says whether it changed (a blank transcription leaves it as it was).
pub fn commit_utterance(committed: &mut String, text: &str) -> (changed: bool)
    ensures
        final(committed)@ == committed_after(old(committed)@, text@),
        changed == (trim(text@).len() > 0),
        old(committed)@.len() > 0 && trim(text@).len() > 0 ==> final(committed)@ == old(
            committed,
        )@ + seq![' '] + trim(text@),
        old(committed)@.len() == 0 ==> final(committed)@ == trim(text@),
        trim(text@).len() == 0 ==> final(committed)@ == old(committed)@,
{
    let t: String = trim_str(text);
    proof {
        reveal_strlit(" ");
        assert(" "@ =~= seq![' ']);
    }
    if t.as_str().unicode_len() == 0 {
        return false;
    }
    if committed.as_str().unicode_len() > 0 {
        committed.append(" ");
    }
    committed.append(t.as_str());
    true
}

/// The transcription in a provider's JSON reply: its `text` field when that is
/// a string, trimmed; empty otherwise.
pub fn response_text(text_field: Option<String>) -> (r: String)
    ensures
        r@ == (match text_field {
            Some(t) => trim(t@),
            None => Seq::<char>::empty(),
        }),
{
    match text_field {
        Some(t) => trim_str(t.as_str()),
        None => String::new(),
    }
}

/// The two little-endian bytes of a 16-bit value.
pub open spec fn le16(x: int) -> Seq<u8> {
    seq![(x % 256) as u8, ((x / 256) % 256) as u8]
}

/// The four little-endian bytes of a 32-bit value.
pub open spec fn le32(x: int) -> Seq<u8> {
    seq![
        (x % 256) as u8,
        ((x / 256) % 256) as u8,
        ((x / 65536) % 256) as u8,
        ((x / 16777216) % 256) as u8,
    ]
}

/// The two's-complement bit pattern of a sample, as an unsigned value.
pub open spec fn sample_bits(v: i16) -> int {
    if v < 0 {
        v + 65536
    } else {
        v as int
    }
}

/// The little-endian bytes of the samples, one after another.
pub open spec fn pcm_bytes(pcm: Seq<i16>) -> Seq<u8>
    decreases pcm.len(),
{
    if pcm.len() == 0 {
        Seq::empty()
    } else {
        pcm_bytes(pcm.drop_last()) + le16(sample_bits(pcm.last()))
    }
}

/// The 44-byte header of a mono 16-bit PCM WAV file holding `n` samples at
/// `sample_rate`.
pub open spec fn wav_header(n: int, sample_rate: u32) -> Seq<u8> {
    seq![0x52u8, 0x49u8, 0x46u8, 0x46u8] + le32(36 + 2 * n) + seq![0x57u8, 0x41u8, 0x56u8, 0x45u8]
        + seq![0x66u8, 0x6du8, 0x74u8, 0x20u8] + le32(16) + le16(1) + le16(1) + le32(
        sample_rate as int,
    ) + le32(2 * sample_rate) + le16(2) + le16(16) + seq![0x64u8, 0x61u8, 0x74u8, 0x61u8]
        + le32(2 * n)
}

/// A complete mono 16-bit PCM WAV file of the samples.
pub open spec fn wav_bytes(pcm: Seq<i16>, sample_rate: u32) -> Seq<u8> {
    wav_header(pcm.len() as int, sample_rate) + pcm_bytes(pcm)
}

/// Appends the little-endian bytes of a 16-bit value.
fn push_le16(buf: &mut Vec<u8>, x: u32)
    requires
        x < 65536,
    ensures
        final(buf)@ == old(buf)@ + le16(x as int),
{
    buf.push((x % 256) as u8);
    buf.push(((x / 256) % 256) as u8);
    assert(final(buf)@ =~= old(buf)@ + le16(x as int));
}

/// Appends the little-endian bytes of a 32-bit value.
fn push_le32(buf: &mut Vec<u8>, x: u32)
    ensures
        final(buf)@ == old(buf)@ + le32(x as int),
{
    buf.push((x % 256) as u8);
    buf.push(((x / 256) % 256) as u8);
    buf.push(((x / 65536) % 256) as u8);
    buf.push(((x / 16777216) % 256) as u8);
    assert(final(buf)@ =~= old(buf)@ + le32(x as int));
}

/// Appends four bytes.
fn push4(buf: &mut Vec<u8>, a: u8, b: u8, c: u8, d: u8)
    ensures
        final(buf)@ == old(buf)@ + seq![a, b, c, d],
{
    buf.push(a);
    buf.push(b);
    buf.push(c);
    buf.push(d);
    assert(final(buf)@ =~= old(buf)@ + seq![a, b, c, d]);
}

/// Frames 16-bit mono samples as a PCM WAV file: the RIFF header with the
/// sizes, format (PCM, one channel, `sample_rate`, two bytes per sample) and
/// the data chunk, then each sample in little-endian order.
pub fn encode_wav(pcm: &[i16], sample_rate: u32) -> (buf: Vec<u8>)
    requires
        36 + 2 * pcm@.len() <= u32::MAX,
        2 * sample_rate <= u32::MAX,
    ensures
        buf@ == wav_bytes(pcm@, sample_rate),
        buf@.len() == 44 + 2 * pcm@.len(),
{
    let n: usize = pcm.len();
    let num_samples: u32 = n as u32;
    let data_len: u32 = num_samples * 2;
    let file_len: u32 = 36 + data_len;
    let mut buf: Vec<u8> = Vec::new();
    push4(&mut buf, 0x52, 0x49, 0x46, 0x46);
    push_le32(&mut buf, file_len);
    push4(&mut buf, 0x57, 0x41, 0x56, 0x45);
    push4(&mut buf, 0x66, 0x6d, 0x74, 0x20);
    push_le32(&mut buf, 16);
    push_le16(&mut buf, 1);
    push_le16(&mut buf, 1);
    push_le32(&mut buf, sample_rate);
    push_le32(&mut buf, sample_rate * 2);
    push_le16(&mut buf, 2);
    push_le16(&mut buf, 16);
    push4(&mut buf, 0x64, 0x61, 0x74, 0x61);
    push_le32(&mut buf, data_len);
    let ghost header = buf@;
    assert(header =~= wav_header(n as int, sample_rate));
    assert(pcm@.take(0) =~= Seq::<i16>::empty());
    let mut i: usize = 0;
    while i < n
        invariant
            n == pcm@.len(),
            i <= n,
            header.len() == 44,
            buf@ == header + pcm_bytes(pcm@.take(i as int)),
        decreases n - i,
    {
        let v: i16 = pcm[i];
        let w: u32 = if v < 0 {
            (v as i32 + 65536) as u32
        } else {
            v as u32
        };
        assert(w == sample_bits(v));
        push_le16(&mut buf, w);
        assert(pcm@.take(i + 1).drop_last() =~= pcm@.take(i as int));
        assert(pcm@.take(i + 1).last() == v);
        assert(buf@ =~= header + pcm_bytes(pcm@.take(i + 1)));
        i = i + 1;
    }
    assert(pcm@.take(n as int) =~= pcm@);
    proof {
        lemma_pcm_bytes_len(pcm@);
    }
    buf
}

/// The bytes of the samples: sample `i` is at bytes `2i` and `2i + 1`, low
/// byte first, in two's complement.
proof fn lemma_pcm_bytes_at(pcm: Seq<i16>, i: int)
    requires
        0 <= i < pcm.len(),
    ensures
        pcm_bytes(pcm).len() == 2 * pcm.len(),
        pcm_bytes(pcm)[2 * i] as int + 256 * (pcm_bytes(pcm)[2 * i + 1] as int) == sample_bits(
            pcm[i],
        ),
    decreases pcm.len(),
{
    lemma_pcm_bytes_len(pcm);
    lemma_pcm_bytes_len(pcm.drop_last());
    if i < pcm.len() - 1 {
        lemma_pcm_bytes_at(pcm.drop_last(), i);
    }
}

/// The four little-endian bytes of a 32-bit value read back as that value.
proof fn lemma_le32_value(x: int)
    requires
        0 <= x < 4294967296,
    ensures
        le32(x)[0] as int + 256 * (le32(x)[1] as int) + 65536 * (le32(x)[2] as int) + 16777216 * (
        le32(x)[3] as int) == x,
{
    let b0 = x % 256;
    let b1 = (x / 256) % 256;
    let b2 = (x / 65536) % 256;
    let b3 = (x / 16777216) % 256;
    assert(b0 + 256 * b1 + 65536 * b2 + 16777216 * b3 == x) by (nonlinear_arith)
        requires
            0 <= x < 4294967296,
            b0 == x % 256,
            b1 == (x / 256) % 256,
            b2 == (x / 65536) % 256,
            b3 == (x / 16777216) % 256,
    ;
}

/// Where the header keeps its fields: `RIFF`, the remaining length
/// `36 + 2n`, `WAVE`, the sample rate and the data length `2n`.
proof fn lemma_wav_header_fields(n: int, sample_rate: u32)
    ensures
        wav_header(n, sample_rate).len() == 44,
        wav_header(n, sample_rate).subrange(0, 4) == seq![0x52u8, 0x49u8, 0x46u8, 0x46u8],
        wav_header(n, sample_rate).subrange(4, 8) == le32(36 + 2 * n),
        wav_header(n, sample_rate).subrange(8, 12) == seq![0x57u8, 0x41u8, 0x56u8, 0x45u8],
        wav_header(n, sample_rate).subrange(24, 28) == le32(sample_rate as int),
        wav_header(n, sample_rate).subrange(40, 44) == le32(2 * n),
{
    let h = wav_header(n, sample_rate);
    assert(h.subrange(0, 4) =~= seq![0x52u8, 0x49u8, 0x46u8, 0x46u8]);
    assert(h.subrange(4, 8) =~= le32(36 + 2 * n));
    assert(h.subrange(8, 12) =~= seq![0x57u8, 0x41u8, 0x56u8, 0x45u8]);
    assert(h.subrange(24, 28) =~= le32(sample_rate as int));
    assert(h.subrange(40, 44) =~= le32(2 * n));
}

/// A WAV file of `n` samples is 44 header bytes and then two bytes per
/// sample: it starts `RIFF`, gives the remaining length `36 + 2n`, `WAVE`,
/// the sample rate, and the data length `2n`; each sample is stored low byte
/// first at offset `44 + 2i`.
pub proof fn lemma_wav_layout(pcm: Seq<i16>, sample_rate: u32, i: int)
    requires
        0 <= i < pcm.len(),
        36 + 2 * pcm.len() <= u32::MAX,
    ensures
        wav_bytes(pcm, sample_rate).len() == 44 + 2 * pcm.len(),
        wav_bytes(pcm, sample_rate).subrange(0, 4) == seq![0x52u8, 0x49u8, 0x46u8, 0x46u8],
        wav_bytes(pcm, sample_rate).subrange(8, 12) == seq![0x57u8, 0x41u8, 0x56u8, 0x45u8],
        wav_bytes(pcm, sample_rate)[4] as int + 256 * (wav_bytes(pcm, sample_rate)[5] as int)
            + 65536 * (wav_bytes(pcm, sample_rate)[6] as int) + 16777216 * (wav_bytes(
            pcm,
            sample_rate,
        )[7] as int) == 36 + 2 * pcm.len(),
        wav_bytes(pcm, sample_rate)[24] as int + 256 * (wav_bytes(pcm, sample_rate)[25] as int)
            + 65536 * (wav_bytes(pcm, sample_rate)[26] as int) + 16777216 * (wav_bytes(
            pcm,
            sample_rate,
        )[27] as int) == sample_rate as int,
        wav_bytes(pcm, sample_rate)[40] as int + 256 * (wav_bytes(pcm, sample_rate)[41] as int)
            + 65536 * (wav_bytes(pcm, sample_rate)[42] as int) + 16777216 * (wav_bytes(
            pcm,
            sample_rate,
        )[43] as int) == 2 * pcm.len(),
        wav_bytes(pcm, sample_rate)[44 + 2 * i] as int + 256 * (wav_bytes(pcm, sample_rate)[45
            + 2 * i] as int) == sample_bits(pcm[i]),
{
    let n = pcm.len() as int;
    let h = wav_header(n, sample_rate);
    let w = wav_bytes(pcm, sample_rate);
    lemma_wav_header_fields(n, sample_rate);
    lemma_pcm_bytes_at(pcm, i);
    lemma_le32_value(36 + 2 * n);
    lemma_le32_value(sample_rate as int);
    lemma_le32_value(2 * n);
    assert(w.subrange(0, 44) =~= h);
    assert(w.subrange(0, 4) =~= h.subrange(0, 4));
    assert(w.subrange(8, 12) =~= h.subrange(8, 12));
    assert(w[4] == h.subrange(4, 8)[0] && w[5] == h.subrange(4, 8)[1]);
    assert(w[6] == h.subrange(4, 8)[2] && w[7] == h.subrange(4, 8)[3]);
    assert(w[24] == h.subrange(24, 28)[0] && w[25] == h.subrange(24, 28)[1]);
    assert(w[26] == h.subrange(24, 28)[2] && w[27] == h.subrange(24, 28)[3]);
    assert(w[40] == h.subrange(40, 44)[0] && w[41] == h.subrange(40, 44)[1]);
    assert(w[42] == h.subrange(40, 44)[2] && w[43] == h.subrange(40, 44)[3]);
    assert(w[44 + 2 * i] == pcm_bytes(pcm)[2 * i]);
    assert(w[45 + 2 * i] == pcm_bytes(pcm)[2 * i + 1]);
}

/// Each sample takes two bytes.
proof fn lemma_pcm_bytes_len(pcm: Seq<i16>)
    ensures
        pcm_bytes(pcm).len() == 2 * pcm.len(),
    decreases pcm.len(),
{
    if pcm.len() > 0 {
        lemma_pcm_bytes_len(pcm.drop_last());
    }
}

/// Speech has been detected and no voiced audio has arrived for `timeout_ms`.
pub open spec fn spec_silent_for(had_speech: bool, idle_ms: int, timeout_ms: int) -> bool {
    had_speech && idle_ms >= timeout_ms
}

/// True once speech has been detected and no voiced audio has arrived for
/// `timeout_ms` milliseconds (`idle_ms` since the last voiced frame). Drives
/// silence-based auto-stop.
pub fn silent_for(had_speech: bool, idle_ms: u64, timeout_ms: u64) -> (r: bool)
    ensures
        r == spec_silent_for(had_speech, idle_ms as int, timeout_ms as int),
        r == (had_speech && idle_ms >= timeout_ms),
{
    had_speech && idle_ms >= timeout_ms
}

/// A transcription request, ready to send: the endpoint, the bearer key, the
/// form fields and the WAV file.
pub struct TranscriptionRequest {
    pub url: String,
    pub api_key: String,
    pub model: String,
    pub language: Option<String>,
    pub wav: Vec<u8>,
}

/// Prepares the request that transcribes 16 kHz samples: the base URL must
/// pass [`validate_base_url`] (its error is returned otherwise); the samples
/// are framed as a 16 kHz WAV file and posted to `{base_url}/audio/transcriptions`.
pub fn transcription_request(samples_16k: &[i16], config: &ApiConfig) -> (r: Result<
    TranscriptionRequest,
    String,
>)
    requires
        base_url_verdict(config.base_url@) is Ok ==> 36 + 2 * samples_16k@.len() <= u32::MAX,
    ensures
        r is Ok <==> base_url_verdict(config.base_url@) is Ok,
        r matches Err(e) ==> base_url_verdict(config.base_url@) == Err::<(), Seq<char>>(e@),
        r matches Ok(q) ==> {
            &&& q.url@ == config.base_url@ + "/audio/transcriptions"@
            &&& q.api_key@ == config.api_key@
            &&& q.model@ == config.model@
            &&& opt_str(q.language) == opt_str(config.language)
            &&& q.wav@ == wav_bytes(samples_16k@, TARGET_RATE)
        },
{
    match validate_base_url(config.base_url.as_str()) {
        Err(e) => {
            return Err(e);
        },
        Ok(()) => {},
    }
    let wav: Vec<u8> = encode_wav(samples_16k, TARGET_RATE);
    let mut url: String = String::from_str(config.base_url.as_str());
    url.append("/audio/transcriptions");
    let language: Option<String> = match &config.language {
        Some(l) => Some(l.clone()),
        None => None,
    };
    Ok(
        TranscriptionRequest {
            url,
            api_key: config.api_key.clone(),
            model: config.model.clone(),
            language,
            wav,
        },
    )
}

} // verus!
