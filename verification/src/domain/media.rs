//! Media rooms: configuration of the LiveKit control plane and the signed
//! room tokens it issues.
use vstd::prelude::*;

use crate::crypto::{base64_url_encode, base64_url_no_pad, bytes_of, hmac_sha256, hmac_sha256_tag, utf8_bytes};
use crate::domain::ids::{uuid_hyphenated, uuid_simple, uuid_simple_string, uuid_to_string};
use crate::domain::metrics::{decimal, decimal_of};
use crate::text::{
    chars_of, drop_trailing, eq_str, lower_seq, push_chars, push_str, string_of, strip_trailing, trim_seq, trimmed,
    trimmed_lower,
};
use crate::time::{chrono_representable, format_rfc3339, now_utc};

verus! {

/// The value of a run of decimal digits.
pub open spec fn digits_value(s: Seq<char>) -> int
    decreases s.len(),
{
    if s.len() == 0 {
        0
    } else {
        digits_value(s.drop_last()) * 10 + (s.last() as int - '0' as int)
    }
}

/// At least one character, each a decimal digit.
pub open spec fn all_digits(s: Seq<char>) -> bool {
    s.len() > 0 && forall|i: int| 0 <= i < s.len() ==> '0' <= #[trigger] s[i] <= '9'
}

/// The `i64` a text denotes, as `str::parse::<i64>` documents it: an
/// optional `+` or `-` followed by decimal digits only, and a value in range.
pub open spec fn i64_from_str(s: Seq<char>) -> Option<i64> {
    let neg = s.len() > 0 && s[0] == '-';
    let body = if s.len() > 0 && (s[0] == '-' || s[0] == '+') {
        s.drop_first()
    } else {
        s
    };
    let v = if neg {
        -digits_value(body)
    } else {
        digits_value(body)
    };
    if all_digits(body) && i64::MIN <= v <= i64::MAX {
        Some(v as i64)
    } else {
        None
    }
}

proof fn lemma_digits_value_nonneg(s: Seq<char>)
    requires
        forall|i: int| 0 <= i < s.len() ==> '0' <= #[trigger] s[i] <= '9',
    ensures
        digits_value(s) >= 0,
    decreases s.len(),
{
    if s.len() > 0 {
        lemma_digits_value_nonneg(s.drop_last());
    }
}

/// Reads a text as `str::parse::<i64>` does: an optional sign and decimal
/// digits, the value in range, else `None`.
fn parse_i64(s: &str) -> (r: Option<i64>)
    ensures
        r == i64_from_str(s@),
{
    let cs = chars_of(s);
    let n = cs.len();
    let neg = n > 0 && cs[0] == '-';
    let start: usize = if n > 0 && (cs[0] == '-' || cs[0] == '+') {
        1
    } else {
        0
    };
    let ghost body = if s@.len() > 0 && (s@[0] == '-' || s@[0] == '+') {
        s@.drop_first()
    } else {
        s@
    };
    assert(body =~= cs@.subrange(start as int, n as int));
    if start >= n {
        return None;
    }
    let cap: u128 = 9_223_372_036_854_775_808;
    let mut v: u128 = 0;
    let mut over = false;
    let mut i: usize = start;
    while i < n
        invariant
            start <= i <= n,
            n == cs@.len(),
            cap == 9_223_372_036_854_775_808,
            cs@ == s@,
            body =~= cs@.subrange(start as int, n as int),
            body == (if s@.len() > 0 && (s@[0] == '-' || s@[0] == '+') {
                s@.drop_first()
            } else {
                s@
            }),
            forall|k: int| start <= k < i ==> '0' <= #[trigger] cs@[k] <= '9',
            over ==> digits_value(cs@.subrange(start as int, i as int)) > cap,
            !over ==> v == digits_value(cs@.subrange(start as int, i as int)) && v <= cap,
        decreases n - i,
    {
        let c = cs[i];
        if !('0' <= c && c <= '9') {
            assert(body[i - start] == cs@[i as int]);
            assert(!all_digits(body));
            assert(i64_from_str(s@) is None);
            return None;
        }
        let ghost pre = cs@.subrange(start as int, i as int);
        let ghost next = cs@.subrange(start as int, i as int + 1);
        assert(next.drop_last() =~= pre);
        assert(next.last() == c);
        proof {
            lemma_digits_value_nonneg(pre);
        }
        let d = (c as u32 - '0' as u32) as u128;
        if !over {
            let w = v * 10 + d;
            if w > cap {
                over = true;
            } else {
                v = w;
            }
        }
        i += 1;
    }
    assert(cs@.subrange(start as int, n as int) =~= body);
    assert(all_digits(body));
    if over {
        return None;
    }
    if neg {
        let m = v as i128;
        Some((0 - m) as i64)
    } else {
        if v > 9_223_372_036_854_775_807 {
            None
        } else {
            Some(v as i64)
        }
    }
}

#[derive(Clone, Debug, PartialEq, Eq)]
pub struct MediaControlConfig {
    pub provider: String,
    pub livekit_url: String,
    pub livekit_api_key: String,
    pub livekit_api_secret: String,
    pub token_ttl_seconds: i64,
    pub region: String,
}

/// The LiveKit URL: trimmed, without trailing slashes, the local default
/// when nothing is left.
pub open spec fn trimmed_url(url: Seq<char>) -> Seq<char> {
    let t = drop_trailing(trim_seq(url), |x: char| x == '/');
    if t.len() == 0 {
        "ws://localhost:7880"@
    } else {
        t
    }
}

pub fn trim_url(url: String) -> (r: String)
    ensures
        r@ == trimmed_url(url@),
{
    let t = strip_trailing(&trimmed(url.as_str()), '/');
    if t.len() == 0 {
        string_of(&chars_of("ws://localhost:7880"))
    } else {
        string_of(&t)
    }
}

/// A setting's value: the given value trimmed, or the fallback when none or
/// only white space is given.
pub open spec fn setting_or(value: Option<String>, fallback: Seq<char>) -> Seq<char> {
    match value {
        Some(v) => if trim_seq(v@).len() > 0 {
            trim_seq(v@)
        } else {
            fallback
        },
        None => fallback,
    }
}

fn non_empty_setting(value: Option<String>, fallback: &str) -> (r: String)
    ensures
        r@ == setting_or(value, fallback@),
{
    match value {
        Some(v) => {
            let t = trimmed(v.as_str());
            if t.len() > 0 {
                string_of(&t)
            } else {
                string_of(&chars_of(fallback))
            }
        },
        None => string_of(&chars_of(fallback)),
    }
}

/// The token lifetime: a parsed number of seconds clamped to one minute to
/// one hour, else ten minutes.
pub open spec fn token_ttl_of(value: Option<String>) -> i64 {
    match value {
        Some(v) => match i64_from_str(v@) {
            Some(n) => if n < 60 {
                60
            } else if n > 3600 {
                3600
            } else {
                n
            },
            None => 600,
        },
        None => 600,
    }
}

impl MediaControlConfig {
    /// The configuration from the values of `OPENCORD_LIVEKIT_URL`,
    /// `OPENCORD_LIVEKIT_API_KEY`, `OPENCORD_LIVEKIT_API_SECRET`,
    /// `OPENCORD_MEDIA_TOKEN_TTL_SECONDS` and `OPENCORD_MEDIA_REGION`, each
    /// `None` where unset.
    pub fn from_env_values(
        livekit_url: Option<String>,
        livekit_api_key: Option<String>,
        livekit_api_secret: Option<String>,
        token_ttl_seconds: Option<String>,
        region: Option<String>,
    ) -> (r: MediaControlConfig)
        ensures
            r.provider@ == "livekit"@,
            r.livekit_url@ == trimmed_url(match livekit_url {
                Some(u) => u@,
                None => "ws://localhost:7880"@,
            }),
            r.livekit_api_key@ == setting_or(livekit_api_key, "devkey"@),
            r.livekit_api_secret@ == setting_or(livekit_api_secret, "secret"@),
            r.token_ttl_seconds == token_ttl_of(token_ttl_seconds),
            r.region@ == setting_or(region, "local"@),
    {
        let url = match livekit_url {
            Some(u) => u,
            None => string_of(&chars_of("ws://localhost:7880")),
        };
        let ttl = match &token_ttl_seconds {
            Some(v) => match parse_i64(v.as_str()) {
                Some(n) => if n < 60 {
                    60
                } else if n > 3600 {
                    3600
                } else {
                    n
                },
                None => 600,
            },
            None => 600,
        };
        MediaControlConfig {
            provider: string_of(&chars_of("livekit")),
            livekit_url: trim_url(url),
            livekit_api_key: non_empty_setting(livekit_api_key, "devkey"),
            livekit_api_secret: non_empty_setting(livekit_api_secret, "secret"),
            token_ttl_seconds: ttl,
            region: non_empty_setting(region, "local"),
        }
    }
}

#[derive(Clone, Copy, Debug, PartialEq, Eq, Structural)]
pub enum MediaRoomType {
    VoiceChannel,
}

impl MediaRoomType {
    pub fn parse(value: &str) -> (r: Result<MediaRoomType, MediaError>)
        ensures
            match r {
                Ok(t) => lower_seq(trim_seq(value@)) == "voice_channel"@ && t == MediaRoomType::VoiceChannel,
                Err(e) => lower_seq(trim_seq(value@)) != "voice_channel"@ && e == MediaError::InvalidInput(
                    "media room_type must be voice_channel",
                ),
            },
    {
        let k = trimmed_lower(value);
        if eq_str(&k, "voice_channel") {
            Ok(MediaRoomType::VoiceChannel)
        } else {
            Err(MediaError::InvalidInput("media room_type must be voice_channel"))
        }
    }

    pub fn as_str(self) -> (r: &'static str)
        ensures
            r@ == "voice_channel"@,
    {
        match self {
            MediaRoomType::VoiceChannel => "voice_channel",
        }
    }

    pub fn room_prefix(self) -> (r: &'static str)
        ensures
            r@ == "voice"@,
    {
        match self {
            MediaRoomType::VoiceChannel => "voice",
        }
    }
}

#[derive(Clone, Copy, Debug, PartialEq, Eq, Structural)]
pub struct MediaTokenGrants {
    pub can_publish_audio: bool,
    pub can_publish_video: bool,
    pub can_publish_screen: bool,
    pub can_subscribe: bool,
}

/// Whether any source may be published.
pub open spec fn publishes(g: MediaTokenGrants) -> bool {
    g.can_publish_audio || g.can_publish_video || g.can_publish_screen
}

/// The sources that may be published, in LiveKit's names.
pub open spec fn sources_of(g: MediaTokenGrants) -> Seq<Seq<char>> {
    (if g.can_publish_audio { seq!["microphone"@] } else { Seq::empty() }) + (if g.can_publish_video {
        seq!["camera"@]
    } else {
        Seq::empty()
    }) + (if g.can_publish_screen { seq!["screen_share"@, "screen_share_audio"@] } else { Seq::empty() })
}

impl MediaTokenGrants {
    /// A token must allow subscribing or publishing something.
    pub fn validate(self) -> (r: Result<(), MediaError>)
        ensures
            r == (if publishes(self) || self.can_subscribe {
                Ok::<(), MediaError>(())
            } else {
                Err(MediaError::InvalidInput("media token must allow subscribing or at least one publish source"))
            }),
    {
        if self.can_publish_audio || self.can_publish_video || self.can_publish_screen || self.can_subscribe {
            Ok(())
        } else {
            Err(MediaError::InvalidInput("media token must allow subscribing or at least one publish source"))
        }
    }

    pub fn can_publish(self) -> (r: bool)
        ensures
            r == publishes(self),
    {
        self.can_publish_audio || self.can_publish_video || self.can_publish_screen
    }

    pub fn publish_sources(self) -> (r: Vec<&'static str>)
        ensures
            r@.map_values(|s: &'static str| s@) == sources_of(self),
    {
        let mut sources: Vec<&'static str> = Vec::new();
        if self.can_publish_audio {
            sources.push("microphone");
        }
        if self.can_publish_video {
            sources.push("camera");
        }
        if self.can_publish_screen {
            sources.push("screen_share");
            sources.push("screen_share_audio");
        }
        proof {
            assert(sources@.map_values(|s: &'static str| s@) =~= sources_of(self));
        }
        sources
    }
}

#[derive(Clone, Debug, PartialEq, Eq)]
pub struct IssueMediaRoomToken {
    pub room_type: MediaRoomType,
    pub organization_id: u128,
    pub space_id: u128,
    pub channel_id: u128,
    pub participant_user_id: u128,
    pub grants: MediaTokenGrants,
}

/// A signed room token; it expires at `expires_at` seconds since the epoch
/// and `expires_at_nanos` nanoseconds.
#[derive(Clone, Debug, PartialEq, Eq)]
pub struct MediaRoomToken {
    pub provider: String,
    pub server_url: String,
    pub region: String,
    pub room_type: MediaRoomType,
    pub room_name: String,
    pub organization_id: u128,
    pub space_id: u128,
    pub channel_id: u128,
    pub participant_identity: String,
    pub participant_token: String,
    pub expires_at: i64,
    pub expires_at_nanos: u32,
    pub grants: MediaTokenGrants,
}

#[derive(Clone, Copy, Debug, PartialEq, Eq)]
pub enum MediaError {
    InvalidInput(&'static str),
    SigningFailed,
}

impl MediaError {
    pub fn status_code(&self) -> (r: u16)
        ensures
            r == (match self {
                MediaError::InvalidInput(_) => 400u16,
                MediaError::SigningFailed => 500,
            }),
    {
        match self {
            MediaError::InvalidInput(_) => 400,
            MediaError::SigningFailed => 500,
        }
    }

    pub fn code(&self) -> (r: &'static str)
        ensures
            r@ == (match self {
                MediaError::InvalidInput(_) => "invalid_request"@,
                MediaError::SigningFailed => "media_token_signing_failed"@,
            }),
    {
        match self {
            MediaError::InvalidInput(_) => "invalid_request",
            MediaError::SigningFailed => "media_token_signing_failed",
        }
    }

    pub fn message(&self) -> (r: &'static str)
        ensures
            r@ == (match self {
                MediaError::InvalidInput(m) => m@,
                MediaError::SigningFailed => "media token could not be signed"@,
            }),
    {
        match self {
            MediaError::InvalidInput(m) => m,
            MediaError::SigningFailed => "media token could not be signed",
        }
    }
}

/// The lower-case hex digit of a value below sixteen.
pub open spec fn hex_char(n: nat) -> char {
    if n < 10 {
        ((n + 48) as u8) as char
    } else {
        ((n + 87) as u8) as char
    }
}

/// How `serde_json` writes one character of a string: quote, backslash and
/// control characters escaped, the rest as it is.
pub open spec fn json_escape_char(c: char) -> Seq<char> {
    if c == '"' {
        seq!['\\', '"']
    } else if c == '\\' {
        seq!['\\', '\\']
    } else if c == '\n' {
        seq!['\\', 'n']
    } else if c == '\r' {
        seq!['\\', 'r']
    } else if c == '\t' {
        seq!['\\', 't']
    } else if c == '\x08' {
        seq!['\\', 'b']
    } else if c == '\x0c' {
        seq!['\\', 'f']
    } else if (c as u32) < 0x20 {
        seq!['\\', 'u', '0', '0', hex_char((c as u32 / 16) as nat), hex_char((c as u32 % 16) as nat)]
    } else {
        seq![c]
    }
}

pub open spec fn json_escaped(s: Seq<char>) -> Seq<char>
    decreases s.len(),
{
    if s.len() == 0 {
        Seq::empty()
    } else {
        json_escaped(s.drop_last()) + json_escape_char(s.last())
    }
}

/// A JSON string literal.
pub open spec fn json_str(s: Seq<char>) -> Seq<char> {
    seq!['"'] + json_escaped(s) + seq!['"']
}

fn hex_digit_char(n: u32) -> (c: char)
    requires
        n < 16,
    ensures
        c == hex_char(n as nat),
{
    if n < 10 {
        ((n + 48) as u8) as char
    } else {
        ((n + 87) as u8) as char
    }
}

fn push_json_str(out: &mut Vec<char>, s: &Vec<char>)
    ensures
        final(out)@ == old(out)@ + json_str(s@),
{
    let ghost start = out@;
    out.push('"');
    let mut i: usize = 0;
    while i < s.len()
        invariant
            i <= s.len(),
            out@ == start + seq!['"'] + json_escaped(s@.take(i as int)),
        decreases s.len() - i,
    {
        let ghost prev = out@;
        let c = s[i];
        if c == '"' {
            out.push('\\');
            out.push('"');
        } else if c == '\\' {
            out.push('\\');
            out.push('\\');
        } else if c == '\n' {
            out.push('\\');
            out.push('n');
        } else if c == '\r' {
            out.push('\\');
            out.push('r');
        } else if c == '\t' {
            out.push('\\');
            out.push('t');
        } else if c == '\x08' {
            out.push('\\');
            out.push('b');
        } else if c == '\x0c' {
            out.push('\\');
            out.push('f');
        } else if (c as u32) < 0x20 {
            out.push('\\');
            out.push('u');
            out.push('0');
            out.push('0');
            out.push(hex_digit_char(c as u32 / 16));
            out.push(hex_digit_char(c as u32 % 16));
        } else {
            out.push(c);
        }
        proof {
            assert(s@.take(i as int + 1).drop_last() =~= s@.take(i as int));
            assert(out@ =~= prev + json_escape_char(c));
            assert(out@ =~= start + seq!['"'] + json_escaped(s@.take(i as int + 1)));
        }
        i += 1;
    }
    out.push('"');
    proof {
        assert(s@.take(s@.len() as int) =~= s@);
        assert(out@ =~= start + json_str(s@));
    }
}

/// A JSON integer.
pub open spec fn json_int(n: i64) -> Seq<char> {
    if n < 0 {
        seq!['-'] + decimal((-(n as int)) as nat)
    } else {
        decimal(n as nat)
    }
}

fn push_json_int(out: &mut Vec<char>, n: i64)
    ensures
        final(out)@ == old(out)@ + json_int(n),
{
    if n < 0 {
        out.push('-');
        let m: u64 = if n == i64::MIN {
            9223372036854775808u64
        } else {
            (-n) as u64
        };
        let d = decimal_of(m);
        push_chars(out, &d);
    } else {
        let d = decimal_of(n as u64);
        push_chars(out, &d);
    }
}

pub open spec fn json_bool(b: bool) -> Seq<char> {
    if b {
        "true"@
    } else {
        "false"@
    }
}

fn push_json_bool(out: &mut Vec<char>, b: bool)
    ensures
        final(out)@ == old(out)@ + json_bool(b),
{
    if b {
        push_str(out, "true");
    } else {
        push_str(out, "false");
    }
}

/// The JSON array of the publish sources.
pub open spec fn json_str_list(v: Seq<Seq<char>>) -> Seq<char>
    decreases v.len(),
{
    if v.len() == 0 {
        Seq::empty()
    } else if v.len() == 1 {
        json_str(v[0])
    } else {
        json_str_list(v.drop_last()) + seq![','] + json_str(v.last())
    }
}

/// The `video` grant of a room token, keys in sorted order as
/// `serde_json` writes a map.
pub open spec fn video_json(room_name: Seq<char>, g: MediaTokenGrants) -> Seq<char> {
    "{\"canPublish\":"@ + json_bool(publishes(g)) + ",\"canPublishData\":true"@ + (if publishes(g) {
        ",\"canPublishSources\":["@ + json_str_list(sources_of(g)) + "]"@
    } else {
        Seq::empty()
    }) + ",\"canSubscribe\":"@ + json_bool(g.can_subscribe) + ",\"room\":"@ + json_str(room_name) + ",\"roomJoin\":true}"@
}

/// The claims of a room token, keys in sorted order.
pub open spec fn payload_json(
    api_key: Seq<char>,
    identity: Seq<char>,
    room_name: Seq<char>,
    request: IssueMediaRoomToken,
    issued: i64,
    expires: i64,
) -> Seq<char> {
    "{\"attributes\":{\"opencord.channel_id\":"@ + json_str(uuid_hyphenated(request.channel_id))
        + ",\"opencord.organization_id\":"@ + json_str(uuid_hyphenated(request.organization_id))
        + ",\"opencord.room_type\":"@ + json_str("voice_channel"@) + ",\"opencord.space_id\":"@ + json_str(
        uuid_hyphenated(request.space_id),
    ) + "},\"exp\":"@ + json_int(expires) + ",\"iss\":"@ + json_str(api_key) + ",\"metadata\":\"\",\"nbf\":"@ + json_int(
        issued,
    ) + ",\"sub\":"@ + json_str(identity) + ",\"video\":"@ + video_json(room_name, request.grants) + "}"@
}

/// The JOSE header of a room token.
pub open spec fn header_json() -> Seq<char> {
    "{\"alg\":\"HS256\",\"typ\":\"JWT\"}"@
}

/// A signed token: the encoded header and claims, and the encoded
/// HMAC-SHA256 of both under the secret.
pub open spec fn jwt_of(header: Seq<char>, payload: Seq<char>, secret: Seq<char>) -> Seq<char> {
    let input = base64_url_no_pad(utf8_bytes(header)) + "."@ + base64_url_no_pad(utf8_bytes(payload));
    input + "."@ + base64_url_no_pad(hmac_sha256(utf8_bytes(secret), utf8_bytes(input)))
}

fn push_video_json(out: &mut Vec<char>, room_name: &Vec<char>, g: MediaTokenGrants)
    ensures
        final(out)@ == old(out)@ + video_json(room_name@, g),
{
    let ghost start = out@;
    push_str(out, "{\"canPublish\":");
    push_json_bool(out, g.can_publish());
    push_str(out, ",\"canPublishData\":true");
    let ghost before_sources = out@;
    if g.can_publish() {
        push_str(out, ",\"canPublishSources\":[");
        let sources = g.publish_sources();
        let ghost names = sources@.map_values(|s: &'static str| s@);
        let ghost list_start = out@;
        let mut i: usize = 0;
        while i < sources.len()
            invariant
                i <= sources.len(),
                names == sources@.map_values(|s: &'static str| s@),
                out@ == list_start + json_str_list(names.take(i as int)),
            decreases sources.len() - i,
        {
            let ghost prev = out@;
            if i > 0 {
                out.push(',');
            }
            push_json_str(out, &chars_of(sources[i]));
            proof {
                let t = names.take(i as int + 1);
                assert(t.drop_last() =~= names.take(i as int));
                assert(t.last() == sources@[i as int]@);
                if i == 0 {
                    assert(t.len() == 1);
                    assert(out@ =~= list_start + json_str(t[0]));
                } else {
                    assert(out@ =~= prev + seq![','] + json_str(t.last()));
                }
                assert(out@ =~= list_start + json_str_list(t));
            }
            i += 1;
        }
        proof {
            assert(names.take(names.len() as int) =~= names);
        }
        push_str(out, "]");
    }
    push_str(out, ",\"canSubscribe\":");
    push_json_bool(out, g.can_subscribe);
    push_str(out, ",\"room\":");
    push_json_str(out, room_name);
    push_str(out, ",\"roomJoin\":true}");
    proof {
        assert(out@ =~= start + video_json(room_name@, g));
    }
}

/// The room of a channel: `opencord_`, the room prefix, `_` and the simple
/// channel id.
pub open spec fn room_name_of(channel_id: u128) -> Seq<char> {
    "opencord_"@ + "voice"@ + "_"@ + uuid_simple(channel_id)
}

pub fn room_name(room_type: MediaRoomType, channel_id: u128) -> (r: String)
    ensures
        r@ == room_name_of(channel_id),
{
    let mut v = chars_of("opencord_");
    push_str(&mut v, room_type.room_prefix());
    push_str(&mut v, "_");
    push_str(&mut v, uuid_simple_string(channel_id).as_str());
    string_of(&v)
}

fn sign_jwt(header: &Vec<char>, payload: &Vec<char>, secret: &str) -> (r: String)
    ensures
        r@ == jwt_of(header@, payload@, secret@),
{
    let h = base64_url_encode(bytes_of(string_of(header).as_str()).as_slice());
    let p = base64_url_encode(bytes_of(string_of(payload).as_str()).as_slice());
    let mut input = chars_of(h.as_str());
    push_str(&mut input, ".");
    push_str(&mut input, p.as_str());
    let input_text = string_of(&input);
    let key = bytes_of(secret);
    let message = bytes_of(input_text.as_str());
    let tag = match hmac_sha256_tag(key.as_slice(), message.as_slice()) {
        Some(t) => t,
        None => Vec::new(),
    };
    let s = base64_url_encode(tag.as_slice());
    let mut out = input;
    push_str(&mut out, ".");
    push_str(&mut out, s.as_str());
    string_of(&out)
}

/// A token issued at `issued_at` (a clock reading chrono represents, not a
/// leap second) expires `ttl` seconds later at an instant chrono also
/// represents, as chrono's date arithmetic requires.
pub open spec fn expiry_fits(issued_at: (i64, u32), ttl: i64) -> bool {
    &&& issued_at.1 < 1_000_000_000
    &&& chrono_representable(issued_at.0, issued_at.1)
    &&& i64::MIN <= issued_at.0 + ttl <= i64::MAX
    &&& chrono_representable((issued_at.0 + ttl) as i64, issued_at.1)
}

/// The grants allow subscribing or at least one publish source.
pub open spec fn grants_allow_something(g: MediaTokenGrants) -> bool {
    publishes(g) || g.can_subscribe
}

/// `t` is the token issued for `request` at `issued_at` under `config`: its
/// room, participant and grants are the request's, it expires the
/// configured number of seconds later, and its JWT is signed with the API
/// secret.
pub open spec fn token_issued_at(config: MediaControlConfig, request: IssueMediaRoomToken, issued_at: (i64, u32), t: MediaRoomToken) -> bool {
    let expires = issued_at.0 + config.token_ttl_seconds;
    &&& t.provider@ == config.provider@ && t.server_url@ == config.livekit_url@
    &&& t.region@ == config.region@
    &&& t.room_type == request.room_type && t.room_name@ == room_name_of(request.channel_id)
    &&& t.organization_id == request.organization_id && t.space_id == request.space_id
    &&& t.channel_id == request.channel_id
    &&& t.participant_identity@ == uuid_hyphenated(request.participant_user_id)
    &&& t.expires_at == expires && t.expires_at_nanos == issued_at.1
    &&& t.grants == request.grants
    &&& t.participant_token@ == jwt_of(
        header_json(),
        payload_json(
            config.livekit_api_key@,
            uuid_hyphenated(request.participant_user_id),
            room_name_of(request.channel_id),
            request,
            issued_at.0,
            expires as i64,
        ),
        config.livekit_api_secret@,
    )
}

#[derive(Clone, Debug, PartialEq, Eq)]
pub struct MediaControlService {
    pub config: MediaControlConfig,
}

impl MediaControlService {
    pub fn new(config: MediaControlConfig) -> (r: MediaControlService)
        ensures
            r.config == config,
    {
        MediaControlService { config }
    }

    /// The LiveKit token for a participant of a room.
    pub fn sign_livekit_token(
        &self,
        room_name: &String,
        participant_identity: &String,
        request: &IssueMediaRoomToken,
        issued_at: i64,
        expires_at: i64,
    ) -> (r: String)
        ensures
            r@ == jwt_of(
                header_json(),
                payload_json(self.config.livekit_api_key@, participant_identity@, room_name@, *request, issued_at, expires_at),
                self.config.livekit_api_secret@,
            ),
    {
        let mut p = chars_of("{\"attributes\":{\"opencord.channel_id\":");
        push_json_str(&mut p, &chars_of(uuid_to_string(request.channel_id).as_str()));
        push_str(&mut p, ",\"opencord.organization_id\":");
        push_json_str(&mut p, &chars_of(uuid_to_string(request.organization_id).as_str()));
        push_str(&mut p, ",\"opencord.room_type\":");
        push_json_str(&mut p, &chars_of(request.room_type.as_str()));
        push_str(&mut p, ",\"opencord.space_id\":");
        push_json_str(&mut p, &chars_of(uuid_to_string(request.space_id).as_str()));
        push_str(&mut p, "},\"exp\":");
        push_json_int(&mut p, expires_at);
        push_str(&mut p, ",\"iss\":");
        push_json_str(&mut p, &chars_of(self.config.livekit_api_key.as_str()));
        push_str(&mut p, ",\"metadata\":\"\",\"nbf\":");
        push_json_int(&mut p, issued_at);
        push_str(&mut p, ",\"sub\":");
        push_json_str(&mut p, &chars_of(participant_identity.as_str()));
        push_str(&mut p, ",\"video\":");
        push_video_json(&mut p, &chars_of(room_name.as_str()), request.grants);
        push_str(&mut p, "}");
        let header = chars_of("{\"alg\":\"HS256\",\"typ\":\"JWT\"}");
        sign_jwt(&header, &p, self.config.livekit_api_secret.as_str())
    }

    /// A room token issued at `issued_at`, valid for the configured
    /// lifetime. The grants must allow something.
    pub fn issue_room_token_at(&self, request: IssueMediaRoomToken, issued_at: (i64, u32)) -> (r: Result<MediaRoomToken, MediaError>)
        requires
            expiry_fits(issued_at, self.config.token_ttl_seconds),
        ensures
            !grants_allow_something(request.grants) ==> r == Err::<MediaRoomToken, MediaError>(
                MediaError::InvalidInput("media token must allow subscribing or at least one publish source"),
            ),
            grants_allow_something(request.grants) ==> (r matches Ok(t) && token_issued_at(self.config, request, issued_at, t)),
    {
        request.grants.validate()?;
        let expires_at = issued_at.0 + self.config.token_ttl_seconds;
        let room = room_name(request.room_type, request.channel_id);
        let identity = uuid_to_string(request.participant_user_id);
        let token = self.sign_livekit_token(&room, &identity, &request, issued_at.0, expires_at);
        Ok(MediaRoomToken {
            provider: self.config.provider.clone(),
            server_url: self.config.livekit_url.clone(),
            region: self.config.region.clone(),
            room_type: request.room_type,
            room_name: room,
            organization_id: request.organization_id,
            space_id: request.space_id,
            channel_id: request.channel_id,
            participant_identity: identity,
            participant_token: token,
            expires_at,
            expires_at_nanos: issued_at.1,
            grants: request.grants,
        })
    }

    /// A room token issued now (`issue_room_token`); `SigningFailed` where
    /// the expiry falls outside chrono's range, where chrono's date
    /// arithmetic would panic.
    pub fn issue_room_token(&self, request: IssueMediaRoomToken) -> (r: Result<MediaRoomToken, MediaError>)
        ensures
            !grants_allow_something(request.grants) ==> r == Err::<MediaRoomToken, MediaError>(
                MediaError::InvalidInput("media token must allow subscribing or at least one publish source"),
            ),
            grants_allow_something(request.grants) ==> match r {
                Ok(t) => exists|now: (i64, u32)| #[trigger] token_issued_at(self.config, request, now, t),
                Err(e) => e == MediaError::SigningFailed && exists|now: (i64, u32)|
                    now.1 < 1_000_000_000 && chrono_representable(now.0, now.1) && !#[trigger] expiry_fits(
                        now,
                        self.config.token_ttl_seconds,
                    ),
            },
            grants_allow_something(request.grants) && self.config.token_ttl_seconds == 0 ==> r is Ok,
    {
        request.grants.validate()?;
        let now = now_utc();
        let ttl = self.config.token_ttl_seconds;
        let expires = match now.0.checked_add(ttl) {
            Some(e) => e,
            None => {
                assert(!expiry_fits(now, ttl));
                return Err(MediaError::SigningFailed);
            },
        };
        if format_rfc3339(expires, now.1, false).is_none() {
            assert(!expiry_fits(now, ttl));
            return Err(MediaError::SigningFailed);
        }
        self.issue_room_token_at(request, now)
    }
}

} // verus!
