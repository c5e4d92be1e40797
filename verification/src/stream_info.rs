//! Cross-platform stream metadata updates: title and game/category per
//! platform or for all configured platforms at once.
//!
//! Platform contracts:
//! - **Twitch** — Helix `PATCH /helix/channels` with `broadcaster_id`,
//!   `title`, `game_id`; the game name is resolved to a `game_id` via
//!   `GET /helix/games?name=`.
//! - **Kick** — Public API `PATCH /public/v1/channels` with `stream_title`
//!   and `category_id`; the category name is resolved via
//!   `GET /public/v2/categories?name=`.
//! - **YouTube** — Data API `videos.update` (`part=snippet`) with the
//!   broadcast's `snippet.title`/`snippet.categoryId`.
//!
//! This module holds the decisions of an update — what is sent, to which
//! address, with which headers, and what a failure is reported as; the
//! requests themselves are made by the caller. No secret ever reaches an
//! error message.
use vstd::prelude::*;

use crate::chat::ChatPlatform;
use crate::text::{
    all_ws, has_suffix, is_blank, owned, push_char, strip_trailing, trim, trim_end_char, trim_seq,
    ends_with,
};

verus! {

/// The three platforms the combined dock configures.
#[derive(Debug, Clone, Copy, PartialEq, Eq, Structural)]
pub enum InfoPlatform {
    Twitch,
    Kick,
    YouTube,
}

impl InfoPlatform {
    /// Every platform, in dock order.
    pub fn all() -> (r: [InfoPlatform; 3])
        ensures
            r@ == seq![InfoPlatform::Twitch, InfoPlatform::Kick, InfoPlatform::YouTube],
    {
        [InfoPlatform::Twitch, InfoPlatform::Kick, InfoPlatform::YouTube]
    }

    /// Human-readable platform name (matches the chat dock labels).
    pub fn label(self) -> (r: &'static str)
        ensures
            r@ == match self {
                InfoPlatform::Twitch => "Twitch"@,
                InfoPlatform::Kick => "Kick"@,
                InfoPlatform::YouTube => "YouTube"@,
            },
    {
        match self {
            InfoPlatform::Twitch => "Twitch",
            InfoPlatform::Kick => "Kick",
            InfoPlatform::YouTube => "YouTube",
        }
    }

    /// Stable index into per-platform value arrays: the position of the
    /// platform in [`Self::all`].
    pub fn index(self) -> (r: usize)
        ensures
            r < 3,
            seq![InfoPlatform::Twitch, InfoPlatform::Kick, InfoPlatform::YouTube][r as int] == self,
            r == match self {
                InfoPlatform::Twitch => 0usize,
                InfoPlatform::Kick => 1usize,
                InfoPlatform::YouTube => 2usize,
            },
    {
        match self {
            InfoPlatform::Twitch => 0,
            InfoPlatform::Kick => 1,
            InfoPlatform::YouTube => 2,
        }
    }
}

/// The stream-info platform of the same name as a chat platform.
pub open spec fn info_of_chat(platform: ChatPlatform) -> InfoPlatform {
    match platform {
        ChatPlatform::Twitch => InfoPlatform::Twitch,
        ChatPlatform::Kick => InfoPlatform::Kick,
        ChatPlatform::YouTube => InfoPlatform::YouTube,
    }
}

/// The chat platform of the same name as a stream-info platform.
pub open spec fn chat_of_info(platform: InfoPlatform) -> ChatPlatform {
    match platform {
        InfoPlatform::Twitch => ChatPlatform::Twitch,
        InfoPlatform::Kick => ChatPlatform::Kick,
        InfoPlatform::YouTube => ChatPlatform::YouTube,
    }
}

/// The two platform mappings are inverse to each other.
pub proof fn lemma_platform_mappings_are_inverse(c: ChatPlatform, i: InfoPlatform)
    ensures
        chat_of_info(info_of_chat(c)) == c,
        info_of_chat(chat_of_info(i)) == i,
{
}

/// The stream-info platform of a chat-dock account platform.
pub fn chat_info_platform_of_chat(platform: ChatPlatform) -> (r: Option<InfoPlatform>)
    ensures
        r == Some(info_of_chat(platform)),
{
    match platform {
        ChatPlatform::Twitch => Some(InfoPlatform::Twitch),
        ChatPlatform::Kick => Some(InfoPlatform::Kick),
        ChatPlatform::YouTube => Some(InfoPlatform::YouTube),
    }
}

/// The chat-dock platform that carries a stream-info platform's token
/// (inverse of [`chat_info_platform_of_chat`]).
pub fn chat_info_platform(platform: InfoPlatform) -> (r: ChatPlatform)
    ensures
        r == chat_of_info(platform),
{
    match platform {
        InfoPlatform::Twitch => ChatPlatform::Twitch,
        InfoPlatform::Kick => ChatPlatform::Kick,
        InfoPlatform::YouTube => ChatPlatform::YouTube,
    }
}

/// Requested metadata change. `None` fields are left untouched on the
/// platform (an update with nothing to change is rejected up front).
#[derive(Debug, Clone, PartialEq, Eq)]
pub struct StreamInfoUpdate {
    /// New stream title.
    pub title: Option<String>,
    /// New game/category *name*; resolved to a platform id before the
    /// metadata call.
    pub game: Option<String>,
}

impl Default for StreamInfoUpdate {
    fn default() -> (r: Self)
        ensures
            r.title.is_none() && r.game.is_none(),
    {
        StreamInfoUpdate { title: None, game: None }
    }
}

/// A field's value with surrounding whitespace removed, when something
/// remains.
pub open spec fn trimmed_spec(field: Option<String>) -> Option<Seq<char>> {
    match field {
        Some(t) => if trim_seq(t@).len() > 0 { Some(trim_seq(t@)) } else { None },
        None => None,
    }
}

fn trimmed_field(field: &Option<String>) -> (r: Option<&str>)
    ensures
        match r {
            Some(t) => trimmed_spec(*field) == Some(t@),
            None => trimmed_spec(*field).is_none(),
        },
{
    match field {
        Some(t) => {
            let s = trim(t.as_str());
            if s.unicode_len() == 0 {
                None
            } else {
                Some(s)
            }
        },
        None => None,
    }
}

impl StreamInfoUpdate {
    /// Whether the title or the game holds more than whitespace.
    pub fn has_changes(&self) -> (r: bool)
        ensures
            r == (trimmed_spec(self.title).is_some() || trimmed_spec(self.game).is_some()),
    {
        trimmed_field(&self.title).is_some() || trimmed_field(&self.game).is_some()
    }

    /// The title to send, trimmed, if any.
    pub fn trimmed_title(&self) -> (r: Option<&str>)
        ensures
            match r {
                Some(t) => trimmed_spec(self.title) == Some(t@),
                None => trimmed_spec(self.title).is_none(),
            },
    {
        trimmed_field(&self.title)
    }

    /// The game name to resolve, trimmed, if any.
    pub fn trimmed_game(&self) -> (r: Option<&str>)
        ensures
            match r {
                Some(t) => trimmed_spec(self.game) == Some(t@),
                None => trimmed_spec(self.game).is_none(),
            },
    {
        trimmed_field(&self.game)
    }
}

/// Credentials for one platform update. Tokens travel by value into the
/// HTTPS request only; they are never formatted into errors or logs.
#[derive(Debug, Clone, PartialEq, Eq)]
pub struct InfoCredentials {
    /// Platform OAuth user token (`Authorization: Bearer …`).
    pub token: String,
    /// Twitch application client ID (`Client-Id` header).
    pub client_id: String,
    /// Twitch numeric broadcaster ID.
    pub broadcaster_id: String,
    /// YouTube broadcast video id (`videos.update` target).
    pub video_id: String,
}

impl Default for InfoCredentials {
    fn default() -> (r: Self)
        ensures
            r.token@.len() == 0 && r.client_id@.len() == 0 && r.broadcaster_id@.len() == 0
                && r.video_id@.len() == 0,
    {
        InfoCredentials { token: String::new(), client_id: String::new(), broadcaster_id: String::new(), video_id: String::new() }
    }
}

/// API base addresses (production defaults; tests point elsewhere).
#[derive(Debug, Clone, PartialEq, Eq)]
pub struct InfoEndpoints {
    pub twitch_api_base: String,
    pub kick_api_base: String,
    pub youtube_api_base: String,
}

impl Default for InfoEndpoints {
    fn default() -> (r: Self)
        ensures
            r.twitch_api_base@ == "https://api.twitch.tv/helix"@,
            r.kick_api_base@ == "https://api.kick.com/public/v1"@,
            r.youtube_api_base@ == "https://www.googleapis.com/youtube/v3"@,
    {
        InfoEndpoints {
            twitch_api_base: owned("https://api.twitch.tv/helix"),
            kick_api_base: owned("https://api.kick.com/public/v1"),
            youtube_api_base: owned("https://www.googleapis.com/youtube/v3"),
        }
    }
}

/// Outcome of one platform update. The message is user-safe (no tokens,
/// no URLs with credentials).
#[derive(Debug, Clone, PartialEq, Eq)]
pub enum InfoUpdateOutcome {
    Updated,
    /// Transport/HTTP failure; the message names the platform and stage.
    Failed(String),
}

impl InfoUpdateOutcome {
    /// Whether the update went through.
    pub fn is_ok(&self) -> (r: bool)
        ensures
            r == (*self is Updated),
    {
        match self {
            InfoUpdateOutcome::Updated => true,
            InfoUpdateOutcome::Failed(_) => false,
        }
    }
}

/// Why an update cannot even be attempted, if it cannot: nothing to
/// change, or a credential the platform needs is blank.
pub open spec fn precheck_spec(platform: InfoPlatform, update: StreamInfoUpdate, c: InfoCredentials) -> Option<Seq<char>> {
    if !(trimmed_spec(update.title).is_some() || trimmed_spec(update.game).is_some()) {
        Some("nothing to update (title and game are empty)"@)
    } else {
        match platform {
            InfoPlatform::Twitch => if all_ws(c.token@) {
                Some("Twitch: no account token (connect the chat account or add one in Settings)"@)
            } else if all_ws(c.client_id@) {
                Some("Twitch: no application client ID configured (EventSub settings)"@)
            } else if all_ws(c.broadcaster_id@) {
                Some("Twitch: broadcaster ID missing"@)
            } else {
                None
            },
            InfoPlatform::Kick => if all_ws(c.token@) {
                Some("Kick: no account token (add one via the chat account token field)"@)
            } else {
                None
            },
            InfoPlatform::YouTube => if all_ws(c.token@) {
                Some("YouTube: no account token"@)
            } else if all_ws(c.video_id@) {
                Some("YouTube: the chat account channel field must hold the live video ID to update its title"@)
            } else {
                None
            },
        }
    }
}

/// The failure an update ends with before any request is made, if any.
pub fn precheck(platform: InfoPlatform, update: &StreamInfoUpdate, credentials: &InfoCredentials) -> (r: Option<InfoUpdateOutcome>)
    ensures
        match precheck_spec(platform, *update, *credentials) {
            Some(m) => r matches Some(InfoUpdateOutcome::Failed(f)) && f@ == m,
            None => r.is_none(),
        },
{
    if !update.has_changes() {
        return Some(InfoUpdateOutcome::Failed(owned("nothing to update (title and game are empty)")));
    }
    match platform {
        InfoPlatform::Twitch => {
            if is_blank(credentials.token.as_str()) {
                return Some(InfoUpdateOutcome::Failed(owned(
                    "Twitch: no account token (connect the chat account or add one in Settings)",
                )));
            }
            if is_blank(credentials.client_id.as_str()) {
                return Some(InfoUpdateOutcome::Failed(owned(
                    "Twitch: no application client ID configured (EventSub settings)",
                )));
            }
            if is_blank(credentials.broadcaster_id.as_str()) {
                return Some(InfoUpdateOutcome::Failed(owned("Twitch: broadcaster ID missing")));
            }
            None
        },
        InfoPlatform::Kick => {
            if is_blank(credentials.token.as_str()) {
                return Some(InfoUpdateOutcome::Failed(owned(
                    "Kick: no account token (add one via the chat account token field)",
                )));
            }
            None
        },
        InfoPlatform::YouTube => {
            if is_blank(credentials.token.as_str()) {
                return Some(InfoUpdateOutcome::Failed(owned("YouTube: no account token")));
            }
            if is_blank(credentials.video_id.as_str()) {
                return Some(InfoUpdateOutcome::Failed(owned(
                    "YouTube: the chat account channel field must hold the live video ID to update its title",
                )));
            }
            None
        },
    }
}

/// `base` without trailing slashes, followed by `path`.
pub fn endpoint_url(base: &str, path: &str) -> (r: String)
    ensures
        r@ == strip_trailing(base@, '/') + path@,
{
    let mut out = owned(trim_end_char(base, '/'));
    out.append(path);
    out
}

/// `s` with every trailing `suffix` removed (`str::trim_end_matches`).
pub open spec fn strip_suffixes(s: Seq<char>, suffix: Seq<char>) -> Seq<char>
    decreases s.len(),
{
    if suffix.len() > 0 && has_suffix(s, suffix) {
        strip_suffixes(s.subrange(0, s.len() - suffix.len()), suffix)
    } else {
        s
    }
}

/// The Kick API root above the version segment: the channel calls live
/// under `/v1`, the category lookup under `/v2`.
pub fn kick_api_root(base: &str) -> (r: &str)
    ensures
        r@ == strip_suffixes(strip_trailing(base@, '/'), "/v1"@),
{
    proof {
        reveal_strlit("/v1");
    }
    let mut s = trim_end_char(base, '/');
    let ghost start = s@;
    while ends_with(s, "/v1")
        invariant
            strip_suffixes(s@, "/v1"@) == strip_suffixes(start, "/v1"@),
            "/v1"@.len() == 3,
        decreases s@.len(),
    {
        let n = s.unicode_len();
        assert(n >= 3);
        s = s.substring_char(0, n - 3);
    }
    s
}

/// The `Authorization` header value for a token: `Bearer <token>`, the
/// token without surrounding whitespace.
pub fn bearer(token: &str) -> (r: String)
    ensures
        r@ == "Bearer "@ + trim_seq(token@),
{
    let mut out = owned("Bearer ");
    out.append(trim(token));
    out
}

/// Whether a byte is sent as itself in a query parameter.
pub open spec fn unreserved(b: u8) -> bool {
    (65 <= b <= 90) || (97 <= b <= 122) || (48 <= b <= 57) || b == 45 || b == 95 || b == 46 || b == 126
}

/// The uppercase hexadecimal digit of `d < 16`.
pub open spec fn hex_digit(d: nat) -> char {
    if d < 10 { (48 + d) as char } else { (55 + d) as char }
}

/// The query-parameter form of one byte: itself when unreserved, `%XX`
/// otherwise.
pub open spec fn encode_byte(b: u8) -> Seq<char> {
    if unreserved(b) {
        seq![b as char]
    } else {
        seq!['%', hex_digit((b / 16) as nat), hex_digit((b % 16) as nat)]
    }
}

/// The query-parameter form of a byte string.
pub open spec fn percent_spec(bytes: Seq<u8>) -> Seq<char>
    decreases bytes.len(),
{
    if bytes.len() == 0 {
        Seq::empty()
    } else {
        percent_spec(bytes.drop_last()) + encode_byte(bytes.last())
    }
}

fn hex_char(d: u8) -> (c: char)
    requires
        d < 16,
    ensures
        c == hex_digit(d as nat),
{
    if d < 10 {
        ((48 + d) as u8) as char
    } else {
        ((55 + d) as u8) as char
    }
}

/// Minimal percent-encoding for query parameters: the UTF-8 bytes of
/// `value`, unreserved ASCII kept and every other byte as `%XX`.
pub fn percent_encode(value: &str) -> (r: String)
    ensures
        r@ == percent_spec(vstd::utf8::encode_utf8(value@)),
{
    let bytes = value.as_bytes();
    let ghost bs = bytes@;
    let mut out = String::new();
    let n = bytes.len();
    let mut i: usize = 0;
    while i < n
        invariant
            n == bs.len(),
            bs == bytes@,
            i <= n,
            out@ == percent_spec(bs.subrange(0, i as int)),
        decreases n - i,
    {
        let b = bytes[i];
        proof {
            assert(bs.subrange(0, i + 1).drop_last() =~= bs.subrange(0, i as int));
            assert(bs.subrange(0, i + 1).last() == b);
        }
        let ghost before = out@;
        if (65 <= b && b <= 90) || (97 <= b && b <= 122) || (48 <= b && b <= 57) || b == 45 || b == 95
            || b == 46 || b == 126 {
            push_char(&mut out, b as char);
        } else {
            push_char(&mut out, '%');
            push_char(&mut out, hex_char(b / 16));
            push_char(&mut out, hex_char(b % 16));
        }
        proof {
            assert(out@ =~= before + encode_byte(b));
        }
        i = i + 1;
    }
    proof {
        assert(bs.subrange(0, n as int) =~= bs);
    }
    out
}

/// A short, user-safe hint from an error payload's message: at most 120
/// characters in double quotes, or `no detail`.
pub open spec fn hint_spec(message: Option<Seq<char>>) -> Seq<char> {
    match message {
        Some(m) => "\""@ + (if m.len() > 120 { m.subrange(0, 120) } else { m }) + "\""@,
        None => "no detail"@,
    }
}

/// A short, user-safe hint from an error payload's message (no tokens, no
/// full request dumps).
pub fn error_hint(message: Option<&str>) -> (r: String)
    ensures
        r@ == hint_spec(match message { Some(m) => Some(m@), None => None }),
{
    match message {
        Some(m) => {
            let n = m.unicode_len();
            let short = if n > 120 { m.substring_char(0, 120) } else { m };
            let mut out = owned("\"");
            out.append(short);
            out.append("\"");
            out
        },
        None => owned("no detail"),
    }
}

} // verus!
