//! The request/response exchange of one stream-info update.
//!
//! An update is a short conversation with a platform API: possibly a
//! lookup of the game/category id, on YouTube possibly a read of the
//! current title, then the write. [`StreamInfoFlow`] decides each request
//! and what every answer leads to; the caller performs the requests and
//! hands the answers back, until the flow reports its outcome.
use vstd::prelude::*;

use crate::json::{element, element_of, int_of, member, member_of, text_in, text_of, Json};
use crate::stream_info::{
    bearer, hint_spec, error_hint, kick_api_root, percent_encode, percent_spec, precheck,
    precheck_spec, strip_suffixes, trimmed_spec, InfoCredentials, InfoEndpoints, InfoPlatform,
    InfoUpdateOutcome, StreamInfoUpdate,
};
use crate::text::{
    append_decimal, debug_form, debug_quoted, decimal, owned, pairs_view, str_eq, strip_trailing,
    to_lowercase, trim, trim_end_char, trim_seq, unicode_lowercase,
};

verus! {

/// A value in a request body.
#[derive(Debug)]
pub enum BodyValue {
    Text(String),
    Int(i64),
    /// A nested object of text members.
    Fields(Vec<(&'static str, String)>),
}

/// A body value in mathematical form.
pub enum BodyValueV {
    Text(Seq<char>),
    Int(i64),
    Fields(Seq<(Seq<char>, Seq<char>)>),
}

impl View for BodyValue {
    type V = BodyValueV;

    open spec fn view(&self) -> BodyValueV {
        match self {
            BodyValue::Text(s) => BodyValueV::Text(s@),
            BodyValue::Int(n) => BodyValueV::Int(*n),
            BodyValue::Fields(f) => BodyValueV::Fields(pairs_view(f@)),
        }
    }
}

/// The members of a JSON object body in mathematical form.
pub open spec fn body_view(b: Seq<(&'static str, BodyValue)>) -> Seq<(Seq<char>, BodyValueV)> {
    b.map_values(|e: (&'static str, BodyValue)| (e.0@, e.1@))
}

/// One HTTP request: method, address, headers and an optional JSON
/// object body.
#[derive(Debug)]
pub struct HttpRequest {
    pub method: &'static str,
    pub url: String,
    pub headers: Vec<(&'static str, String)>,
    pub body: Option<Vec<(&'static str, BodyValue)>>,
}

/// A request in mathematical form.
pub struct RequestV {
    pub method: Seq<char>,
    pub url: Seq<char>,
    pub headers: Seq<(Seq<char>, Seq<char>)>,
    pub body: Option<Seq<(Seq<char>, BodyValueV)>>,
}

impl View for HttpRequest {
    type V = RequestV;

    open spec fn view(&self) -> RequestV {
        RequestV {
            method: self.method@,
            url: self.url@,
            headers: pairs_view(self.headers@),
            body: match self.body {
                Some(b) => Some(body_view(b@)),
                None => None,
            },
        }
    }
}

/// What to do next: send a request, or stop with the outcome.
#[derive(Debug)]
pub enum InfoStep {
    Send(HttpRequest),
    Finished(InfoUpdateOutcome),
}

/// A step in mathematical form; a finished step carries the failure
/// message, `None` when the update went through.
pub enum StepV {
    Send(RequestV),
    Finished(Option<Seq<char>>),
}

impl View for InfoStep {
    type V = StepV;

    open spec fn view(&self) -> StepV {
        match self {
            InfoStep::Send(r) => StepV::Send(r@),
            InfoStep::Finished(InfoUpdateOutcome::Updated) => StepV::Finished(None),
            InfoStep::Finished(InfoUpdateOutcome::Failed(m)) => StepV::Finished(Some(m@)),
        }
    }
}

/// Where a flow stands.
#[derive(Debug, Clone, Copy, PartialEq, Eq, Structural)]
pub enum FlowStage {
    /// Waiting for the game/category lookup.
    ResolveCategory,
    /// Waiting for the current YouTube title.
    ReadTitle,
    /// Waiting for the answer to the write.
    Write,
    /// The outcome has been reported.
    Done,
}

/// An answer to a request: the status and parsed body, or a transport
/// failure.
pub type HttpReply = Result<(u16, Json), String>;

// ── the exchange in mathematical form ────────────────────────────────────

/// Whether a status is a success (2xx).
pub open spec fn is_success(status: u16) -> bool {
    200 <= status < 300
}

/// `base` without trailing slashes.
pub open spec fn base(s: Seq<char>) -> Seq<char> {
    strip_trailing(s, '/')
}

/// The query form of a text (percent-encoded UTF-8).
pub open spec fn query(s: Seq<char>) -> Seq<char> {
    percent_spec(vstd::utf8::encode_utf8(s))
}

/// The `Authorization` header.
pub open spec fn auth_header(c: InfoCredentials) -> (Seq<char>, Seq<char>) {
    ("Authorization"@, "Bearer "@ + trim_seq(c.token@))
}

/// The headers of a Twitch Helix call.
pub open spec fn twitch_headers(c: InfoCredentials) -> Seq<(Seq<char>, Seq<char>)> {
    seq![("Client-Id"@, trim_seq(c.client_id@)), auth_header(c)]
}

/// The lookup of the id of game/category `game`.
pub open spec fn lookup_spec(p: InfoPlatform, game: Seq<char>, c: InfoCredentials, e: InfoEndpoints) -> RequestV {
    match p {
        InfoPlatform::Twitch => RequestV {
            method: "GET"@,
            url: base(e.twitch_api_base@) + "/games?name="@ + query(game),
            headers: twitch_headers(c),
            body: None,
        },
        InfoPlatform::Kick => RequestV {
            method: "GET"@,
            url: strip_suffixes(base(e.kick_api_base@), "/v1"@) + "/v2/categories?name="@ + query(game),
            headers: seq![auth_header(c)],
            body: None,
        },
        InfoPlatform::YouTube => RequestV {
            method: "GET"@,
            url: base(e.youtube_api_base@) + "/videoCategories?part=snippet&regionCode=US"@,
            headers: seq![auth_header(c)],
            body: None,
        },
    }
}

/// The read of the current title of the YouTube broadcast.
pub open spec fn title_lookup_spec(c: InfoCredentials, e: InfoEndpoints) -> RequestV {
    RequestV {
        method: "GET"@,
        url: base(e.youtube_api_base@) + "/videos?part=snippet&id="@ + query(trim_seq(c.video_id@)),
        headers: seq![auth_header(c)],
        body: None,
    }
}

/// The first item whose `snippet.title` is `wanted` ignoring case.
pub open spec fn first_category(items: Seq<Json>, wanted: Seq<char>) -> Option<Json>
    decreases items.len(),
{
    if items.len() == 0 {
        None
    } else if (match text_in(member_of(member(items[0], "snippet"@), "title"@)) {
        Some(t) => unicode_lowercase(t) == wanted,
        None => false,
    }) {
        Some(items[0])
    } else {
        first_category(items.drop_first(), wanted)
    }
}

/// The id that a successful lookup answer holds for `game`, if any:
/// Twitch's `data[0].id` text, Kick's `data[0].id` integer, YouTube's id
/// text of the first category titled `game` (ignoring case).
pub open spec fn found_id(p: InfoPlatform, game: Seq<char>, payload: Json) -> Option<BodyValueV> {
    let first = member_of(element_of(member(payload, "data"@), 0), "id"@);
    match p {
        InfoPlatform::Twitch => match text_in(first) {
            Some(t) => Some(BodyValueV::Text(t)),
            None => None,
        },
        InfoPlatform::Kick => match first {
            Some(v) => match int_of(v) {
                Some(n) => Some(BodyValueV::Int(n)),
                None => None,
            },
            None => None,
        },
        InfoPlatform::YouTube => match member(payload, "items"@) {
            Some(Json::Array(items)) => match first_category(items@, unicode_lowercase(game)) {
                Some(item) => match text_in(member(item, "id"@)) {
                    Some(t) => Some(BodyValueV::Text(t)),
                    None => None,
                },
                None => None,
            },
            _ => None,
        },
    }
}

/// The failure message of a lookup that could not be made.
pub open spec fn lookup_failed(p: InfoPlatform, err: Seq<char>) -> Seq<char> {
    match p {
        InfoPlatform::Twitch => "Twitch: game lookup failed: "@ + err,
        InfoPlatform::Kick => "Kick: category lookup failed: "@ + err,
        InfoPlatform::YouTube => "YouTube: category lookup failed: "@ + err,
    }
}

/// The failure message of a lookup answered with a non-success status.
pub open spec fn lookup_rejected(p: InfoPlatform, status: u16) -> Seq<char> {
    match p {
        InfoPlatform::Twitch => "Twitch: game lookup rejected (HTTP "@ + decimal(status as nat) + ")"@,
        InfoPlatform::Kick => "Kick: category lookup rejected (HTTP "@ + decimal(status as nat) + ")"@,
        InfoPlatform::YouTube => "YouTube: category lookup rejected (HTTP "@ + decimal(status as nat) + ")"@,
    }
}

/// The failure message of a name the platform does not know.
pub open spec fn not_found(p: InfoPlatform, game: Seq<char>) -> Seq<char> {
    match p {
        InfoPlatform::Twitch => "Twitch: game "@ + debug_form(game) + " not found"@,
        InfoPlatform::Kick => "Kick: category "@ + debug_form(game) + " not found"@,
        InfoPlatform::YouTube => "YouTube: category "@ + debug_form(game) + " not found"@,
    }
}

/// What a lookup answer resolves to: the id, or the failure message.
pub open spec fn resolve_spec(p: InfoPlatform, game: Seq<char>, reply: HttpReply) -> Result<BodyValueV, Seq<char>> {
    match reply {
        Err(err) => Err(lookup_failed(p, err@)),
        Ok((status, payload)) => if !is_success(status) {
            Err(lookup_rejected(p, status))
        } else {
            match found_id(p, game, payload) {
                Some(v) => Ok(v),
                None => Err(not_found(p, game)),
            }
        },
    }
}

/// The current title that the title read answers: `items[0].snippet.title`
/// of a successful answer, empty otherwise.
pub open spec fn title_from_spec(reply: HttpReply) -> Seq<char> {
    match reply {
        Ok((status, payload)) => if is_success(status) {
            match text_in(member_of(member_of(element_of(member(payload, "items"@), 0), "snippet"@), "title"@)) {
                Some(t) => t,
                None => Seq::empty(),
            }
        } else {
            Seq::empty()
        },
        Err(_) => Seq::empty(),
    }
}

/// One optional body member.
pub open spec fn opt_member(name: Seq<char>, v: Option<BodyValueV>) -> Seq<(Seq<char>, BodyValueV)> {
    match v {
        Some(x) => seq![(name, x)],
        None => Seq::empty(),
    }
}

/// One optional text member.
pub open spec fn opt_text(name: Seq<char>, v: Option<Seq<char>>) -> Seq<(Seq<char>, Seq<char>)> {
    match v {
        Some(x) => seq![(name, x)],
        None => Seq::empty(),
    }
}

/// The text of a resolved id (YouTube ids are text).
pub open spec fn id_text(v: Option<BodyValueV>) -> Option<Seq<char>> {
    match v {
        Some(BodyValueV::Text(t)) => Some(t),
        _ => None,
    }
}

/// The write request: the title (trimmed) and the resolved id; on YouTube
/// the current title stands in for a title that is not changed.
pub open spec fn write_spec(
    p: InfoPlatform,
    u: StreamInfoUpdate,
    c: InfoCredentials,
    e: InfoEndpoints,
    category: Option<BodyValueV>,
    current_title: Option<Seq<char>>,
) -> RequestV {
    let title = trimmed_spec(u.title);
    match p {
        InfoPlatform::Twitch => RequestV {
            method: "PATCH"@,
            url: base(e.twitch_api_base@) + "/channels"@,
            headers: twitch_headers(c).push(("Content-Type"@, "application/json"@)),
            body: Some(
                seq![("broadcaster_id"@, BodyValueV::Text(trim_seq(c.broadcaster_id@)))]
                    + opt_member("game_id"@, category)
                    + opt_member("title"@, match title { Some(t) => Some(BodyValueV::Text(t)), None => None }),
            ),
        },
        InfoPlatform::Kick => RequestV {
            method: "PATCH"@,
            url: base(e.kick_api_base@) + "/channels"@,
            headers: seq![auth_header(c)],
            body: Some(
                opt_member("stream_title"@, match title { Some(t) => Some(BodyValueV::Text(t)), None => None })
                    + opt_member("category_id"@, category),
            ),
        },
        InfoPlatform::YouTube => RequestV {
            method: "PUT"@,
            url: base(e.youtube_api_base@) + "/videos?part=snippet"@,
            headers: seq![auth_header(c)],
            body: Some(seq![
                ("id"@, BodyValueV::Text(trim_seq(c.video_id@))),
                ("snippet"@, BodyValueV::Fields(
                    opt_text("title"@, title) + opt_text("categoryId"@, id_text(category))
                        + (if title.is_none() { opt_text("title"@, current_title) } else { Seq::empty() }),
                )),
            ]),
        },
    }
}

/// The error message an error payload's `message` (or, lacking that
/// member, `error`) carries.
pub open spec fn hint_message(payload: Json) -> Option<Seq<char>> {
    match member(payload, "message"@) {
        Some(m) => text_of(m),
        None => text_in(member(payload, "error"@)),
    }
}

/// What the answer to the write means: `None` when it went through, the
/// failure message otherwise.
pub open spec fn write_outcome_spec(p: InfoPlatform, reply: HttpReply) -> Option<Seq<char>> {
    match reply {
        Ok((status, payload)) => if is_success(status) {
            None
        } else {
            let detail = decimal(status as nat) + ", "@ + hint_spec(hint_message(payload)) + ")"@;
            Some(match p {
                InfoPlatform::Twitch => "Twitch: update rejected (HTTP "@ + detail,
                InfoPlatform::Kick => "Kick: update rejected (HTTP "@ + detail,
                InfoPlatform::YouTube => "YouTube: update rejected (HTTP "@ + detail,
            })
        },
        Err(err) => Some(match p {
            InfoPlatform::Twitch => "Twitch: request failed: "@ + err@,
            InfoPlatform::Kick => "Kick: request failed: "@ + err@,
            InfoPlatform::YouTube => "YouTube: request failed: "@ + err@,
        }),
    }
}

/// A flow in mathematical form.
pub struct FlowView {
    pub platform: InfoPlatform,
    pub update: StreamInfoUpdate,
    pub credentials: InfoCredentials,
    pub endpoints: InfoEndpoints,
    pub stage: FlowStage,
    pub category: Option<BodyValueV>,
    pub current_title: Option<Seq<char>>,
}

/// The step after the id is known (or not needed): on YouTube without a
/// new title, read the current one; otherwise write.
pub open spec fn after_resolve(v: FlowView) -> (FlowView, StepV) {
    if v.platform == InfoPlatform::YouTube && trimmed_spec(v.update.title).is_none() {
        (
            FlowView { stage: FlowStage::ReadTitle, ..v },
            StepV::Send(title_lookup_spec(v.credentials, v.endpoints)),
        )
    } else {
        (
            FlowView { stage: FlowStage::Write, ..v },
            StepV::Send(write_spec(v.platform, v.update, v.credentials, v.endpoints, v.category, v.current_title)),
        )
    }
}

/// How a flow starts: a failed precheck ends it; a game to resolve starts
/// with its lookup; otherwise as after the lookup.
pub open spec fn start_spec(p: InfoPlatform, u: StreamInfoUpdate, c: InfoCredentials, e: InfoEndpoints) -> (FlowView, StepV) {
    let v = FlowView {
        platform: p,
        update: u,
        credentials: c,
        endpoints: e,
        stage: FlowStage::Done,
        category: None,
        current_title: None,
    };
    match precheck_spec(p, u, c) {
        Some(m) => (v, StepV::Finished(Some(m))),
        None => match trimmed_spec(u.game) {
            Some(g) => (FlowView { stage: FlowStage::ResolveCategory, ..v }, StepV::Send(lookup_spec(p, g, c, e))),
            None => after_resolve(v),
        },
    }
}

/// The game name to resolve (empty when there is none).
pub open spec fn game_text(u: StreamInfoUpdate) -> Seq<char> {
    match trimmed_spec(u.game) {
        Some(g) => g,
        None => Seq::empty(),
    }
}

/// What an answer leads to in each stage.
pub open spec fn reply_spec(v: FlowView, reply: HttpReply) -> (FlowView, StepV) {
    match v.stage {
        FlowStage::ResolveCategory => match resolve_spec(v.platform, game_text(v.update), reply) {
            Ok(id) => after_resolve(FlowView { category: Some(id), ..v }),
            Err(m) => (FlowView { stage: FlowStage::Done, ..v }, StepV::Finished(Some(m))),
        },
        FlowStage::ReadTitle => {
            let w = FlowView { current_title: Some(title_from_spec(reply)), stage: FlowStage::Write, ..v };
            (w, StepV::Send(write_spec(w.platform, w.update, w.credentials, w.endpoints, w.category, w.current_title)))
        },
        _ => (FlowView { stage: FlowStage::Done, ..v }, StepV::Finished(write_outcome_spec(v.platform, reply))),
    }
}

/// Every request of an update is answered: a step that sends a request
/// leaves the flow waiting for the answer (never done), and a finished
/// step leaves it done; this holds at the start and after every answer.
pub proof fn lemma_requests_expect_answers(
    p: InfoPlatform,
    u: StreamInfoUpdate,
    c: InfoCredentials,
    e: InfoEndpoints,
    v: FlowView,
    reply: HttpReply,
)
    requires
        v.stage != FlowStage::Done,
    ensures
        (start_spec(p, u, c, e).1 is Send) <==> start_spec(p, u, c, e).0.stage != FlowStage::Done,
        (reply_spec(v, reply).1 is Send) <==> reply_spec(v, reply).0.stage != FlowStage::Done,
{
}

// ── executable parts ─────────────────────────────────────────────────────

fn auth_pair(c: &InfoCredentials) -> (r: (&'static str, String))
    ensures
        (r.0@, r.1@) == auth_header(*c),
{
    ("Authorization", bearer(c.token.as_str()))
}

fn auth_only(c: &InfoCredentials) -> (r: Vec<(&'static str, String)>)
    ensures
        pairs_view(r@) == seq![auth_header(*c)],
{
    let mut h: Vec<(&'static str, String)> = Vec::new();
    h.push(auth_pair(c));
    assert(pairs_view(h@) =~= seq![auth_header(*c)]);
    h
}

fn twitch_pairs(c: &InfoCredentials) -> (r: Vec<(&'static str, String)>)
    ensures
        pairs_view(r@) == twitch_headers(*c),
{
    let mut h: Vec<(&'static str, String)> = Vec::new();
    h.push(("Client-Id", owned(trim(c.client_id.as_str()))));
    h.push(auth_pair(c));
    assert(pairs_view(h@) =~= twitch_headers(*c));
    h
}

/// `base` (without trailing slashes) followed by `path`.
fn url(b: &String, path: &str) -> (r: String)
    ensures
        r@ == base(b@) + path@,
{
    let mut out = owned(trim_end_char(b.as_str(), '/'));
    out.append(path);
    out
}

/// The lookup request of `game`.
pub fn lookup_request(p: InfoPlatform, game: &str, c: &InfoCredentials, e: &InfoEndpoints) -> (r: HttpRequest)
    ensures
        r@ == lookup_spec(p, game@, *c, *e),
{
    match p {
        InfoPlatform::Twitch => {
            let mut u = url(&e.twitch_api_base, "/games?name=");
            u.append(percent_encode(game).as_str());
            HttpRequest { method: "GET", url: u, headers: twitch_pairs(c), body: None }
        },
        InfoPlatform::Kick => {
            let mut u = owned(kick_api_root(e.kick_api_base.as_str()));
            u.append("/v2/categories?name=");
            u.append(percent_encode(game).as_str());
            HttpRequest { method: "GET", url: u, headers: auth_only(c), body: None }
        },
        InfoPlatform::YouTube => {
            let u = url(&e.youtube_api_base, "/videoCategories?part=snippet&regionCode=US");
            HttpRequest { method: "GET", url: u, headers: auth_only(c), body: None }
        },
    }
}

/// The read of the current YouTube title.
pub fn title_request(c: &InfoCredentials, e: &InfoEndpoints) -> (r: HttpRequest)
    ensures
        r@ == title_lookup_spec(*c, *e),
{
    let mut u = url(&e.youtube_api_base, "/videos?part=snippet&id=");
    u.append(percent_encode(trim(c.video_id.as_str())).as_str());
    HttpRequest { method: "GET", url: u, headers: auth_only(c), body: None }
}

/// `prefix`, the decimal `status`, then `suffix`.
fn with_status(prefix: &str, status: u16, suffix: &str) -> (r: String)
    ensures
        r@ == prefix@ + decimal(status as nat) + suffix@,
{
    let mut m = owned(prefix);
    append_decimal(&mut m, status as u64);
    m.append(suffix);
    m
}

/// `prefix` then `rest`.
fn joined(prefix: &str, rest: &str) -> (r: String)
    ensures
        r@ == prefix@ + rest@,
{
    let mut m = owned(prefix);
    m.append(rest);
    m
}

/// The first item whose `snippet.title` lowercases to `wanted`.
fn find_category<'a>(items: &'a Vec<Json>, wanted: &str) -> (r: Option<&'a Json>)
    ensures
        match first_category(items@, wanted@) {
            Some(v) => r.is_some() && *r.unwrap() == v,
            None => r.is_none(),
        },
{
    let n = items.len();
    let mut i: usize = 0;
    assert(items@.subrange(0, n as int) =~= items@);
    while i < n
        invariant
            n == items@.len(),
            i <= n,
            first_category(items@, wanted@) == first_category(items@.subrange(i as int, n as int), wanted@),
        decreases n - i,
    {
        assert(items@.subrange(i as int, n as int).drop_first() =~= items@.subrange(i + 1, n as int));
        assert(items@.subrange(i as int, n as int)[0] == items@[i as int]);
        let title = match items[i].get("snippet") {
            Some(s) => match s.get("title") {
                Some(t) => t.as_str(),
                None => None,
            },
            None => None,
        };
        let hit = match title {
            Some(t) => str_eq(to_lowercase(t).as_str(), wanted),
            None => false,
        };
        if hit {
            return Some(&items[i]);
        }
        i = i + 1;
    }
    None
}

/// The id a successful lookup answer holds for `game`.
fn found(p: InfoPlatform, game: &str, payload: &Json) -> (r: Option<BodyValue>)
    ensures
        match found_id(p, game@, *payload) {
            Some(v) => r.is_some() && r.unwrap()@ == v,
            None => r.is_none(),
        },
{
    match p {
        InfoPlatform::YouTube => {
            match payload.get("items") {
                Some(Json::Array(items)) => {
                    let wanted = to_lowercase(game);
                    match find_category(items, wanted.as_str()) {
                        Some(item) => match item.get("id") {
                            Some(id) => match id.as_str() {
                                Some(t) => Some(BodyValue::Text(owned(t))),
                                None => None,
                            },
                            None => None,
                        },
                        None => None,
                    }
                },
                _ => None,
            }
        },
        _ => {
            let first = match payload.get("data") {
                Some(d) => match d.at(0) {
                    Some(x) => x.get("id"),
                    None => None,
                },
                None => None,
            };
            match first {
                Some(id) => match p {
                    InfoPlatform::Twitch => match id.as_str() {
                        Some(t) => Some(BodyValue::Text(owned(t))),
                        None => None,
                    },
                    _ => match id.as_i64() {
                        Some(n) => Some(BodyValue::Int(n)),
                        None => None,
                    },
                },
                None => None,
            }
        },
    }
}

/// What a lookup answer resolves to: the id, or the failure message.
pub fn resolve(p: InfoPlatform, game: &str, reply: &HttpReply) -> (r: Result<BodyValue, String>)
    ensures
        match resolve_spec(p, game@, *reply) {
            Ok(v) => r.is_ok() && r.unwrap()@ == v,
            Err(m) => r.is_err() && r.unwrap_err()@ == m,
        },
{
    match reply {
        Err(err) => Err(match p {
            InfoPlatform::Twitch => joined("Twitch: game lookup failed: ", err.as_str()),
            InfoPlatform::Kick => joined("Kick: category lookup failed: ", err.as_str()),
            InfoPlatform::YouTube => joined("YouTube: category lookup failed: ", err.as_str()),
        }),
        Ok((status, payload)) => {
            if !(200 <= *status && *status < 300) {
                return Err(match p {
                    InfoPlatform::Twitch => with_status("Twitch: game lookup rejected (HTTP ", *status, ")"),
                    InfoPlatform::Kick => with_status("Kick: category lookup rejected (HTTP ", *status, ")"),
                    InfoPlatform::YouTube => with_status("YouTube: category lookup rejected (HTTP ", *status, ")"),
                });
            }
            match found(p, game, payload) {
                Some(v) => Ok(v),
                None => {
                    let quoted = debug_quoted(game);
                    let mut m = owned(match p {
                        InfoPlatform::Twitch => "Twitch: game ",
                        InfoPlatform::Kick => "Kick: category ",
                        InfoPlatform::YouTube => "YouTube: category ",
                    });
                    m.append(quoted.as_str());
                    m.append(" not found");
                    Err(m)
                },
            }
        },
    }
}

/// The current title a title read answers (empty when it failed).
pub fn title_from(reply: &HttpReply) -> (r: String)
    ensures
        r@ == title_from_spec(*reply),
{
    match reply {
        Ok((status, payload)) => {
            if !(200 <= *status && *status < 300) {
                return String::new();
            }
            let title = match payload.get("items") {
                Some(items) => match items.at(0) {
                    Some(video) => match video.get("snippet") {
                        Some(snippet) => match snippet.get("title") {
                            Some(t) => t.as_str(),
                            None => None,
                        },
                        None => None,
                    },
                    None => None,
                },
                None => None,
            };
            match title {
                Some(t) => owned(t),
                None => String::new(),
            }
        },
        Err(_) => String::new(),
    }
}

/// What the answer to the write means.
pub fn write_outcome(p: InfoPlatform, reply: &HttpReply) -> (r: InfoUpdateOutcome)
    ensures
        match write_outcome_spec(p, *reply) {
            None => r is Updated,
            Some(m) => r matches InfoUpdateOutcome::Failed(f) && f@ == m,
        },
{
    match reply {
        Ok((status, payload)) => {
            if 200 <= *status && *status < 300 {
                return InfoUpdateOutcome::Updated;
            }
            let message = match payload.get("message") {
                Some(m) => m.as_str(),
                None => match payload.get("error") {
                    Some(e) => e.as_str(),
                    None => None,
                },
            };
            let mut m = with_status(match p {
                InfoPlatform::Twitch => "Twitch: update rejected (HTTP ",
                InfoPlatform::Kick => "Kick: update rejected (HTTP ",
                InfoPlatform::YouTube => "YouTube: update rejected (HTTP ",
            }, *status, ", ");
            m.append(error_hint(message).as_str());
            m.append(")");
            InfoUpdateOutcome::Failed(m)
        },
        Err(err) => InfoUpdateOutcome::Failed(match p {
            InfoPlatform::Twitch => joined("Twitch: request failed: ", err.as_str()),
            InfoPlatform::Kick => joined("Kick: request failed: ", err.as_str()),
            InfoPlatform::YouTube => joined("YouTube: request failed: ", err.as_str()),
        }),
    }
}

/// One stream-info update in progress.
pub struct StreamInfoFlow {
    platform: InfoPlatform,
    update: StreamInfoUpdate,
    credentials: InfoCredentials,
    endpoints: InfoEndpoints,
    stage: FlowStage,
    category: Option<BodyValue>,
    current_title: Option<String>,
}

impl View for StreamInfoFlow {
    type V = FlowView;

    closed spec fn view(&self) -> FlowView {
        FlowView {
            platform: self.platform,
            update: self.update,
            credentials: self.credentials,
            endpoints: self.endpoints,
            stage: self.stage,
            category: match self.category {
                Some(c) => Some(c@),
                None => None,
            },
            current_title: match self.current_title {
                Some(t) => Some(t@),
                None => None,
            },
        }
    }
}

impl StreamInfoFlow {
    /// The write request from what is known so far.
    fn write_request(&self) -> (r: HttpRequest)
        ensures
            r@ == write_spec(self@.platform, self@.update, self@.credentials, self@.endpoints, self@.category, self@.current_title),
    {
        let title = self.update.trimmed_title();
        let c = &self.credentials;
        let e = &self.endpoints;
        match self.platform {
            InfoPlatform::Twitch => {
                let mut h = twitch_pairs(c);
                h.push(("Content-Type", owned("application/json")));
                let mut b: Vec<(&'static str, BodyValue)> = Vec::new();
                b.push(("broadcaster_id", BodyValue::Text(owned(trim(c.broadcaster_id.as_str())))));
                let ghost b0 = body_view(b@);
                assert(b0 =~= seq![("broadcaster_id"@, BodyValueV::Text(trim_seq(c.broadcaster_id@)))]);
                match &self.category {
                    Some(v) => b.push(("game_id", copy_value(v))),
                    None => {},
                }
                let ghost b1 = body_view(b@);
                match title {
                    Some(t) => b.push(("title", BodyValue::Text(owned(t)))),
                    None => {},
                }
                proof {
                    assert(pairs_view(h@) =~= twitch_headers(*c).push(("Content-Type"@, "application/json"@)));
                    assert(b1 =~= b0 + opt_member("game_id"@, self@.category));
                    assert(body_view(b@) =~= b1 + opt_member(
                        "title"@,
                        match trimmed_spec(self@.update.title) { Some(t) => Some(BodyValueV::Text(t)), None => None },
                    ));
                }
                HttpRequest { method: "PATCH", url: url(&e.twitch_api_base, "/channels"), headers: h, body: Some(b) }
            },
            InfoPlatform::Kick => {
                let mut b: Vec<(&'static str, BodyValue)> = Vec::new();
                match title {
                    Some(t) => b.push(("stream_title", BodyValue::Text(owned(t)))),
                    None => {},
                }
                let ghost b0 = body_view(b@);
                match &self.category {
                    Some(v) => b.push(("category_id", copy_value(v))),
                    None => {},
                }
                proof {
                    assert(b0 =~= opt_member(
                        "stream_title"@,
                        match trimmed_spec(self@.update.title) { Some(t) => Some(BodyValueV::Text(t)), None => None },
                    ));
                    assert(body_view(b@) =~= b0 + opt_member("category_id"@, self@.category));
                }
                HttpRequest { method: "PATCH", url: url(&e.kick_api_base, "/channels"), headers: auth_only(c), body: Some(b) }
            },
            InfoPlatform::YouTube => {
                let mut s: Vec<(&'static str, String)> = Vec::new();
                match title {
                    Some(t) => s.push(("title", owned(t))),
                    None => {},
                }
                let ghost s0 = pairs_view(s@);
                match &self.category {
                    Some(BodyValue::Text(id)) => s.push(("categoryId", owned(id.as_str()))),
                    _ => {},
                }
                let ghost s1 = pairs_view(s@);
                if title.is_none() {
                    match &self.current_title {
                        Some(t) => s.push(("title", owned(t.as_str()))),
                        None => {},
                    }
                }
                proof {
                    assert(s0 =~= opt_text("title"@, trimmed_spec(self@.update.title)));
                    assert(s1 =~= s0 + opt_text("categoryId"@, id_text(self@.category)));
                    assert(pairs_view(s@) =~= s1 + (if trimmed_spec(self@.update.title).is_none() {
                        opt_text("title"@, self@.current_title)
                    } else {
                        Seq::empty()
                    }));
                }
                let mut b: Vec<(&'static str, BodyValue)> = Vec::new();
                b.push(("id", BodyValue::Text(owned(trim(c.video_id.as_str())))));
                b.push(("snippet", BodyValue::Fields(s)));
                proof {
                    assert(body_view(b@) =~= seq![
                        ("id"@, BodyValueV::Text(trim_seq(c.video_id@))),
                        ("snippet"@, BodyValueV::Fields(pairs_view(s@))),
                    ]);
                }
                HttpRequest {
                    method: "PUT",
                    url: url(&e.youtube_api_base, "/videos?part=snippet"),
                    headers: auth_only(c),
                    body: Some(b),
                }
            },
        }
    }

    /// The step after the id is known or not needed.
    fn advance(&mut self) -> (r: InfoStep)
        requires
            old(self)@.stage != FlowStage::Done,
        ensures
            (final(self)@, r@) == after_resolve(old(self)@),
    {
        if matches!(self.platform, InfoPlatform::YouTube) && self.update.trimmed_title().is_none() {
            self.stage = FlowStage::ReadTitle;
            InfoStep::Send(title_request(&self.credentials, &self.endpoints))
        } else {
            self.stage = FlowStage::Write;
            InfoStep::Send(self.write_request())
        }
    }

    /// Start an update: the first request to make, or the outcome when
    /// the update cannot even be attempted.
    pub fn start(
        platform: InfoPlatform,
        update: StreamInfoUpdate,
        credentials: InfoCredentials,
        endpoints: InfoEndpoints,
    ) -> (r: (StreamInfoFlow, InfoStep))
        ensures
            (r.0@, r.1@) == start_spec(platform, update, credentials, endpoints),
    {
        let pre = precheck(platform, &update, &credentials);
        let mut flow = StreamInfoFlow {
            platform,
            update,
            credentials,
            endpoints,
            stage: FlowStage::Done,
            category: None,
            current_title: None,
        };
        match pre {
            Some(outcome) => (flow, InfoStep::Finished(outcome)),
            None => {
                let game = match flow.update.trimmed_game() {
                    Some(g) => Some(owned(g)),
                    None => None,
                };
                match game {
                    Some(g) => {
                        let req = lookup_request(flow.platform, g.as_str(), &flow.credentials, &flow.endpoints);
                        flow.stage = FlowStage::ResolveCategory;
                        (flow, InfoStep::Send(req))
                    },
                    None => {
                        flow.stage = FlowStage::Write;
                        let step = flow.advance();
                        (flow, step)
                    },
                }
            },
        }
    }

    /// Where the flow stands.
    pub fn stage(&self) -> (r: FlowStage)
        ensures
            r == self@.stage,
    {
        self.stage
    }

    /// Hand over the answer to the last request; the next request, or the
    /// outcome.
    pub fn on_reply(&mut self, reply: HttpReply) -> (r: InfoStep)
        requires
            old(self)@.stage != FlowStage::Done,
        ensures
            (final(self)@, r@) == reply_spec(old(self)@, reply),
    {
        match self.stage {
            FlowStage::ResolveCategory => {
                let game = match self.update.trimmed_game() {
                    Some(g) => owned(g),
                    None => String::new(),
                };
                match resolve(self.platform, game.as_str(), &reply) {
                    Ok(id) => {
                        self.category = Some(id);
                        self.advance()
                    },
                    Err(m) => {
                        self.stage = FlowStage::Done;
                        InfoStep::Finished(InfoUpdateOutcome::Failed(m))
                    },
                }
            },
            FlowStage::ReadTitle => {
                self.current_title = Some(title_from(&reply));
                self.stage = FlowStage::Write;
                let req = self.write_request();
                InfoStep::Send(req)
            },
            _ => {
                self.stage = FlowStage::Done;
                InfoStep::Finished(write_outcome(self.platform, &reply))
            },
        }
    }
}

/// A copy of name/text pairs.
fn copy_pairs(v: &Vec<(&'static str, String)>) -> (r: Vec<(&'static str, String)>)
    ensures
        pairs_view(r@) == pairs_view(v@),
{
    let mut out: Vec<(&'static str, String)> = Vec::new();
    let n = v.len();
    let mut i: usize = 0;
    while i < n
        invariant
            n == v@.len(),
            i <= n,
            pairs_view(out@) =~= pairs_view(v@.subrange(0, i as int)),
        decreases n - i,
    {
        out.push((v[i].0, owned(v[i].1.as_str())));
        proof {
            assert(pairs_view(v@.subrange(0, i + 1)) =~= pairs_view(v@.subrange(0, i as int)).push((v@[i as int].0@, v@[i as int].1@)));
        }
        i = i + 1;
    }
    assert(v@.subrange(0, n as int) =~= v@);
    out
}

/// A copy of a body value.
fn copy_value(v: &BodyValue) -> (r: BodyValue)
    ensures
        r@ == v@,
{
    match v {
        BodyValue::Text(t) => BodyValue::Text(owned(t.as_str())),
        BodyValue::Int(n) => BodyValue::Int(*n),
        BodyValue::Fields(f) => BodyValue::Fields(copy_pairs(f)),
    }
}

} // verus!
