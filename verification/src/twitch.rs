//! The listener for stream notifications: what a request is, what is sent
//! back, and what a notification says.
use vstd::prelude::*;
use crate::json::{
    has_member, json_has_member, json_member_text, json_member_u64, member_text, member_u64,
};
use crate::numbers::{parse_u64, parsed_u64};
use crate::text::{
    chars_of, contains_chars, find_chars, find_first, lemma_find_from, matches_at, slice_text,
};

verus! {

/// The mark of a subscription challenge in a request.
pub open spec fn challenge_mark() -> Seq<char> {
    "hub.challenge="@
}

/// Where the challenge token starts: behind the mark. Zero stands for "no
/// mark".
pub open spec fn challenge_start(request: Seq<char>) -> int {
    match find_first(request, challenge_mark()) {
        Some(at) => at + challenge_mark().len(),
        None => 0,
    }
}

/// Where the challenge token ends: at the first `&`; zero stands for "none".
pub open spec fn challenge_end(request: Seq<char>) -> int {
    match find_first(request, "&"@) {
        Some(at) => at,
        None => 0,
    }
}

/// The challenge token of a request: what stands between the mark and the
/// first `&`. `None` where either is missing, stands at the very beginning,
/// or the `&` comes before the end of the mark.
pub open spec fn challenge_in(request: Seq<char>) -> Option<Seq<char>> {
    let start = challenge_start(request);
    let end = challenge_end(request);
    if start == 0 || end == 0 || start > end {
        None
    } else {
        Some(request.subrange(start, end))
    }
}

/// Takes the challenge token out of a subscription request.
pub fn extract_challenge(response: &str) -> (token: Result<String, String>)
    ensures
        match token {
            Ok(t) => challenge_in(response@) == Some(t@),
            Err(why) => challenge_in(response@).is_none() && why@
                == "Challenge token not found."@,
        },
{
    let chars = chars_of(response);
    let mark = chars_of("hub.challenge=");
    let amp = chars_of("&");
    proof {
        lemma_find_from(response@, challenge_mark(), 0);
        lemma_find_from(response@, "&"@, 0);
    }
    let start: usize = match find_chars(&chars, &mark) {
        Some(at) => {
            let total: usize = chars.len();
            assert(matches_at(chars@, mark@, at as int));
            assert(at + mark@.len() <= total);
            at + mark.len()
        },
        None => 0,
    };
    let end: usize = match find_chars(&chars, &amp) {
        Some(at) => at,
        None => 0,
    };
    if start == 0 || end == 0 || start > end {
        return Err("Challenge token not found.".to_owned());
    }
    Ok(slice_text(response, start, end))
}

/// The opening of the payload of a notification.
pub open spec fn data_mark() -> Seq<char> {
    "{\"data\":["@
}

/// The payload of a notification: what follows the opening, up to the first
/// `]}` behind it, or nothing if there is no `]}`. Where the opening is
/// missing, the payload is taken to start as far into the text as the opening
/// is long; `None` if the text is shorter than that.
pub open spec fn data_in(response: Seq<char>) -> Option<Seq<char>> {
    let start = match find_first(response, data_mark()) {
        Some(at) => at + data_mark().len(),
        None => data_mark().len() as int,
    };
    if start > response.len() {
        None
    } else {
        let rest = response.subrange(start, response.len() as int);
        let end = match find_first(rest, "]}"@) {
            Some(at) => at,
            None => 0,
        };
        Some(rest.subrange(0, end))
    }
}

/// Takes the payload out of a notification.
pub fn extract_data(response: &str) -> (data: Option<String>)
    ensures
        match data {
            Some(d) => data_in(response@) == Some(d@),
            None => data_in(response@).is_none(),
        },
{
    let chars = chars_of(response);
    let mark = chars_of("{\"data\":[");
    proof {
        lemma_find_from(response@, data_mark(), 0);
    }
    let start: usize = match find_chars(&chars, &mark) {
        Some(at) => {
            let total: usize = chars.len();
            assert(matches_at(chars@, mark@, at as int));
            assert(at + mark@.len() <= total);
            at + mark.len()
        },
        None => mark.len(),
    };
    if start > chars.len() {
        return None;
    }
    let rest = slice_text(response, start, chars.len());
    let rest_chars = chars_of(rest.as_str());
    let close = chars_of("]}");
    proof {
        lemma_find_from(rest@, "]}"@, 0);
    }
    let end: usize = match find_chars(&rest_chars, &close) {
        Some(at) => at,
        None => 0,
    };
    Some(slice_text(rest.as_str(), 0, end))
}

/// What a request to the listener is about.
#[derive(Clone, Copy, Debug, PartialEq, Eq, Structural)]
pub enum RequestKind {
    /// The service checks that the listener answers for its subscription.
    Challenge,
    /// A stream went live or offline.
    StreamChanged,
    /// Anything else.
    Other,
}

/// What a request is about: a challenge if it holds the challenge mark,
/// else a stream change if it posts to the notification path.
pub open spec fn kind_of(request: Seq<char>) -> RequestKind {
    if find_first(request, challenge_mark()).is_some() {
        RequestKind::Challenge
    } else if find_first(request, "POST /stream_changed"@).is_some() {
        RequestKind::StreamChanged
    } else {
        RequestKind::Other
    }
}

/// Tells what a request is about.
pub fn classify_request(request: &str) -> (kind: RequestKind)
    ensures
        kind == kind_of(request@),
{
    let chars = chars_of(request);
    if contains_chars(&chars, &chars_of("hub.challenge=")) {
        RequestKind::Challenge
    } else if contains_chars(&chars, &chars_of("POST /stream_changed")) {
        RequestKind::StreamChanged
    } else {
        RequestKind::Other
    }
}

/// The head of every answer: status line and the empty line after it.
pub open spec fn ok_head() -> Seq<char> {
    "HTTP/1.1 200 OK\r\n\r\n"@
}

/// The answers the listener gives.
pub struct HttpResponse;

impl HttpResponse {
    /// The answer to a challenge: the head, then the token; the head alone
    /// where no token is found.
    pub fn respond_to_challenge(stream_response: &str) -> (answer: String)
        ensures
            answer@ == ok_head() + match challenge_in(stream_response@) {
                Some(token) => token,
                None => Seq::empty(),
            },
    {
        let mut answer: String = "HTTP/1.1 200 OK\r\n\r\n".to_owned();
        match extract_challenge(stream_response) {
            Ok(token) => {
                answer.append(token.as_str());
            },
            Err(_) => {
                assert(answer@ + Seq::<char>::empty() =~= answer@);
            },
        }
        answer
    }

    /// The answer to anything else: the head alone.
    pub fn respond_http_ok() -> (answer: &'static str)
        ensures
            answer@ == ok_head(),
    {
        "HTTP/1.1 200 OK\r\n\r\n"
    }
}

/// Position of the first zero byte of `buffer`; its length if it has none.
pub open spec fn first_zero(buffer: Seq<u8>, from: int) -> int
    decreases buffer.len() - from + 1,
{
    if from < 0 || from >= buffer.len() {
        buffer.len() as int
    } else if buffer[from] == 0 {
        from
    } else {
        first_zero(buffer, from + 1)
    }
}

/// Appends to `bytes` what `buffer` holds before its first zero byte.
pub fn take_text(bytes: &mut Vec<u8>, buffer: &[u8])
    ensures
        final(bytes)@ == old(bytes)@ + buffer@.subrange(0, first_zero(buffer@, 0)),
{
    let ghost before = bytes@;
    let mut k: usize = 0;
    while k < buffer.len() && buffer[k] != 0
        invariant
            k <= buffer.len(),
            first_zero(buffer@, 0) == first_zero(buffer@, k as int),
            bytes@ == before + buffer@.subrange(0, k as int),
        decreases buffer.len() - k,
    {
        bytes.push(buffer[k]);
        k = k + 1;
        assert(bytes@ =~= before + buffer@.subrange(0, k as int));
    }
}

/// Whether the request goes on after a read that gave `read` bytes into a
/// buffer of `capacity`: it does if the buffer was filled.
pub fn more_to_read(read: usize, capacity: usize) -> (more: bool)
    ensures
        more == (read >= capacity),
{
    read >= capacity
}

/// What a notification says of a stream that went live.
#[derive(Debug)]
pub struct WebhookResponse {
    pub game_id: String,
    pub language: String,
    pub thumbnail_url: String,
    pub title: String,
    pub stream_type: String,
    pub user_id: String,
    pub user_name: String,
    pub viewer_count: u64,
}

/// Every member that a live notification must hold is there.
pub open spec fn is_live_notice(data: Seq<char>) -> bool {
    &&& json_member_text(data, "game_id"@).is_some()
    &&& json_member_text(data, "language"@).is_some()
    &&& json_member_text(data, "thumbnail_url"@).is_some()
    &&& json_member_text(data, "title"@).is_some()
    &&& json_member_text(data, "type"@).is_some()
    &&& json_member_text(data, "user_id"@).is_some()
    &&& json_member_text(data, "user_name"@).is_some()
    &&& json_member_u64(data, "viewer_count"@).is_some()
}

/// `notice` holds the members of `data`, each in its field.
pub open spec fn notice_matches(notice: WebhookResponse, data: Seq<char>) -> bool {
    &&& json_member_text(data, "game_id"@) == Some(notice.game_id@)
    &&& json_member_text(data, "language"@) == Some(notice.language@)
    &&& json_member_text(data, "thumbnail_url"@) == Some(notice.thumbnail_url@)
    &&& json_member_text(data, "title"@) == Some(notice.title@)
    &&& json_member_text(data, "type"@) == Some(notice.stream_type@)
    &&& json_member_text(data, "user_id"@) == Some(notice.user_id@)
    &&& json_member_text(data, "user_name"@) == Some(notice.user_name@)
    &&& json_member_u64(data, "viewer_count"@) == Some(notice.viewer_count)
}

impl WebhookResponse {
    /// Reads a live notification from its payload. `None` unless every
    /// member is there, the texts as strings and the count as a number.
    pub fn read(data: &str) -> (notice: Option<WebhookResponse>)
        ensures
            match notice {
                Some(n) => notice_matches(n, data@),
                None => !is_live_notice(data@),
            },
    {
        let game_id = member_text(data, "game_id")?;
        let language = member_text(data, "language")?;
        let thumbnail_url = member_text(data, "thumbnail_url")?;
        let title = member_text(data, "title")?;
        let stream_type = member_text(data, "type")?;
        let user_id = member_text(data, "user_id")?;
        let user_name = member_text(data, "user_name")?;
        let viewer_count = member_u64(data, "viewer_count")?;
        Some(
            WebhookResponse {
                game_id,
                language,
                thumbnail_url,
                title,
                stream_type,
                user_id,
                user_name,
                viewer_count,
            },
        )
    }
}

/// What the owner of a listener is told. A handler that does not care for
/// an event leaves its method as it is.
pub trait WebhookEvents: Send {
    /// A stream went live.
    fn stream_live(&self, response: WebhookResponse) {
    }

    /// A stream went offline.
    fn stream_offline(&self) {
    }

    /// The listener is ready.
    fn ready(&self) {
    }
}

/// A listener for stream notifications and the handler it reports to.
pub struct WebhookClient<T: WebhookEvents> {
    subscriptions: Vec<String>,
    event_handler: T,
    client_id: String,
    bearer_token: String,
}

impl<T: WebhookEvents> WebhookClient<T> {
    /// The subscriptions the listener holds.
    pub closed spec fn subscriptions(&self) -> Seq<String> {
        self.subscriptions@
    }

    /// The id the listener presents itself with.
    pub closed spec fn client_text(&self) -> Seq<char> {
        self.client_id@
    }

    /// The token the listener presents itself with.
    pub closed spec fn token_text(&self) -> Seq<char> {
        self.bearer_token@
    }

    /// The handler the listener reports to.
    pub closed spec fn handler(&self) -> T {
        self.event_handler
    }

    /// A listener without subscriptions that reports to `event_handler`.
    pub fn new(event_handler: T, client_id: &str, bearer_token: &str) -> (client: WebhookClient<T>)
        ensures
            client.subscriptions().len() == 0,
            client.handler() == event_handler,
            client.client_text() == client_id@,
            client.token_text() == bearer_token@,
    {
        WebhookClient {
            subscriptions: Vec::new(),
            event_handler,
            client_id: client_id.to_owned(),
            bearer_token: bearer_token.to_owned(),
        }
    }

    /// The id the listener presents itself with.
    pub fn client_id(&self) -> (id: &String)
        ensures
            id@ == self.client_text(),
    {
        &self.client_id
    }

    /// The token the listener presents itself with.
    pub fn bearer_token(&self) -> (token: &String)
        ensures
            token@ == self.token_text(),
    {
        &self.bearer_token
    }

    /// The handler the listener reports to.
    pub fn event_handler(&self) -> (handler: &T)
        ensures
            *handler == self.handler(),
    {
        &self.event_handler
    }

    /// Reports a stream change to the handler: a live stream if the request
    /// has a payload, offline if it has none. `None`, and no report, where
    /// the payload is no live notification.
    pub fn handle_stream_changed(&self, response: &str) -> (done: Option<()>)
        ensures
            done.is_none() <==> data_in(response@).is_some() && !is_live_notice(
                data_in(response@).unwrap(),
            ),
    {
        match extract_data(response) {
            Some(data) => {
                let notice = WebhookResponse::read(data.as_str())?;
                self.event_handler.stream_live(notice);
            },
            None => {
                self.event_handler.stream_offline();
            },
        }
        Some(())
    }

    /// Handles one request: answers a challenge with its token, reports a
    /// stream change to the handler, and answers everything but a challenge
    /// with the bare head.
    pub fn handle_request(&self, request: &str) -> (answer: String)
        ensures
            answer@ == ok_head() + match kind_of(request@) {
                RequestKind::Challenge => match challenge_in(request@) {
                    Some(token) => token,
                    None => Seq::empty(),
                },
                _ => Seq::empty(),
            },
    {
        match classify_request(request) {
            RequestKind::Challenge => HttpResponse::respond_to_challenge(request),
            RequestKind::StreamChanged => {
                let _ = self.handle_stream_changed(request);
                let answer = HttpResponse::respond_http_ok().to_owned();
                assert(answer@ + Seq::<char>::empty() =~= answer@);
                answer
            },
            RequestKind::Other => {
                let answer = HttpResponse::respond_http_ok().to_owned();
                assert(answer@ + Seq::<char>::empty() =~= answer@);
                answer
            },
        }
    }
}

/// A game as the service describes it.
#[derive(Debug)]
pub struct Game {
    pub box_art_url: String,
    pub id: String,
    pub name: String,
}

impl Game {
    /// Reads a game from the JSON object that describes it. `None` unless
    /// the three members are there as strings.
    pub fn new(json_response: &str) -> (game: Option<Game>)
        ensures
            match game {
                Some(g) => json_member_text(json_response@, "box_art_url"@) == Some(
                    g.box_art_url@,
                ) && json_member_text(json_response@, "id"@) == Some(g.id@) && json_member_text(
                    json_response@,
                    "name"@,
                ) == Some(g.name@),
                None => json_member_text(json_response@, "box_art_url"@).is_none()
                    || json_member_text(json_response@, "id"@).is_none() || json_member_text(
                    json_response@,
                    "name"@,
                ).is_none(),
            },
    {
        let box_art_url = member_text(json_response, "box_art_url")?;
        let id = member_text(json_response, "id")?;
        let name = member_text(json_response, "name")?;
        Some(Game { box_art_url, id, name })
    }
}

/// A user as the service describes them.
#[derive(Debug)]
pub struct User {
    pub id: u64,
    pub login: String,
    pub display_name: String,
    pub user_type: String,
    pub broadcaster_type: String,
    pub description: String,
    pub profile_image_url: String,
    pub offline_image_url: String,
    pub view_count: u64,
}

/// The member `key` as text where it is a string, empty where it is
/// something else; `None` where the member is missing.
pub open spec fn lenient_text(json: Seq<char>, key: Seq<char>) -> Option<Seq<char>> {
    if json_has_member(json, key) {
        match json_member_text(json, key) {
            Some(t) => Some(t),
            None => Some(Seq::empty()),
        }
    } else {
        None
    }
}

/// The id of a user: the member `id`, a string of decimal digits.
pub open spec fn user_id_in(json: Seq<char>) -> Option<u64> {
    match json_member_text(json, "id"@) {
        Some(t) => parsed_u64(t),
        None => None,
    }
}

/// Every member that a user must hold is there.
pub open spec fn is_user(json: Seq<char>) -> bool {
    &&& user_id_in(json).is_some()
    &&& json_member_text(json, "login"@).is_some()
    &&& json_member_text(json, "display_name"@).is_some()
    &&& lenient_text(json, "type"@).is_some()
    &&& lenient_text(json, "broadcaster_type"@).is_some()
    &&& json_member_text(json, "description"@).is_some()
    &&& lenient_text(json, "profile_image_url"@).is_some()
    &&& lenient_text(json, "offline_image_url"@).is_some()
    &&& json_has_member(json, "view_count"@)
}

/// `user` holds the members of `json`, each in its field.
pub open spec fn user_matches(user: User, json: Seq<char>) -> bool {
    &&& user_id_in(json) == Some(user.id)
    &&& json_member_text(json, "login"@) == Some(user.login@)
    &&& json_member_text(json, "display_name"@) == Some(user.display_name@)
    &&& lenient_text(json, "type"@) == Some(user.user_type@)
    &&& lenient_text(json, "broadcaster_type"@) == Some(user.broadcaster_type@)
    &&& json_member_text(json, "description"@) == Some(user.description@)
    &&& lenient_text(json, "profile_image_url"@) == Some(user.profile_image_url@)
    &&& lenient_text(json, "offline_image_url"@) == Some(user.offline_image_url@)
    &&& json_has_member(json, "view_count"@)
    &&& user.view_count == match json_member_u64(json, "view_count"@) {
        Some(n) => n,
        None => 0,
    }
}

/// Reads a member that may be something else than a string.
fn read_lenient(json: &str, key: &str) -> (text: Option<String>)
    ensures
        match text {
            Some(t) => lenient_text(json@, key@) == Some(t@),
            None => lenient_text(json@, key@).is_none(),
        },
{
    if !has_member(json, key) {
        return None;
    }
    match member_text(json, key) {
        Some(t) => Some(t),
        None => Some(String::new()),
    }
}

impl User {
    /// Reads a user from the JSON object that describes them. `None` unless
    /// every member is there, the id as a string of digits.
    pub fn new(json_response: &str) -> (user: Option<User>)
        ensures
            match user {
                Some(u) => user_matches(u, json_response@),
                None => !is_user(json_response@),
            },
    {
        let id_text = member_text(json_response, "id")?;
        let id = parse_u64(id_text.as_str())?;
        let login = member_text(json_response, "login")?;
        let display_name = member_text(json_response, "display_name")?;
        let user_type = read_lenient(json_response, "type")?;
        let broadcaster_type = read_lenient(json_response, "broadcaster_type")?;
        let description = member_text(json_response, "description")?;
        let profile_image_url = read_lenient(json_response, "profile_image_url")?;
        let offline_image_url = read_lenient(json_response, "offline_image_url")?;
        if !has_member(json_response, "view_count") {
            return None;
        }
        let view_count: u64 = match member_u64(json_response, "view_count") {
            Some(n) => n,
            None => 0,
        };
        Some(
            User {
                id,
                login,
                display_name,
                user_type,
                broadcaster_type,
                description,
                profile_image_url,
                offline_image_url,
                view_count,
            },
        )
    }
}

} // verus!
