use zangra::actions::DiscordAction;
use zangra::dispatch::{
    command_route, component_route, greets_new_members, logs_voice, role_for_reaction,
    welcome_text, CommandRoute, ComponentRoute,
};
use zangra::embed::mark_rich;
use zangra::error::ZangraError;
use zangra::introductions::parse;
use zangra::mutex::{
    check_mutex_roles, judge_pair, may_manage, mutex_command, pairing_existed, roles_excluded_by,
    MutexCommand, PairVerdict,
};
use zangra::rest::{parse_rgb, EmbedDetails};
use zangra::text::{
    chars_of, find_chars, is_white_space, lines_of_text, rfind_chars, same_text, slice_text,
    trim_text,
};
use zangra::twitch::{
    classify_request, extract_challenge, extract_data, more_to_read, take_text, Game,
    HttpResponse, RequestKind, User, WebhookClient, WebhookEvents, WebhookResponse,
};
use zangra::voice::{identify_state, VoiceSnapshot, VoiceStateChange};
use zangra::webblock::{
    blocklist_text, domains_clash, edit_form_guild, edit_form_id, invalid_report, known_domains,
    label_of, moderate, read_blocklist, setting_on, site_url, status_word, webblock,
    webblock_check_message, Moderation, WebBlockCommand,
};

#[test]
fn text_is_searched_by_character() {
    let hay = chars_of("héllo wörld, hello");
    assert_eq!(find_chars(&hay, &chars_of("llo")), Some(2));
    assert_eq!(rfind_chars(&hay, &chars_of("llo")), Some(15));
    assert_eq!(find_chars(&hay, &chars_of("")), Some(0));
    assert_eq!(rfind_chars(&hay, &chars_of("")), Some(18));
    assert_eq!(find_chars(&hay, &chars_of("xyz")), None);
    assert_eq!(rfind_chars(&chars_of("ab"), &chars_of("abc")), None);
    assert_eq!(slice_text("héllo", 1, 3), "él");
    assert!(same_text("abc", "abc"));
    assert!(!same_text("abc", "abd"));
    assert!(!same_text("abc", "ab"));
}

#[test]
fn error_carries_its_message() {
    let error = ZangraError::new("no such role");
    assert_eq!(error.message(), "no such role");
}

const INTRODUCTION: &str = "Hi all!\nName: Sam\nBirthday: May 4\nTwitch: sam_tv\n\
Instagram: sam.gram\nHobbies: chess\nGames: Go\nFavorite Color: teal\n\
Favorite Food: ramen\nFun Fact: I can juggle\n";

#[test]
fn introduction_is_read_field_by_field() {
    let intro = parse(INTRODUCTION).expect("an introduction");
    assert_eq!(intro.name(), "Name: Sam");
    assert_eq!(intro.birthday(), "Birthday: May 4");
    assert_eq!(intro.twitch(), "Twitch: sam_tv");
    assert_eq!(intro.instagram(), "Instagram: sam.gram");
    assert_eq!(intro.hobbies(), "Hobbies: chess");
    assert_eq!(intro.games(), "Games: Go");
    assert_eq!(intro.favorite_color(), "Favorite Color: teal");
    assert_eq!(intro.favorite_food(), "Favorite Food: ramen");
    assert_eq!(intro.fun_fact(), "Fun Fact: I can juggle");
}

#[test]
fn introduction_takes_the_last_occurrence_of_a_label() {
    let text = INTRODUCTION.replace("Hi all!", "Name: nobody");
    let intro = parse(&text).expect("an introduction");
    assert_eq!(intro.name(), "Name: Sam");
}

#[test]
fn introduction_needs_every_field_and_its_line_break() {
    assert!(parse("").is_none());
    assert!(parse(&INTRODUCTION.replace("Games:", "Game:")).is_none());
    assert!(parse(INTRODUCTION.trim_end()).is_none());
}

#[test]
fn challenge_stands_between_the_mark_and_the_first_ampersand() {
    let request = "GET /?hub.challenge=abc123&hub.mode=subscribe HTTP/1.1";
    assert_eq!(extract_challenge(request), Ok("abc123".to_string()));
    assert_eq!(classify_request(request), RequestKind::Challenge);
    assert_eq!(
        HttpResponse::respond_to_challenge(request),
        "HTTP/1.1 200 OK\r\n\r\nabc123"
    );
    let missing = Err("Challenge token not found.".to_string());
    assert_eq!(extract_challenge("GET /?hub.challenge=abc123 HTTP/1.1"), missing);
    assert_eq!(extract_challenge("GET /?a=1&b=2"), missing);
    assert_eq!(extract_challenge("&hub.challenge=abc"), missing);
    assert_eq!(extract_challenge("GET /?a=1&hub.challenge=abc"), missing);
    assert_eq!(HttpResponse::respond_to_challenge("nothing"), "HTTP/1.1 200 OK\r\n\r\n");
    assert_eq!(HttpResponse::respond_http_ok(), "HTTP/1.1 200 OK\r\n\r\n");
}

#[test]
fn payload_stands_between_the_opening_and_the_closing() {
    assert_eq!(
        extract_data("POST /x\r\n\r\n{\"data\":[{\"id\":\"1\"}]}"),
        Some("{\"id\":\"1\"}".to_string())
    );
    assert_eq!(extract_data("{\"data\":[]}"), Some("".to_string()));
    assert_eq!(extract_data("{\"data\":[{\"id\":1}"), Some("".to_string()));
    // Without the opening the payload is taken to start nine characters in.
    assert_eq!(extract_data("0123456789]}"), Some("9".to_string()));
    assert_eq!(extract_data("01234567"), None);
}

#[test]
fn request_bytes_are_taken_up_to_the_first_zero() {
    let mut bytes = vec![b'>'];
    take_text(&mut bytes, &[b'a', b'b', 0, b'c']);
    assert_eq!(bytes, b">ab".to_vec());
    take_text(&mut bytes, &[b'x', b'y']);
    assert_eq!(bytes, b">abxy".to_vec());
    take_text(&mut bytes, &[0, b'z']);
    assert_eq!(bytes, b">abxy".to_vec());
    assert!(more_to_read(512, 512));
    assert!(!more_to_read(100, 512));
}

const LIVE: &str = "{\"game_id\":\"509658\",\"language\":\"en\",\"thumbnail_url\":\"t.jpg\",\
\"title\":\"Live!\",\"type\":\"live\",\"user_id\":\"42\",\"user_name\":\"sam\",\"viewer_count\":7}";

#[test]
fn live_notice_is_read_member_by_member() {
    let notice = WebhookResponse::read(LIVE).expect("a notice");
    assert_eq!(notice.game_id, "509658");
    assert_eq!(notice.language, "en");
    assert_eq!(notice.thumbnail_url, "t.jpg");
    assert_eq!(notice.title, "Live!");
    assert_eq!(notice.stream_type, "live");
    assert_eq!(notice.user_id, "42");
    assert_eq!(notice.user_name, "sam");
    assert_eq!(notice.viewer_count, 7);
    assert!(WebhookResponse::read(&LIVE.replace("\"viewer_count\":7", "\"viewer_count\":\"7\"")).is_none());
    assert!(WebhookResponse::read(&LIVE.replace("\"title\"", "\"headline\"")).is_none());
    assert!(WebhookResponse::read("not json").is_none());
}

struct Recorder {
    heard: std::cell::RefCell<Vec<String>>,
}

impl WebhookEvents for Recorder {
    fn stream_live(&self, response: WebhookResponse) {
        self.heard.borrow_mut().push(format!("live {}", response.user_name));
    }

    fn stream_offline(&self) {
        self.heard.borrow_mut().push("offline".to_string());
    }

    fn ready(&self) {
        self.heard.borrow_mut().push("ready".to_string());
    }
}

#[test]
fn listener_reports_stream_changes_to_its_handler() {
    let recorder = Recorder { heard: std::cell::RefCell::new(Vec::new()) };
    let client = WebhookClient::new(recorder, "client", "token");
    assert_eq!(client.client_id(), "client");
    assert_eq!(client.bearer_token(), "token");

    let request = format!("POST /stream_changed HTTP/1.1\r\n\r\n{{\"data\":[{}]}}", LIVE);
    assert_eq!(classify_request(&request), RequestKind::StreamChanged);
    assert_eq!(client.handle_request(&request), "HTTP/1.1 200 OK\r\n\r\n");
    assert_eq!(client.handle_stream_changed(&request), Some(()));
    assert_eq!(client.handle_stream_changed("POST /stream_changed {\"data\":[]}"), None);
    assert_eq!(client.handle_stream_changed("short"), Some(()));
    assert_eq!(
        client.handle_request("GET /?hub.challenge=tok&x=1"),
        "HTTP/1.1 200 OK\r\n\r\ntok"
    );
    assert_eq!(client.handle_request("GET /favicon.ico"), "HTTP/1.1 200 OK\r\n\r\n");
    assert_eq!(classify_request("GET /favicon.ico"), RequestKind::Other);
    let heard = client.event_handler().heard.borrow().clone();
    assert_eq!(heard, vec!["live sam", "live sam", "offline"]);
}

#[test]
fn game_needs_its_three_members() {
    let game = Game::new("{\"box_art_url\":\"b.jpg\",\"id\":\"33\",\"name\":\"Go\"}").expect("a game");
    assert_eq!(game.box_art_url, "b.jpg");
    assert_eq!(game.id, "33");
    assert_eq!(game.name, "Go");
    assert!(Game::new("{\"box_art_url\":\"b.jpg\",\"id\":33,\"name\":\"Go\"}").is_none());
    assert!(Game::new("{\"id\":\"33\",\"name\":\"Go\"}").is_none());
    assert!(Game::new("").is_none());
}

const USER: &str = "{\"id\":\"44322889\",\"login\":\"sam\",\"display_name\":\"Sam\",\"type\":null,\
\"broadcaster_type\":\"partner\",\"description\":\"hello\",\"profile_image_url\":\"p.png\",\
\"offline_image_url\":7,\"view_count\":\"many\"}";

#[test]
fn user_is_read_leniently_where_members_may_be_null() {
    let user = User::new(USER).expect("a user");
    assert_eq!(user.id, 44322889);
    assert_eq!(user.login, "sam");
    assert_eq!(user.display_name, "Sam");
    assert_eq!(user.user_type, "");
    assert_eq!(user.broadcaster_type, "partner");
    assert_eq!(user.description, "hello");
    assert_eq!(user.profile_image_url, "p.png");
    assert_eq!(user.offline_image_url, "");
    assert_eq!(user.view_count, 0);
    let counted = User::new(&USER.replace("\"many\"", "12")).expect("a user");
    assert_eq!(counted.view_count, 12);
    assert!(User::new(&USER.replace("\"type\":null,", "")).is_none());
    assert!(User::new(&USER.replace(",\"view_count\":\"many\"", "")).is_none());
    assert!(User::new(&USER.replace("\"44322889\"", "\"sam\"")).is_none());
    assert!(User::new(&USER.replace("\"description\":\"hello\"", "\"description\":1")).is_none());
}

fn voice(channel_id: Option<u64>) -> VoiceSnapshot {
    VoiceSnapshot {
        channel_id,
        deaf: false,
        mute: false,
        self_deaf: false,
        self_mute: false,
        self_video: false,
        suppress: false,
    }
}

#[test]
fn voice_changes_are_named_in_order() {
    let here = voice(Some(1));
    assert_eq!(identify_state(&None, &here), Some(VoiceStateChange::JoinedVoiceChannel));
    assert_eq!(identify_state(&Some(here), &voice(Some(2))), Some(VoiceStateChange::MovedVoiceChannel));
    assert_eq!(identify_state(&Some(here), &voice(None)), Some(VoiceStateChange::LeftVoiceChannel));
    assert_eq!(identify_state(&Some(voice(None)), &voice(None)), Some(VoiceStateChange::LeftVoiceChannel));
    assert_eq!(identify_state(&Some(here), &here), None);
    let deaf = VoiceSnapshot { deaf: true, mute: true, ..here };
    assert_eq!(identify_state(&Some(here), &deaf), Some(VoiceStateChange::ServerDeafened));
    let mute = VoiceSnapshot { mute: true, self_deaf: true, ..here };
    assert_eq!(identify_state(&Some(here), &mute), Some(VoiceStateChange::ServerMuted));
    let self_deaf = VoiceSnapshot { self_deaf: true, ..here };
    assert_eq!(identify_state(&Some(here), &self_deaf), Some(VoiceStateChange::SelfDeafened));
    let self_mute = VoiceSnapshot { self_mute: true, ..here };
    assert_eq!(identify_state(&Some(here), &self_mute), Some(VoiceStateChange::SelfMuted));
    let video = VoiceSnapshot { self_video: true, suppress: true, ..here };
    assert_eq!(identify_state(&Some(here), &video), Some(VoiceStateChange::SelfVideo));
    let suppress = VoiceSnapshot { suppress: true, ..here };
    assert_eq!(identify_state(&Some(here), &suppress), Some(VoiceStateChange::Suppress));
    assert_eq!(VoiceStateChange::LeftVoiceChannel.describe(), "Left voice channel");
    assert_eq!(VoiceStateChange::_SelfStream.describe(), "Self stream");
}

#[test]
fn actions_are_named_exactly() {
    assert_eq!(DiscordAction::from_str("EmbedCreate"), Ok(DiscordAction::EmbedCreate));
    assert_eq!(DiscordAction::from_str("EmbedDelete"), Ok(DiscordAction::EmbedDelete));
    assert_eq!(DiscordAction::from_str("EmbedEdit"), Ok(DiscordAction::EmbedEdit));
    assert_eq!(DiscordAction::from_str("EmbedGet"), Ok(DiscordAction::EmbedGet));
    assert_eq!(DiscordAction::from_str("RoleSelectorCreate"), Ok(DiscordAction::RoleSelectorCreate));
    assert_eq!(DiscordAction::from_str("RoleSelectorDelete"), Ok(DiscordAction::RoleSelectorDelete));
    assert_eq!(DiscordAction::from_str("RoleSelectorEdit"), Ok(DiscordAction::RoleSelectorEdit));
    assert_eq!(DiscordAction::from_str("embedcreate"), Err(()));
    assert_eq!(DiscordAction::from_str(""), Err(()));
}

#[test]
fn pairings_are_judged_in_either_order() {
    let pairs = vec![(1i64, 2i64), (3, 4)];
    assert_eq!(judge_pair(&pairs, 5, 5), PairVerdict::SameRole);
    assert_eq!(judge_pair(&pairs, 1, 2), PairVerdict::AlreadyPaired);
    assert_eq!(judge_pair(&pairs, 4, 3), PairVerdict::AlreadyPaired);
    assert_eq!(judge_pair(&pairs, 1, 3), PairVerdict::Accepted);
    assert_eq!(judge_pair(&Vec::new(), 1, 2), PairVerdict::Accepted);
    assert!(may_manage(true, 1));
    assert!(may_manage(false, 213709744261693442));
    assert!(!may_manage(false, 1));
    assert!(pairing_existed(2));
    assert!(!pairing_existed(0));
    assert_eq!(mutex_command("add"), MutexCommand::Add);
    assert_eq!(mutex_command("remove"), MutexCommand::Remove);
    assert_eq!(mutex_command("clear"), MutexCommand::Clear);
    assert_eq!(mutex_command("list"), MutexCommand::List);
    assert_eq!(mutex_command("Add"), MutexCommand::Unknown);
}

#[test]
fn gained_role_takes_the_roles_it_excludes() {
    let pairs = vec![(1u64, 2u64), (3, 1), (1, 4)];
    // The member gained 1 and holds 2; 4 is not held; 3 is taken held or not.
    assert_eq!(roles_excluded_by(&pairs, &vec![1, 2], 1), vec![2, 3]);
    assert_eq!(roles_excluded_by(&pairs, &vec![1, 4, 2], 1), vec![2, 4, 3]);
    assert_eq!(check_mutex_roles(&pairs, &Some(vec![2]), &vec![2, 1]), vec![2, 3]);
    assert_eq!(check_mutex_roles(&pairs, &Some(vec![2, 1]), &vec![2, 1]), Vec::<u64>::new());
    assert_eq!(check_mutex_roles(&pairs, &None, &vec![2, 1]), Vec::<u64>::new());
    assert_eq!(check_mutex_roles(&pairs, &Some(vec![]), &vec![4, 1]), vec![1, 4, 3]);
}

#[test]
fn links_to_blocked_sites_offend() {
    let sites = vec!["example.com".to_string(), "https://blocked.org/page".to_string()];
    assert!(webblock_check_message("see https://example.com/x", &sites));
    assert!(webblock_check_message("see http://blocked.net now", &sites));
    assert!(!webblock_check_message("see https://www.example.com/x", &sites));
    assert!(!webblock_check_message("see https://harmless.io", &sites));
    assert!(!webblock_check_message("no link here", &sites));
    assert!(!webblock_check_message("see https://example.com", &Vec::new()));
    assert!(!webblock_check_message("see https://127.0.0.1/", &vec!["127.0.0.1".to_string()]));
}

#[test]
fn blocklist_rules_are_applied_label_by_label() {
    assert_eq!(site_url("example.com"), "https://example.com");
    assert_eq!(site_url("http://example.com"), "http://example.com");
    assert_eq!(site_url("httpbin.org"), "httpbin.org");
    assert_eq!(label_of("www.example.com"), "www");
    assert_eq!(label_of("localhost"), "localhost");
    assert_eq!(label_of(".hidden"), "");
    let urls = vec!["https://a.example".to_string(), "nonsense".to_string(), "http://b.example/x".to_string()];
    assert_eq!(known_domains(&urls), vec!["a.example".to_string(), "b.example".to_string()]);
    let links = vec!["".to_string(), "a.one".to_string()];
    assert!(domains_clash(&links, &vec!["b.two".to_string(), "a.three".to_string()]));
    assert!(!domains_clash(&links, &vec!["".to_string(), "b.two".to_string()]));
    assert!(setting_on("true"));
    assert!(!setting_on("false"));
    assert!(!setting_on("TRUE"));
    assert_eq!(moderate(true, true, false, true), Moderation { log: false, delete: true });
    assert_eq!(moderate(true, false, true, true), Moderation { log: true, delete: false });
    assert_eq!(moderate(false, true, true, true), Moderation { log: false, delete: false });
    assert_eq!(moderate(true, true, true, false), Moderation { log: false, delete: false });
    assert_eq!(webblock("enable"), WebBlockCommand::Enable);
    assert_eq!(webblock("disable"), WebBlockCommand::Disable);
    assert_eq!(webblock("edit"), WebBlockCommand::Edit);
    assert_eq!(webblock("log"), WebBlockCommand::Log);
    assert_eq!(webblock("help"), WebBlockCommand::Help);
    assert_eq!(webblock("status"), WebBlockCommand::Status);
    assert_eq!(webblock("other"), WebBlockCommand::Unknown);
}

#[test]
fn colours_are_read_as_three_hexadecimal_bytes() {
    assert_eq!(parse_rgb("#ff8000"), Some((255, 128, 0)));
    assert_eq!(parse_rgb("#FF80aB"), Some((255, 128, 171)));
    assert_eq!(parse_rgb("x0a0b0c and more"), Some((10, 11, 12)));
    assert_eq!(parse_rgb("#+f+0+a"), Some((15, 0, 10)));
    assert_eq!(parse_rgb("#ff800"), None);
    assert_eq!(parse_rgb("#gg8000"), None);
    assert_eq!(parse_rgb("#-18000"), None);
    assert_eq!(parse_rgb("#f+8000"), None);
    assert_eq!(parse_rgb("é000000"), None);
    assert_eq!(parse_rgb(""), None);
    for pair in ["00", "7f", "+9", "9+", "fF", "-1", "1 ", "g0"] {
        let text = format!("#{}0000", pair);
        let expected = u8::from_str_radix(pair, 16).ok().map(|r| (r, 0, 0));
        assert_eq!(parse_rgb(&text), expected, "reading {:?}", pair);
    }
    let details = EmbedDetails {
        embed_title: Some("t".to_string()),
        embed_title_url: None,
        embed_description: None,
        embed_image_url: None,
        embed_thumbnail_url: None,
        embed_color: Some("#010203".to_string()),
    };
    assert_eq!(details.color_rgb(), Some((1, 2, 3)));
    let plain = EmbedDetails { embed_color: None, ..details };
    assert_eq!(plain.color_rgb(), None);
}

#[test]
fn gateway_events_are_routed_by_name() {
    assert_eq!(command_route("createroleselector"), CommandRoute::CreateRoleSelector);
    assert_eq!(command_route("mutex"), CommandRoute::Mutex);
    assert_eq!(command_route("webblock"), CommandRoute::WebBlock);
    assert_eq!(command_route("Edit Role Selector"), CommandRoute::EditRoleSelector);
    assert_eq!(command_route("edit role selector"), CommandRoute::Unknown);
    assert_eq!(component_route("selectmenu"), ComponentRoute::RoleSelector);
    assert_eq!(component_route("edit_selector"), ComponentRoute::RoleSelector);
    assert_eq!(component_route("clear_roles"), ComponentRoute::RoleSelector);
    assert_eq!(component_route("cancel"), ComponentRoute::Unknown);
    assert!(logs_voice(Some(687876072045412560)));
    assert!(!logs_voice(Some(713889872359981076)));
    assert!(!logs_voice(None));
    assert!(greets_new_members(713889872359981076));
    assert!(!greets_new_members(1));
    assert_eq!(role_for_reaction(716047715208921110), Some(715247696663019560));
    assert_eq!(role_for_reaction(5), None);
    assert_eq!(
        welcome_text(42),
        "Welcome <@42> to Limited Budgetworks,\nhope you enjoy your stay!"
    );
}

#[test]
fn embed_text_is_marked_rich() {
    let marked = mark_rich("{\"title\":\"T\",\"type\":\"link\"}").expect("an object");
    let value: serde_json::Value = serde_json::from_str(&marked).unwrap();
    assert_eq!(value["type"], "rich");
    assert_eq!(value["title"], "T");
    assert_ne!(marked, "{\"title\":\"T\",\"type\":\"link\"}");
    assert_eq!(mark_rich("{}"), Some("{\"type\":\"rich\"}".to_string()));
    assert_eq!(mark_rich("\"text\""), None);
    assert_eq!(mark_rich("{"), None);
}

#[test]
fn white_space_is_what_the_standard_library_takes_it_for() {
    let mut code = 0u32;
    while code <= 0x10FFFF {
        if let Some(c) = char::from_u32(code) {
            assert_eq!(is_white_space(c), c.is_whitespace(), "U+{:04X}", code);
        }
        code += 1;
    }
}

#[test]
fn text_is_trimmed_and_split_as_the_standard_library_does() {
    for text in [
        "", " ", "a", " a", "a ", "  a b  ", "\t\na\u{3000}", "\u{a0}x\u{2003}y\u{85}", "\n\n",
        "é ü", " \u{200b} ",
    ] {
        assert_eq!(trim_text(text), text.trim(), "trimming {:?}", text);
    }
    for text in ["", "a", "a\nb", "a\n", "\na", "\n", "\n\n", "a\n\nb\n", "é\nü"] {
        let expected: Vec<String> = text.split("\n").map(|piece| piece.to_string()).collect();
        assert_eq!(lines_of_text(text), expected, "splitting {:?}", text);
    }
}

#[test]
fn blocklist_form_is_sorted_into_sites_and_other_lines() {
    let edit = read_blocklist("https://a.example\n\n  https://b.example/x  \nnot a url\n   \nc.example");
    assert_eq!(
        edit.sites,
        vec![(0, "https://a.example".to_string()), (2, "https://b.example/x".to_string())]
    );
    assert_eq!(edit.invalid, vec!["not a url".to_string(), "c.example".to_string()]);
    let empty = read_blocklist("");
    assert!(empty.sites.is_empty());
    assert!(empty.invalid.is_empty());
    assert_eq!(
        invalid_report(&edit.invalid),
        "The following lines are not valid URLs:\nnot a urlc.example"
    );
    assert_eq!(invalid_report(&Vec::new()), "The following lines are not valid URLs:\n");
    let sites = vec!["a.example".to_string(), "b.example".to_string()];
    assert_eq!(blocklist_text(&sites), "a.example\nb.example\n");
    assert_eq!(blocklist_text(&Vec::new()), "");
}

#[test]
fn blocklist_form_names_its_guild() {
    assert_eq!(edit_form_id(713889872359981076), "webblockedit 713889872359981076");
    assert_eq!(edit_form_guild("webblockedit 713889872359981076"), Some(713889872359981076));
    assert_eq!(edit_form_guild(&edit_form_id(0)), Some(0));
    assert_eq!(edit_form_guild("webblockedit"), None);
    assert_eq!(edit_form_guild("webblockedit x"), None);
    assert_eq!(edit_form_guild("webblockedit  5"), None);
    assert_eq!(edit_form_guild("selectmenu"), None);
    assert_eq!(status_word("true"), "enabled");
    assert_eq!(status_word("false"), "disabled");
    assert_eq!(status_word(""), "disabled");
}
