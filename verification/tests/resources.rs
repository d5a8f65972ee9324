use message_router::message_handler::{MessageHandler, TEST_MESSAGE_PREFIX};
use message_router::handler_registry::{Frame, HandlerResponse, QueryHandler, QueryReply};
use message_router::process_type::{
    ProcessType, PROCESS_TYPE, RENDERER_PROCESS, ZYGOTE_PROCESS,
};
use message_router::resource_util::{
    get_resource_path, get_startup_url, get_url_without_query_or_fragment, STARTUP_PAGE,
    TEST_ORIGIN,
};
use message_router::text::{
    chars_of, contains, find_char, matches_at, reversed_from, same_text, starts_with, string_of,
};

fn chars(s: &str) -> Vec<char> {
    s.chars().collect()
}

#[test]
fn the_startup_url_is_the_origin_and_the_page() {
    assert_eq!(get_startup_url(), "https://example.com/message_router.html");
    assert_eq!(TEST_ORIGIN, "https://example.com/");
    assert_eq!(STARTUP_PAGE, "message_router.html");
}

#[test]
fn query_and_fragment_are_cut_at_whichever_comes_first() {
    assert_eq!(get_url_without_query_or_fragment("https://a/b?c=d#e"), "https://a/b");
    assert_eq!(get_url_without_query_or_fragment("https://a/b#e?c=d"), "https://a/b");
    assert_eq!(get_url_without_query_or_fragment("https://a/b#e"), "https://a/b");
    assert_eq!(get_url_without_query_or_fragment("https://a/b?"), "https://a/b");
    assert_eq!(get_url_without_query_or_fragment("https://a/b"), "https://a/b");
    assert_eq!(get_url_without_query_or_fragment("?x"), "");
    assert_eq!(get_url_without_query_or_fragment(""), "");
    assert_eq!(get_url_without_query_or_fragment("https://a/ü?ö"), "https://a/ü");
}

#[test]
fn the_resource_path_is_what_follows_the_origin() {
    assert_eq!(
        get_resource_path("https://example.com/message_router.html"),
        Some(String::from("message_router.html"))
    );
    assert_eq!(
        get_resource_path("https://example.com/dir/file.js?v=2#frag"),
        Some(String::from("dir/file.js"))
    );
    assert_eq!(get_resource_path("https://example.com/#top"), Some(String::new()));
    assert_eq!(get_resource_path("https://example.com/"), Some(String::new()));
    assert_eq!(get_resource_path("https://example.com/grüße.html"), Some(String::from("grüße.html")));
}

#[test]
fn urls_of_other_origins_have_no_resource_path() {
    assert_eq!(get_resource_path("https://example.com"), None);
    assert_eq!(get_resource_path("http://example.com/index.html"), None);
    assert_eq!(get_resource_path("https://example.org/index.html"), None);
    assert_eq!(get_resource_path(""), None);
    assert_eq!(get_resource_path(" https://example.com/index.html"), None);
}

#[test]
fn the_process_type_follows_the_switch() {
    assert_eq!(ProcessType::from_switch(None), ProcessType::Browser);
    assert_eq!(ProcessType::from_switch(Some("renderer")), ProcessType::Renderer);
    assert_eq!(ProcessType::from_switch(Some("zygote")), ProcessType::Zygote);
    assert_eq!(ProcessType::from_switch(Some("gpu-process")), ProcessType::Other);
    assert_eq!(ProcessType::from_switch(Some("")), ProcessType::Other);
    assert_eq!(ProcessType::from_switch(Some("Renderer")), ProcessType::Other);
    assert_eq!(ProcessType::from_switch(Some("renderer ")), ProcessType::Other);
    assert_eq!(ProcessType::from(Some("renderer")), ProcessType::Renderer);
    assert_eq!(ProcessType::from(None), ProcessType::Browser);
    assert_eq!(PROCESS_TYPE, "type");
    assert_eq!(RENDERER_PROCESS, "renderer");
    assert_eq!(ZYGOTE_PROCESS, "zygote");
}

#[test]
fn chars_and_strings_convert_both_ways() {
    assert_eq!(chars_of("aß→z"), vec!['a', 'ß', '→', 'z']);
    assert_eq!(chars_of(""), Vec::<char>::new());
    let v = chars("hello");
    assert_eq!(string_of(&v, 0, 5), "hello");
    assert_eq!(string_of(&v, 1, 3), "el");
    assert_eq!(string_of(&v, 2, 2), "");
}

#[test]
fn reversed_from_reverses_the_tail() {
    assert_eq!(reversed_from(&chars("ECHO:abc"), 5), "cba");
    assert_eq!(reversed_from(&chars("abc"), 0), "cba");
    assert_eq!(reversed_from(&chars("abc"), 3), "");
    assert_eq!(reversed_from(&chars("aß→"), 1), "→ß");
}

#[test]
fn prefix_and_substring_tests() {
    assert!(starts_with(&chars("ECHO:abc"), &chars("ECHO:")));
    assert!(starts_with(&chars("abc"), &chars("")));
    assert!(starts_with(&chars("abc"), &chars("abc")));
    assert!(!starts_with(&chars("ab"), &chars("abc")));
    assert!(!starts_with(&chars("xECHO:"), &chars("ECHO:")));

    assert!(contains(&chars("hello world"), &chars("lo w")));
    assert!(contains(&chars("hello"), &chars("hello")));
    assert!(contains(&chars("hello"), &chars("")));
    assert!(contains(&chars(""), &chars("")));
    assert!(contains(&chars("aab"), &chars("ab")));
    assert!(!contains(&chars("hello"), &chars("hellos")));
    assert!(!contains(&chars("hello"), &chars("lol")));

    assert!(matches_at(&chars("abcabc"), &chars("abc"), 3));
    assert!(!matches_at(&chars("abcabc"), &chars("abc"), 4));
    assert!(!matches_at(&chars("abcabc"), &chars("abc"), 1));
    assert!(matches_at(&chars("abc"), &chars(""), 3));
    assert!(!matches_at(&chars("abc"), &chars(""), 4));
}

#[test]
fn find_char_gives_the_first_position_or_the_length() {
    assert_eq!(find_char(&chars("a?b?c"), '?'), 1);
    assert_eq!(find_char(&chars("abc"), '?'), 3);
    assert_eq!(find_char(&chars(""), '?'), 0);
    assert_eq!(find_char(&chars("?"), '?'), 0);
}

#[test]
fn same_text_compares_character_by_character() {
    assert!(same_text("renderer", "renderer"));
    assert!(same_text("", ""));
    assert!(!same_text("renderer", "renderers"));
    assert!(!same_text("renderer", "renderet"));
    assert!(!same_text("a", ""));
}

fn page() -> Frame {
    Frame { id: 1, url: String::from("https://example.com/message_router.html?run=1") }
}

#[test]
fn the_message_handler_reverses_what_follows_its_prefix() {
    let handler = MessageHandler::new(get_startup_url());
    assert_eq!(handler.prefix(), TEST_MESSAGE_PREFIX);
    assert_eq!(handler.prefix(), "ECHO:");
    assert_eq!(handler.startup_url(), "https://example.com/message_router.html");
    let answered = |payload: &str| {
        HandlerResponse::Answered(QueryReply {
            success: true,
            payload: String::from(payload),
            terminal: false,
        })
    };
    assert_eq!(handler.on_query(1, &page(), 1, "ECHO:abc", false), answered("cba"));
    assert_eq!(handler.on_query(1, &page(), 2, "ECHO:", true), answered(""));
    assert_eq!(handler.on_query(1, &page(), 3, "ECHO:a b→c", false), answered("c→b a"));
    assert_eq!(handler.on_query(1, &page(), 4, "ECHO:ECHO:", false), answered(":OHCE"));
}

#[test]
fn the_message_handler_declines_other_requests_and_other_pages() {
    let handler = MessageHandler::new(get_startup_url());
    assert_eq!(handler.on_query(1, &page(), 1, "ECHO", false), HandlerResponse::Declined);
    assert_eq!(handler.on_query(1, &page(), 1, "echo:abc", false), HandlerResponse::Declined);
    assert_eq!(handler.on_query(1, &page(), 1, " ECHO:abc", false), HandlerResponse::Declined);
    assert_eq!(handler.on_query(1, &page(), 1, "", false), HandlerResponse::Declined);
    let elsewhere = Frame { id: 1, url: String::from("https://example.com/other.html") };
    assert_eq!(handler.on_query(1, &elsewhere, 1, "ECHO:abc", false), HandlerResponse::Declined);
    handler.on_query_cancelled(1, 1);
}

#[test]
fn a_message_handler_can_have_another_prefix() {
    let handler =
        MessageHandler::with_prefix(String::from("/app"), String::from("MessageRouterTest:"));
    let frame = Frame { id: 1, url: String::from("https://host/app/index.html") };
    assert_eq!(
        handler.on_query(1, &frame, 1, "MessageRouterTest:hello", false),
        HandlerResponse::Answered(QueryReply {
            success: true,
            payload: String::from("olleh"),
            terminal: false,
        })
    );
    assert_eq!(handler.on_query(1, &frame, 1, "ECHO:hello", false), HandlerResponse::Declined);
}
