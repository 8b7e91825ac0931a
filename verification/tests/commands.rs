use std::time::Duration;

use chatbot::commands::charinfo::CharInfo;
use chatbot::commands::delete::{Delete, OWNER_ID};
use chatbot::commands::google_palm::{can_answer, Filter, Generated, GooglePalm, Refusal};
use chatbot::commands::ping::Ping;
use chatbot::commands::stablehorde::StableHorde;
use chatbot::craiyon::{strip_newlines, GeneratedResult};

#[test]
fn stable_diffusion_2_settings() {
    let command = StableHorde::stable_diffusion_2();
    assert_eq!(command.command_names(), ["stable_diffusion_2", "sd2"]);
    assert_eq!(command.description(), Some("generate images using Stable Diffusion 2.0"));
    assert_eq!(command.model(), "stable_diffusion_2.0");
    assert_eq!(command.size(), 768);
}

#[test]
fn stable_diffusion_settings() {
    let command = StableHorde::stable_diffusion();
    assert_eq!(command.command_names(), ["stable_diffusion", "sd"]);
    assert_eq!(command.description(), Some("generate images using Stable Diffusion"));
    assert_eq!(command.model(), "stable_diffusion");
    assert_eq!(command.size(), 512);
}

#[test]
fn waifu_diffusion_settings() {
    let command = StableHorde::waifu_diffusion();
    assert_eq!(command.command_names(), ["waifu_diffusion", "wd"]);
    assert_eq!(command.description(), Some("generate images using Waifu Diffusion"));
    assert_eq!(command.model(), "waifu_diffusion");
    assert_eq!(command.size(), 512);
}

#[test]
fn furry_diffusion_settings() {
    let command = StableHorde::furry_diffusion();
    assert_eq!(command.command_names(), ["furry_diffusion", "fd"]);
    assert_eq!(command.description(), Some("generate images using Furry Epoch"));
    assert_eq!(command.model(), "Furry Epoch");
    assert_eq!(command.size(), 512);
}

#[test]
fn stable_horde_rate_limit() {
    let mut limiter = StableHorde::stable_diffusion().rate_limit();
    assert_eq!(limiter.limit(), 3);
    assert_eq!(limiter.window(), 300);
    assert!(limiter.try_acquire(1, 0));
    assert!(limiter.try_acquire(1, 100));
    assert!(limiter.try_acquire(1, 200));
    assert!(!limiter.try_acquire(1, 299));
    assert!(limiter.try_acquire(1, 300));
}

#[test]
fn google_palm_settings() {
    let command = GooglePalm;
    assert_eq!(command.command_names(), ["google_palm", "palm"]);
    assert_eq!(command.description(), Some("ask Google PaLM"));
    let limiter = command.rate_limit();
    assert_eq!(limiter.limit(), 3);
    assert_eq!(limiter.window(), 45);
}

#[test]
fn google_palm_shows_the_first_candidate() {
    let answer = Ok(Generated {
        filters: None,
        candidates: Some(vec!["first".to_string(), "second".to_string()]),
    });
    assert_eq!(GooglePalm::reply(&answer), "first");
}

#[test]
fn google_palm_shows_filters() {
    let answer = Ok(Generated {
        filters: Some(vec![
            Filter { reason: "SAFETY".to_string(), message: None },
            Filter { reason: "OTHER".to_string(), message: Some("too odd".to_string()) },
        ]),
        candidates: Some(vec!["hidden".to_string()]),
    });
    assert_eq!(GooglePalm::reply(&answer), "request filtered by Google: SAFETY, OTHER: too odd.");
    let none = Ok(Generated { filters: Some(Vec::new()), candidates: None });
    assert_eq!(GooglePalm::reply(&none), "request filtered by Google: .");
}

#[test]
fn google_palm_needs_a_candidate() {
    assert!(!can_answer(&Ok(Generated { filters: None, candidates: None })));
    assert!(!can_answer(&Ok(Generated { filters: None, candidates: Some(Vec::new()) })));
    assert!(can_answer(&Ok(Generated { filters: None, candidates: Some(vec![String::new()]) })));
    assert!(can_answer(&Ok(Generated { filters: Some(Vec::new()), candidates: None })));
    assert!(can_answer(&Err(Refusal { code: 1, message: String::new() })));
}

#[test]
fn google_palm_shows_errors() {
    let answer = Err(Refusal { code: 429, message: "quota".to_string() });
    assert_eq!(GooglePalm::reply(&answer), "error 429: quota");
    let negative = Err(Refusal { code: -7, message: String::new() });
    assert_eq!(GooglePalm::reply(&negative), "error -7: ");
    let least = Err(Refusal { code: i32::MIN, message: "x".to_string() });
    assert_eq!(GooglePalm::reply(&least), "error -2147483648: x");
}

#[test]
fn ping_reports_milliseconds() {
    assert_eq!(Ping.name(), "ping");
    assert_eq!(Ping::report(0), "Ping: 0ms");
    assert_eq!(Ping::report(137), "Ping: 137ms");
    assert_eq!(Ping::report(u128::MAX), format!("Ping: {}ms", u128::MAX));
}

#[test]
fn delete_is_for_the_owner() {
    assert_eq!(Delete.name(), "delete");
    assert_eq!(Delete.aliases(), ["del"]);
    assert_eq!(OWNER_ID, 807128293);
    assert_eq!(Delete::target(OWNER_ID, Some(55)), Some(55));
    assert_eq!(Delete::target(OWNER_ID, None), None);
    assert_eq!(Delete::target(1, Some(55)), None);
    assert_eq!(Delete::target(-OWNER_ID, Some(55)), None);
}

#[test]
fn charinfo_tells_code_points() {
    assert_eq!(CharInfo::describe("a"), "`a` `U\\+0061`");
    assert_eq!(CharInfo::describe("a*"), "`a` `U\\+0061`\n`\\*` `U\\+002A`");
    assert_eq!(CharInfo::describe("\u{1F600}"), "`\u{1F600}` `U\\+1F600`");
    assert_eq!(CharInfo::describe("\u{10FFFF}"), "`\u{10FFFF}` `U\\+10FFFF`");
    assert_eq!(CharInfo::describe("\u{0}"), "`\u{0}` `U\\+0000`");
    assert_eq!(CharInfo::describe(""), "");
}

#[test]
fn charinfo_leaves_a_blank_line_for_white_space() {
    assert_eq!(CharInfo::describe("a b"), "`a` `U\\+0061`\n\n`b` `U\\+0062`");
    assert_eq!(CharInfo::describe(" "), "");
    assert_eq!(CharInfo::describe("\t\n"), "\n");
    assert_eq!(CharInfo::describe("\u{a0}"), "`\u{a0}` `U\\+00A0`");
}

#[test]
fn charinfo_stops_after_ten_lines() {
    let ten = CharInfo::describe("0123456789");
    assert_eq!(ten.lines().count(), 10);
    assert!(ten.ends_with("`9` `U\\+0039`"));
    let eleven = CharInfo::describe("0123456789a");
    assert_eq!(eleven, format!("{}\n\u{2026}", ten));
    assert_eq!(CharInfo::describe("0123456789abcdefgh"), eleven);
}

#[test]
fn generated_images_are_decoded() {
    let images = vec!["aGVs\nbG8=\n".to_string(), "".to_string(), "AAEC".to_string()];
    let result = GeneratedResult::decode(&images, Duration::from_millis(1500)).unwrap();
    assert_eq!(result.images, vec![b"hello".to_vec(), Vec::new(), vec![0, 1, 2]]);
    assert_eq!(result.duration, Duration::from_millis(1500));
}

#[test]
fn generated_image_that_is_no_base64_gives_nothing() {
    let images = vec!["aGVsbG8=".to_string(), "a b".to_string()];
    assert!(GeneratedResult::decode(&images, Duration::from_secs(1)).is_none());
    assert!(GeneratedResult::decode(&Vec::new(), Duration::from_secs(1)).is_some());
}

#[test]
fn newlines_are_taken_out() {
    assert_eq!(strip_newlines("a\nb\n\nc"), "abc");
    assert_eq!(strip_newlines("\n"), "");
    assert_eq!(strip_newlines("a\rb"), "a\rb");
}
