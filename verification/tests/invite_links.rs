use discord_finder::discord::{
    check_lookup_response, get_invite_code, invite_request_url, Channel, Invite,
};
use discord_finder::google::{extract_links, get_full_url};
use discord_finder::intermediary::{extract_invites, get_url};
use discord_finder::Error;

const OPEN: &str = "\"r\"><a href=\"";
const CLOSE: &str = "\" onmousedown=\"return rwt(";

#[test]
fn get_full_url_test() {
    assert_eq!(
        "https://www.google.com/search?q=\"discord.gg\"&tbs=qdr:h&filter=0&start=10",
        get_full_url(1)
    );
}

#[test]
fn search_url_offset_is_page_times_ten() {
    assert_eq!(
        get_full_url(0),
        "https://www.google.com/search?q=\"discord.gg\"&tbs=qdr:h&filter=0&start=0"
    );
    assert_eq!(
        get_full_url(7),
        "https://www.google.com/search?q=\"discord.gg\"&tbs=qdr:h&filter=0&start=70"
    );
    assert_eq!(
        get_full_url(123),
        "https://www.google.com/search?q=\"discord.gg\"&tbs=qdr:h&filter=0&start=1230"
    );
}

#[test]
fn get_invite_urls() {
    assert_eq!(
        get_invite_code("https://discord.com/invite/seaofthievescommunity"),
        Some("seaofthievescommunity")
    );
    assert_eq!(
        get_invite_code("https://discord.com/invite/UNWEj54"),
        Some("UNWEj54")
    );
    assert_eq!(
        get_invite_code("https://discord.gg/8j8b2xR"),
        Some("8j8b2xR")
    );
    assert_eq!(
        get_invite_code("https://discord.gg/Yyakf3"),
        Some("Yyakf3")
    );
}

#[test]
fn invite_code_rejects_unrecognized_shapes() {
    assert_eq!(get_invite_code("https://example.com/invite/x"), None);
    assert_eq!(get_invite_code("https://discord.com/invite/"), None);
    assert_eq!(get_invite_code("https://discord.gg/"), None);
    assert_eq!(get_invite_code("http://discord.gg/abcdefg"), None);
    assert_eq!(get_invite_code(""), None);
}

#[test]
fn token_scan_stops_at_first_foreign_character() {
    assert_eq!(get_url("Ab3-d/9_x!tail"), "Ab3-d/9_x");
    assert_eq!(get_url(""), "");
    assert_eq!(get_url("!x"), "");
    assert_eq!(get_url("h\u{e9}llo"), "h");
}

#[test]
fn extract_accepts_exactly_seven_character_tokens() {
    let body = "prefix discord.gg/Ab3dE9f suffix";
    assert_eq!(
        extract_invites(body),
        vec!["https://discord.com/invite/Ab3dE9f".to_string()]
    );
}

#[test]
fn extract_drops_six_and_eight_character_tokens() {
    assert!(extract_invites("x discord.gg/Ab3dE9 y").is_empty());
    assert!(extract_invites("x discord.gg/Ab3dE9f8 y").is_empty());
    assert!(extract_invites("x discord.gg/ y").is_empty());
}

#[test]
fn extract_counts_slashes_as_token_characters() {
    assert_eq!(
        extract_invites("see discord.gg/ab/cd3f now"),
        vec!["https://discord.com/invite/ab/cd3f".to_string()]
    );
}

#[test]
fn extract_dedups_and_keeps_first_seen_order() {
    let body = "a discord.gg/AAAAAAA b discord.gg/BBBBBBB c discord.gg/AAAAAAA d";
    assert_eq!(
        extract_invites(body),
        vec![
            "https://discord.com/invite/AAAAAAA".to_string(),
            "https://discord.com/invite/BBBBBBB".to_string(),
        ]
    );
}

#[test]
fn extract_without_marker_is_empty() {
    assert!(extract_invites("no invitations here").is_empty());
    assert!(extract_invites("").is_empty());
    assert!(extract_invites("discord.gg ends without a slash").is_empty());
}

#[test]
fn links_are_read_between_the_markers() {
    let body = format!("junk {}http://example.org{} tail", OPEN, CLOSE);
    assert_eq!(extract_links(&body), vec!["http://example.org".to_string()]);
}

#[test]
fn links_need_both_markers() {
    let body = format!("junk {}http://example.org and no close", OPEN);
    assert!(extract_links(&body).is_empty());
    assert!(extract_links("no markers at all").is_empty());
    let body = format!("only a close {} here", CLOSE);
    assert!(extract_links(&body).is_empty());
}

#[test]
fn link_scan_resumes_after_the_captured_text() {
    // The captured text also occurs before the markers, so the scan resumes
    // inside the first link and captures it a second time: duplicates are
    // kept by this stage.
    let body = format!(
        "abc {}abc{}{}xyz1234{}",
        OPEN, CLOSE, OPEN, CLOSE
    );
    assert_eq!(
        extract_links(&body),
        vec![
            "abc".to_string(),
            "abc".to_string(),
            "xyz1234".to_string(),
        ]
    );
}

#[test]
fn an_empty_capture_ends_the_link_scan() {
    let body = format!("{}{}{}late{}", OPEN, CLOSE, OPEN, CLOSE);
    assert_eq!(extract_links(&body), vec!["".to_string()]);
}

#[test]
fn request_url_embeds_the_code_and_the_counts_flag() {
    assert_eq!(
        invite_request_url("https://discord.gg/Yyakf3"),
        Ok("https://discord.com/api/v6/invites/Yyakf3?with_counts=true".to_string())
    );
    assert_eq!(
        invite_request_url("https://discord.com/invite/UNWEj54"),
        Ok("https://discord.com/api/v6/invites/UNWEj54?with_counts=true".to_string())
    );
}

#[test]
fn request_url_rejects_unrecognized_shapes_without_any_call() {
    assert_eq!(
        invite_request_url("https://example.com/oops"),
        Err(Error::InvalidResponse)
    );
    assert_eq!(invite_request_url(""), Err(Error::InvalidResponse));
}

#[test]
fn only_a_readable_success_response_is_decoded() {
    assert!(check_lookup_response(200, true).is_ok());
    assert_eq!(check_lookup_response(200, false), Err(Error::InvalidResponse));
    assert_eq!(check_lookup_response(404, true), Err(Error::InvalidResponse));
    assert_eq!(check_lookup_response(500, false), Err(Error::InvalidResponse));
}

#[test]
fn invite_url_round_trips_through_code_extraction() {
    let invite = Invite {
        code: "UNWEj54".to_string(),
        guild: None,
        channel: Channel {
            id: "1234".to_string(),
            name: Some("general".to_string()),
            channel_type: 0,
        },
        inviter: None,
        approximate_member_count: 5,
        approximate_presence_count: 2,
    };
    let url = invite.get_url();
    assert_eq!(url, "https://discord.com/invite/UNWEj54");
    assert_eq!(get_invite_code(&url), Some("UNWEj54"));
}
