use discord_vc_statsmaster::changelog::{
    announcement, briefing, changelog_briefing, release_api_url, should_broadcast,
};

#[test]
fn announce_only_on_version_change() {
    assert!(should_broadcast(Some("0.1.0"), "0.2.0"));
    assert!(!should_broadcast(Some("0.2.0"), "0.2.0"));
    assert!(!should_broadcast(None, "0.2.0"));
}

#[test]
fn release_url() {
    assert_eq!(
        release_api_url("1.2.3"),
        "https://api.github.com/repos/luccamz/discord-vc-statsmaster/releases/tags/v1.2.3"
    );
}

#[test]
fn briefing_keeps_three_lines() {
    assert_eq!(briefing("a\r\nb\nc\nd"), "a\nb\nc");
    assert_eq!(briefing("one\n"), "one");
    assert_eq!(briefing("x\r"), "x\r");
    assert_eq!(briefing(""), "General stability updates and background improvements.");
    assert_eq!(briefing("\n"), "General stability updates and background improvements.");
}

#[test]
fn long_briefing_is_cut() {
    let body = "w".repeat(400);
    assert_eq!(briefing(&body), format!("{}...", "w".repeat(300)));
}

#[test]
fn briefing_from_json_answer() {
    let json = br#"{"body": "Line 1\nLine 2\nLine 3\nLine 4", "name": "v1"}"#;
    assert_eq!(changelog_briefing(Some(json)).unwrap(), "Line 1\nLine 2\nLine 3");
    assert_eq!(
        changelog_briefing(Some(b"not json")).unwrap(),
        "General stability updates and background improvements."
    );
    assert_eq!(
        changelog_briefing(Some(br#"{"body": 5}"#)).unwrap(),
        "General stability updates and background improvements."
    );
    assert_eq!(
        changelog_briefing(None).unwrap(),
        "General stability updates and background improvements."
    );
    let cut_in_char = format!(r#"{{"body": "{}é"}}"#, "a".repeat(299));
    assert!(changelog_briefing(Some(cut_in_char.as_bytes())).is_none());
}

#[test]
fn announcement_text() {
    assert_eq!(
        announcement("0.3.0", "Fixes"),
        "**v0.3.0 is now live!**\n\nFixes\n\n**Full release notes:** https://github.com/luccamz/discord-vc-statsmaster/releases/tag/v0.3.0"
    );
}
