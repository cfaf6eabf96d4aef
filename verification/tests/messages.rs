use discord_tray::{
    badge_appearance, badge_label_text, is_loaded_message, parse_ipc_message, parse_u32,
    user_agent, BadgeState, TargetOs, UserEvent, WindowBuilder,
};

fn std_parse(s: &str) -> Option<u32> {
    s.parse::<u32>().ok()
}

#[test]
fn parse_u32_agrees_with_std() {
    let cases = [
        "", "0", "00", "7", "42", "+5", "+", "-", "-0", "-5", "++5", "+-5", "5+", " 5", "5 ",
        "4294967295", "4294967296", "04294967295", "99999999999", "12a", "a12", "1_000",
        "0000000000000000000000012", "+0", "429496729", "4294967290", "4294967300",
    ];
    for case in cases {
        assert_eq!(parse_u32(case.as_bytes()), std_parse(case), "input {:?}", case);
    }
    for n in [0u32, 1, 9, 10, 99, 100, 65535, 1_000_000, u32::MAX - 1, u32::MAX] {
        let text = n.to_string();
        assert_eq!(parse_u32(text.as_bytes()), Some(n));
    }
}

#[test]
fn parse_u32_rejects_overflow() {
    assert_eq!(parse_u32(b"4294967296"), None);
    assert_eq!(parse_u32(b"42949672950"), None);
    assert_eq!(parse_u32(b"4294967295"), Some(u32::MAX));
}

#[test]
fn ipc_drag_message() {
    assert_eq!(parse_ipc_message("drag"), Some(UserEvent::DragWindow));
    assert_eq!(parse_ipc_message("drag "), None);
    assert_eq!(parse_ipc_message("Drag"), None);
}

#[test]
fn ipc_badge_messages() {
    assert_eq!(
        parse_ipc_message("badge:0"),
        Some(UserEvent::SetBadge(BadgeState::Clear))
    );
    assert_eq!(
        parse_ipc_message("badge:dot"),
        Some(UserEvent::SetBadge(BadgeState::Dot))
    );
    assert_eq!(
        parse_ipc_message("badge:5"),
        Some(UserEvent::SetBadge(BadgeState::Count(5)))
    );
    assert_eq!(
        parse_ipc_message("badge:150"),
        Some(UserEvent::SetBadge(BadgeState::Count(150)))
    );
    // `00` is not the literal `0`, so it reads as the count zero
    assert_eq!(
        parse_ipc_message("badge:00"),
        Some(UserEvent::SetBadge(BadgeState::Count(0)))
    );
    assert_eq!(
        parse_ipc_message("badge:+3"),
        Some(UserEvent::SetBadge(BadgeState::Count(3)))
    );
    // anything that does not read as a count clears the badge
    for rest in ["", "abc", "dots", "-1", "99999999999", "+", "1.5"] {
        let body = format!("badge:{}", rest);
        assert_eq!(
            parse_ipc_message(&body),
            Some(UserEvent::SetBadge(BadgeState::Clear)),
            "body {:?}",
            body
        );
    }
}

#[test]
fn ipc_other_messages_are_ignored() {
    for body in ["", "loaded", "badge", "Badge:5", "xbadge:5", "dragging", "bad", "é"] {
        assert_eq!(parse_ipc_message(body), None, "body {:?}", body);
    }
}

#[test]
fn loaded_message() {
    assert!(is_loaded_message("loaded"));
    assert!(!is_loaded_message("load"));
    assert!(!is_loaded_message("loaded "));
    assert!(!is_loaded_message(""));
}

#[test]
fn label_texts() {
    assert_eq!(badge_label_text(BadgeState::Clear), None);
    assert_eq!(badge_label_text(BadgeState::Dot), Some("•".to_string()));
    assert_eq!(badge_label_text(BadgeState::Count(100)), Some("99+".to_string()));
    assert_eq!(badge_label_text(BadgeState::Count(150)), Some("99+".to_string()));
    assert_eq!(badge_label_text(BadgeState::Count(u32::MAX)), Some("99+".to_string()));
    for n in 0..=99u32 {
        assert_eq!(badge_label_text(BadgeState::Count(n)), Some(n.to_string()));
    }
}

#[test]
fn appearance_template_only_when_plain_on_macos() {
    let plain_mac = badge_appearance(BadgeState::Clear, true);
    assert!(!plain_mac.badged && plain_mac.template && plain_mac.label.is_none());
    let plain_other = badge_appearance(BadgeState::Clear, false);
    assert!(!plain_other.badged && !plain_other.template);
    let dot_mac = badge_appearance(BadgeState::Dot, true);
    assert!(dot_mac.badged && !dot_mac.template);
    assert_eq!(dot_mac.label, Some("•".to_string()));
    let count = badge_appearance(BadgeState::Count(7), true);
    assert!(count.badged && !count.template);
    assert_eq!(count.label, Some("7".to_string()));
}

#[test]
fn count_messages_round_trip_to_labels() {
    for n in 1..=99u32 {
        let body = format!("badge:{}", n);
        let event = parse_ipc_message(&body);
        assert_eq!(event, Some(UserEvent::SetBadge(BadgeState::Count(n))));
        if let Some(UserEvent::SetBadge(state)) = event {
            assert_eq!(badge_label_text(state), Some(n.to_string()));
        }
    }
    for n in [0u32, 100, 4096, u32::MAX] {
        let body = format!("badge:{}", n);
        let expected = if n == 0 { BadgeState::Clear } else { BadgeState::Count(n) };
        assert_eq!(parse_ipc_message(&body), Some(UserEvent::SetBadge(expected)));
    }
}

#[test]
fn user_agents() {
    assert_eq!(
        user_agent(TargetOs::Macos),
        "Mozilla/5.0 (Macintosh; Intel Mac OS X 10_15_7) AppleWebKit/605.1.15 (KHTML, like Gecko) Version/17.6 Safari/605.1.15"
    );
    assert_eq!(
        user_agent(TargetOs::Linux),
        "Mozilla/5.0 (X11; Linux x86_64) AppleWebKit/537.36 (KHTML, like Gecko) Chrome/134.0.0.0 Safari/537.3"
    );
    assert_eq!(
        user_agent(TargetOs::Other),
        "Mozilla/5.0 (Windows NT 10.0; Win64; x64) AppleWebKit/537.36 (KHTML, like Gecko) Chrome/134.0.0.0 Safari/537.36 Trailer/93.3.8652.5"
    );
}

#[test]
fn window_builder_default() {
    let _builder: WindowBuilder = Default::default();
}
