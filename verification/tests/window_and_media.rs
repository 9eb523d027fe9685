use operon_gui::main_content::assistant_messages::assistant::format_timestamp_at;
use operon_gui::main_content::context::format_tokens;
use operon_gui::main_content::title::determine_session_title;
use operon_gui::media::{
    attachment_chips, cached_file_name, encode_base64, image_kind_of, is_image_bytes, ImageKind, MediaError, PendingAttachment,
};
use operon_gui::sidebar::{
    group_sidebar_sessions, project_directories, sidebar_selection, SessionRecord, SidebarConversation, SidebarProject,
};
use operon_gui::window::menu::{browser_command_for, browser_command_parts, OpenUrlError, Platform};
use operon_gui::window::navigation::{label, NavigationDirection};
use operon_gui::window::startup::{centred_geometry, StartupGeometry};
use operon_gui::window::tray::{
    tray_change, tray_click_restores, tray_menu_action, TrayAction, TrayChange, TrayClick,
};
use operon_gui::window::notification::{
    notification_command, permission_notification_body, response_notification_body,
};

#[test]
fn token_counts_are_shown_in_thousands() {
    assert_eq!(format_tokens(15300, 128000), "15k/128k");
    assert_eq!(format_tokens(999, 1000), "999/1k");
    assert_eq!(format_tokens(-5, 0), "-5/0");
}

#[test]
fn timestamps_read_as_ages() {
    assert_eq!(format_timestamp_at(0, 100), "Just now");
    assert_eq!(format_timestamp_at(1000, 1059), "Just now");
    assert_eq!(format_timestamp_at(1000, 1000 + 125), "2m ago");
    assert_eq!(format_timestamp_at(1000, 1000 + 7200), "2h ago");
    assert_eq!(format_timestamp_at(1000, 1000 + 3 * 86400 + 5), "3d ago");
    assert_eq!(format_timestamp_at(5000, 10), "Just now");
}

#[test]
fn titles_are_one_line_and_cut_at_forty_bytes() {
    assert_eq!(determine_session_title(None, "New Chat"), "New Chat");
    assert_eq!(determine_session_title(Some("  hello\nworld  "), "x"), "hello world");
    let long = "a".repeat(45);
    assert_eq!(determine_session_title(Some(&long), "x"), format!("{}...", "a".repeat(40)));
    let exact = "b".repeat(40);
    assert_eq!(determine_session_title(Some(&exact), "x"), exact);
    let wide = format!("{}é{}", "c".repeat(38), "d".repeat(10));
    assert_eq!(determine_session_title(Some(&wide), "x"), format!("{}é...", "c".repeat(38)));
}

#[test]
fn titles_cut_at_the_last_boundary_within_forty_bytes() {
    let m = format!("a{}", "é".repeat(30));
    let t = determine_session_title(Some(&m), "x");
    assert_eq!(t, format!("a{}...", "é".repeat(19)));
    assert!(t.len() <= 43);
}

#[test]
fn images_are_recognised_by_magic_bytes() {
    assert_eq!(image_kind_of(&[0x89, b'P', b'N', b'G', 0x0D, 0x0A, 0x1A, 0x0A, 0]), Some(ImageKind::Png));
    assert_eq!(image_kind_of(&[0xFF, 0xD8, 0xFF, 0xE0]), Some(ImageKind::Jpeg));
    assert_eq!(image_kind_of(b"GIF87a...."), Some(ImageKind::Gif));
    let mut webp = b"RIFF".to_vec();
    webp.extend_from_slice(&[0; 4]);
    webp.extend_from_slice(b"WEBP");
    assert_eq!(image_kind_of(&webp), Some(ImageKind::Webp));
    assert!(!is_image_bytes(b"Hello world text file"));
    assert!(!is_image_bytes(b"RIFF"));
}

#[test]
fn encoded_images_carry_their_type() {
    let bytes = [0x89, b'P', b'N', b'G', 0x0D, 0x0A, 0x1A, 0x0A, 0x11, 0x22];
    let (media_type, data) = encode_base64(&bytes).unwrap();
    assert_eq!(media_type, "image/png");
    assert_eq!(data, "iVBORw0KGgoRIg==");
    assert_eq!(encode_base64(b"plain"), Err(MediaError::UnsupportedImageFormat));
}

#[test]
fn cached_names_are_content_hashes() {
    assert_eq!(
        cached_file_name(b"abc", Some("png")),
        "ba7816bf8f01cfea414140de5dae2223b00361a396177a9cb410ff61f20015ad.png"
    );
    assert_eq!(
        cached_file_name(b"", None),
        "e3b0c44298fc1c149afbf4c8996fb92427ae41e4649b934ca495991b7852b855"
    );
}

#[test]
fn browser_commands_per_platform() {
    let c = browser_command_parts("  https://x.y  ", Platform::Windows);
    assert_eq!(c.program, "cmd");
    assert_eq!(c.args, vec!["/C", "start", "", "https://x.y"]);
    assert_eq!(browser_command_parts("u", Platform::MacOs).program, "open");
    assert_eq!(browser_command_parts("u", Platform::Linux).args, vec!["u"]);
    assert_eq!(browser_command_parts("u", Platform::OtherUnix).program, "xdg-open");
    assert_eq!(browser_command_for("   ", Platform::Linux), Err(OpenUrlError::EmptyUrl));
}

#[test]
fn navigation_labels() {
    assert_eq!(label(NavigationDirection::Back), "Back");
    assert_eq!(label(NavigationDirection::Forward), "Forward");
}

#[test]
fn notification_texts_and_commands() {
    assert_eq!(
        permission_notification_body("edit", "a.txt"),
        "An agent action requires your manual approval: edit on a.txt"
    );
    assert_eq!(
        permission_notification_body("run x", ""),
        "An agent action requires your manual approval: run x"
    );
    assert_eq!(response_notification_body("New Session"), "Agent finished generating response");
    assert_eq!(response_notification_body("Plan"), "Agent finished generating response for 'Plan'");
    let mac = notification_command(Platform::MacOs, "T", "say \"hi\"").unwrap();
    assert_eq!(mac.program, "osascript");
    assert_eq!(mac.args[1], "display notification \"say \\\"hi\\\"\" with title \"T\"");
    let win = notification_command(Platform::Windows, "it's", "b").unwrap();
    assert!(win.args[3].contains("ShowBalloonTip(5000, 'it''s', 'b'"));
    assert_eq!(notification_command(Platform::Linux, "s", "b").unwrap().args, vec!["s", "b"]);
    assert!(notification_command(Platform::OtherUnix, "s", "b").is_none());
}

fn record(id: &str, at: i64, ws: &str, title: &str, project: bool) -> SessionRecord {
    SessionRecord {
        id: id.to_string(),
        created_at: at,
        workspace: ws.to_string(),
        title: title.to_string(),
        is_project: project,
        project_name: if project { ws.rsplit('/').next().unwrap().to_string() } else { String::new() },
    }
}

#[test]
fn sidebar_lists_newest_first_by_project() {
    let records = vec![
        record("a", 10, "/home/w", "Old chat", false),
        record("b", 30, "/p/alpha", "Alpha work", true),
        record("c", 20, "/home/w", "Newer chat", false),
        record("d", 30, "/p/alpha", "Alpha more", true),
        record("e", 5, "/p/ghost", "Orphan", true),
    ];
    let projects = vec!["/p/alpha".to_string(), "/p/beta".to_string(), "/p/alpha".to_string()];
    let (chats, shown) = group_sidebar_sessions(&records, &projects, "");
    let ids: Vec<&str> = chats.iter().map(|c| c.id.as_str()).collect();
    assert_eq!(ids, vec!["c", "a"]);
    assert_eq!(shown.len(), 3);
    assert_eq!(shown[0].name, "alpha");
    let alpha: Vec<&str> = shown[0].conversations.iter().map(|c| c.id.as_str()).collect();
    assert_eq!(alpha, vec!["b", "d"]);
    assert_eq!(shown[1].name, "beta");
    assert!(shown[1].conversations.is_empty());
    assert!(shown[2].conversations.is_empty());

    let (chats, shown) = group_sidebar_sessions(&records, &projects, "alpha");
    assert!(chats.is_empty());
    assert_eq!(shown.len(), 2);
    assert_eq!(shown[0].conversations.len(), 2);
}

#[test]
fn default_workspace_is_not_a_project() {
    let dirs = vec!["\\\\?\\C:\\w".to_string(), "C:\\p".to_string()];
    assert_eq!(project_directories(&dirs, "C:\\w"), vec!["C:\\p".to_string()]);
}

#[test]
fn startup_window_is_centred_on_its_monitor() {
    let g = centred_geometry(1920, 1080, 0, 0, 1344, 756);
    assert_eq!(g, StartupGeometry { width: 1344, height: 756, x: 288, y: 162 });
    let g = centred_geometry(2560, 1440, -2560, 100, 1791, 1008);
    assert_eq!(g.x, -2560 + 384);
    assert_eq!(g.y, 316);
    // A window wider than the monitor starts left of it; the odd pixel is
    // dropped toward zero.
    let g = centred_geometry(100, 100, 10, 10, 105, 100);
    assert_eq!(g.x, 8);
    assert_eq!(g.y, 10);
}

#[test]
fn composer_chips_name_each_attachment() {
    let atts = vec![
        PendingAttachment::Image {
            cached_path: "/m/ab.png".to_string(),
            media_type: "image/png".to_string(),
            base64_data: "iVBO".to_string(),
            display_name: "shot.png".to_string(),
        },
        PendingAttachment::File { path: "/n.txt".to_string(), display_name: "n.txt".to_string() },
    ];
    let chips = attachment_chips(&atts);
    assert_eq!(chips, vec![("shot.png".to_string(), true), ("n.txt".to_string(), false)]);
}

#[test]
fn open_session_is_highlighted_in_the_sidebar() {
    let conv = |id: &str| SidebarConversation { id: id.to_string(), title: id.to_uppercase() };
    let chats = vec![conv("a"), conv("b")];
    let projects = vec![
        SidebarProject { name: "p".to_string(), path: "/p".to_string(), conversations: vec![conv("c"), conv("d")] },
        SidebarProject { name: "q".to_string(), path: "/q".to_string(), conversations: vec![conv("e")] },
    ];
    assert_eq!(sidebar_selection(&chats, &projects, Some("b")), Some((1, -1, -1)));
    assert_eq!(sidebar_selection(&chats, &projects, Some("d")), Some((-1, 0, 1)));
    assert_eq!(sidebar_selection(&chats, &projects, Some("e")), Some((-1, 1, 0)));
    assert_eq!(sidebar_selection(&chats, &projects, Some("z")), None);
    assert_eq!(sidebar_selection(&chats, &projects, None), None);
}

#[test]
fn tray_menu_and_clicks() {
    assert_eq!(tray_menu_action("show_operon"), TrayAction::Show);
    assert_eq!(tray_menu_action("quit_operon"), TrayAction::Quit);
    assert_eq!(tray_menu_action("other"), TrayAction::Nothing);
    assert!(tray_click_restores(TrayClick::Click { left_button: true, released: true }));
    assert!(!tray_click_restores(TrayClick::Click { left_button: true, released: false }));
    assert!(tray_click_restores(TrayClick::DoubleClick { left_button: true }));
    assert!(!tray_click_restores(TrayClick::DoubleClick { left_button: false }));
    assert!(!tray_click_restores(TrayClick::Other));
    assert_eq!(tray_change(true, false), TrayChange::Build);
    assert_eq!(tray_change(false, true), TrayChange::Remove);
    assert_eq!(tray_change(true, true), TrayChange::Keep);
}
