use operon_gui::channel_lists::{
    changed_session_id, should_reload_open_session, telegram_chat_id, telegram_sidebar_projects,
    whatsapp_sidebar_projects, ChatDirectory,
};

fn dir(name: Option<&str>, path: &str, files: &[&str]) -> ChatDirectory {
    ChatDirectory {
        name: name.map(str::to_string),
        path: path.to_string(),
        file_names: files.iter().map(|f| f.to_string()).collect(),
    }
}

#[test]
fn telegram_chats_list_their_session_files() {
    let dirs = vec![
        dir(Some("1001"), "/s/telegram/1001", &["0a1b2c3d-4e5f.json", "notes.txt", ".json", "x.json.bak"]),
        dir(Some("1002"), "/s/telegram/1002", &["readme"]),
        dir(None, "/s/telegram/odd", &["abc.json"]),
    ];
    let projects = telegram_sidebar_projects(&dirs);
    assert_eq!(projects.len(), 2);
    assert_eq!(projects[0].name, "Telegram: 1001");
    assert_eq!(projects[0].path, "/s/telegram/1001");
    assert_eq!(projects[0].conversations.len(), 1);
    assert_eq!(projects[0].conversations[0].id, "0a1b2c3d-4e5f");
    assert_eq!(projects[0].conversations[0].title, "Session 0a1b2c3d");
    assert_eq!(projects[1].name, "Telegram: Unknown Chat");
    assert_eq!(projects[1].conversations[0].title, "Session abc");
}

#[test]
fn whatsapp_contacts_are_named_plainly() {
    let dirs = vec![
        dir(Some("Ana"), "/s/whatsapp/Ana", &["s1.json", "s2.json"]),
        dir(None, "/s/whatsapp/x", &["a.b.json"]),
    ];
    let projects = whatsapp_sidebar_projects(&dirs);
    assert_eq!(projects[0].name, "Ana");
    let ids: Vec<&str> = projects[0].conversations.iter().map(|c| c.id.as_str()).collect();
    assert_eq!(ids, vec!["s1", "s2"]);
    assert_eq!(projects[1].name, "Unknown Contact");
    assert_eq!(projects[1].conversations[0].id, "a.b");
    assert!(whatsapp_sidebar_projects(&Vec::new()).is_empty());
}

#[test]
fn channel_changes_reload_the_open_chat() {
    assert_eq!(telegram_chat_id("Telegram: 1001"), "1001");
    assert_eq!(telegram_chat_id("Telegram: Telegram:  77 "), "77");
    assert_eq!(telegram_chat_id("1002"), "1002");
    assert_eq!(changed_session_id("tg-5.json").as_deref(), Some("tg-5"));
    assert_eq!(changed_session_id("tg-5.json.tmp"), None);
    assert_eq!(changed_session_id(".json"), None);
    let changed = vec!["tg-1".to_string(), "tg-2".to_string()];
    assert!(should_reload_open_session("tg-2", "tg-", &changed));
    assert!(!should_reload_open_session("tg-3", "tg-", &changed));
    assert!(should_reload_open_session("tg-3", "tg-", &Vec::new()));
    assert!(!should_reload_open_session("wa-1", "tg-", &Vec::new()));
    assert!(!should_reload_open_session("", "", &Vec::new()));
}
