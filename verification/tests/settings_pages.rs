use operon_gui::media::PendingAttachment;
use operon_gui::executor::prompt::{
    edited_turn_index, fork_session_id, fork_turns, prompt_session, prompt_session_at, regenerate_index,
};
use operon_gui::main_content::terminal::{terminal_active_tab, terminal_tab_names};
use operon_gui::main_content::voice::{voice_click, voice_event, VoiceAction, VoiceEvent};
use operon_gui::paths::session_in_project;
use operon_gui::settings::channels::{
    allowlist_add, allowlist_remove, status_poll_step, telegram_settings_form, ChannelStatus, TelegramFormError,
};
use operon_gui::state::AppState;
use operon_gui::main_content::models::{
    attachments_allowed, model_limits, next_reasoning_level, order_discovered_models, should_discover_models,
    DiscoveredModel,
};
use operon_gui::settings::general::{
    close_action_index, close_action_of_index, close_hides_to_tray, general_page, set_minimize_to_tray,
};
use operon_gui::settings::prefs::{CloseButtonAction, GuiPrefs};
use operon_gui::settings::providers::{
    discovery_base, id_to_provider, provider_form, provider_setup, provider_summaries, provider_to_id,
    requires_api_key, should_rediscover, ActiveProvider, Provider, ProviderEntry,
};

const ALL: [Provider; 11] = [
    Provider::Anthropic,
    Provider::OpenAI,
    Provider::Gemini,
    Provider::Ollama,
    Provider::DeepSeek,
    Provider::OpenRouter,
    Provider::Groq,
    Provider::Mistral,
    Provider::XAI,
    Provider::NvidiaNim,
    Provider::Cohere,
];

#[test]
fn provider_ids_round_trip() {
    let ids: Vec<String> = ALL.iter().map(|p| provider_to_id(*p)).collect();
    assert_eq!(ids[1], "open_ai");
    assert_eq!(ids[9], "nvidia_nim");
    for p in ALL {
        assert_eq!(id_to_provider(&provider_to_id(p)), Some(p));
    }
    assert_eq!(id_to_provider("openai"), None);
}

#[test]
fn api_keys_are_asked_of_remote_providers() {
    assert!(requires_api_key("anthropic", true));
    assert!(!requires_api_key("anthropic", false));
    assert!(!requires_api_key("ollama", true));
    assert!(requires_api_key("nobody", false));
}

#[test]
fn providers_list_marks_the_active_one() {
    let all = vec![
        ProviderEntry { provider: Provider::Anthropic, label: "Anthropic".to_string(), key_header: true },
        ProviderEntry { provider: Provider::Ollama, label: "Ollama".to_string(), key_header: false },
        ProviderEntry { provider: Provider::Groq, label: "Groq".to_string(), key_header: true },
    ];
    let active = Some(ActiveProvider {
        provider: Provider::Groq,
        model_id: "llama-3".to_string(),
        api_key: "gsk_123".to_string(),
        base_url_override: None,
    });
    let list = provider_summaries(&all, &active);
    assert_eq!(list[0].status, "API key required");
    assert_eq!(list[0].active_model, "");
    assert_eq!(list[1].status, "Not configured");
    assert_eq!(list[2].status, "Configured");
    assert_eq!(list[2].active_model, "llama-3");
    assert!(list[2].is_active && !list[0].is_active);
    assert_eq!(list[2].id, "groq");
    let none = provider_summaries(&all, &None);
    assert_eq!(none[2].status, "API key required");
}

#[test]
fn setup_form_and_saving() {
    let active = Some(ActiveProvider {
        provider: Provider::OpenAI,
        model_id: "gpt-4o".to_string(),
        api_key: "sk-abc".to_string(),
        base_url_override: Some("https://proxy".to_string()),
    });
    let f = provider_form("open_ai", &active, Some("https://api.openai.com/v1"));
    assert_eq!((f.api_base.as_str(), f.api_key.as_str(), f.model.as_str()), ("https://proxy", "sk-abc", "gpt-4o"));
    assert!(f.discover);
    let f = provider_form("mistral", &active, Some("https://api.mistral.ai/v1"));
    assert_eq!((f.api_base.as_str(), f.api_key.as_str(), f.model.as_str()), ("https://api.mistral.ai/v1", "", ""));
    assert!(!f.discover);
    assert!(provider_form("ollama", &None, Some("http://localhost:11434")).discover);
    assert_eq!(provider_form("nobody", &None, Some("x")).api_base, "");

    let s = provider_setup("gemini", "  ", "key-1", "gemini-pro").unwrap();
    assert_eq!(s.provider, Provider::Gemini);
    assert_eq!(s.api_key.as_deref(), Some("key-1"));
    assert_eq!(s.base_url_override, None);
    assert_eq!((s.context_window, s.max_tokens), (128_000, 4_096));
    let s = provider_setup("ollama", "http://h", " ", "llama").unwrap();
    assert_eq!(s.api_key, None);
    assert_eq!(s.base_url_override.as_deref(), Some("http://h"));
    assert!(provider_setup("nobody", "", "", "").is_none());

    assert!(!should_rediscover("anthropic", "  sk-short  "));
    assert!(should_rediscover("anthropic", "sk-0123456789abc"));
    assert!(should_rediscover("ollama", ""));
    assert_eq!(discovery_base(" "), None);
    assert_eq!(discovery_base("http://h").as_deref(), Some("http://h"));
}

#[test]
fn found_models_put_the_active_one_first() {
    let found = vec!["a".to_string(), "b".to_string(), "c".to_string()];
    assert_eq!(order_discovered_models(found.clone(), "b"), Some(vec!["b".to_string(), "a".to_string(), "c".to_string()]));
    assert_eq!(
        order_discovered_models(found.clone(), "z"),
        Some(vec!["z".to_string(), "a".to_string(), "b".to_string(), "c".to_string()])
    );
    assert_eq!(order_discovered_models(found.clone(), ""), Some(found));
    assert_eq!(order_discovered_models(Vec::new(), "b"), None);

    let models = vec![
        DiscoveredModel { model_id: "m1".to_string(), context_window: 8_000, max_tokens: 1_000 },
        DiscoveredModel { model_id: "m2".to_string(), context_window: 200_000, max_tokens: 8_192 },
    ];
    assert_eq!(model_limits(&models, "m2", (1, 2)), (200_000, 8_192));
    assert_eq!(model_limits(&models, "m3", (1, 2)), (1, 2));

    assert!(should_discover_models(Provider::Ollama, ""));
    assert!(!should_discover_models(Provider::Groq, ""));
    assert!(should_discover_models(Provider::Groq, "k"));
    assert!(!attachments_allowed(Some(Provider::Cohere)));
    assert!(attachments_allowed(None));
}

#[test]
fn turning_the_tray_off_makes_close_exit() {
    let mut prefs = GuiPrefs::default();
    prefs.minimize_to_tray_enabled = true;
    prefs.close_button_action = CloseButtonAction::MinimizeToTray;
    assert_eq!(general_page(&prefs, Some(true)).close_button_action, 1);
    assert!(general_page(&prefs, Some(true)).autostart_enabled);
    assert!(!general_page(&prefs, None).autostart_enabled);
    assert!(close_hides_to_tray(&prefs));
    assert!(set_minimize_to_tray(&mut prefs, false));
    assert!(!close_hides_to_tray(&prefs));
    assert_eq!(prefs.close_button_action, CloseButtonAction::Exit);
    assert!(!prefs.minimize_to_tray_enabled);
    assert!(!set_minimize_to_tray(&mut prefs, true));
    assert_eq!(close_action_of_index(1), CloseButtonAction::MinimizeToTray);
    assert_eq!(close_action_of_index(7), CloseButtonAction::Exit);
    assert_eq!(close_action_index(CloseButtonAction::Exit), 0);
}

#[test]
fn shell_state_tracks_session_and_attachments() {
    let mut s = AppState::new(GuiPrefs::default());
    assert_eq!(s.active_session_id(), None);
    s.set_active_session_id(Some("abc".to_string()));
    s.set_current_project_dir(Some("/p".to_string()));
    assert_eq!(s.active_session_id(), Some("abc"));
    assert_eq!(s.current_project_dir(), Some("/p"));
    assert_eq!(s.mark_reload(), 1);
    s.reload_generation = i32::MAX;
    assert_eq!(s.mark_reload(), i32::MAX);
    let file = |n: &str| PendingAttachment::File { path: format!("/{n}"), display_name: n.to_string() };
    s.add_attachment(file("a"));
    s.add_attachment(file("b"));
    s.add_attachment(file("c"));
    s.remove_attachment(1);
    s.remove_attachment(9);
    assert_eq!(s.pending_attachments().len(), 2);
    assert!(matches!(&s.pending_attachments()[1], PendingAttachment::File { display_name, .. } if display_name == "c"));
    s.clear_attachments();
    assert!(s.pending_attachments().is_empty());
    s.set_notify_on_response_complete(true);
    assert!(s.prefs().notify_on_response_complete);
    s.set_close_button_action_index(1);
    assert_eq!(s.prefs().close_button_action, CloseButtonAction::MinimizeToTray);
}

#[test]
fn prompts_go_to_the_open_session_or_a_new_one() {
    let mut s = AppState::new(GuiPrefs::default());
    let (id, new) = prompt_session_at(&mut s, 0x17f3a2b4c5d6e7f8);
    assert_eq!(id, "17f3a2b4c5d6e7f8");
    assert!(new);
    assert_eq!(s.active_session_id(), Some("17f3a2b4c5d6e7f8"));
    let (id, new) = prompt_session_at(&mut s, 5);
    assert_eq!(id, "17f3a2b4c5d6e7f8");
    assert!(!new);
    let mut fresh = AppState::new(GuiPrefs::default());
    assert_eq!(prompt_session_at(&mut fresh, 0).0, "0");
    let mut clocked = AppState::new(GuiPrefs::default());
    let (id, new) = prompt_session(&mut clocked);
    assert!(new && !id.is_empty() && id.chars().all(|c| c.is_ascii_hexdigit()));
}

#[test]
fn edits_restart_from_the_edited_users_turn() {
    let shown = vec![true, false, true, false, false, true];
    assert_eq!(edited_turn_index(&shown, 0), Some(0));
    assert_eq!(edited_turn_index(&shown, 3), Some(1));
    assert_eq!(edited_turn_index(&shown, 5), Some(2));
    assert_eq!(edited_turn_index(&shown, 40), Some(2));
    assert_eq!(edited_turn_index(&vec![false, true], 0), None);
    assert_eq!(edited_turn_index(&Vec::new(), 0), None);
}

#[test]
fn voice_button_follows_the_recorder() {
    assert_eq!(voice_click(0), (VoiceAction::Start, 1));
    assert_eq!(voice_click(2), (VoiceAction::Stop, 2));
    assert_eq!(voice_click(3), (VoiceAction::Ignore, 3));
    assert_eq!(voice_event(1, "", VoiceEvent::StateChanged(2)), (2, String::new()));
    assert_eq!(voice_event(3, "", VoiceEvent::FinalTranscript("hello".to_string())), (3, "hello".to_string()));
    assert_eq!(
        voice_event(3, "Say", VoiceEvent::FinalTranscript("hello".to_string())),
        (3, "Say hello".to_string())
    );
    assert_eq!(voice_event(2, "x", VoiceEvent::PartialTranscript("he".to_string())), (2, "x".to_string()));
    assert_eq!(voice_event(2, "x", VoiceEvent::Error("mic".to_string())), (0, "x".to_string()));
}

#[test]
fn deleting_sessions_and_projects_closes_them() {
    let mut s = AppState::new(GuiPrefs::default());
    s.start_new_chat(Some("/p".to_string()));
    s.set_active_session_id(Some("s1".to_string()));
    assert_eq!(s.forget_session("s2"), Some("s1".to_string()));
    assert_eq!(s.forget_session("s1"), None);
    assert_eq!(s.current_project_dir(), Some("/p"));
    s.set_active_session_id(Some("s3".to_string()));
    assert_eq!(s.forget_project("/q"), (false, Some("s3".to_string())));
    assert_eq!(s.forget_project("/p"), (true, None));
    assert_eq!(s.current_project_dir(), None);
    assert!(session_in_project(r"\\?\C:\work", r"C:\work"));
    assert!(!session_in_project(r"C:\work", r"C:\other"));
}

#[test]
fn regenerating_and_forking_count_user_turns() {
    let shown = vec![true, false, true, false, false];
    assert_eq!(regenerate_index(&shown, 4), Some((1, 2)));
    assert_eq!(regenerate_index(&shown, 1), Some((0, 0)));
    assert_eq!(regenerate_index(&shown, 99), Some((1, 2)));
    assert_eq!(regenerate_index(&vec![false], 0), None);
    assert_eq!(fork_turns(&shown, 1), 1);
    assert_eq!(fork_turns(&shown, 4), 2);
    assert_eq!(fork_turns(&Vec::new(), 3), 0);
    assert_eq!(fork_session_id(0xabc), "0000000000000abc");
    assert_eq!(fork_session_id(u64::MAX), "ffffffffffffffff");
    assert_eq!(fork_session_id(0), "0000000000000000");
}

#[test]
fn telegram_form_is_checked_before_connecting() {
    let allow = vec![" 42 ".to_string(), "abc".to_string(), "-7".to_string(), "+9".to_string(), "".to_string()];
    let t = telegram_settings_form(" 123:ABC ", " -1001 ", &allow, "  ").unwrap();
    assert_eq!(t.bot_token.as_deref(), Some("123:ABC"));
    assert_eq!(t.owner_chat_id, Some(-1001));
    assert_eq!(t.allowlist, vec![42, -7, 9]);
    assert_eq!(t.workspace_dir, None);
    assert_eq!(t.poll_interval_secs, 30);
    let t = telegram_settings_form("tok", "", &Vec::new(), " /ws ").unwrap();
    assert_eq!(t.owner_chat_id, None);
    assert_eq!(t.workspace_dir.as_deref(), Some("/ws"));

    let e = telegram_settings_form("", "12x", &Vec::new(), "").unwrap_err();
    assert_eq!(e, TelegramFormError::InvalidOwnerChatId);
    assert_eq!(e.message(), "Error: Owner Chat ID must be a valid integer");
    let e = telegram_settings_form("  ", "5", &Vec::new(), "").unwrap_err();
    assert_eq!(e, TelegramFormError::MissingBotToken);
    assert_eq!(e.message(), "Error: Bot Token required");
    assert_eq!(
        telegram_settings_form("t", "99999999999999999999", &Vec::new(), "").unwrap_err(),
        TelegramFormError::InvalidOwnerChatId
    );
}

#[test]
fn allowlists_take_non_blank_entries() {
    let mut list = vec!["1".to_string()];
    allowlist_add(&mut list, " 2 ".to_string());
    allowlist_add(&mut list, "   ".to_string());
    assert_eq!(list, vec!["1".to_string(), " 2 ".to_string()]);
    allowlist_remove(&mut list, -1);
    allowlist_remove(&mut list, 2);
    assert_eq!(list.len(), 2);
    allowlist_remove(&mut list, 0);
    assert_eq!(list, vec![" 2 ".to_string()]);
}

#[test]
fn reasoning_strength_cycles() {
    assert_eq!(next_reasoning_level("Low"), "Medium");
    assert_eq!(next_reasoning_level("Medium"), "High");
    assert_eq!(next_reasoning_level("High"), "Low");
    assert_eq!(next_reasoning_level("Extreme"), "Low");
}

#[test]
fn terminal_tabs_are_named_and_kept_selected() {
    let (id, label, title) = terminal_tab_names(12);
    assert_eq!((id.as_str(), label.as_str(), title.as_str()), ("term_12", "pwsh 12", "OperonTerminal_12"));
    assert_eq!(terminal_active_tab(0, 3), (-1, false));
    assert_eq!(terminal_active_tab(3, 5), (2, true));
    assert_eq!(terminal_active_tab(3, -1), (2, true));
    assert_eq!(terminal_active_tab(3, 1), (1, true));
}

#[test]
fn connection_wait_stops_when_settled() {
    assert_eq!(status_poll_step(true, ChannelStatus::Connected), (None, true));
    assert_eq!(status_poll_step(false, ChannelStatus::Connected), (Some("Connected".to_string()), true));
    assert_eq!(
        status_poll_step(false, ChannelStatus::Error("401".to_string())),
        (Some("Error: 401".to_string()), true)
    );
    assert_eq!(status_poll_step(false, ChannelStatus::Pending), (None, false));
}
