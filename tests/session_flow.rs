use telegram_bot_rust::captcha::{next_captcha_index, prepare_captcha_data, CaptchaState};
use telegram_bot_rust::config::AppConfig;
use telegram_bot_rust::session::{answer_matches, is_clear_word, parse_menu_token, DialogueState, MenuAction, Reply, Role};

fn config() -> AppConfig {
    AppConfig::with_defaults(
        "token".to_string(),
        "key".to_string(),
        "http://localhost/v1/".to_string(),
        "database.db".to_string(),
        vec![42],
        "support".to_string(),
        "support".to_string(),
        Vec::new(),
        ".text".to_string(),
        ".image".to_string(),
    )
}

fn expected_of(state: &DialogueState) -> (String, usize) {
    match state {
        DialogueState::AwaitingCaptchaAnswer { captcha: CaptchaState::Pending(e), captcha_index, .. } => {
            (e.clone(), *captcha_index)
        }
        _ => panic!("not awaiting a captcha answer"),
    }
}

#[test]
fn start_then_wrong_then_right_answer() {
    let cfg = config();
    let pool = &cfg.captcha_variants;
    let t = DialogueState::new().on_start(false, pool, 2);
    assert!(matches!(t.reply, Reply::SendCaptcha { index: 2 }));
    let (expected, index) = expected_of(&t.next);
    assert_eq!(expected, "париж");
    assert_eq!(index, 2);

    let t = t.next.on_text("0", pool, 3);
    match t.reply {
        Reply::CaptchaRetry { index } => assert_eq!(index, 4),
        _ => panic!("a wrong answer presents a new puzzle"),
    }
    let (expected, index) = expected_of(&t.next);
    assert_eq!(index, 4);
    assert_eq!(expected, "5");

    let t = t.next.on_text("  5 ", pool, 0);
    assert!(matches!(t.reply, Reply::CaptchaSolved { prompt_message: None }));
    assert!(matches!(t.next, DialogueState::MainMenu));
}

#[test]
fn captcha_answer_ignores_case_and_spaces() {
    let cfg = config();
    let t = DialogueState::new().on_start(false, &cfg.captcha_variants, 2);
    let t = t.next.with_prompt_message(77);
    let t = t.on_text("  ПАРИЖ\n", &cfg.captcha_variants, 0);
    assert!(matches!(t.reply, Reply::CaptchaSolved { prompt_message: Some(77) }));
}

#[test]
fn verified_user_gets_main_menu() {
    let cfg = config();
    let t = DialogueState::new().on_start(true, &cfg.captcha_variants, 0);
    assert!(matches!(t.next, DialogueState::MainMenu));
    assert!(matches!(t.reply, Reply::ShowMainMenu));
}

#[test]
fn consecutive_failures_present_different_puzzles() {
    for previous in 0..5usize {
        for roll in 0..4usize {
            let next = next_captcha_index(5, previous, roll);
            assert!(next < 5);
            assert_ne!(next, previous);
        }
    }
    assert_eq!(next_captcha_index(1, 0, 0), 0);
}

#[test]
fn captcha_data_from_pool() {
    let cfg = config();
    let (text, answer, index) = prepare_captcha_data(&cfg.captcha_variants).unwrap();
    assert!(index < 5);
    assert_eq!(answer, cfg.captcha_variants[index].1);
    assert!(text.contains(&cfg.captcha_variants[index].0));
    assert!(text.starts_with("Чтобы начать"));
    assert!(prepare_captcha_data(&Vec::new()).is_err());
}

#[test]
fn temperature_entries() {
    let cfg = config();
    let pool = &cfg.captcha_variants;
    let s = DialogueState::new().on_menu_action("set_temperature", None, "m", false).next;
    let t = s.with_prompt_message(5).on_text("0.7", pool, 0);
    match t.reply {
        Reply::SaveTemperature { temperature, prompt_message } => {
            assert_eq!(temperature, Some(700));
            assert_eq!(prompt_message, Some(5));
        }
        _ => panic!("0.7 is a valid temperature"),
    }
    assert!(matches!(t.next, DialogueState::SettingsMenu));

    let s = DialogueState::AwaitingTemperatureInput { prompt_message: Some(9) };
    let t = s.on_text("2.5", pool, 0);
    assert!(matches!(t.reply, Reply::InvalidTemperature));
    assert!(matches!(t.next, DialogueState::AwaitingTemperatureInput { prompt_message: Some(9) }));

    let s = DialogueState::AwaitingTemperatureInput { prompt_message: None };
    let t = s.on_text(" Сбросить ", pool, 0);
    assert!(matches!(t.reply, Reply::SaveTemperature { temperature: None, .. }));

    for (text, value) in [
        ("2", Some(2000)),
        ("2.000", Some(2000)),
        ("0", Some(0)),
        (".5", Some(500)),
        ("1.2345", Some(1234)),
        ("-0", Some(0)),
        ("1e0", Some(1000)),
        ("7e-1", Some(700)),
        ("2E0", Some(2000)),
        ("2.5e-1", Some(250)),
        ("0.2e1", Some(2000)),
        ("+1.5E+0", Some(1500)),
        ("-0e5", Some(0)),
    ] {
        let t = DialogueState::AwaitingTemperatureInput { prompt_message: None }.on_text(text, pool, 0);
        match t.reply {
            Reply::SaveTemperature { temperature, .. } => assert_eq!(temperature, value, "{}", text),
            _ => panic!("{} should be accepted", text),
        }
    }
    for text in ["2.0001", "abc", "-1", "3", ".", "1e", "e1", "1e+", "2.1e0", "3e-1x", "-1e-3", "1e999999999999999999999", "inf", "NaN"] {
        let t = DialogueState::AwaitingTemperatureInput { prompt_message: None }.on_text(text, pool, 0);
        assert!(matches!(t.reply, Reply::InvalidTemperature), "{}", text);
    }
}

#[test]
fn temperature_extreme_exponents() {
    let cfg = config();
    for (text, value) in [("1e-999999999999999999999", 0), ("0e99999999999999999999", 0), ("0.0001e1", 1), ("20e-1", 2000)] {
        let t = DialogueState::AwaitingTemperatureInput { prompt_message: None }.on_text(text, &cfg.captcha_variants, 0);
        match t.reply {
            Reply::SaveTemperature { temperature, .. } => assert_eq!(temperature, Some(value), "{}", text),
            _ => panic!("{} should be accepted", text),
        }
    }
}

#[test]
fn instruction_entries() {
    let cfg = config();
    let pool = &cfg.captcha_variants;
    let t = DialogueState::AwaitingInstructionInput { prompt_message: None }.on_text("  be brief  ", pool, 0);
    match t.reply {
        Reply::SaveInstruction { instruction, .. } => assert_eq!(instruction.as_deref(), Some("be brief")),
        _ => panic!("an instruction is saved"),
    }
    assert!(matches!(t.next, DialogueState::SettingsMenu));
    for text in ["", "   ", "удалить", "УДАЛИТЬ", "сбросить"] {
        let t = DialogueState::AwaitingInstructionInput { prompt_message: None }.on_text(text, pool, 0);
        assert!(matches!(t.reply, Reply::SaveInstruction { instruction: None, .. }), "{}", text);
    }
}

#[test]
fn chat_keeps_transcript() {
    let cfg = config();
    let pool = &cfg.captcha_variants;
    let t = DialogueState::MainMenu.on_menu_action("start_chat", None, "chatgpt-4o-latest", false);
    match &t.reply {
        Reply::ChatStarted { model } => assert_eq!(model, "chatgpt-4o-latest"),
        _ => panic!("chat starts"),
    }
    let t = t.next.on_text("hello", pool, 0);
    assert!(matches!(t.reply, Reply::RequestCompletion));
    let s = t.next.on_completion(None);
    let s = s.on_completion(Some("hi".to_string()));
    match &s {
        DialogueState::ActiveChat { history, current_model } => {
            assert_eq!(current_model, "chatgpt-4o-latest");
            assert_eq!(history.len(), 2);
            assert_eq!(history[0].role, Role::User);
            assert_eq!(history[0].content, "hello");
            assert_eq!(history[1].role, Role::Assistant);
            assert_eq!(history[1].content, "hi");
        }
        _ => panic!("still chatting"),
    }
    let t = s.on_stop_chat();
    assert!(matches!(t.reply, Reply::ChatEnded));
    assert!(matches!(t.next, DialogueState::MainMenu));
    let t = t.next.on_stop_chat();
    assert!(matches!(t.reply, Reply::NoActiveChat));
    assert!(matches!(t.next, DialogueState::MainMenu));
}

#[test]
fn chat_starts_on_last_model() {
    let t = DialogueState::MainMenu.on_menu_action("start_chat", Some("grok-3".to_string()), "default", false);
    match &t.next {
        DialogueState::ActiveChat { history, current_model } => {
            assert!(history.is_empty());
            assert_eq!(current_model, "grok-3");
        }
        _ => panic!("chat starts"),
    }
}

#[test]
fn menu_tokens() {
    assert!(matches!(parse_menu_token("main_menu"), MenuAction::MainMenu));
    assert!(matches!(parse_menu_token("help_info"), MenuAction::Help));
    match parse_menu_token("set_text_model:grok-3") {
        MenuAction::SetTextModel(m) => assert_eq!(m, "grok-3"),
        _ => panic!("a text model token"),
    }
    match parse_menu_token("set_image_model:flux-1.1-pro") {
        MenuAction::SetImageModel(m) => assert_eq!(m, "flux-1.1-pro"),
        _ => panic!("an image model token"),
    }
    assert!(matches!(parse_menu_token("set_text_model"), MenuAction::Unknown));
    assert!(matches!(parse_menu_token("bogus"), MenuAction::Unknown));
    let t = DialogueState::MainMenu.on_menu_action("admin_panel", None, "m", false);
    assert!(matches!(t.reply, Reply::AccessDenied));
    let t = DialogueState::MainMenu.on_menu_action("admin_panel", None, "m", true);
    assert!(matches!(t.reply, Reply::ShowAdminPanel));
    let t = DialogueState::MainMenu.on_menu_action("settings_menu", None, "m", false);
    assert!(matches!(t.next, DialogueState::SettingsMenu));
    let t = t.next.on_menu_action("set_user_instruction", None, "m", false);
    assert!(matches!(t.next, DialogueState::AwaitingInstructionInput { prompt_message: None }));
}

#[test]
fn lowered_comparisons() {
    assert!(is_clear_word("сбросить"));
    assert!(is_clear_word("удалить"));
    assert!(!is_clear_word("0.7"));
    assert!(!is_clear_word("Сбросить"));
    assert!(answer_matches("3", "3"));
    assert!(!answer_matches("0", "3"));
}
