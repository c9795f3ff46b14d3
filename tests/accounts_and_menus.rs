use telegram_bot_rust::accounts::{
    page_offset, parse_integer, parse_user_reference, stored_username, subscription_end, username_changed,
    UserReference,
};
use telegram_bot_rust::config::AppConfig;
use telegram_bot_rust::keyboards::{
    confirm_action_keyboard, create_image_generation_menu_keyboard, create_main_menu_keyboard,
    create_subscription_menu_keyboard, create_text_model_selection_keyboard, sorted_models, Button,
};
use telegram_bot_rust::provider::chat_messages;
use telegram_bot_rust::session::{ChatTurn, Role};
use telegram_bot_rust::text::normalized;

fn rows(k: &[Vec<Button>]) -> Vec<Vec<(String, String)>> {
    k.iter().map(|r| r.iter().map(|b| (b.label.clone(), b.action.clone())).collect()).collect()
}

fn pair(a: &str, b: &str) -> (String, String) {
    (a.to_string(), b.to_string())
}

#[test]
fn user_references() {
    assert!(matches!(parse_user_reference("@Alice"), UserReference::Username(u) if u == "Alice"));
    assert!(matches!(parse_user_reference("12345"), UserReference::Id(12345)));
    assert!(matches!(parse_user_reference("-7"), UserReference::Id(-7)));
    assert!(matches!(parse_user_reference("12a"), UserReference::Invalid));
    assert!(matches!(parse_user_reference(""), UserReference::Invalid));
    assert_eq!(parse_integer("9223372036854775807"), Some(i64::MAX));
    assert_eq!(parse_integer("-9223372036854775808"), Some(i64::MIN));
    assert_eq!(parse_integer("9223372036854775808"), None);
    assert_eq!(parse_integer("+00042"), Some(42));
    assert_eq!(parse_integer("-"), None);
}

#[test]
fn usernames_and_dates() {
    assert_eq!(stored_username(Some("BoB")), Some("bob".to_string()));
    assert_eq!(stored_username(None), None);
    assert!(username_changed(&Some("a".to_string()), &Some("b".to_string())));
    assert!(!username_changed(&Some("a".to_string()), &Some("a".to_string())));
    assert!(username_changed(&None, &Some("a".to_string())));
    assert_eq!(subscription_end(0, 30, 1_000), Some(1_000));
    assert_eq!(subscription_end(2, 30, 1_000), Some(1_000 + 30 * 86_400));
    assert_eq!(subscription_end(2, i64::MAX, 1_000), None);
    assert_eq!(page_offset(3, 10), Some(20));
    assert_eq!(page_offset(i64::MIN, 2), None);
}

#[test]
fn normalized_text() {
    assert_eq!(normalized("  ПаРиЖ \n"), "париж");
    assert_eq!(normalized("\u{3000}\u{a0}5\u{2029}\t"), "5");
    assert_eq!(normalized("a b"), "a b");
}

#[test]
fn chat_request_messages() {
    let history = vec![
        ChatTurn { role: Role::User, content: "hi".to_string() },
        ChatTurn { role: Role::Assistant, content: "hello".to_string() },
    ];
    let instruction = "be brief".to_string();
    let m = chat_messages("sys", Some(&instruction), &history);
    assert_eq!(
        m,
        vec![
            pair("system", "sys"),
            pair("system", "Дополнительная инструкция от пользователя: be brief"),
            pair("user", "hi"),
            pair("assistant", "hello"),
        ]
    );
    assert_eq!(chat_messages("sys", None, &Vec::new()), vec![pair("system", "sys")]);
}

#[test]
fn menus() {
    assert_eq!(
        rows(&create_main_menu_keyboard())[0],
        vec![pair("📝 Начать чат", "start_chat"), pair("🖼️ Генерация изображений", "generate_image_menu")]
    );
    let models = sorted_models(&vec!["c".to_string(), "a".to_string(), "b".to_string()]);
    assert_eq!(models, vec!["a".to_string(), "b".to_string(), "c".to_string()]);
    let categories = vec![
        ("X".to_string(), vec!["c".to_string(), "a".to_string()]),
        ("Y".to_string(), vec!["b".to_string(), "a".to_string()]),
    ];
    let k = rows(&create_text_model_selection_keyboard(&categories, Some("b")));
    assert_eq!(
        k,
        vec![
            vec![pair("a", "set_text_model:a"), pair("✅ b", "set_text_model:b")],
            vec![pair("c", "set_text_model:c")],
            vec![pair("🔙 Назад в настройки", "settings_menu")],
        ]
    );
    let k = rows(&create_image_generation_menu_keyboard(&vec!["x".to_string()], None));
    assert_eq!(k.len(), 3);
    assert_eq!(k[0], vec![pair("x", "set_image_model:x")]);
    assert_eq!(
        rows(&confirm_action_keyboard("del", "keep")),
        vec![vec![pair("✅ Да", "confirm:del"), pair("❌ Нет", "cancel:keep")]]
    );
}

#[test]
fn subscription_menu() {
    let cfg = AppConfig::with_defaults(
        "t".to_string(), "k".to_string(), "u".to_string(), "d".to_string(), vec![], "s".to_string(),
        "s".to_string(), Vec::new(), ".text".to_string(), ".image".to_string(),
    );
    let k = rows(&create_subscription_menu_keyboard(&cfg, 1, Some("01.02.2025".to_string())));
    assert_eq!(
        k,
        vec![
            vec![pair("Уровень: Standard (до 01.02.2025)", "sub_status_info")],
            vec![pair("Купить Premium (350₽)", "buy_sub:2")],
            vec![pair("Купить Max (600₽)", "buy_sub:3")],
            vec![pair("🎁 Ввести промокод", "enter_promocode")],
            vec![pair("🔙 Назад в главное меню", "main_menu")],
        ]
    );
    let k = rows(&create_subscription_menu_keyboard(&cfg, 0, None));
    assert_eq!(k[0][0].0, "Уровень: Free");
    assert_eq!(k[1][0].0, "Купить Standard (150₽)");
    assert_eq!(k.len(), 6);
}
