use vstd::prelude::*;
use vstd::string::StringExecFns;

use crate::config::{value_in_table, AppConfig};
use crate::health::{all_names, categories_view, distinct_models, names_of, text_lt};
use crate::text::{decimal_digits, decimal_text, joined, same_text};

verus! {

/// A menu button: its label and the action token it sends.
pub struct Button {
    pub label: String,
    pub action: String,
}

impl View for Button {
    type V = (Seq<char>, Seq<char>);

    open spec fn view(&self) -> (Seq<char>, Seq<char>) {
        (self.label@, self.action@)
    }
}

pub open spec fn row_view(r: Seq<Button>) -> Seq<(Seq<char>, Seq<char>)> {
    r.map_values(|b: Button| b@)
}

/// A menu as rows of (label, action) pairs.
pub open spec fn keyboard_view(k: Seq<Vec<Button>>) -> Seq<Seq<(Seq<char>, Seq<char>)>> {
    k.map_values(|r: Vec<Button>| row_view(r@))
}

pub fn button(label: &str, action: &str) -> (r: Button)
    ensures
        r@ == (label@, action@),
{
    Button { label: String::from_str(label), action: String::from_str(action) }
}

fn row1(a: Button) -> (r: Vec<Button>)
    ensures
        row_view(r@) == seq![a@],
{
    let mut v = Vec::new();
    v.push(a);
    assert(row_view(v@) =~= seq![a@]);
    v
}

fn row2(a: Button, b: Button) -> (r: Vec<Button>)
    ensures
        row_view(r@) == seq![a@, b@],
{
    let mut v = Vec::new();
    v.push(a);
    v.push(b);
    assert(row_view(v@) =~= seq![a@, b@]);
    v
}

fn push_row(k: &mut Vec<Vec<Button>>, r: Vec<Button>)
    ensures
        keyboard_view(final(k)@) == keyboard_view(old(k)@).push(row_view(r@)),
{
    let ghost before = k@;
    k.push(r);
    assert(keyboard_view(k@) =~= keyboard_view(before).push(row_view(r@)));
}

pub open spec fn main_menu_view() -> Seq<Seq<(Seq<char>, Seq<char>)>> {
    seq![
        seq![("📝 Начать чат"@, "start_chat"@), ("🖼️ Генерация изображений"@, "generate_image_menu"@)],
        seq![("⚙️ Настройки"@, "settings_menu"@), ("👑 Подписка"@, "subscription_menu"@)],
        seq![("ℹ️ Помощь"@, "help_info"@)],
    ]
}

/// The main menu.
pub fn create_main_menu_keyboard() -> (r: Vec<Vec<Button>>)
    ensures
        keyboard_view(r@) == main_menu_view(),
{
    let mut k: Vec<Vec<Button>> = Vec::new();
    push_row(&mut k, row2(button("📝 Начать чат", "start_chat"), button("🖼️ Генерация изображений", "generate_image_menu")));
    push_row(&mut k, row2(button("⚙️ Настройки", "settings_menu"), button("👑 Подписка", "subscription_menu")));
    push_row(&mut k, row1(button("ℹ️ Помощь", "help_info")));
    assert(keyboard_view(k@) =~= main_menu_view());
    k
}

pub open spec fn settings_view() -> Seq<Seq<(Seq<char>, Seq<char>)>> {
    seq![
        seq![("Системная инструкция"@, "set_user_instruction"@), ("Температура"@, "set_temperature"@)],
        seq![("Выбрать модель текста"@, "select_text_model_menu"@)],
        seq![("🔙 Назад в главное меню"@, "main_menu"@)],
    ]
}

/// The settings menu.
pub fn create_settings_keyboard() -> (r: Vec<Vec<Button>>)
    ensures
        keyboard_view(r@) == settings_view(),
{
    let mut k: Vec<Vec<Button>> = Vec::new();
    push_row(&mut k, row2(button("Системная инструкция", "set_user_instruction"), button("Температура", "set_temperature")));
    push_row(&mut k, row1(button("Выбрать модель текста", "select_text_model_menu")));
    push_row(&mut k, row1(button("🔙 Назад в главное меню", "main_menu")));
    assert(keyboard_view(k@) =~= settings_view());
    k
}

pub open spec fn admin_view() -> Seq<Seq<(Seq<char>, Seq<char>)>> {
    seq![
        seq![("📊 Статистика"@, "admin_stats"@), ("✉️ Рассылка"@, "admin_broadcast"@)],
        seq![("👤 Управление пользователем"@, "admin_manage_user"@)],
        seq![("🔙 Назад в главное меню"@, "main_menu"@)],
    ]
}

/// The operators' panel.
pub fn create_admin_panel_keyboard() -> (r: Vec<Vec<Button>>)
    ensures
        keyboard_view(r@) == admin_view(),
{
    let mut k: Vec<Vec<Button>> = Vec::new();
    push_row(&mut k, row2(button("📊 Статистика", "admin_stats"), button("✉️ Рассылка", "admin_broadcast")));
    push_row(&mut k, row1(button("👤 Управление пользователем", "admin_manage_user")));
    push_row(&mut k, row1(button("🔙 Назад в главное меню", "main_menu")));
    assert(keyboard_view(k@) =~= admin_view());
    k
}

/// A yes / no question about an action.
pub fn confirm_action_keyboard(action_callback: &str, cancel_callback: &str) -> (r: Vec<Vec<Button>>)
    ensures
        keyboard_view(r@) == seq![
            seq![("✅ Да"@, "confirm:"@ + action_callback@), ("❌ Нет"@, "cancel:"@ + cancel_callback@)],
        ],
{
    let yes = Button { label: String::from_str("✅ Да"), action: joined("confirm:", action_callback) };
    let no = Button { label: String::from_str("❌ Нет"), action: joined("cancel:", cancel_callback) };
    let mut k: Vec<Vec<Button>> = Vec::new();
    push_row(&mut k, row2(yes, no));
    assert(keyboard_view(k@) =~= seq![
        seq![("✅ Да"@, "confirm:"@ + action_callback@), ("❌ Нет"@, "cancel:"@ + cancel_callback@)],
    ]);
    k
}

/// A model's button: marked when it is the current one; its action is the prefix and the model.
pub open spec fn model_button(m: Seq<char>, current: Option<Seq<char>>, prefix: Seq<char>) -> (Seq<char>, Seq<char>) {
    (if current == Some(m) { "✅ "@ + m } else { m }, prefix + m)
}

/// Models' buttons, `per_row` to a row, the last row holding what is left.
pub open spec fn model_rows(
    models: Seq<Seq<char>>,
    current: Option<Seq<char>>,
    prefix: Seq<char>,
    per_row: nat,
) -> Seq<Seq<(Seq<char>, Seq<char>)>>
    decreases models.len(),
{
    if models.len() == 0 || per_row == 0 {
        Seq::empty()
    } else if models.len() <= per_row {
        seq![models.map_values(|m: Seq<char>| model_button(m, current, prefix))]
    } else {
        seq![models.take(per_row as int).map_values(|m: Seq<char>| model_button(m, current, prefix))] + model_rows(
            models.skip(per_row as int),
            current,
            prefix,
            per_row,
        )
    }
}

fn model_button_of(m: &String, current: Option<&str>, prefix: &str) -> (r: Button)
    ensures
        r@ == model_button(m@, match current { Some(c) => Some(c@), None => None }, prefix@),
{
    let marked = match current {
        Some(c) => same_text(c, m.as_str()),
        None => false,
    };
    let label = if marked { joined("✅ ", m.as_str()) } else { m.clone() };
    Button { label, action: joined(prefix, m.as_str()) }
}

pub open spec fn names_view(v: Seq<String>) -> Seq<Seq<char>> {
    v.map_values(|s: String| s@)
}

/// Appends the models' buttons, `per_row` to a row.
fn push_model_rows(k: &mut Vec<Vec<Button>>, models: &Vec<String>, current: Option<&str>, prefix: &str, per_row: usize)
    requires
        per_row > 0,
    ensures
        keyboard_view(final(k)@) == keyboard_view(old(k)@) + model_rows(
            names_view(models@),
            match current { Some(c) => Some(c@), None => None },
            prefix@,
            per_row as nat,
        ),
    decreases models@.len(),
{
    let ghost cur = match current { Some(c) => Some(c@), None => None };
    let ghost mv = names_view(models@);
    if models.len() == 0 {
        assert(keyboard_view(k@) =~= keyboard_view(k@) + Seq::<Seq<(Seq<char>, Seq<char>)>>::empty());
        return;
    }
    let take = if models.len() <= per_row { models.len() } else { per_row };
    let mut row: Vec<Button> = Vec::new();
    let mut i: usize = 0;
    while i < take
        invariant
            i <= take <= models@.len(),
            mv == names_view(models@),
            row_view(row@) =~= mv.take(i as int).map_values(|m: Seq<char>| model_button(m, cur, prefix@)),
            cur == match current { Some(c) => Some(c@), None => None },
        decreases take - i,
    {
        let ghost before = row@;
        row.push(model_button_of(&models[i], current, prefix));
        assert(row_view(row@) =~= row_view(before).push(model_button(mv[i as int], cur, prefix@)));
        assert(mv.take(i + 1) =~= mv.take(i as int).push(mv[i as int]));
        i += 1;
    }
    push_row(k, row);
    if models.len() <= per_row {
        assert(mv.take(take as int) =~= mv);
        assert(keyboard_view(k@) =~= keyboard_view(old(k)@) + model_rows(mv, cur, prefix@, per_row as nat));
        return;
    }
    let mut rest: Vec<String> = Vec::new();
    let mut j: usize = per_row;
    while j < models.len()
        invariant
            per_row <= j <= models@.len(),
            mv == names_view(models@),
            names_view(rest@) =~= mv.subrange(per_row as int, j as int),
        decreases models@.len() - j,
    {
        let ghost before = rest@;
        rest.push(models[j].clone());
        assert(names_view(rest@) =~= names_view(before).push(mv[j as int]));
        j += 1;
    }
    assert(names_view(rest@) =~= mv.skip(per_row as int));
    let ghost mid = keyboard_view(k@);
    push_model_rows(k, &rest, current, prefix, per_row);
    assert(keyboard_view(k@) =~= keyboard_view(old(k)@) + model_rows(mv, cur, prefix@, per_row as nat));
}

/// Whether texts are in ascending order of `String`.
pub open spec fn ascending(s: Seq<Seq<char>>) -> bool {
    forall|i: int, j: int| 0 <= i < j < s.len() ==> !text_lt(#[trigger] s[j], #[trigger] s[i])
}

/// Relies on `slice::sort` on `String`: the same texts in ascending order, strings compared by their UTF-8
/// bytes, which orders characters by code point.
#[verifier::external_body]
fn sort_texts(v: &mut Vec<String>)
    ensures
        names_view(final(v)@).to_multiset() == names_view(old(v)@).to_multiset(),
        ascending(names_view(final(v)@)),
{
    v.sort();
}

/// The text models a user can pick, in alphabetical order.
pub fn sorted_models(models: &Vec<String>) -> (r: Vec<String>)
    ensures
        names_view(r@).to_multiset() == names_view(models@).to_multiset(),
        ascending(names_view(r@)),
{
    let mut v: Vec<String> = Vec::new();
    let mut i: usize = 0;
    while i < models.len()
        invariant
            i <= models@.len(),
            names_view(v@) =~= names_view(models@).take(i as int),
        decreases models@.len() - i,
    {
        let ghost before = v@;
        v.push(models[i].clone());
        assert(names_view(v@) =~= names_view(before).push(models@[i as int]@));
        i += 1;
    }
    assert(names_view(models@).take(models@.len() as int) =~= names_view(models@));
    sort_texts(&mut v);
    v
}

/// The text model picker: every configured model once, in ascending order, two to a row, the current one
/// marked, then a way back to the settings.
pub fn create_text_model_selection_keyboard(
    categories: &Vec<(String, Vec<String>)>,
    current_model: Option<&str>,
) -> (r: Vec<Vec<Button>>)
    ensures
        exists|d: Seq<Seq<char>>, m: Seq<Seq<char>>|
            #![trigger d.no_duplicates(), m.to_multiset()]
            d.no_duplicates() && d.to_set() == all_names(categories_view(categories@)) && m.to_multiset()
                == d.to_multiset() && ascending(m) && keyboard_view(r@) == model_rows(
                m,
                match current_model { Some(c) => Some(c@), None => None },
                "set_text_model:"@,
                2,
            ).push(seq![("🔙 Назад в настройки"@, "settings_menu"@)]),
{
    let distinct = distinct_models(categories);
    let models = sorted_models(&distinct);
    assert(names_of(distinct@) =~= names_view(distinct@));
    let mut k: Vec<Vec<Button>> = Vec::new();
    push_model_rows(&mut k, &models, current_model, "set_text_model:", 2);
    push_row(&mut k, row1(button("🔙 Назад в настройки", "settings_menu")));
    assert(keyboard_view(k@) =~= model_rows(
        names_view(models@),
        match current_model { Some(c) => Some(c@), None => None },
        "set_text_model:"@,
        2,
    ).push(seq![("🔙 Назад в настройки"@, "settings_menu"@)]));
    k
}

/// The image menu: one model to a row, the current one marked, then generate and back.
pub fn create_image_generation_menu_keyboard(models: &Vec<String>, current_image_model: Option<&str>) -> (r: Vec<Vec<Button>>)
    ensures
        keyboard_view(r@) == model_rows(
            names_view(models@),
            match current_image_model { Some(c) => Some(c@), None => None },
            "set_image_model:"@,
            1,
        ).push(seq![("🖼️ Сгенерировать (с текущей моделью)"@, "generate_image_action"@)]).push(
            seq![("🔙 Назад в главное меню"@, "main_menu"@)],
        ),
{
    let mut k: Vec<Vec<Button>> = Vec::new();
    push_model_rows(&mut k, models, current_image_model, "set_image_model:", 1);
    push_row(&mut k, row1(button("🖼️ Сгенерировать (с текущей моделью)", "generate_image_action")));
    push_row(&mut k, row1(button("🔙 Назад в главное меню", "main_menu")));
    k
}


/// An integer in decimal, with a minus sign when negative.
pub open spec fn signed_decimal(i: int) -> Seq<char> {
    if i < 0 {
        "-"@ + decimal_digits((-i) as nat)
    } else {
        decimal_digits(i as nat)
    }
}

pub fn signed_decimal_text(i: i32) -> (r: String)
    ensures
        r@ == signed_decimal(i as int),
{
    if i < 0 {
        let digits = decimal_text((-(i as i64)) as u64);
        joined("-", digits.as_str())
    } else {
        decimal_text(i as u64)
    }
}

/// The name of a subscription level, and the end date where the level is a paid one.
pub open spec fn level_status(level: i32, end: Option<Seq<char>>) -> Seq<char> {
    let until = match end {
        Some(e) => e,
        None => "N/A"@,
    };
    if level == 0 {
        "Уровень: Free"@
    } else if level == 1 {
        "Уровень: Standard (до "@ + until + ")"@
    } else if level == 2 {
        "Уровень: Premium (до "@ + until + ")"@
    } else if level == 3 {
        "Уровень: Max (до "@ + until + ")"@
    } else {
        "Неизвестный уровень"@
    }
}

pub open spec fn buy_label(name: Seq<char>, price: Option<i32>) -> Seq<char> {
    let p = match price {
        Some(v) => v as int,
        None => 0,
    };
    "Купить "@ + name + " ("@ + signed_decimal(p) + "₽)"@
}

/// The subscription menu: the current level, an offer of each higher level with its price, a promo code
/// entry and a way back.
pub open spec fn subscription_view(level: i32, end: Option<Seq<char>>, prices: Seq<(i32, i32)>) -> Seq<
    Seq<(Seq<char>, Seq<char>)>,
> {
    let k = seq![seq![(level_status(level, end), "sub_status_info"@)]];
    let k = if level < 1 {
        k.push(seq![(buy_label("Standard"@, value_in_table(prices, 1)), "buy_sub:1"@)])
    } else {
        k
    };
    let k = if level < 2 {
        k.push(seq![(buy_label("Premium"@, value_in_table(prices, 2)), "buy_sub:2"@)])
    } else {
        k
    };
    let k = if level < 3 {
        k.push(seq![(buy_label("Max"@, value_in_table(prices, 3)), "buy_sub:3"@)])
    } else {
        k
    };
    k.push(seq![("🎁 Ввести промокод"@, "enter_promocode"@)]).push(seq![("🔙 Назад в главное меню"@, "main_menu"@)])
}

fn level_status_text(level: i32, end: &Option<String>) -> (r: String)
    ensures
        r@ == level_status(level, match end { Some(e) => Some(e@), None => None }),
{
    let until = match end {
        Some(e) => e.as_str(),
        None => "N/A",
    };
    if level == 0 {
        String::from_str("Уровень: Free")
    } else if level == 1 {
        let h = joined("Уровень: Standard (до ", until);
        joined(h.as_str(), ")")
    } else if level == 2 {
        let h = joined("Уровень: Premium (до ", until);
        joined(h.as_str(), ")")
    } else if level == 3 {
        let h = joined("Уровень: Max (до ", until);
        joined(h.as_str(), ")")
    } else {
        String::from_str("Неизвестный уровень")
    }
}

fn buy_button(config: &AppConfig, name: &str, level: i32, action: &str) -> (r: Button)
    ensures
        r@ == (buy_label(name@, value_in_table(config.prices@, level)), action@),
{
    let price = match config.price_of(level) {
        Some(p) => p,
        None => 0,
    };
    let digits = signed_decimal_text(price);
    let a = joined("Купить ", name);
    let b = joined(a.as_str(), " (");
    let c = joined(b.as_str(), digits.as_str());
    let label = joined(c.as_str(), "₽)");
    Button { label, action: String::from_str(action) }
}

/// The subscription menu of a user of this level, the end date already written out.
pub fn create_subscription_menu_keyboard(config: &AppConfig, user_level: i32, sub_end_date: Option<String>) -> (r: Vec<Vec<Button>>)
    ensures
        keyboard_view(r@) == subscription_view(
            user_level,
            match sub_end_date { Some(e) => Some(e@), None => None },
            config.prices@,
        ),
{
    let mut k: Vec<Vec<Button>> = Vec::new();
    let status = level_status_text(user_level, &sub_end_date);
    push_row(&mut k, row1(Button { label: status, action: String::from_str("sub_status_info") }));
    if user_level < 1 {
        push_row(&mut k, row1(buy_button(config, "Standard", 1, "buy_sub:1")));
    }
    if user_level < 2 {
        push_row(&mut k, row1(buy_button(config, "Premium", 2, "buy_sub:2")));
    }
    if user_level < 3 {
        push_row(&mut k, row1(buy_button(config, "Max", 3, "buy_sub:3")));
    }
    push_row(&mut k, row1(button("🎁 Ввести промокод", "enter_promocode")));
    push_row(&mut k, row1(button("🔙 Назад в главное меню", "main_menu")));
    assert(keyboard_view(k@) =~= subscription_view(
        user_level,
        match sub_end_date { Some(e) => Some(e@), None => None },
        config.prices@,
    ));
    k
}

} // verus!
