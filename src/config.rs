use vstd::prelude::*;
use vstd::string::StringExecFns;

use crate::captcha::pool_view;

verus! {

/// A channel whose subscribers may claim the reward bonus.
pub struct RewardChannel {
    pub id: String,
    pub name: String,
}

/// Daily request limits of one subscription tier.
#[derive(Clone, Copy, Debug, PartialEq, Eq, Structural)]
pub struct LimitDetails {
    pub daily: i32,
    pub max_mode: i32,
}

/// The settings every component is built from; constructed once at startup.
///
/// Temperatures are kept in thousandths (0.7 is 700).
pub struct AppConfig {
    pub bot_token: String,
    pub api_key: String,
    pub api_url: String,
    pub database_path: String,
    pub admin_ids: Vec<i64>,
    pub sub_contact: String,
    pub support_contact: String,
    pub reward_channels: Vec<RewardChannel>,
    pub group_text_trigger: String,
    pub group_image_trigger: String,
    pub global_system_prompt: String,
    pub default_temperature: u32,
    pub default_text_model: String,
    pub default_image_model: String,
    pub max_mode_participants: Vec<String>,
    pub max_mode_arbiter: String,
    pub model_categories: Vec<(String, Vec<String>)>,
    pub image_models: Vec<String>,
    pub limits: Vec<(i32, LimitDetails)>,
    pub reward_limit: i32,
    pub prices: Vec<(i32, i32)>,
    pub captcha_variants: Vec<(String, String)>,
}

/// The limits a table gives a level: those of its first entry for that level, none where it has no entry.
pub open spec fn limit_in_table(table: Seq<(i32, LimitDetails)>, level: i32) -> LimitDetails
    decreases table.len(),
{
    if table.len() == 0 {
        LimitDetails { daily: 0, max_mode: 0 }
    } else if table[0].0 == level {
        table[0].1
    } else {
        limit_in_table(table.drop_first(), level)
    }
}

/// The value a table of integer pairs gives a key: that of its first entry for the key.
pub open spec fn value_in_table(table: Seq<(i32, i32)>, key: i32) -> Option<i32>
    decreases table.len(),
{
    if table.len() == 0 {
        None
    } else if table[0].0 == key {
        Some(table[0].1)
    } else {
        value_in_table(table.drop_first(), key)
    }
}

impl AppConfig {
    pub open spec fn admin_spec(&self, user_id: i64) -> bool {
        self.admin_ids@.contains(user_id)
    }

    /// Whether the user is on the operators' list.
    pub fn is_admin(&self, user_id: i64) -> (r: bool)
        ensures
            r == self.admin_spec(user_id),
    {
        let mut i: usize = 0;
        while i < self.admin_ids.len()
            invariant
                i <= self.admin_ids@.len(),
                forall|j: int| 0 <= j < i ==> self.admin_ids@[j] != user_id,
            decreases self.admin_ids@.len() - i,
        {
            if self.admin_ids[i] == user_id {
                return true;
            }
            i += 1;
        }
        false
    }

    /// The limits the table gives a subscription level; a level without an entry gets none.
    pub fn limits_for_level(&self, level: i32) -> (r: LimitDetails)
        ensures
            r == limit_in_table(self.limits@, level),
    {
        let mut i: usize = 0;
        assert(self.limits@.subrange(0, self.limits@.len() as int) =~= self.limits@);
        while i < self.limits.len()
            invariant
                i <= self.limits@.len(),
                limit_in_table(self.limits@, level) == limit_in_table(
                    self.limits@.subrange(i as int, self.limits@.len() as int),
                    level,
                ),
            decreases self.limits@.len() - i,
        {
            let ghost rest = self.limits@.subrange(i as int, self.limits@.len() as int);
            assert(rest.drop_first() =~= self.limits@.subrange(i + 1, self.limits@.len() as int));
            if self.limits[i].0 == level {
                return self.limits[i].1;
            }
            i += 1;
        }
        LimitDetails { daily: 0, max_mode: 0 }
    }

    /// The price of a subscription level, where one is set.
    pub fn price_of(&self, level: i32) -> (r: Option<i32>)
        ensures
            r == value_in_table(self.prices@, level),
    {
        let mut i: usize = 0;
        assert(self.prices@.subrange(0, self.prices@.len() as int) =~= self.prices@);
        while i < self.prices.len()
            invariant
                i <= self.prices@.len(),
                value_in_table(self.prices@, level) == value_in_table(
                    self.prices@.subrange(i as int, self.prices@.len() as int),
                    level,
                ),
            decreases self.prices@.len() - i,
        {
            let ghost rest = self.prices@.subrange(i as int, self.prices@.len() as int);
            assert(rest.drop_first() =~= self.prices@.subrange(i + 1, self.prices@.len() as int));
            if self.prices[i].0 == level {
                return Some(self.prices[i].1);
            }
            i += 1;
        }
        None
    }
}


/// The daily limits of each level: Free, Standard, Premium and Max.
pub open spec fn default_limits() -> Seq<(i32, LimitDetails)> {
    seq![
        (0i32, LimitDetails { daily: 3, max_mode: 0 }),
        (1i32, LimitDetails { daily: 40, max_mode: 0 }),
        (2i32, LimitDetails { daily: 100, max_mode: 0 }),
        (3i32, LimitDetails { daily: 100, max_mode: 5 }),
    ]
}

/// The captcha puzzles, as (question, answer).
pub open spec fn default_captcha_pool() -> Seq<(Seq<char>, Seq<char>)> {
    seq![
        ("Чему равен корень из 9?"@, "3"@),
        ("Сколько будет 2 + 2 * 2?"@, "6"@),
        ("Столица Франции?"@, "париж"@),
        ("Сколько букв в слове 'ТЕЛЕГРАМ'?"@, "8"@),
        ("Напишите число 'пять' цифрой."@, "5"@),
    ]
}

/// The prices of the paid levels.
pub open spec fn default_prices() -> Seq<(i32, i32)> {
    seq![(1i32, 150i32), (2i32, 350i32), (3i32, 600i32)]
}

fn s(t: &str) -> (r: String)
    ensures
        r@ == t@,
{
    String::from_str(t)
}

fn texts(items: &[&str]) -> (r: Vec<String>)
    ensures
        r@.len() == items@.len(),
        forall|i: int| 0 <= i < items@.len() ==> (#[trigger] r@[i])@ == items@[i]@,
{
    let mut v: Vec<String> = Vec::new();
    let mut i: usize = 0;
    while i < items.len()
        invariant
            i <= items@.len(),
            v@.len() == i,
            forall|j: int| 0 <= j < i ==> (#[trigger] v@[j])@ == items@[j]@,
        decreases items@.len() - i,
    {
        v.push(String::from_str(items[i]));
        i += 1;
    }
    v
}

impl AppConfig {
    /// The settings of a deployment: what the environment gives, with the tables every deployment shares.
    pub fn with_defaults(
        bot_token: String,
        api_key: String,
        api_url: String,
        database_path: String,
        admin_ids: Vec<i64>,
        sub_contact: String,
        support_contact: String,
        reward_channels: Vec<RewardChannel>,
        group_text_trigger: String,
        group_image_trigger: String,
    ) -> (r: AppConfig)
        ensures
            r.bot_token == bot_token,
            r.api_key == api_key,
            r.api_url == api_url,
            r.database_path == database_path,
            r.sub_contact == sub_contact,
            r.support_contact == support_contact,
            r.reward_channels == reward_channels,
            r.group_text_trigger == group_text_trigger,
            r.group_image_trigger == group_image_trigger,
            r.admin_ids@ == admin_ids@,
            pool_view(r.captcha_variants@) == default_captcha_pool(),
            r.global_system_prompt@ == "Ты - MiniArima, продвинутый GenAI ассистент."@,
            r.default_image_model@ == "gpt-image-1"@,
            r.image_models@.len() == 2,
            r.model_categories@.len() == 6,
            r.limits@ == default_limits(),
            r.prices@ == default_prices(),
            r.reward_limit == 7,
            r.default_temperature == 700,
            r.max_mode_participants@.len() == 5,
            r.default_text_model@ == "chatgpt-4o-latest"@,
            r.max_mode_arbiter@ == "deepseek-r1-0528"@,
    {
        let mut limits: Vec<(i32, LimitDetails)> = Vec::new();
        limits.push((0, LimitDetails { daily: 3, max_mode: 0 }));
        limits.push((1, LimitDetails { daily: 40, max_mode: 0 }));
        limits.push((2, LimitDetails { daily: 100, max_mode: 0 }));
        limits.push((3, LimitDetails { daily: 100, max_mode: 5 }));
        assert(limits@ =~= default_limits());
        let mut prices: Vec<(i32, i32)> = Vec::new();
        prices.push((1, 150));
        prices.push((2, 350));
        prices.push((3, 600));
        assert(prices@ =~= default_prices());
        let mut captcha_variants: Vec<(String, String)> = Vec::new();
        captcha_variants.push((s("Чему равен корень из 9?"), s("3")));
        captcha_variants.push((s("Сколько будет 2 + 2 * 2?"), s("6")));
        captcha_variants.push((s("Столица Франции?"), s("париж")));
        captcha_variants.push((s("Сколько букв в слове 'ТЕЛЕГРАМ'?"), s("8")));
        captcha_variants.push((s("Напишите число 'пять' цифрой."), s("5")));
        assert(pool_view(captcha_variants@) =~= default_captcha_pool());
        let mut model_categories: Vec<(String, Vec<String>)> = Vec::new();
        model_categories.push((s("OpenAI"), texts(&["gpt-4.5-preview", "gpt-4.1", "o4-mini", "chatgpt-4o-latest"])));
        model_categories.push((s("DeepSeek"), texts(&["deepseek-chat-v3-0324", "deepseek-r1-0528"])));
        model_categories.push((s("Meta"), texts(&["llama-3.1-nemotron-ultra-253b-v1"])));
        model_categories.push((s("Alibaba"), texts(&["qwen3-235b-a22b"])));
        model_categories.push((s("Microsoft"), texts(&["phi-4-reasoning-plus"])));
        model_categories.push((s("xAI"), texts(&["grok-3", "grok-3-mini"])));
        let max_mode_participants = texts(
            &["grok-3", "gpt-4.1", "deepseek-chat-v3-0324", "gpt-4.5-preview", "chatgpt-4o-latest"],
        );
        AppConfig {
            bot_token,
            api_key,
            api_url,
            database_path,
            admin_ids,
            sub_contact,
            support_contact,
            reward_channels,
            group_text_trigger,
            group_image_trigger,
            global_system_prompt: s("Ты - MiniArima, продвинутый GenAI ассистент."),
            default_temperature: 700,
            default_text_model: s("chatgpt-4o-latest"),
            default_image_model: s("gpt-image-1"),
            max_mode_participants,
            max_mode_arbiter: s("deepseek-r1-0528"),
            model_categories,
            image_models: texts(&["gpt-image-1", "flux-1.1-pro"]),
            limits,
            reward_limit: 7,
            prices,
            captcha_variants,
        }
    }
}

} // verus!
