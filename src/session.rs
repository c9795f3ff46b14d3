use vstd::prelude::*;
use vstd::string::{StrSliceExecFns, StringExecFns};

use crate::captcha::{next_captcha_index, next_index, pool_view, roll_bound, CaptchaState};
use crate::settings::{parse_temperature, temperature_of};
use crate::text::{lowercase_text, lowercased, same_text, strip_prefix_text, trim_text, trimmed};

verus! {

/// Who wrote a turn of a chat transcript.
#[derive(Clone, Copy, Debug, PartialEq, Eq, Structural)]
pub enum Role {
    User,
    Assistant,
}

/// One turn of a chat transcript.
pub struct ChatTurn {
    pub role: Role,
    pub content: String,
}

impl View for ChatTurn {
    type V = (Role, Seq<char>);

    open spec fn view(&self) -> (Role, Seq<char>) {
        (self.role, self.content@)
    }
}

pub open spec fn transcript_view(h: Seq<ChatTurn>) -> Seq<(Role, Seq<char>)> {
    h.map_values(|t: ChatTurn| t@)
}

/// Where one user's conversation stands. Message references are those of the prompt to remove once answered.
pub enum DialogueState {
    Unauthenticated,
    AwaitingCaptchaAnswer { captcha: CaptchaState, captcha_index: usize, prompt_message: Option<i32> },
    MainMenu,
    SettingsMenu,
    AwaitingInstructionInput { prompt_message: Option<i32> },
    AwaitingTemperatureInput { prompt_message: Option<i32> },
    ActiveChat { history: Vec<ChatTurn>, current_model: String },
}

/// The model of a dialogue state.
pub enum SessionView {
    Unauthenticated,
    AwaitingCaptchaAnswer { expected: Seq<char>, index: nat, prompt: Option<i32> },
    MainMenu,
    SettingsMenu,
    AwaitingInstructionInput { prompt: Option<i32> },
    AwaitingTemperatureInput { prompt: Option<i32> },
    ActiveChat { history: Seq<(Role, Seq<char>)>, model: Seq<char> },
}

impl View for DialogueState {
    type V = SessionView;

    open spec fn view(&self) -> SessionView {
        match self {
            DialogueState::Unauthenticated => SessionView::Unauthenticated,
            DialogueState::AwaitingCaptchaAnswer { captcha, captcha_index, prompt_message } => {
                SessionView::AwaitingCaptchaAnswer {
                    expected: captcha@,
                    index: *captcha_index as nat,
                    prompt: *prompt_message,
                }
            },
            DialogueState::MainMenu => SessionView::MainMenu,
            DialogueState::SettingsMenu => SessionView::SettingsMenu,
            DialogueState::AwaitingInstructionInput { prompt_message } => {
                SessionView::AwaitingInstructionInput { prompt: *prompt_message }
            },
            DialogueState::AwaitingTemperatureInput { prompt_message } => {
                SessionView::AwaitingTemperatureInput { prompt: *prompt_message }
            },
            DialogueState::ActiveChat { history, current_model } => SessionView::ActiveChat {
                history: transcript_view(history@),
                model: current_model@,
            },
        }
    }
}

/// What the transport is to do after a step; the storage writes it names are the caller's to make.
pub enum Reply {
    /// Present the puzzle at this position.
    SendCaptcha { index: usize },
    /// Say the answer was wrong and present the puzzle at this position.
    CaptchaRetry { index: usize },
    /// Mark the account verified, drop it from the cache, remove the prompt and show the main menu.
    CaptchaSolved { prompt_message: Option<i32> },
    ShowMainMenu,
    /// The chat was closed by command; show the main menu.
    ChatEnded,
    /// Report that there is no chat to stop.
    NoActiveChat,
    /// Text outside a chat: point the user to the menu.
    Hint,
    Ignored,
    /// Submit the transcript of the new state to its model.
    RequestCompletion,
    SaveInstruction { instruction: Option<String>, prompt_message: Option<i32> },
    SaveTemperature { temperature: Option<u32>, prompt_message: Option<i32> },
    /// Re-prompt for a temperature; nothing is stored.
    InvalidTemperature,
    ChatStarted { model: String },
    ExitedChat,
    ShowImageMenu,
    ShowSettings,
    PromptInstruction,
    PromptTemperature,
    ShowSubscription,
    ShowHelp,
    SelectTextModel { model: String },
    SelectImageModel { model: String },
    ShowAdminPanel,
    AccessDenied,
    Acknowledge,
    Unrecognized,
}

pub enum ReplyView {
    SendCaptcha { index: nat },
    CaptchaRetry { index: nat },
    CaptchaSolved { prompt: Option<i32> },
    ShowMainMenu,
    ChatEnded,
    NoActiveChat,
    Hint,
    Ignored,
    RequestCompletion,
    SaveInstruction { instruction: Option<Seq<char>>, prompt: Option<i32> },
    SaveTemperature { temperature: Option<nat>, prompt: Option<i32> },
    InvalidTemperature,
    ChatStarted { model: Seq<char> },
    ExitedChat,
    ShowImageMenu,
    ShowSettings,
    PromptInstruction,
    PromptTemperature,
    ShowSubscription,
    ShowHelp,
    SelectTextModel { model: Seq<char> },
    SelectImageModel { model: Seq<char> },
    ShowAdminPanel,
    AccessDenied,
    Acknowledge,
    Unrecognized,
}

impl View for Reply {
    type V = ReplyView;

    open spec fn view(&self) -> ReplyView {
        match self {
            Reply::SendCaptcha { index } => ReplyView::SendCaptcha { index: *index as nat },
            Reply::CaptchaRetry { index } => ReplyView::CaptchaRetry { index: *index as nat },
            Reply::CaptchaSolved { prompt_message } => ReplyView::CaptchaSolved { prompt: *prompt_message },
            Reply::ShowMainMenu => ReplyView::ShowMainMenu,
            Reply::ChatEnded => ReplyView::ChatEnded,
            Reply::NoActiveChat => ReplyView::NoActiveChat,
            Reply::Hint => ReplyView::Hint,
            Reply::Ignored => ReplyView::Ignored,
            Reply::RequestCompletion => ReplyView::RequestCompletion,
            Reply::SaveInstruction { instruction, prompt_message } => ReplyView::SaveInstruction {
                instruction: match instruction {
                    Some(s) => Some(s@),
                    None => None,
                },
                prompt: *prompt_message,
            },
            Reply::SaveTemperature { temperature, prompt_message } => ReplyView::SaveTemperature {
                temperature: match temperature {
                    Some(t) => Some(*t as nat),
                    None => None,
                },
                prompt: *prompt_message,
            },
            Reply::InvalidTemperature => ReplyView::InvalidTemperature,
            Reply::ChatStarted { model } => ReplyView::ChatStarted { model: model@ },
            Reply::ExitedChat => ReplyView::ExitedChat,
            Reply::ShowImageMenu => ReplyView::ShowImageMenu,
            Reply::ShowSettings => ReplyView::ShowSettings,
            Reply::PromptInstruction => ReplyView::PromptInstruction,
            Reply::PromptTemperature => ReplyView::PromptTemperature,
            Reply::ShowSubscription => ReplyView::ShowSubscription,
            Reply::ShowHelp => ReplyView::ShowHelp,
            Reply::SelectTextModel { model } => ReplyView::SelectTextModel { model: model@ },
            Reply::SelectImageModel { model } => ReplyView::SelectImageModel { model: model@ },
            Reply::ShowAdminPanel => ReplyView::ShowAdminPanel,
            Reply::AccessDenied => ReplyView::AccessDenied,
            Reply::Acknowledge => ReplyView::Acknowledge,
            Reply::Unrecognized => ReplyView::Unrecognized,
        }
    }
}

/// The state a step leads to and what is to be done for it.
pub struct Transition {
    pub next: DialogueState,
    pub reply: Reply,
}

/// The expected answer kept for the puzzle at a position: its answer, trimmed and lower-cased.
pub open spec fn expected_for(pool: Seq<(Seq<char>, Seq<char>)>, index: nat) -> Seq<char> {
    lowercased(trimmed(pool[index as int].1))
}

/// A start or menu command: an unverified user gets the puzzle the roll picks, a verified one the main menu.
pub open spec fn start_step(verified: bool, pool: Seq<(Seq<char>, Seq<char>)>, roll: nat) -> (SessionView, ReplyView) {
    if verified {
        (SessionView::MainMenu, ReplyView::ShowMainMenu)
    } else {
        (
            SessionView::AwaitingCaptchaAnswer { expected: expected_for(pool, roll), index: roll, prompt: None },
            ReplyView::SendCaptcha { index: roll },
        )
    }
}

/// The stop-chat command: leaves a chat for the main menu, and is refused anywhere else.
pub open spec fn stop_step(s: SessionView) -> (SessionView, ReplyView) {
    match s {
        SessionView::ActiveChat { .. } => (SessionView::MainMenu, ReplyView::ChatEnded),
        _ => (s, ReplyView::NoActiveChat),
    }
}

/// Whether a lower-cased entry is one of the words that clear a setting.
pub open spec fn clear_word(l: Seq<char>) -> bool {
    l == "удалить"@ || l == "сбросить"@
}

/// Whether an entry, trimmed, asks to clear a setting: it is empty or, lower-cased, one of the clear words.
pub open spec fn clears_setting(t: Seq<char>) -> bool {
    t.len() == 0 || clear_word(lowercased(t))
}

/// Whether a trimmed, lower-cased entry is one of the words that clear a setting.
pub fn is_clear_word(lowered: &str) -> (r: bool)
    ensures
        r == clear_word(lowered@),
{
    same_text(lowered, "удалить") || same_text(lowered, "сбросить")
}

/// Whether a trimmed, lower-cased captcha answer is the expected one.
pub fn answer_matches(lowered: &str, expected: &str) -> (r: bool)
    ensures
        r == (lowered@ == expected@),
{
    same_text(lowered, expected)
}

/// A text message, in each state.
pub open spec fn text_step(
    s: SessionView,
    text: Seq<char>,
    pool: Seq<(Seq<char>, Seq<char>)>,
    roll: nat,
) -> (SessionView, ReplyView) {
    match s {
        SessionView::AwaitingCaptchaAnswer { expected, index, prompt } => {
            if lowercased(trimmed(text)) == expected {
                (SessionView::MainMenu, ReplyView::CaptchaSolved { prompt })
            } else {
                let ni = next_index(pool.len(), index, roll);
                (
                    SessionView::AwaitingCaptchaAnswer { expected: expected_for(pool, ni), index: ni, prompt },
                    ReplyView::CaptchaRetry { index: ni },
                )
            }
        },
        SessionView::Unauthenticated => (s, ReplyView::Hint),
        SessionView::MainMenu => (s, ReplyView::Hint),
        SessionView::SettingsMenu => (s, ReplyView::Ignored),
        SessionView::ActiveChat { history, model } => (
            SessionView::ActiveChat { history: history.push((Role::User, text)), model },
            ReplyView::RequestCompletion,
        ),
        SessionView::AwaitingInstructionInput { prompt } => {
            let t = trimmed(text);
            (
                SessionView::SettingsMenu,
                ReplyView::SaveInstruction {
                    instruction: if clears_setting(t) { None } else { Some(t) },
                    prompt,
                },
            )
        },
        SessionView::AwaitingTemperatureInput { prompt } => {
            let t = trimmed(text);
            if clears_setting(t) {
                (SessionView::SettingsMenu, ReplyView::SaveTemperature { temperature: None, prompt })
            } else {
                match temperature_of(t) {
                    Some(v) => (
                        SessionView::SettingsMenu,
                        ReplyView::SaveTemperature { temperature: Some(v), prompt },
                    ),
                    None => (s, ReplyView::InvalidTemperature),
                }
            }
        },
    }
}

/// A model's answer in a chat: appended as the assistant's turn; on a failure the transcript keeps the
/// user's message and nothing else changes.
pub open spec fn completion_step(s: SessionView, answer: Option<Seq<char>>) -> SessionView {
    match s {
        SessionView::ActiveChat { history, model } => match answer {
            Some(a) => SessionView::ActiveChat { history: history.push((Role::Assistant, a)), model },
            None => s,
        },
        _ => s,
    }
}

/// Whether every puzzle position a state holds lies in a pool of this size.
pub open spec fn fits_pool(s: SessionView, count: nat) -> bool {
    s matches SessionView::AwaitingCaptchaAnswer { index, .. } ==> index < count
}

impl DialogueState {
    /// The state a new user starts in.
    pub fn new() -> (r: DialogueState)
        ensures
            r@ == SessionView::Unauthenticated,
    {
        DialogueState::Unauthenticated
    }

    /// Handles a start or menu command; `verified` is the account's verification as freshly read.
    pub fn on_start(self, verified: bool, pool: &Vec<(String, String)>, roll: usize) -> (r: Transition)
        requires
            !verified ==> roll < pool@.len(),
        ensures
            (r.next@, r.reply@) == start_step(verified, pool_view(pool@), roll as nat),
    {
        if verified {
            Transition { next: DialogueState::MainMenu, reply: Reply::ShowMainMenu }
        } else {
            let t = trim_text(pool[roll].1.as_str());
            let expected = lowercase_text(t);
            Transition {
                next: DialogueState::AwaitingCaptchaAnswer {
                    captcha: CaptchaState::Pending(expected),
                    captcha_index: roll,
                    prompt_message: None,
                },
                reply: Reply::SendCaptcha { index: roll },
            }
        }
    }

    /// Handles the stop-chat command.
    pub fn on_stop_chat(self) -> (r: Transition)
        ensures
            (r.next@, r.reply@) == stop_step(self@),
    {
        match self {
            DialogueState::ActiveChat { .. } => Transition { next: DialogueState::MainMenu, reply: Reply::ChatEnded },
            other => Transition { next: other, reply: Reply::NoActiveChat },
        }
    }

    /// Handles a text message; `roll` picks the next puzzle should a captcha answer be wrong.
    pub fn on_text(self, text: &str, pool: &Vec<(String, String)>, roll: usize) -> (r: Transition)
        requires
            self@ is AwaitingCaptchaAnswer ==> pool@.len() > 0,
            roll < roll_bound(pool@.len()),
        ensures
            (r.next@, r.reply@) == text_step(self@, text@, pool_view(pool@), roll as nat),
            fits_pool(r.next@, pool@.len()),
    {
        match self {
            DialogueState::AwaitingCaptchaAnswer { captcha, captcha_index, prompt_message } => {
                let CaptchaState::Pending(expected) = captcha;
                let t = trim_text(text);
                let answer = lowercase_text(t);
                if answer_matches(answer.as_str(), expected.as_str()) {
                    Transition { next: DialogueState::MainMenu, reply: Reply::CaptchaSolved { prompt_message } }
                } else {
                    let ni = next_captcha_index(pool.len(), captcha_index, roll);
                    let nt = trim_text(pool[ni].1.as_str());
                    let next_expected = lowercase_text(nt);
                    Transition {
                        next: DialogueState::AwaitingCaptchaAnswer {
                            captcha: CaptchaState::Pending(next_expected),
                            captcha_index: ni,
                            prompt_message,
                        },
                        reply: Reply::CaptchaRetry { index: ni },
                    }
                }
            },
            DialogueState::Unauthenticated => Transition { next: DialogueState::Unauthenticated, reply: Reply::Hint },
            DialogueState::MainMenu => Transition { next: DialogueState::MainMenu, reply: Reply::Hint },
            DialogueState::SettingsMenu => Transition { next: DialogueState::SettingsMenu, reply: Reply::Ignored },
            DialogueState::ActiveChat { history, current_model } => {
                let mut history = history;
                let ghost before = history@;
                history.push(ChatTurn { role: Role::User, content: String::from_str(text) });
                assert(transcript_view(history@) =~= transcript_view(before).push((Role::User, text@)));
                Transition { next: DialogueState::ActiveChat { history, current_model }, reply: Reply::RequestCompletion }
            },
            DialogueState::AwaitingInstructionInput { prompt_message } => {
                let t = trim_text(text);
                let instruction = if clears(t) { None } else { Some(String::from_str(t)) };
                Transition {
                    next: DialogueState::SettingsMenu,
                    reply: Reply::SaveInstruction { instruction, prompt_message },
                }
            },
            DialogueState::AwaitingTemperatureInput { prompt_message } => {
                let t = trim_text(text);
                if clears(t) {
                    Transition {
                        next: DialogueState::SettingsMenu,
                        reply: Reply::SaveTemperature { temperature: None, prompt_message },
                    }
                } else {
                    match parse_temperature(t) {
                        Some(v) => Transition {
                            next: DialogueState::SettingsMenu,
                            reply: Reply::SaveTemperature { temperature: Some(v), prompt_message },
                        },
                        None => Transition {
                            next: DialogueState::AwaitingTemperatureInput { prompt_message },
                            reply: Reply::InvalidTemperature,
                        },
                    }
                }
            },
        }
    }

    /// Takes in the outcome of the completion a chat message asked for: the answer, or `None` on a failure.
    pub fn on_completion(self, answer: Option<String>) -> (r: DialogueState)
        ensures
            r@ == completion_step(self@, match answer { Some(a) => Some(a@), None => None }),
    {
        match self {
            DialogueState::ActiveChat { history, current_model } => match answer {
                Some(a) => {
                    let mut history = history;
                    let ghost before = history@;
                    let ghost av = a@;
                    history.push(ChatTurn { role: Role::Assistant, content: a });
                    assert(transcript_view(history@) =~= transcript_view(before).push((Role::Assistant, av)));
                    DialogueState::ActiveChat { history, current_model }
                },
                None => DialogueState::ActiveChat { history, current_model },
            },
            other => other,
        }
    }

    /// Records the message that prompted for input, so that it can be removed once answered.
    pub fn with_prompt_message(self, message_id: i32) -> (r: DialogueState)
        ensures
            r@ == match self@ {
                SessionView::AwaitingCaptchaAnswer { expected, index, .. } => SessionView::AwaitingCaptchaAnswer {
                    expected,
                    index,
                    prompt: Some(message_id),
                },
                SessionView::AwaitingInstructionInput { .. } => SessionView::AwaitingInstructionInput {
                    prompt: Some(message_id),
                },
                SessionView::AwaitingTemperatureInput { .. } => SessionView::AwaitingTemperatureInput {
                    prompt: Some(message_id),
                },
                other => other,
            },
    {
        match self {
            DialogueState::AwaitingCaptchaAnswer { captcha, captcha_index, .. } => DialogueState::AwaitingCaptchaAnswer {
                captcha,
                captcha_index,
                prompt_message: Some(message_id),
            },
            DialogueState::AwaitingInstructionInput { .. } => DialogueState::AwaitingInstructionInput {
                prompt_message: Some(message_id),
            },
            DialogueState::AwaitingTemperatureInput { .. } => DialogueState::AwaitingTemperatureInput {
                prompt_message: Some(message_id),
            },
            other => other,
        }
    }
}

/// Whether a trimmed entry asks to clear a setting.
fn clears(t: &str) -> (r: bool)
    ensures
        r == clears_setting(t@),
{
    if t.unicode_len() == 0 {
        return true;
    }
    let l = lowercase_text(t);
    is_clear_word(l.as_str())
}


/// A menu selection, read from its action token.
pub enum MenuAction {
    MainMenu,
    StartChat,
    ExitChat,
    ImageMenu,
    Settings,
    SetInstruction,
    SetTemperature,
    Subscription,
    Help,
    SetTextModel(String),
    SetImageModel(String),
    AdminPanel,
    SubscriptionStatus,
    Unknown,
}

pub enum MenuActionView {
    MainMenu,
    StartChat,
    ExitChat,
    ImageMenu,
    Settings,
    SetInstruction,
    SetTemperature,
    Subscription,
    Help,
    SetTextModel(Seq<char>),
    SetImageModel(Seq<char>),
    AdminPanel,
    SubscriptionStatus,
    Unknown,
}

impl View for MenuAction {
    type V = MenuActionView;

    open spec fn view(&self) -> MenuActionView {
        match self {
            MenuAction::MainMenu => MenuActionView::MainMenu,
            MenuAction::StartChat => MenuActionView::StartChat,
            MenuAction::ExitChat => MenuActionView::ExitChat,
            MenuAction::ImageMenu => MenuActionView::ImageMenu,
            MenuAction::Settings => MenuActionView::Settings,
            MenuAction::SetInstruction => MenuActionView::SetInstruction,
            MenuAction::SetTemperature => MenuActionView::SetTemperature,
            MenuAction::Subscription => MenuActionView::Subscription,
            MenuAction::Help => MenuActionView::Help,
            MenuAction::SetTextModel(m) => MenuActionView::SetTextModel(m@),
            MenuAction::SetImageModel(m) => MenuActionView::SetImageModel(m@),
            MenuAction::AdminPanel => MenuActionView::AdminPanel,
            MenuAction::SubscriptionStatus => MenuActionView::SubscriptionStatus,
            MenuAction::Unknown => MenuActionView::Unknown,
        }
    }
}

pub open spec fn has_prefix(t: Seq<char>, p: Seq<char>) -> bool {
    t.len() >= p.len() && t.subrange(0, p.len() as int) == p
}

pub open spec fn after_prefix(t: Seq<char>, p: Seq<char>) -> Seq<char> {
    t.subrange(p.len() as int, t.len() as int)
}

/// The selection an action token names.
pub open spec fn menu_action_of(t: Seq<char>) -> MenuActionView {
    if t == "main_menu"@ {
        MenuActionView::MainMenu
    } else if t == "start_chat"@ {
        MenuActionView::StartChat
    } else if t == "exit_chat_to_main_menu"@ {
        MenuActionView::ExitChat
    } else if t == "generate_image_menu"@ {
        MenuActionView::ImageMenu
    } else if t == "settings_menu"@ {
        MenuActionView::Settings
    } else if t == "set_user_instruction"@ {
        MenuActionView::SetInstruction
    } else if t == "set_temperature"@ {
        MenuActionView::SetTemperature
    } else if t == "subscription_menu"@ {
        MenuActionView::Subscription
    } else if t == "help_info"@ {
        MenuActionView::Help
    } else if has_prefix(t, "set_text_model:"@) {
        MenuActionView::SetTextModel(after_prefix(t, "set_text_model:"@))
    } else if has_prefix(t, "set_image_model:"@) {
        MenuActionView::SetImageModel(after_prefix(t, "set_image_model:"@))
    } else if t == "admin_panel"@ {
        MenuActionView::AdminPanel
    } else if t == "sub_status_info"@ {
        MenuActionView::SubscriptionStatus
    } else {
        MenuActionView::Unknown
    }
}

/// Reads a menu action token.
pub fn parse_menu_token(token: &str) -> (r: MenuAction)
    ensures
        r@ == menu_action_of(token@),
{
    if same_text(token, "main_menu") {
        MenuAction::MainMenu
    } else if same_text(token, "start_chat") {
        MenuAction::StartChat
    } else if same_text(token, "exit_chat_to_main_menu") {
        MenuAction::ExitChat
    } else if same_text(token, "generate_image_menu") {
        MenuAction::ImageMenu
    } else if same_text(token, "settings_menu") {
        MenuAction::Settings
    } else if same_text(token, "set_user_instruction") {
        MenuAction::SetInstruction
    } else if same_text(token, "set_temperature") {
        MenuAction::SetTemperature
    } else if same_text(token, "subscription_menu") {
        MenuAction::Subscription
    } else if same_text(token, "help_info") {
        MenuAction::Help
    } else if let Some(m) = strip_prefix_text(token, "set_text_model:") {
        MenuAction::SetTextModel(String::from_str(m))
    } else if let Some(m) = strip_prefix_text(token, "set_image_model:") {
        MenuAction::SetImageModel(String::from_str(m))
    } else if same_text(token, "admin_panel") {
        MenuAction::AdminPanel
    } else if same_text(token, "sub_status_info") {
        MenuAction::SubscriptionStatus
    } else {
        MenuAction::Unknown
    }
}

/// A menu selection, in any state. A chat starts on the user's last model, or the default where none is set.
pub open spec fn menu_step(
    s: SessionView,
    action: MenuActionView,
    last_model: Option<Seq<char>>,
    default_model: Seq<char>,
    is_admin: bool,
) -> (SessionView, ReplyView) {
    match action {
        MenuActionView::MainMenu => (SessionView::MainMenu, ReplyView::ShowMainMenu),
        MenuActionView::StartChat => {
            let model = match last_model {
                Some(m) => m,
                None => default_model,
            };
            (SessionView::ActiveChat { history: Seq::empty(), model }, ReplyView::ChatStarted { model })
        },
        MenuActionView::ExitChat => (SessionView::MainMenu, ReplyView::ExitedChat),
        MenuActionView::ImageMenu => (s, ReplyView::ShowImageMenu),
        MenuActionView::Settings => (SessionView::SettingsMenu, ReplyView::ShowSettings),
        MenuActionView::SetInstruction => (
            SessionView::AwaitingInstructionInput { prompt: None },
            ReplyView::PromptInstruction,
        ),
        MenuActionView::SetTemperature => (
            SessionView::AwaitingTemperatureInput { prompt: None },
            ReplyView::PromptTemperature,
        ),
        MenuActionView::Subscription => (s, ReplyView::ShowSubscription),
        MenuActionView::Help => (s, ReplyView::ShowHelp),
        MenuActionView::SetTextModel(m) => (s, ReplyView::SelectTextModel { model: m }),
        MenuActionView::SetImageModel(m) => (s, ReplyView::SelectImageModel { model: m }),
        MenuActionView::AdminPanel => (
            s,
            if is_admin {
                ReplyView::ShowAdminPanel
            } else {
                ReplyView::AccessDenied
            },
        ),
        MenuActionView::SubscriptionStatus => (s, ReplyView::Acknowledge),
        MenuActionView::Unknown => (s, ReplyView::Unrecognized),
    }
}

impl DialogueState {
    /// Handles a menu selection given by its action token; `last_model` is the user's last chat model as
    /// freshly read.
    pub fn on_menu_action(
        self,
        token: &str,
        last_model: Option<String>,
        default_model: &str,
        is_admin: bool,
    ) -> (r: Transition)
        ensures
            (r.next@, r.reply@) == menu_step(
                self@,
                menu_action_of(token@),
                match last_model { Some(m) => Some(m@), None => None },
                default_model@,
                is_admin,
            ),
    {
        let action = parse_menu_token(token);
        match action {
            MenuAction::MainMenu => Transition { next: DialogueState::MainMenu, reply: Reply::ShowMainMenu },
            MenuAction::StartChat => {
                let model = match last_model {
                    Some(m) => m,
                    None => String::from_str(default_model),
                };
                let shown = model.clone();
                let next = DialogueState::ActiveChat { history: Vec::new(), current_model: model };
                assert(transcript_view(Seq::<ChatTurn>::empty()) =~= Seq::<(Role, Seq<char>)>::empty());
                Transition { next, reply: Reply::ChatStarted { model: shown } }
            },
            MenuAction::ExitChat => Transition { next: DialogueState::MainMenu, reply: Reply::ExitedChat },
            MenuAction::ImageMenu => Transition { next: self, reply: Reply::ShowImageMenu },
            MenuAction::Settings => Transition { next: DialogueState::SettingsMenu, reply: Reply::ShowSettings },
            MenuAction::SetInstruction => Transition {
                next: DialogueState::AwaitingInstructionInput { prompt_message: None },
                reply: Reply::PromptInstruction,
            },
            MenuAction::SetTemperature => Transition {
                next: DialogueState::AwaitingTemperatureInput { prompt_message: None },
                reply: Reply::PromptTemperature,
            },
            MenuAction::Subscription => Transition { next: self, reply: Reply::ShowSubscription },
            MenuAction::Help => Transition { next: self, reply: Reply::ShowHelp },
            MenuAction::SetTextModel(m) => Transition { next: self, reply: Reply::SelectTextModel { model: m } },
            MenuAction::SetImageModel(m) => Transition { next: self, reply: Reply::SelectImageModel { model: m } },
            MenuAction::AdminPanel => Transition {
                next: self,
                reply: if is_admin {
                    Reply::ShowAdminPanel
                } else {
                    Reply::AccessDenied
                },
            },
            MenuAction::SubscriptionStatus => Transition { next: self, reply: Reply::Acknowledge },
            MenuAction::Unknown => Transition { next: self, reply: Reply::Unrecognized },
        }
    }
}


/// Whether the puzzles of a pool have pairwise different expected answers.
pub open spec fn distinct_answers(pool: Seq<(Seq<char>, Seq<char>)>) -> bool {
    forall|i: nat, j: nat|
        i < pool.len() && j < pool.len() && i != j ==> expected_for(pool, i) != expected_for(pool, j)
}

/// A right captcha answer, trimmed and compared without case, leads to the main menu and asks for the
/// account to be marked verified; once it is, every start leads to the main menu. A wrong answer presents
/// another puzzle of the pool, where it holds more than one, and then another expected answer, where the
/// pool's answers differ.
pub proof fn lemma_captcha_attempt(
    expected: Seq<char>,
    index: nat,
    prompt: Option<i32>,
    text: Seq<char>,
    pool: Seq<(Seq<char>, Seq<char>)>,
    roll: nat,
)
    requires
        index < pool.len(),
        roll < roll_bound(pool.len()),
    ensures
        ({
            let s = SessionView::AwaitingCaptchaAnswer { expected, index, prompt };
            &&& lowercased(trimmed(text)) == expected ==> text_step(s, text, pool, roll) == (
                SessionView::MainMenu,
                ReplyView::CaptchaSolved { prompt },
            )
            &&& start_step(true, pool, roll) == (SessionView::MainMenu, ReplyView::ShowMainMenu)
            &&& lowercased(trimmed(text)) != expected && pool.len() > 1 ==> match text_step(s, text, pool, roll).0 {
                SessionView::AwaitingCaptchaAnswer { expected: next_expected, index: next, .. } => {
                    &&& next != index
                    &&& next < pool.len()
                    &&& (distinct_answers(pool) && expected == expected_for(pool, index)) ==> next_expected
                        != expected
                },
                _ => false,
            }
        }),
{
}

} // verus!
