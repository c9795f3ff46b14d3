use vstd::prelude::*;

use vstd::string::StringExecFns;

use crate::text::{joined, lowercase_text, lowercased, trim_text, trimmed};

verus! {

/// A captcha awaiting its answer: the expected answer, trimmed and lower-cased.
pub enum CaptchaState {
    Pending(String),
}

impl View for CaptchaState {
    type V = Seq<char>;

    open spec fn view(&self) -> Seq<char> {
        match self {
            CaptchaState::Pending(a) => a@,
        }
    }
}

/// The puzzles as (question, answer) texts.
pub open spec fn pool_view(pool: Seq<(String, String)>) -> Seq<(Seq<char>, Seq<char>)> {
    pool.map_values(|p: (String, String)| (p.0@, p.1@))
}

/// How many values a roll for the next puzzle is drawn from: one fewer than the puzzles, so that the
/// previous one can be left out.
pub open spec fn roll_bound(count: nat) -> nat {
    if count > 1 {
        (count - 1) as nat
    } else {
        1
    }
}

/// The puzzle that follows a failed one: the roll counts the puzzles other than the previous one.
pub open spec fn next_index(count: nat, previous: nat, roll: nat) -> nat {
    if count <= 1 {
        0
    } else if roll >= previous {
        roll + 1
    } else {
        roll
    }
}

/// Relies on rand's `thread_rng` and `Rng::gen_range`: a value drawn from `0..n`, which must not be empty.
#[verifier::external_body]
fn random_below(n: usize) -> (r: usize)
    requires
        n > 0,
    ensures
        r < n,
{
    rand::Rng::gen_range(&mut rand::thread_rng(), 0..n)
}

/// Draws the puzzle a new challenge starts with.
pub fn draw_first_captcha(count: usize) -> (r: usize)
    requires
        count > 0,
    ensures
        r < count,
{
    random_below(count)
}

/// Draws the roll that picks the puzzle following a failed one.
pub fn draw_captcha_roll(count: usize) -> (r: usize)
    ensures
        r < roll_bound(count as nat),
{
    if count > 1 {
        random_below(count - 1)
    } else {
        random_below(1)
    }
}

/// The puzzle that follows a failed one; where there is more than one, never the same.
pub fn next_captcha_index(count: usize, previous: usize, roll: usize) -> (r: usize)
    requires
        count > 0,
        roll < roll_bound(count as nat),
    ensures
        r == next_index(count as nat, previous as nat, roll as nat),
        r < count,
        count > 1 ==> r != previous,
{
    if count <= 1 {
        0
    } else if roll >= previous {
        roll + 1
    } else {
        roll
    }
}

pub open spec fn captcha_prompt(question: Seq<char>) -> Seq<char> {
    "Чтобы начать, пожалуйста, решите простую задачу:\n<b>"@ + question + "</b>\n\nНапишите ответ в чат."@
}

/// The message that presents a puzzle.
pub fn captcha_prompt_text(question: &str) -> (r: String)
    ensures
        r@ == captcha_prompt(question@),
{
    let head = joined("Чтобы начать, пожалуйста, решите простую задачу:\n<b>", question);
    joined(head.as_str(), "</b>\n\nНапишите ответ в чат.")
}

/// Draws a puzzle and gives its message, its expected answer (trimmed and lower-cased) and its position; an
/// error where there is none.
pub fn prepare_captcha_data(variants: &Vec<(String, String)>) -> (r: Result<(String, String, usize), String>)
    ensures
        variants@.len() == 0 <==> r is Err,
        r matches Ok((text, answer, index)) ==> index < variants@.len() && text@ == captcha_prompt(
            variants@[index as int].0@,
        ) && answer@ == lowercased(trimmed(variants@[index as int].1@)),
{
    if variants.len() == 0 {
        return Err(String::from_str("No captcha variants configured"));
    }
    let index = draw_first_captcha(variants.len());
    let text = captcha_prompt_text(variants[index].0.as_str());
    let answer = lowercase_text(trim_text(variants[index].1.as_str()));
    Ok((text, answer, index))
}

} // verus!
