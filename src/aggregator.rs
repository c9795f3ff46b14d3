use vstd::prelude::*;
use vstd::string::{StrSliceExecFns, StringExecFns};

use crate::provider::ProviderError;

verus! {

/// What one participant of a fan-out round gave.
pub enum ParticipantOutcome {
    /// Its answer, possibly empty.
    Answered(String),
    /// Its call failed.
    Failed,
    /// Its task ended without a result.
    Crashed,
}

pub enum OutcomeView {
    Answered(Seq<char>),
    Failed,
    Crashed,
}

impl View for ParticipantOutcome {
    type V = OutcomeView;

    open spec fn view(&self) -> OutcomeView {
        match self {
            ParticipantOutcome::Answered(t) => OutcomeView::Answered(t@),
            ParticipantOutcome::Failed => OutcomeView::Failed,
            ParticipantOutcome::Crashed => OutcomeView::Crashed,
        }
    }
}

/// A participant's model and what it gave.
pub struct ParticipantResult {
    pub model: String,
    pub outcome: ParticipantOutcome,
}

impl View for ParticipantResult {
    type V = (Seq<char>, OutcomeView);

    open spec fn view(&self) -> (Seq<char>, OutcomeView) {
        (self.model@, self.outcome@)
    }
}

/// Why an enhanced request gave no answer.
#[derive(Clone, Copy, Debug, PartialEq, Eq, Structural)]
pub enum EnhancedError {
    /// Every participant failed or answered nothing; the arbiter was not asked.
    AllParticipantsFailed,
    /// The arbiter failed or answered nothing.
    ArbiterFailed,
}

pub open spec fn arrivals_view(a: Seq<(usize, ParticipantOutcome)>) -> Seq<(nat, OutcomeView)> {
    a.map_values(|x: (usize, ParticipantOutcome)| (x.0 as nat, x.1@))
}

/// What the arrivals say of the participant at a position: its last arrival, or a crash where none came.
pub open spec fn outcome_of(arrivals: Seq<(nat, OutcomeView)>, index: nat) -> OutcomeView
    decreases arrivals.len(),
{
    if arrivals.len() == 0 {
        OutcomeView::Crashed
    } else if arrivals.last().0 == index {
        arrivals.last().1
    } else {
        outcome_of(arrivals.drop_last(), index)
    }
}

/// The results in the configured order of the participants, whatever the order the arrivals came in.
pub open spec fn arranged(participants: Seq<Seq<char>>, arrivals: Seq<(nat, OutcomeView)>) -> Seq<(Seq<char>, OutcomeView)> {
    Seq::new(participants.len(), |i: int| (participants[i], outcome_of(arrivals, i as nat)))
}

pub open spec fn names_view(v: Seq<String>) -> Seq<Seq<char>> {
    v.map_values(|s: String| s@)
}

pub open spec fn results_view(v: Seq<ParticipantResult>) -> Seq<(Seq<char>, OutcomeView)> {
    v.map_values(|r: ParticipantResult| r@)
}

fn copy_outcome(o: &ParticipantOutcome) -> (r: ParticipantOutcome)
    ensures
        r@ == o@,
{
    match o {
        ParticipantOutcome::Answered(t) => ParticipantOutcome::Answered(t.clone()),
        ParticipantOutcome::Failed => ParticipantOutcome::Failed,
        ParticipantOutcome::Crashed => ParticipantOutcome::Crashed,
    }
}

/// Puts the outcomes that arrived, each tagged with its participant's position, in the configured order
/// of the participants; one whose outcome never arrived is recorded as crashed.
pub fn arrange_results(participants: &Vec<String>, arrivals: &Vec<(usize, ParticipantOutcome)>) -> (r: Vec<ParticipantResult>)
    ensures
        results_view(r@) == arranged(names_view(participants@), arrivals_view(arrivals@)),
{
    let ghost av = arrivals_view(arrivals@);
    let ghost target = arranged(names_view(participants@), av);
    let mut out: Vec<ParticipantResult> = Vec::new();
    let mut i: usize = 0;
    while i < participants.len()
        invariant
            i <= participants@.len(),
            av == arrivals_view(arrivals@),
            target == arranged(names_view(participants@), av),
            results_view(out@) =~= target.take(i as int),
        decreases participants@.len() - i,
    {
        let mut found = ParticipantOutcome::Crashed;
        let mut j: usize = 0;
        while j < arrivals.len()
            invariant
                j <= arrivals@.len(),
                av == arrivals_view(arrivals@),
                found@ == outcome_of(av.take(j as int), i as nat),
            decreases arrivals@.len() - j,
        {
            assert(av.take(j + 1).drop_last() =~= av.take(j as int));
            if arrivals[j].0 == i {
                found = copy_outcome(&arrivals[j].1);
            }
            j += 1;
        }
        assert(av.take(arrivals@.len() as int) =~= av);
        let ghost before = out@;
        out.push(ParticipantResult { model: participants[i].clone(), outcome: found });
        assert(results_view(out@) =~= results_view(before).push(target[i as int]));
        assert(target.take(i + 1) =~= target.take(i as int).push(target[i as int]));
        i += 1;
    }
    assert(target.take(participants@.len() as int) =~= target);
    out
}

/// A participant's outcome recorded once among the arrivals is what the results hold at its position,
/// wherever among the arrivals it came.
pub proof fn lemma_outcome_kept(arrivals: Seq<(nat, OutcomeView)>, j: int)
    requires
        0 <= j < arrivals.len(),
        forall|k: int| 0 <= k < arrivals.len() && k != j ==> (#[trigger] arrivals[k]).0 != arrivals[j].0,
    ensures
        outcome_of(arrivals, arrivals[j].0) == arrivals[j].1,
    decreases arrivals.len(),
{
    if j != arrivals.len() - 1 {
        let d = arrivals.drop_last();
        assert(arrivals[arrivals.len() - 1].0 != arrivals[j].0);
        assert forall|k: int| 0 <= k < d.len() && k != j implies (#[trigger] d[k]).0 != d[j].0 by {
            assert(d[k] == arrivals[k]);
        }
        lemma_outcome_kept(d, j);
    }
}

/// A result the arbiter can use: a non-empty answer.
pub open spec fn usable(o: OutcomeView) -> bool {
    o matches OutcomeView::Answered(t) && t.len() > 0
}

pub open spec fn all_failed(results: Seq<(Seq<char>, OutcomeView)>) -> bool {
    forall|i: int| 0 <= i < results.len() ==> !usable(#[trigger] results[i].1)
}

pub open spec fn arbiter_intro() -> Seq<char> {
    "Ты — главный AI-арбитр. Твоя задача — проанализировать ответы от нескольких моделей и создать один, наилучший итоговый ответ.\nДействуй строго по шагам:\n\n**ШАГ 1: Определи правильный ответ.**\nВнимательно изучи оригинальный запрос пользователя и все предоставленные ответы. Вычисли или определи единственно верный и точный ответ.\n\n**ШАГ 2: Сформируй финальный ответ.**\nНапиши исчерпывающий, точный и хорошо отформатированный ответ для пользователя. Используй лучшие идеи и факты из ответов-участников, но изложи их своими словами. Не упоминай другие модели в этой части.\n\n**ШАГ 3: Проведи анализ источников.**\nПосле финального ответа поставь разделитель `---`. Затем кратко и объективно проанализируй ответы участников. Укажи, кто был прав, кто ошибся и почему. Твой анализ должен быть полностью консистентен с финальным ответом, который ты дал на ШАГЕ 2.\n\n---\n**ОРИГИНАЛЬНЫЙ ЗАПРОС ПОЛЬЗОВАТЕЛЯ:**\n"@
}

pub open spec fn answers_heading() -> Seq<char> {
    "\n\n---\n\n**ОТВЕТЫ МОДЕЛЕЙ-УЧАСТНИКОВ ДЛЯ АНАЛИЗА:**"@
}

pub open spec fn arbiter_closing() -> Seq<char> {
    "\n\n**ТВОЙ ИТОГОВЫЙ РЕЗУЛЬТАТ (выполни ШАГ 2 и ШАГ 3):**"@
}

/// What the arbiter is shown of an outcome: the answer, or a fixed placeholder for each kind of failure.
pub open spec fn shown_text(o: OutcomeView) -> Seq<char> {
    match o {
        OutcomeView::Answered(t) => if t.len() > 0 {
            t
        } else {
            "ОШИБКА: Модель не вернула текстовый ответ."@
        },
        OutcomeView::Failed => "ОШИБКА: Модель не смогла обработать запрос."@,
        OutcomeView::Crashed => "ОШИБКА: Задача для модели завершилась аварийно."@,
    }
}

pub open spec fn section(r: (Seq<char>, OutcomeView)) -> Seq<char> {
    "\n\n**Ответ от модели (`"@ + r.0 + "`):**\n"@ + shown_text(r.1) + "\n---"@
}

pub open spec fn sections(results: Seq<(Seq<char>, OutcomeView)>) -> Seq<char>
    decreases results.len(),
{
    if results.len() == 0 {
        Seq::empty()
    } else {
        sections(results.drop_last()) + section(results.last())
    }
}

/// The single prompt the arbiter gets: the task, the user's prompt verbatim, and each participant's labelled
/// output in order.
pub open spec fn meta_prompt(prompt: Seq<char>, results: Seq<(Seq<char>, OutcomeView)>) -> Seq<char> {
    arbiter_intro() + prompt + answers_heading() + sections(results) + arbiter_closing()
}

fn placeholder(o: &ParticipantOutcome) -> (r: &'static str)
    requires
        !usable(o@),
    ensures
        r@ == shown_text(o@),
{
    match o {
        ParticipantOutcome::Answered(_) => "ОШИБКА: Модель не вернула текстовый ответ.",
        ParticipantOutcome::Failed => "ОШИБКА: Модель не смогла обработать запрос.",
        ParticipantOutcome::Crashed => "ОШИБКА: Задача для модели завершилась аварийно.",
    }
}

/// The prompt for the arbiter, or `AllParticipantsFailed` where no participant gave a non-empty answer, in
/// which case the arbiter is not to be asked.
pub fn arbitration_prompt(prompt: &str, results: &Vec<ParticipantResult>) -> (r: Result<String, EnhancedError>)
    ensures
        all_failed(results_view(results@)) <==> r is Err,
        r matches Err(e) ==> e == EnhancedError::AllParticipantsFailed,
        r matches Ok(m) ==> m@ == meta_prompt(prompt@, results_view(results@)),
{
    let ghost rv = results_view(results@);
    let mut out = String::from_str(
        "Ты — главный AI-арбитр. Твоя задача — проанализировать ответы от нескольких моделей и создать один, наилучший итоговый ответ.\nДействуй строго по шагам:\n\n**ШАГ 1: Определи правильный ответ.**\nВнимательно изучи оригинальный запрос пользователя и все предоставленные ответы. Вычисли или определи единственно верный и точный ответ.\n\n**ШАГ 2: Сформируй финальный ответ.**\nНапиши исчерпывающий, точный и хорошо отформатированный ответ для пользователя. Используй лучшие идеи и факты из ответов-участников, но изложи их своими словами. Не упоминай другие модели в этой части.\n\n**ШАГ 3: Проведи анализ источников.**\nПосле финального ответа поставь разделитель `---`. Затем кратко и объективно проанализируй ответы участников. Укажи, кто был прав, кто ошибся и почему. Твой анализ должен быть полностью консистентен с финальным ответом, который ты дал на ШАГЕ 2.\n\n---\n**ОРИГИНАЛЬНЫЙ ЗАПРОС ПОЛЬЗОВАТЕЛЯ:**\n",
    );
    out.append(prompt);
    out.append("\n\n---\n\n**ОТВЕТЫ МОДЕЛЕЙ-УЧАСТНИКОВ ДЛЯ АНАЛИЗА:**");
    let mut any_usable = false;
    let mut i: usize = 0;
    while i < results.len()
        invariant
            i <= results@.len(),
            rv == results_view(results@),
            out@ == arbiter_intro() + prompt@ + answers_heading() + sections(rv.take(i as int)),
            any_usable == exists|k: int| 0 <= k < i && usable(#[trigger] rv[k].1),
        decreases results@.len() - i,
    {
        let r = &results[i];
        assert(rv[i as int] == r@);
        let ghost before = out@;
        out.append("\n\n**Ответ от модели (`");
        out.append(r.model.as_str());
        out.append("`):**\n");
        let is_usable = match &r.outcome {
            ParticipantOutcome::Answered(t) => t.unicode_len() > 0,
            _ => false,
        };
        if is_usable {
            match &r.outcome {
                ParticipantOutcome::Answered(t) => out.append(t.as_str()),
                _ => {},
            }
            any_usable = true;
        } else {
            out.append(placeholder(&r.outcome));
        }
        out.append("\n---");
        assert(rv.take(i + 1).drop_last() =~= rv.take(i as int));
        assert(out@ =~= before + section(rv[i as int]));
        i += 1;
    }
    assert(rv.take(results@.len() as int) =~= rv);
    if !any_usable {
        return Err(EnhancedError::AllParticipantsFailed);
    }
    out.append("\n\n**ТВОЙ ИТОГОВЫЙ РЕЗУЛЬТАТ (выполни ШАГ 2 и ШАГ 3):**");
    Ok(out)
}

/// The final answer of an enhanced request from what the arbiter gave: its text, or `ArbiterFailed` where
/// its call failed or it answered nothing.
pub fn arbiter_outcome(answer: Result<String, ProviderError>) -> (r: Result<String, EnhancedError>)
    ensures
        match answer {
            Ok(t) => if t@.len() > 0 {
                r matches Ok(f) && f@ == t@
            } else {
                r == Err::<String, EnhancedError>(EnhancedError::ArbiterFailed)
            },
            Err(_) => r == Err::<String, EnhancedError>(EnhancedError::ArbiterFailed),
        },
{
    match answer {
        Ok(t) => {
            if t.as_str().unicode_len() > 0 {
                Ok(t)
            } else {
                Err(EnhancedError::ArbiterFailed)
            }
        },
        Err(_) => Err(EnhancedError::ArbiterFailed),
    }
}

} // verus!
