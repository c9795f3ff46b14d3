use std::fmt::Write;
use vstd::prelude::*;
use vstd::string::StringExecFns;

use crate::text::{decimal_digits, decimal_text, same_text};

verus! {

/// The last known status of one model: `OK`, `Timeout`, `API Error <code>` or `Error: <reason>`.
pub struct ModelStatusInfo {
    pub model: String,
    pub status: String,
}

impl View for ModelStatusInfo {
    type V = (Seq<char>, Seq<char>);

    open spec fn view(&self) -> (Seq<char>, Seq<char>) {
        (self.model@, self.status@)
    }
}

pub open spec fn statuses_view(v: Seq<ModelStatusInfo>) -> Seq<(Seq<char>, Seq<char>)> {
    v.map_values(|s: ModelStatusInfo| s@)
}

/// How a health probe's call ended.
pub enum ProbeOutcome {
    /// A success status; the body, empty or not, is not read.
    Success,
    /// A non-success status with this code.
    Status(u16),
    Timeout,
    /// Any other failure, described.
    Failure(String),
}

/// The two kinds of probe: a chat completion and an image generation.
#[derive(Clone, Copy, Debug, PartialEq, Eq, Structural)]
pub enum ProbeKind {
    Chat,
    Image,
}

/// The status a probe reports: a success is `OK` whatever the body; a non-success status is reported with
/// its code, in one form for both kinds; a timeout and any other failure are told apart.
pub open spec fn probe_status_text(kind: ProbeKind, outcome: ProbeOutcomeView) -> Seq<char> {
    match outcome {
        ProbeOutcomeView::Success => "OK"@,
        ProbeOutcomeView::Status(code) => "API Error "@ + decimal_digits(code as nat),
        ProbeOutcomeView::Timeout => "Timeout"@,
        ProbeOutcomeView::Failure(reason) => "Error: "@ + reason,
    }
}

pub enum ProbeOutcomeView {
    Success,
    Status(u16),
    Timeout,
    Failure(Seq<char>),
}

impl View for ProbeOutcome {
    type V = ProbeOutcomeView;

    open spec fn view(&self) -> ProbeOutcomeView {
        match self {
            ProbeOutcome::Success => ProbeOutcomeView::Success,
            ProbeOutcome::Status(c) => ProbeOutcomeView::Status(*c),
            ProbeOutcome::Timeout => ProbeOutcomeView::Timeout,
            ProbeOutcome::Failure(r) => ProbeOutcomeView::Failure(r@),
        }
    }
}

/// The status entry of a model after a probe.
pub fn probe_status(model: String, kind: ProbeKind, outcome: ProbeOutcome) -> (r: ModelStatusInfo)
    ensures
        r.model@ == model@,
        r.status@ == probe_status_text(kind, outcome@),
{
    let status = match outcome {
        ProbeOutcome::Success => String::from_str("OK"),
        ProbeOutcome::Status(code) => {
            let digits = decimal_text(code as u64);
            let mut s = String::from_str("API Error ");
            s.append(digits.as_str());
            s
        },
        ProbeOutcome::Timeout => String::from_str("Timeout"),
        ProbeOutcome::Failure(reason) => {
            let mut s = String::from_str("Error: ");
            s.append(reason.as_str());
            s
        },
    };
    ModelStatusInfo { model, status }
}

pub open spec fn all_names(categories: Seq<(Seq<char>, Seq<Seq<char>>)>) -> Set<Seq<char>> {
    Set::new(|m: Seq<char>| exists|c: int| 0 <= c < categories.len() && categories[c].1.contains(m))
}

pub open spec fn categories_view(v: Seq<(String, Vec<String>)>) -> Seq<(Seq<char>, Seq<Seq<char>>)> {
    v.map_values(|c: (String, Vec<String>)| (c.0@, c.1@.map_values(|s: String| s@)))
}

pub open spec fn names_of(v: Seq<String>) -> Seq<Seq<char>> {
    v.map_values(|s: String| s@)
}

fn contains_name(v: &Vec<String>, name: &str) -> (r: bool)
    ensures
        r == names_of(v@).contains(name@),
{
    let mut i: usize = 0;
    while i < v.len()
        invariant
            i <= v@.len(),
            forall|j: int| 0 <= j < i ==> v@[j]@ != name@,
        decreases v@.len() - i,
    {
        if same_text(v[i].as_str(), name) {
            assert(names_of(v@)[i as int] == name@);
            return true;
        }
        i += 1;
    }
    assert forall|j: int| 0 <= j < names_of(v@).len() implies names_of(v@)[j] != name@ by {}
    false
}

proof fn lemma_push_contains(s: Seq<Seq<char>>, x: Seq<char>, m: Seq<char>)
    ensures
        s.push(x).contains(m) == (s.contains(m) || m == x),
{
    if m == x {
        assert(s.push(x)[s.len() as int] == x);
    }
    if s.contains(m) {
        let t = choose|t: int| 0 <= t < s.len() && #[trigger] s[t] == m;
        assert(s.push(x)[t] == m);
    }
    if s.push(x).contains(m) {
        let t = choose|t: int| 0 <= t < s.push(x).len() && #[trigger] s.push(x)[t] == m;
        if t < s.len() {
            assert(s[t] == m);
        }
    }
}

/// Every model of every category once, in order of first appearance. The models are kept in a `Vec`: vstd
/// gives `String` no hash key model, so a `HashSet` of them would let nothing be proved of membership.
pub fn distinct_models(categories: &Vec<(String, Vec<String>)>) -> (r: Vec<String>)
    ensures
        names_of(r@).no_duplicates(),
        names_of(r@).to_set() == all_names(categories_view(categories@)),
{
    let ghost cv = categories_view(categories@);
    let mut out: Vec<String> = Vec::new();
    let mut c: usize = 0;
    while c < categories.len()
        invariant
            c <= categories@.len(),
            cv == categories_view(categories@),
            names_of(out@).no_duplicates(),
            forall|m: Seq<char>| names_of(out@).contains(m) <==> exists|k: int| 0 <= k < c && (#[trigger] cv[k]).1.contains(m),
        decreases categories@.len() - c,
    {
        let models = &categories[c].1;
        let ghost inner = cv[c as int].1;
        assert(inner == names_of(models@));
        let mut j: usize = 0;
        while j < models.len()
            invariant
                j <= models@.len(),
                c < categories@.len(),
                cv == categories_view(categories@),
                inner == cv[c as int].1,
                inner == names_of(models@),
                names_of(out@).no_duplicates(),
                forall|m: Seq<char>| names_of(out@).contains(m) <==> (exists|k: int| 0 <= k < c && (#[trigger] cv[k]).1.contains(m)) || inner.take(j as int).contains(m),
            decreases models@.len() - j,
        {
            let name = &models[j];
            assert(inner[j as int] == name@);
            assert(inner.take(j + 1) =~= inner.take(j as int).push(name@));
            let ghost before = names_of(out@);
            let ghost x = name@;
            let present = contains_name(&out, name.as_str());
            if !present {
                out.push(name.clone());
                assert(names_of(out@) =~= before.push(x));
            }
            assert forall|m: Seq<char>| names_of(out@).contains(m) <==> (exists|k: int| 0 <= k < c && (#[trigger] cv[k]).1.contains(m)) || inner.take(j + 1).contains(m) by {
                lemma_push_contains(inner.take(j as int), x, m);
                if !present {
                    lemma_push_contains(before, x, m);
                }
            }
            j += 1;
        }
        assert(inner.take(models@.len() as int) =~= inner);
        assert forall|m: Seq<char>| names_of(out@).contains(m) <==> exists|k: int| 0 <= k < c + 1 && (#[trigger] cv[k]).1.contains(m) by {
            if inner.contains(m) {
                assert(cv[c as int].1.contains(m));
            }
            if exists|k: int| 0 <= k < c + 1 && (#[trigger] cv[k]).1.contains(m) {
                let k = choose|k: int| 0 <= k < c + 1 && (#[trigger] cv[k]).1.contains(m);
                if k == c {
                    assert(inner.contains(m));
                }
            }
        }
        c += 1;
    }
    assert(names_of(out@).to_set() =~= all_names(cv)) by {
        assert forall|m: Seq<char>| names_of(out@).to_set().contains(m) <==> all_names(cv).contains(m) by {}
    }
    out
}

/// How old, in seconds, a stored status snapshot may be and still be adopted at startup.
pub const FRESHNESS_WINDOW: i64 = 600;

/// Whether a snapshot stored at `updated_at` is still fresh at `now`.
pub open spec fn fresh(updated_at: int, now: int) -> bool {
    now - updated_at < FRESHNESS_WINDOW
}

pub fn is_snapshot_fresh(updated_at: i64, now: i64) -> (r: bool)
    ensures
        r == fresh(updated_at as int, now as int),
{
    (now as i128) - (updated_at as i128) < FRESHNESS_WINDOW as i128
}

/// A snapshot five minutes old is adopted; one fifteen minutes old is not.
pub proof fn lemma_freshness_window(updated_at: int)
    ensures
        fresh(updated_at, updated_at + 5 * 60),
        !fresh(updated_at, updated_at + 15 * 60),
        forall|now: int| fresh(updated_at, now) <==> now < updated_at + FRESHNESS_WINDOW,
{
}


/// The entries whose status is `OK` (when `ok`) or is not (otherwise), in their order.
pub open spec fn with_status(s: Seq<(Seq<char>, Seq<char>)>, ok: bool) -> Seq<(Seq<char>, Seq<char>)>
    decreases s.len(),
{
    if s.len() == 0 {
        Seq::empty()
    } else {
        let rest = with_status(s.drop_last(), ok);
        if (s.last().1 == "OK"@) == ok {
            rest.push(s.last())
        } else {
            rest
        }
    }
}

pub open spec fn pairs_of(v: Seq<(String, String)>) -> Seq<(Seq<char>, Seq<char>)> {
    v.map_values(|p: (String, String)| (p.0@, p.1@))
}

/// Splits the statuses of a sweep into the working models and the failing ones, as (model, status) pairs.
pub fn partition_statuses(statuses: &Vec<ModelStatusInfo>) -> (r: (Vec<(String, String)>, Vec<(String, String)>))
    ensures
        pairs_of(r.0@) == with_status(statuses_view(statuses@), true),
        pairs_of(r.1@) == with_status(statuses_view(statuses@), false),
{
    let ghost sv = statuses_view(statuses@);
    let mut working: Vec<(String, String)> = Vec::new();
    let mut failing: Vec<(String, String)> = Vec::new();
    let mut i: usize = 0;
    while i < statuses.len()
        invariant
            i <= statuses@.len(),
            sv == statuses_view(statuses@),
            pairs_of(working@) == with_status(sv.take(i as int), true),
            pairs_of(failing@) == with_status(sv.take(i as int), false),
        decreases statuses@.len() - i,
    {
        let e = &statuses[i];
        assert(sv.take(i + 1).drop_last() =~= sv.take(i as int));
        assert(sv.take(i + 1).last() == e@);
        let ghost w0 = working@;
        let ghost f0 = failing@;
        if same_text(e.status.as_str(), "OK") {
            working.push((e.model.clone(), e.status.clone()));
            assert(pairs_of(working@) =~= pairs_of(w0).push(e@));
        } else {
            failing.push((e.model.clone(), e.status.clone()));
            assert(pairs_of(failing@) =~= pairs_of(f0).push(e@));
        }
        i += 1;
    }
    assert(sv.take(statuses@.len() as int) =~= sv);
    (working, failing)
}

/// The order of `String`: lexicographic, characters compared by code point.
pub open spec fn text_lt(a: Seq<char>, b: Seq<char>) -> bool
    decreases a.len(),
{
    if b.len() == 0 {
        false
    } else if a.len() == 0 {
        true
    } else if a[0] != b[0] {
        (a[0] as u32) < (b[0] as u32)
    } else {
        text_lt(a.drop_first(), b.drop_first())
    }
}

/// The order of `(String, String)`: by the first text, then by the second.
pub open spec fn pair_le(a: (Seq<char>, Seq<char>), b: (Seq<char>, Seq<char>)) -> bool {
    text_lt(a.0, b.0) || (a.0 == b.0 && !text_lt(b.1, a.1))
}

pub open spec fn sorted_pairs(s: Seq<(Seq<char>, Seq<char>)>) -> bool {
    forall|i: int, j: int| 0 <= i < j < s.len() ==> pair_le(#[trigger] s[i], #[trigger] s[j])
}

/// Relies on `slice::sort` on `(String, String)`: the same pairs in ascending order, tuples compared field by
/// field and strings by their UTF-8 bytes, which orders characters by code point.
#[verifier::external_body]
fn sort_pairs(v: &mut Vec<(String, String)>)
    ensures
        pairs_of(final(v)@).to_multiset() == pairs_of(old(v)@).to_multiset(),
        sorted_pairs(pairs_of(final(v)@)),
{
    v.sort();
}

/// Lines joined by line breaks.
pub open spec fn joined_lines(lines: Seq<Seq<char>>) -> Seq<char>
    decreases lines.len(),
{
    if lines.len() == 0 {
        Seq::empty()
    } else if lines.len() == 1 {
        lines[0]
    } else {
        joined_lines(lines.drop_last()) + "\n"@ + lines.last()
    }
}

pub open spec fn working_line(p: (Seq<char>, Seq<char>)) -> Seq<char> {
    "  •  <code>"@ + p.0 + "</code>"@
}

pub open spec fn failing_line(p: (Seq<char>, Seq<char>)) -> Seq<char> {
    "  •  <code>"@ + p.0 + "</code> - "@ + p.1
}

/// The report lines of (model, status) pairs: with the status for failing models, without for working ones.
pub open spec fn lines_of(pairs: Seq<(Seq<char>, Seq<char>)>, failing: bool) -> Seq<Seq<char>> {
    pairs.map_values(|p: (Seq<char>, Seq<char>)| if failing { failing_line(p) } else { working_line(p) })
}

/// The availability report: its time stamp, the working models, then the failing ones with their status,
/// each block only where it has models.
pub open spec fn report_text(
    stamp: Seq<char>,
    working: Seq<(Seq<char>, Seq<char>)>,
    failing: Seq<(Seq<char>, Seq<char>)>,
) -> Seq<char> {
    let head = "<b>Отчёт о состоянии моделей от "@ + stamp + "</b>\n\n"@;
    let w = if working.len() > 0 {
        "<b>✅ Рабочие модели ("@ + decimal_digits(working.len()) + "):</b>\n"@ + joined_lines(lines_of(working, false))
    } else {
        Seq::empty()
    };
    let f = if failing.len() > 0 {
        "\n\n<b>❌ Нерабочие модели ("@ + decimal_digits(failing.len()) + "):</b>\n"@ + joined_lines(lines_of(failing, true))
    } else {
        Seq::empty()
    };
    head + w + f
}

fn append_lines(out: &mut String, pairs: &Vec<(String, String)>, with_status_text: bool)
    ensures
        final(out)@ == old(out)@ + joined_lines(lines_of(pairs_of(pairs@), with_status_text)),
{
    let ghost lines = lines_of(pairs_of(pairs@), with_status_text);
    let ghost start = out@;
    let mut i: usize = 0;
    while i < pairs.len()
        invariant
            i <= pairs@.len(),
            lines == lines_of(pairs_of(pairs@), with_status_text),
            out@ == start + joined_lines(lines.take(i as int)),
        decreases pairs@.len() - i,
    {
        let ghost before = out@;
        assert(lines.take(i + 1).drop_last() =~= lines.take(i as int));
        if i > 0 {
            out.append("\n");
        }
        out.append("  •  <code>");
        out.append(pairs[i].0.as_str());
        if with_status_text {
            out.append("</code> - ");
            out.append(pairs[i].1.as_str());
        } else {
            out.append("</code>");
        }
        assert(lines[i as int] == (if with_status_text { failing_line((pairs@[i as int].0@, pairs@[i as int].1@)) } else { working_line((pairs@[i as int].0@, pairs@[i as int].1@)) }));
        if i == 0 {
            assert(lines.take(1) =~= seq![lines[0]]);
            assert(out@ =~= start + joined_lines(lines.take(1)));
        } else {
            assert(out@ =~= start + joined_lines(lines.take(i + 1)));
        }
        i += 1;
    }
    assert(lines.take(pairs@.len() as int) =~= lines);
}

/// Renders the availability report from the working and failing (model, status) pairs, in the order given.
pub fn render_report(stamp: &str, working: &Vec<(String, String)>, failing: &Vec<(String, String)>) -> (r: String)
    ensures
        r@ == report_text(stamp@, pairs_of(working@), pairs_of(failing@)),
{
    let ghost wl = lines_of(pairs_of(working@), false);
    let ghost fl = lines_of(pairs_of(failing@), true);
    let mut out = String::from_str("<b>Отчёт о состоянии моделей от ");
    out.append(stamp);
    out.append("</b>\n\n");
    let ghost head = out@;
    if working.len() > 0 {
        out.append("<b>✅ Рабочие модели (");
        let n = decimal_text(working.len() as u64);
        out.append(n.as_str());
        out.append("):</b>\n");
        assert(pairs_of(working@).len() == working@.len());
        assert(n@ == decimal_digits(pairs_of(working@).len()));
        let ghost mid = out@;
        assert(mid =~= head + ("<b>✅ Рабочие модели ("@ + decimal_digits(pairs_of(working@).len()) + "):</b>\n"@));
        append_lines(&mut out, working, false);
        assert(out@ == mid + joined_lines(wl));
        assert(out@ =~= head + ("<b>✅ Рабочие модели ("@ + decimal_digits(pairs_of(working@).len()) + "):</b>\n"@ + joined_lines(wl)));
    } else {
        assert(out@ =~= head + Seq::<char>::empty());
    }
    let ghost after_working = out@;
    if failing.len() > 0 {
        out.append("\n\n<b>❌ Нерабочие модели (");
        let n = decimal_text(failing.len() as u64);
        out.append(n.as_str());
        out.append("):</b>\n");
        assert(pairs_of(failing@).len() == failing@.len());
        assert(n@ == decimal_digits(pairs_of(failing@).len()));
        let ghost mid = out@;
        assert(mid =~= after_working + ("\n\n<b>❌ Нерабочие модели ("@ + decimal_digits(pairs_of(failing@).len()) + "):</b>\n"@));
        append_lines(&mut out, failing, true);
        assert(out@ == mid + joined_lines(fl));
        assert(out@ =~= after_working + ("\n\n<b>❌ Нерабочие модели ("@ + decimal_digits(pairs_of(failing@).len()) + "):</b>\n"@ + joined_lines(fl)));
    } else {
        assert(out@ =~= after_working + Seq::<char>::empty());
    }
    assert(out@ =~= report_text(stamp@, pairs_of(working@), pairs_of(failing@)));
    out
}

/// The report of a sweep: working and failing models each sorted, whatever order the probes finished in.
pub fn sweep_report(stamp: &str, statuses: &Vec<ModelStatusInfo>) -> (r: String)
    ensures
        exists|w: Seq<(Seq<char>, Seq<char>)>, f: Seq<(Seq<char>, Seq<char>)>|
            sorted_pairs(w) && sorted_pairs(f) && w.to_multiset() == with_status(statuses_view(statuses@), true).to_multiset()
                && f.to_multiset() == with_status(statuses_view(statuses@), false).to_multiset()
                && r@ == #[trigger] report_text(stamp@, w, f),
{
    let (mut working, mut failing) = partition_statuses(statuses);
    sort_pairs(&mut working);
    sort_pairs(&mut failing);
    let r = render_report(stamp, &working, &failing);
    assert(r@ == report_text(stamp@, pairs_of(working@), pairs_of(failing@)));
    r
}


/// The (model, status) pairs serde_json reads from a stored snapshot into a `BTreeMap<String, String>`, in
/// key order; none where the text is not a JSON object of strings.
pub uninterp spec fn status_map_read(json: Seq<char>) -> Option<Seq<(Seq<char>, Seq<char>)>>;

/// The JSON text of the statuses made in two steps: the (model, status) pairs collected into a
/// `BTreeMap<&str, &str>` (a later pair for a model replacing an earlier one), then written by serde_json.
pub uninterp spec fn status_map_written(statuses: Seq<(Seq<char>, Seq<char>)>) -> Seq<char>;

/// Relies on `serde_json::from_str` into a `BTreeMap<String, String>`: the map it reads, if any.
#[verifier::external_body]
fn read_status_map(json: &str) -> (r: Option<Vec<(String, String)>>)
    ensures
        match r {
            Some(v) => status_map_read(json@) == Some(pairs_of(v@)),
            None => status_map_read(json@) is None,
        },
{
    serde_json::from_str::<std::collections::BTreeMap<String, String>>(json).ok().map(|m| m.into_iter().collect())
}

/// Relies on `serde_json::to_string` of a `BTreeMap<&str, &str>` of model to status: a JSON object, which
/// writing such a map cannot fail to give.
#[verifier::external_body]
fn write_status_map(statuses: &Vec<ModelStatusInfo>) -> (r: String)
    ensures
        r@ == status_map_written(statuses_view(statuses@)),
{
    let m: std::collections::BTreeMap<&str, &str> = statuses.iter().map(|s| (s.model.as_str(), s.status.as_str())).collect();
    serde_json::to_string(&m).unwrap_or_default()
}

/// Relies on chrono's `Utc::now` and `DateTime::timestamp`: the current time in seconds since the Unix epoch.
#[verifier::external_body]
fn now_seconds() -> (r: i64) {
    chrono::Utc::now().timestamp()
}

/// Relies on chrono's `Utc::now`, `FixedOffset::east_opt` and `format`: the current time at the given offset
/// from UTC, written with the given format. `east_opt` accepts any offset within a day, which `requires` asks.
/// A format chrono cannot read makes the writing fail, which gives `None` instead of a text.
#[verifier::external_body]
fn time_stamp_now(offset_secs: i32, format: &str) -> (r: Option<String>)
    requires
        -86400 < offset_secs < 86400,
{
    let zone = chrono::FixedOffset::east_opt(offset_secs).unwrap();
    let mut out = String::new();
    match write!(out, "{}", chrono::Utc::now().with_timezone(&zone).format(format)) {
        Ok(()) => Some(out),
        Err(_) => None,
    }
}

/// The offset of Moscow time from UTC, in seconds.
pub const MOSCOW_OFFSET: i32 = 10800;

/// The text stored as the status snapshot of a sweep.
pub fn status_snapshot(statuses: &Vec<ModelStatusInfo>) -> (r: String)
    ensures
        r@ == status_map_written(statuses_view(statuses@)),
{
    write_status_map(statuses)
}

/// The report of a sweep finished now, stamped with the current Moscow time.
pub fn sweep_report_now(statuses: &Vec<ModelStatusInfo>) -> (r: String)
    ensures
        exists|stamp: Seq<char>, w: Seq<(Seq<char>, Seq<char>)>, f: Seq<(Seq<char>, Seq<char>)>|
            sorted_pairs(w) && sorted_pairs(f) && w.to_multiset() == with_status(statuses_view(statuses@), true).to_multiset()
                && f.to_multiset() == with_status(statuses_view(statuses@), false).to_multiset()
                && r@ == #[trigger] report_text(stamp, w, f),
{
    let stamp = match time_stamp_now(MOSCOW_OFFSET, "%d.%m.%Y %H:%M:%S МСК") {
        Some(t) => t,
        None => String::new(),
    };
    sweep_report(stamp.as_str(), statuses)
}

/// What startup does about availability.
pub enum StartupDecision {
    /// Take these statuses and this report as they were stored.
    Adopt { statuses: Vec<ModelStatusInfo>, report: String },
    /// Run a full sweep.
    Sweep,
}

/// A stored snapshot: its JSON text and when it was stored.
pub struct StoredSnapshot {
    pub json: String,
    pub updated_at: i64,
}

/// Decides from a stored snapshot, already read, and the stored report: both stored, fresh at `now` and
/// readable means adopt them; anything else means sweep.
pub fn reconcile_read(
    parsed: Option<Vec<(String, String)>>,
    updated_at: i64,
    report: Option<String>,
    now: i64,
) -> (r: StartupDecision)
    ensures
        match r {
            StartupDecision::Adopt { statuses, report: adopted } => {
                &&& fresh(updated_at as int, now as int)
                &&& parsed matches Some(p) && statuses_view(statuses@) == pairs_of(p@)
                &&& report matches Some(t) && adopted@ == t@
            },
            StartupDecision::Sweep => !(fresh(updated_at as int, now as int) && parsed is Some && report is Some),
        },
{
    if !is_snapshot_fresh(updated_at, now) {
        return StartupDecision::Sweep;
    }
    match (parsed, report) {
        (Some(pairs), Some(text)) => {
            let ghost pv = pairs_of(pairs@);
            let mut statuses: Vec<ModelStatusInfo> = Vec::new();
            let mut i: usize = 0;
            while i < pairs.len()
                invariant
                    i <= pairs@.len(),
                    pv == pairs_of(pairs@),
                    statuses_view(statuses@) =~= pv.take(i as int),
                decreases pairs@.len() - i,
            {
                let ghost before = statuses@;
                statuses.push(ModelStatusInfo { model: pairs[i].0.clone(), status: pairs[i].1.clone() });
                assert(statuses_view(statuses@) =~= statuses_view(before).push(pv[i as int]));
                assert(pv.take(i + 1) =~= pv.take(i as int).push(pv[i as int]));
                i += 1;
            }
            assert(pv.take(pairs@.len() as int) =~= pv);
            StartupDecision::Adopt { statuses, report: text }
        },
        _ => StartupDecision::Sweep,
    }
}

/// Decides at startup from what storage holds: the status snapshot, if any, and the last report, if any.
pub fn reconcile(snapshot: Option<StoredSnapshot>, report: Option<String>, now: i64) -> (r: StartupDecision)
    ensures
        match r {
            StartupDecision::Adopt { statuses, report: adopted } => {
                &&& snapshot matches Some(s) && fresh(s.updated_at as int, now as int) && status_map_read(
                    s.json@,
                ) == Some(statuses_view(statuses@))
                &&& report matches Some(t) && adopted@ == t@
            },
            StartupDecision::Sweep => match snapshot {
                Some(s) => !(fresh(s.updated_at as int, now as int) && status_map_read(s.json@) is Some
                    && report is Some),
                None => true,
            },
        },
{
    match snapshot {
        None => StartupDecision::Sweep,
        Some(s) => {
            let parsed = read_status_map(s.json.as_str());
            reconcile_read(parsed, s.updated_at, report, now)
        },
    }
}

/// Decides at startup, as `reconcile` does, at the current time.
pub fn reconcile_now(snapshot: Option<StoredSnapshot>, report: Option<String>) -> (r: StartupDecision)
    ensures
        snapshot is None ==> r is Sweep,
        report is None ==> r is Sweep,
        match r {
            StartupDecision::Adopt { statuses, report: adopted } => {
                &&& snapshot matches Some(s) && status_map_read(s.json@) == Some(statuses_view(statuses@))
                &&& report matches Some(t) && adopted@ == t@
            },
            StartupDecision::Sweep => true,
        },
{
    let now = now_seconds();
    reconcile(snapshot, report, now)
}

} // verus!
