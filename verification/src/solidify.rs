//! The fifth layer: distils the reports of a day into the graph, and tells the
//! council what the graph holds.

use vstd::prelude::*;
use vstd::string::*;
use crate::error::{detailed, ErrorKind, NekoError};
use crate::llm::{parse_or_fallback, payload, read_gives, reads_all};
use crate::single::{show_with, shown_as, shows_all, Single};
use crate::text::{
    has_text, is_space, join, joined, law_something_is_left, lemma_has_trans, lemma_joined_has,
    lemma_joined_neighbours, lemma_occurs_between, texts, trim, trimmed,
};
use crate::types::{
    DetectiveReport, Event, GraphUpdate, LlmMessage, LlmRequest, LlmResponse, LlmRole, RelationKind,
    RelationshipChange, ResponseFormat,
};

verus! {

/// The settings of the layer.
#[derive(Debug, Clone, Copy, PartialEq, Eq, Structural)]
pub struct SolidifyConfig {
    /// How many reports are kept.
    pub report_buffer_limit: usize,
    pub llm_temperature: Single,
    pub llm_max_tokens: u32,
}

impl Default for SolidifyConfig {
    fn default() -> (res: Self)
        ensures
            res == (SolidifyConfig {
                report_buffer_limit: 100,
                llm_temperature: Single { bits: 0x3f33_3333 },
                llm_max_tokens: 1024,
            }),
    {
        SolidifyConfig {
            report_buffer_limit: 100,
            llm_temperature: Single { bits: 0x3f33_3333 },
            llm_max_tokens: 1024,
        }
    }
}

/// How a text is written between quotation marks, with escapes.
pub uninterp spec fn quoted(s: Seq<char>) -> Seq<char>;

/// A text between quotation marks, with escapes.
///
/// Stands for the `Debug` form of a text of the standard library; it is named,
/// not described.
#[verifier::external_body]
pub(crate) fn quote(s: &str) -> (res: String)
    ensures
        res@ == quoted(s@),
{
    format!("{:?}", s)
}

/// How a kind of relationship is written.
pub open spec fn kind_shown(kind: RelationKind) -> Seq<char> {
    match kind {
        RelationKind::Neutral => "Neutral"@,
        RelationKind::Tease => "Tease"@,
        RelationKind::Support => "Support"@,
        RelationKind::Conflict => "Conflict"@,
        RelationKind::Intimacy => "Intimacy"@,
        RelationKind::Other(name) => "Other("@ + quoted(name@) + ")"@,
    }
}

/// How a kind of relationship is written.
fn kind_text(kind: &RelationKind) -> (res: String)
    ensures
        res@ == kind_shown(*kind),
{
    match kind {
        RelationKind::Neutral => "Neutral".to_string(),
        RelationKind::Tease => "Tease".to_string(),
        RelationKind::Support => "Support".to_string(),
        RelationKind::Conflict => "Conflict".to_string(),
        RelationKind::Intimacy => "Intimacy".to_string(),
        RelationKind::Other(name) => "Other(".to_string().concat(
            quote(name.as_str()).as_str(),
        ).concat(")"),
    }
}

/// A change of a relationship on a line of its own, its size written as `delta`.
pub open spec fn change_line(c: RelationshipChange, delta: Seq<char>) -> Seq<char> {
    "- "@ + c.from@ + " -> "@ + c.to@ + " ("@ + kind_shown(c.kind) + ", delta "@ + delta + ")"@
}

/// The changes, one on each line, their sizes written as `deltas`.
pub open spec fn change_lines(changes: Seq<RelationshipChange>, deltas: Seq<Seq<char>>) -> Seq<
    char,
> {
    joined(Seq::new(changes.len(), |i: int| change_line(changes[i], deltas[i])), "\n"@)
}

/// `show` may write the sizes of `changes` as `deltas`.
pub open spec fn deltas_shown<G: Fn(Single) -> String>(
    show: G,
    changes: Seq<RelationshipChange>,
    deltas: Seq<Seq<char>>,
) -> bool {
    deltas.len() == changes.len() && forall|i: int|
        0 <= i < changes.len() ==> shown_as(show, changes[i].delta, #[trigger] deltas[i])
}

/// A report in the prompt.
pub open spec fn report_block(r: DetectiveReport, deltas: Seq<Seq<char>>) -> Seq<char> {
    "目标用户："@ + r.target_user@ + "\n总结："@ + r.summary@ + "\n关系变化：\n"@ + change_lines(
        r.relationship_changes@,
        deltas,
    )
}

/// The reports in the prompt.
pub open spec fn report_blocks(
    reports: Seq<DetectiveReport>,
    deltas: Seq<Seq<Seq<char>>>,
) -> Seq<char> {
    if reports.len() == 0 {
        "（无报告）"@
    } else {
        joined(Seq::new(reports.len(), |i: int| report_block(reports[i], deltas[i])), "\n\n"@)
    }
}

/// The prompt up to the reports.
pub const PROMPT_REPORTS: &'static str =
    "你是深夜固化中心。请将以下侦探报告 batch 转换为 Neo4j Cypher 更新语句。\n\
     \n\
     规则：\n\
     1. 每个 GraphUpdate 必须包含一条可执行的 Cypher 语句和可选参数。\n\
     2. 使用 MERGE 保证幂等性，避免重复创建节点。\n\
     3. 节点标签统一为 User，关系类型使用大写（如 TEASE、SUPPORT、CONFLICT）。\n\
     4. 只输出 JSON，不要解释。\n\
     \n\
     侦探报告：\n";

/// The rest of the prompt.
pub const PROMPT_REST: &'static str = "\n\
     \n\
     输出 JSON 格式：\n\
     {\n\
     \"updates\": [\n\
     {\n\
     \"cypher\": \"MERGE (a:User {id: $from}) MERGE (b:User {id: $to}) MERGE (a)-[r:TEASE]->(b) SET r.delta = COALESCE(r.delta, 0) + $delta\",\n\
     \"params\": {\"from\": \"user_a\", \"to\": \"user_b\", \"delta\": -0.1}\n\
     }\n\
     ]\n\
     }";

/// `text` is the prompt for `reports`, with numbers written by `show`.
pub open spec fn is_prompt<G: Fn(Single) -> String>(
    show: G,
    reports: Seq<DetectiveReport>,
    text: Seq<char>,
) -> bool {
    exists|deltas: Seq<Seq<Seq<char>>>|
        {
            &&& deltas.len() == reports.len()
            &&& forall|i: int|
                0 <= i < reports.len() ==> deltas_shown(
                    show,
                    reports[i].relationship_changes@,
                    #[trigger] deltas[i],
                )
            &&& text == PROMPT_REPORTS@ + #[trigger] report_blocks(reports, deltas) + PROMPT_REST@
        }
}

/// The changes of a report, one on each line.
fn changes_text<G: Fn(Single) -> String>(changes: &Vec<RelationshipChange>, show: &G) -> (res: (
    String,
    Ghost<Seq<Seq<char>>>,
))
    requires
        shows_all(*show),
    ensures
        deltas_shown(*show, changes@, res.1@),
        res.0@ == change_lines(changes@, res.1@),
{
    let ghost mut deltas: Seq<Seq<char>> = Seq::empty();
    let mut lines: Vec<String> = Vec::new();
    let mut i: usize = 0;
    while i < changes.len()
        invariant
            0 <= i <= changes@.len(),
            shows_all(*show),
            deltas.len() == i,
            lines@.len() == i,
            forall|k: int|
                0 <= k < i ==> shown_as(*show, changes@[k].delta, #[trigger] deltas[k]),
            forall|k: int|
                0 <= k < i ==> (#[trigger] lines@[k])@ == change_line(changes@[k], deltas[k]),
        decreases changes@.len() - i,
    {
        let c: &RelationshipChange = &changes[i];
        let delta: String = show_with(show, c.delta);
        let line: String = "- ".to_string().concat(c.from.as_str()).concat(" -> ").concat(
            c.to.as_str(),
        ).concat(" (").concat(kind_text(&c.kind).as_str()).concat(", delta ").concat(
            delta.as_str(),
        ).concat(")");
        lines.push(line);
        proof {
            deltas = deltas.push(delta@);
        }
        i = i + 1;
    }
    assert(texts(lines@) =~= Seq::new(
        changes@.len(),
        |i: int| change_line(changes@[i], deltas[i]),
    ));
    (join(&lines, "\n"), Ghost(deltas))
}

/// Builds the prompt that asks for updates of the graph. Numbers are written
/// by `show`.
pub fn solidify_prompt<G: Fn(Single) -> String>(reports: &Vec<DetectiveReport>, show: &G) -> (res:
    String)
    requires
        shows_all(*show),
    ensures
        is_prompt(*show, reports@, res@),
{
    let ghost mut deltas: Seq<Seq<Seq<char>>> = Seq::empty();
    let mut blocks: Vec<String> = Vec::new();
    let mut i: usize = 0;
    while i < reports.len()
        invariant
            0 <= i <= reports@.len(),
            shows_all(*show),
            deltas.len() == i,
            blocks@.len() == i,
            forall|k: int|
                0 <= k < i ==> deltas_shown(
                    *show,
                    reports@[k].relationship_changes@,
                    #[trigger] deltas[k],
                ),
            forall|k: int|
                0 <= k < i ==> (#[trigger] blocks@[k])@ == report_block(reports@[k], deltas[k]),
        decreases reports@.len() - i,
    {
        let r: &DetectiveReport = &reports[i];
        let (changes, Ghost(shown)) = changes_text(&r.relationship_changes, show);
        let block: String = "目标用户：".to_string().concat(r.target_user.as_str()).concat(
            "\n总结：",
        ).concat(r.summary.as_str()).concat("\n关系变化：\n").concat(changes.as_str());
        blocks.push(block);
        proof {
            deltas = deltas.push(shown);
        }
        i = i + 1;
    }
    let body: String = if reports.len() == 0 {
        "（无报告）".to_string()
    } else {
        join(&blocks, "\n\n")
    };
    proof {
        assert(texts(blocks@) =~= Seq::new(
            reports@.len(),
            |i: int| report_block(reports@[i], deltas[i]),
        ));
        assert(body@ == report_blocks(reports@, deltas));
    }
    PROMPT_REPORTS.to_string().concat(body.as_str()).concat(PROMPT_REST)
}

/// `res` are the updates in the answer `raw`, read by `read`.
pub open spec fn updates_read<F: Fn(&str) -> Result<Vec<GraphUpdate>, String>>(
    read: F,
    raw: Seq<char>,
    res: Result<Vec<GraphUpdate>, NekoError>,
) -> bool {
    exists|got: Result<Vec<GraphUpdate>, String>|
        {
            &&& #[trigger] read_gives(read, payload(raw), got)
            &&& match got {
                Ok(updates) => res == Ok::<Vec<GraphUpdate>, NekoError>(updates),
                Err(m) => res matches Err(e) && e.says(
                    ErrorKind::Parse,
                    "cannot parse solidify updates: "@ + m@,
                ),
            }
        }
}

/// Reads the updates in a model's answer.
pub fn parse_solidify_updates<F: Fn(&str) -> Result<Vec<GraphUpdate>, String>>(
    raw: &str,
    read: &F,
) -> (res: Result<Vec<GraphUpdate>, NekoError>)
    requires
        reads_all(*read),
    ensures
        updates_read(*read, raw@, res),
{
    match parse_or_fallback(raw, read) {
        Ok(updates) => Ok(updates),
        Err((m, _)) => Err(detailed(ErrorKind::Parse, "cannot parse solidify updates: ", m.as_str())),
    }
}

/// How many relationships the council is told of.
pub const SUMMARY_LIMIT: usize = 20;

/// What the council is told, given a summary of the graph.
pub open spec fn daily_text(summary: Seq<char>) -> Seq<char> {
    "以下为昨夜固化的长期关系记忆（按强度排序）：\n"@ + if trimmed(summary).len() == 0 {
        "（暂无关系记录）"@
    } else {
        trimmed(summary)
    }
}

/// What the council is told, given a summary of the graph.
pub fn daily_context(summary: &str) -> (res: String)
    ensures
        res@ == daily_text(summary@),
{
    let text: String = trim(summary);
    let mut res: String = "以下为昨夜固化的长期关系记忆（按强度排序）：\n".to_string();
    if text.as_str().unicode_len() == 0 {
        res.append("（暂无关系记录）");
    } else {
        res.append(text.as_str());
    }
    res
}

/// The first `n` of `s`, or all of it where it is shorter.
pub open spec fn up_to(s: Seq<DetectiveReport>, n: int) -> Seq<DetectiveReport> {
    if s.len() <= n {
        s
    } else {
        s.take(n)
    }
}

/// The reports after one more, where `limit` are kept: the oldest makes room.
pub open spec fn with_report(
    reports: Seq<DetectiveReport>,
    report: DetectiveReport,
    limit: int,
) -> Seq<DetectiveReport> {
    if reports.len() < limit {
        reports.push(report)
    } else {
        reports.drop_first().push(report)
    }
}

/// The report was taken up; where there was no room, the oldest made it.
pub open spec fn collected(
    before: SolidifyActor,
    report: DetectiveReport,
    after: SolidifyActor,
) -> bool {
    &&& after.settings() == before.settings()
    &&& after.reports() == with_report(
        before.reports(),
        report,
        before.settings().report_buffer_limit as int,
    )
}

/// What an event asks of the layer.
#[derive(Debug)]
pub enum SolidifyTask {
    /// Take up a report.
    Collect(DetectiveReport),
    /// Distil the reports.
    Tick,
    Nothing,
}

/// What an event asks of the layer: it collects reports, and distils them on
/// the tick.
pub open spec fn task_of(event: Event) -> SolidifyTask {
    match event {
        Event::DetectiveReport(report) => SolidifyTask::Collect(report),
        Event::SolidifyTick => SolidifyTask::Tick,
        _ => SolidifyTask::Nothing,
    }
}

/// What an event asks of the layer.
pub fn solidify_task(event: Event) -> (res: SolidifyTask)
    ensures
        res == task_of(event),
{
    match event {
        Event::DetectiveReport(report) => SolidifyTask::Collect(report),
        Event::SolidifyTick => SolidifyTask::Tick,
        _ => SolidifyTask::Nothing,
    }
}

/// What a tick does next.
#[derive(Debug)]
pub enum TickStep {
    /// Ask the model about the reports.
    Ask(Vec<DetectiveReport>, LlmRequest),
    /// Apply the updates to the graph.
    Apply(Vec<GraphUpdate>),
    /// Get a summary of so many relationships from the graph.
    Summarise(usize),
    /// Send the event; the tick has ended.
    Send(Event),
    /// The tick has ended.
    End,
    /// The tick has failed.
    Fail(NekoError),
}

/// A tick begins: all reports are taken, and the model is asked about them;
/// without reports there is nothing to do.
pub open spec fn begun<G: Fn(Single) -> String>(
    show: G,
    before: SolidifyActor,
    after: SolidifyActor,
    step: TickStep,
) -> bool {
    &&& after.settings() == before.settings()
    &&& after.reports().len() == 0
    &&& if before.reports().len() == 0 {
        step == TickStep::End
    } else {
        step matches TickStep::Ask(reports, request) && reports@ == before.reports() && asks_about(
            show,
            before.settings(),
            reports@,
            request,
        )
    }
}

/// `request` asks the model about `reports`.
pub open spec fn asks_about<G: Fn(Single) -> String>(
    show: G,
    c: SolidifyConfig,
    reports: Seq<DetectiveReport>,
    request: LlmRequest,
) -> bool {
    &&& request.messages@.len() == 1
    &&& request.messages@[0].role == LlmRole::User
    &&& is_prompt(show, reports, request.messages@[0].content@)
    &&& request.temperature == c.llm_temperature
    &&& request.max_tokens == Some(c.llm_max_tokens)
    &&& request.response_format == Some(ResponseFormat::JsonObject)
}

/// The model has answered on `reports`. Where it failed, the reports are taken
/// up again as far as there is room, and the tick ends. Otherwise the updates in
/// the answer are applied, if there are any; an answer that cannot be read
/// fails the tick.
pub open spec fn answered<F: Fn(&str) -> Result<Vec<GraphUpdate>, String>>(
    read: F,
    before: SolidifyActor,
    reports: Seq<DetectiveReport>,
    answer: Result<LlmResponse, NekoError>,
    after: SolidifyActor,
    step: TickStep,
) -> bool {
    &&& after.settings() == before.settings()
    &&& match answer {
        Err(_) => {
            &&& after.reports() == before.reports() + up_to(
                reports,
                before.settings().report_buffer_limit - before.reports().len(),
            )
            &&& step == TickStep::End
        },
        Ok(resp) => {
            &&& after.reports() == before.reports()
            &&& exists|res: Result<Vec<GraphUpdate>, NekoError>| #[trigger]
                updates_read(read, resp.content@, res) && step == step_for(res)
        },
    }
}

/// What is done with the updates that were read.
pub open spec fn step_for(res: Result<Vec<GraphUpdate>, NekoError>) -> TickStep {
    match res {
        Ok(updates) => if updates@.len() == 0 {
            TickStep::End
        } else {
            TickStep::Apply(updates)
        },
        Err(e) => TickStep::Fail(e),
    }
}

/// What follows the updates of the graph: only where they were applied is a
/// summary made.
pub open spec fn step_after_apply(applied: Result<(), NekoError>) -> TickStep {
    match applied {
        Ok(_) => TickStep::Summarise(SUMMARY_LIMIT),
        Err(e) => TickStep::Fail(e),
    }
}

/// What follows the updates of the graph.
pub fn after_apply(applied: Result<(), NekoError>) -> (res: TickStep)
    ensures
        res == step_after_apply(applied),
{
    match applied {
        Ok(_) => TickStep::Summarise(SUMMARY_LIMIT),
        Err(e) => TickStep::Fail(e),
    }
}

/// `step` is what follows the summary of the graph: the council is told of it.
pub open spec fn tells(summary: Result<String, NekoError>, step: TickStep) -> bool {
    match summary {
        Ok(text) => step matches TickStep::Send(Event::DailyContext(told)) && told@ == daily_text(
            text@,
        ),
        Err(e) => step == TickStep::Fail(e),
    }
}

/// What follows the summary of the graph.
pub fn after_summary(summary: Result<String, NekoError>) -> (res: TickStep)
    ensures
        tells(summary, res),
{
    match summary {
        Ok(text) => TickStep::Send(Event::DailyContext(daily_context(text.as_str()))),
        Err(e) => TickStep::Fail(e),
    }
}

/// `steps` are those that a tick takes from the answer on `reports` on, where
/// the graph gives `applied` and `summary`.
pub open spec fn tick_run<F: Fn(&str) -> Result<Vec<GraphUpdate>, String>>(
    read: F,
    before: SolidifyActor,
    reports: Seq<DetectiveReport>,
    answer: Result<LlmResponse, NekoError>,
    applied: Result<(), NekoError>,
    summary: Result<String, NekoError>,
    after: SolidifyActor,
    steps: Seq<TickStep>,
) -> bool {
    &&& steps.len() > 0
    &&& answered(read, before, reports, answer, after, steps[0])
    &&& if steps[0] is Apply {
        &&& steps.len() > 1
        &&& steps[1] == step_after_apply(applied)
        &&& if steps[1] is Summarise {
            steps.len() == 3 && tells(summary, steps[2])
        } else {
            steps.len() == 2
        }
    } else {
        steps.len() == 1
    }
}

/// Collects reports until they are distilled.
pub struct SolidifyActor {
    config: SolidifyConfig,
    buffer: Vec<DetectiveReport>,
}

impl SolidifyActor {
    /// The settings.
    pub closed spec fn settings(self) -> SolidifyConfig {
        self.config
    }

    /// The reports, from the oldest to the latest.
    pub closed spec fn reports(self) -> Seq<DetectiveReport> {
        self.buffer@
    }

    /// There is room for a report, and no more reports than there is room for.
    pub open spec fn wf(self) -> bool {
        self.settings().report_buffer_limit > 0 && self.reports().len()
            <= self.settings().report_buffer_limit
    }

    /// A layer without reports.
    pub fn new(config: SolidifyConfig) -> (res: Self)
        requires
            config.report_buffer_limit > 0,
        ensures
            res.wf(),
            res.settings() == config,
            res.reports().len() == 0,
    {
        SolidifyActor { config, buffer: Vec::new() }
    }

    /// Takes up a report. Where there is no room, the oldest is dropped.
    pub fn take_report(&mut self, report: DetectiveReport)
        requires
            old(self).wf(),
        ensures
            final(self).wf(),
            collected(*old(self), report, *final(self)),
    {
        if self.buffer.len() < self.config.report_buffer_limit {
            self.buffer.push(report);
        } else {
            let _oldest: DetectiveReport = self.buffer.remove(0);
            self.buffer.push(report);
            assert(self.reports() =~= old(self).reports().drop_first().push(report));
        }
    }

    /// Takes the reports that are to be distilled, if there are any.
    pub fn take_reports(&mut self) -> (res: Option<Vec<DetectiveReport>>)
        requires
            old(self).wf(),
        ensures
            final(self).wf(),
            final(self).settings() == old(self).settings(),
            final(self).reports().len() == 0,
            match res {
                Some(reports) => reports@ == old(self).reports() && reports@.len() > 0,
                None => old(self).reports().len() == 0,
            },
    {
        if self.buffer.len() == 0 {
            return None;
        }
        let mut reports: Vec<DetectiveReport> = Vec::new();
        reports.append(&mut self.buffer);
        assert(reports@ =~= old(self).reports());
        Some(reports)
    }

    /// The request to the model for reports.
    pub fn solidify_request<G: Fn(Single) -> String>(
        &self,
        reports: &Vec<DetectiveReport>,
        show: &G,
    ) -> (res: LlmRequest)
        requires
            shows_all(*show),
        ensures
            asks_about(*show, self.settings(), reports@, res),
    {
        let prompt: String = solidify_prompt(reports, show);
        let mut messages: Vec<LlmMessage> = Vec::new();
        messages.push(LlmMessage { role: LlmRole::User, content: prompt });
        LlmRequest {
            messages,
            temperature: self.config.llm_temperature,
            max_tokens: Some(self.config.llm_max_tokens),
            response_format: Some(ResponseFormat::JsonObject),
        }
    }

    /// Begins a tick. Numbers are written by `show`.
    pub fn begin_tick<G: Fn(Single) -> String>(&mut self, show: &G) -> (res: TickStep)
        requires
            old(self).wf(),
            shows_all(*show),
        ensures
            final(self).wf(),
            begun(*show, *old(self), *final(self), res),
    {
        match self.take_reports() {
            Some(reports) => {
                let request: LlmRequest = self.solidify_request(&reports, show);
                TickStep::Ask(reports, request)
            },
            None => TickStep::End,
        }
    }

    /// Goes on with a tick when the model has answered on `reports`.
    pub fn on_answer<F: Fn(&str) -> Result<Vec<GraphUpdate>, String>>(
        &mut self,
        reports: Vec<DetectiveReport>,
        answer: Result<LlmResponse, NekoError>,
        read: &F,
    ) -> (res: TickStep)
        requires
            old(self).wf(),
            reads_all(*read),
        ensures
            final(self).wf(),
            answered(*read, *old(self), reports@, answer, *final(self), res),
    {
        let got: Result<Vec<GraphUpdate>, NekoError> = self.on_solidify_answer(
            reports,
            answer,
            read,
        );
        assert(answer matches Ok(resp) ==> updates_read(*read, resp.content@, got));
        match got {
            Ok(updates) => {
                if updates.len() == 0 {
                    TickStep::End
                } else {
                    TickStep::Apply(updates)
                }
            },
            Err(e) => TickStep::Fail(e),
        }
    }

    /// Takes in the model's answer on `reports`; gives the updates to apply.
    /// Where the model failed, the reports are taken up again as far as there
    /// is room, and there are no updates; an answer that cannot be read is an
    /// error.
    pub fn on_solidify_answer<F: Fn(&str) -> Result<Vec<GraphUpdate>, String>>(
        &mut self,
        reports: Vec<DetectiveReport>,
        answer: Result<LlmResponse, NekoError>,
        read: &F,
    ) -> (res: Result<Vec<GraphUpdate>, NekoError>)
        requires
            old(self).wf(),
            reads_all(*read),
        ensures
            final(self).wf(),
            final(self).settings() == old(self).settings(),
            match answer {
                Err(_) => {
                    &&& final(self).reports() == old(self).reports() + up_to(
                        reports@,
                        old(self).settings().report_buffer_limit - old(self).reports().len(),
                    )
                    &&& res matches Ok(updates) && updates@.len() == 0
                },
                Ok(resp) => final(self).reports() == old(self).reports() && updates_read(
                    *read,
                    resp.content@,
                    res,
                ),
            },
    {
        match answer {
            Ok(resp) => parse_solidify_updates(resp.content.as_str(), read),
            Err(_) => {
                let remaining: usize = self.config.report_buffer_limit - self.buffer.len();
                let mut back: Vec<DetectiveReport> = reports;
                if back.len() > remaining {
                    back.truncate(remaining);
                }
                assert(back@ =~= up_to(reports@, remaining as int));
                self.buffer.append(&mut back);
                assert(self.reports() =~= old(self).reports() + up_to(
                    reports@,
                    remaining as int,
                ));
                Ok(Vec::new())
            },
        }
    }
}

/// Where the model fails, the tick does nothing to the graph and tells the
/// council nothing. Where no report came in meanwhile, none is lost: what was
/// taken is taken up again in the same order, and the next tick asks the model
/// about it again.
pub proof fn law_failed_tick_is_repeated<
    G: Fn(Single) -> String,
    F: Fn(&str) -> Result<Vec<GraphUpdate>, String>,
>(
    show: G,
    read: F,
    first: SolidifyActor,
    second: SolidifyActor,
    third: SolidifyActor,
    fourth: SolidifyActor,
    begin: TickStep,
    answer: Result<LlmResponse, NekoError>,
    applied: Result<(), NekoError>,
    summary: Result<String, NekoError>,
    steps: Seq<TickStep>,
    again: TickStep,
)
    requires
        first.wf(),
        begun(show, first, second, begin),
        begin matches TickStep::Ask(reports, _) && tick_run(
            read,
            second,
            reports@,
            answer,
            applied,
            summary,
            third,
            steps,
        ),
        answer is Err,
        begun(show, third, fourth, again),
    ensures
        steps == seq![TickStep::End],
        third.reports() == first.reports(),
        again matches TickStep::Ask(reports, request) && reports@ == first.reports() && asks_about(
            show,
            first.settings(),
            first.reports(),
            request,
        ),
{
    assert(steps =~= seq![TickStep::End]);
    assert(third.reports() =~= first.reports());
}

/// Where the model answers, the updates that it gives are applied once. Only
/// where that succeeds, and a summary of the graph could be made, is the council
/// told of it, once and at the end; an error of the graph, or an answer that
/// cannot be read, fails the tick. Where there are no updates nothing is done.
pub proof fn law_tick_applies_updates<F: Fn(&str) -> Result<Vec<GraphUpdate>, String>>(
    read: F,
    before: SolidifyActor,
    reports: Seq<DetectiveReport>,
    response: LlmResponse,
    applied: Result<(), NekoError>,
    summary: Result<String, NekoError>,
    after: SolidifyActor,
    steps: Seq<TickStep>,
)
    requires
        tick_run(
            read,
            before,
            reports,
            Ok::<LlmResponse, NekoError>(response),
            applied,
            summary,
            after,
            steps,
        ),
    ensures
        after.reports() == before.reports(),
        exists|got: Result<Vec<GraphUpdate>, String>|
            {
                &&& #[trigger] read_gives(read, payload(response.content@), got)
                &&& match got {
                    Ok(updates) => if updates@.len() == 0 {
                        steps == seq![TickStep::End]
                    } else {
                        &&& steps[0] == TickStep::Apply(updates)
                        &&& match (applied, summary) {
                            (Ok(_), Ok(text)) => {
                                &&& steps.len() == 3
                                &&& steps[1] == TickStep::Summarise(SUMMARY_LIMIT)
                                &&& steps[2] matches TickStep::Send(Event::DailyContext(told))
                                    && told@ == daily_text(text@)
                            },
                            (Ok(_), Err(e)) => {
                                &&& steps.len() == 3
                                &&& steps[1] == TickStep::Summarise(SUMMARY_LIMIT)
                                &&& steps[2] == TickStep::Fail(e)
                            },
                            (Err(e), _) => steps.len() == 2 && steps[1] == TickStep::Fail(e),
                        }
                    },
                    Err(m) => {
                        &&& steps.len() == 1
                        &&& steps[0] matches TickStep::Fail(e) && e.says(
                            ErrorKind::Parse,
                            "cannot parse solidify updates: "@ + m@,
                        )
                    },
                }
            },
{
    let res = choose|res: Result<Vec<GraphUpdate>, NekoError>| #[trigger]
        updates_read(read, response.content@, res) && steps[0] == step_for(res);
    if steps[0] == TickStep::End {
        assert(steps =~= seq![TickStep::End]);
    }
}

/// The latest report is always kept, and there are never more reports than
/// there is room for.
pub proof fn law_latest_report_is_kept(
    reports: Seq<DetectiveReport>,
    report: DetectiveReport,
    limit: int,
)
    requires
        limit > 0,
        reports.len() <= limit,
    ensures
        with_report(reports, report, limit).last() == report,
        with_report(reports, report, limit).len() <= limit,
        reports.len() == limit ==> with_report(reports, report, limit).len() == limit,
{
}

/// Every report reaches the model, in order: whom it is about, what it says, and
/// every change of a relationship that it found, from whom, to whom, of what kind
/// and how large.
pub proof fn law_reports_reach_model<G: Fn(Single) -> String>(
    show: G,
    reports: Seq<DetectiveReport>,
    text: Seq<char>,
)
    requires
        is_prompt(show, reports, text),
    ensures
        forall|i: int|
            0 <= i < reports.len() ==> has_text(
                text,
                "目标用户："@ + (#[trigger] reports[i]).target_user@ + "\n总结："@ + reports[i].summary@
                    + "\n关系变化：\n"@,
            ),
        forall|i: int, j: int|
            0 <= i < reports.len() && 0 <= j < reports[i].relationship_changes@.len()
                ==> change_told(show, #[trigger] reports[i].relationship_changes@[j], text),
        reports.len() == 0 ==> has_text(text, "（无报告）"@),
{
    let deltas = choose|deltas: Seq<Seq<Seq<char>>>|
        {
            &&& deltas.len() == reports.len()
            &&& forall|i: int|
                0 <= i < reports.len() ==> deltas_shown(
                    show,
                    reports[i].relationship_changes@,
                    #[trigger] deltas[i],
                )
            &&& text == PROMPT_REPORTS@ + #[trigger] report_blocks(reports, deltas) + PROMPT_REST@
        };
    let body = report_blocks(reports, deltas);
    lemma_occurs_between(PROMPT_REPORTS@, body, PROMPT_REST@);
    let parts = Seq::new(reports.len(), |i: int| report_block(reports[i], deltas[i]));
    assert forall|i: int| 0 <= i < reports.len() implies has_text(
        text,
        "目标用户："@ + (#[trigger] reports[i]).target_user@ + "\n总结："@ + reports[i].summary@
            + "\n关系变化：\n"@,
    ) by {
        lemma_joined_has(parts, "\n\n"@, parts.len() as int, i);
        lemma_has_trans(text, body, parts[i]);
        lemma_block_head(reports[i], deltas[i]);
        lemma_has_trans(
            text,
            parts[i],
            "目标用户："@ + reports[i].target_user@ + "\n总结："@ + reports[i].summary@
                + "\n关系变化：\n"@,
        );
    }
    assert forall|i: int, j: int|
        0 <= i < reports.len() && 0 <= j
            < reports[i].relationship_changes@.len() implies change_told(
        show,
        #[trigger] reports[i].relationship_changes@[j],
        text,
    ) by {
        lemma_joined_has(parts, "\n\n"@, parts.len() as int, i);
        lemma_has_trans(text, body, parts[i]);
        assert(deltas_shown(show, reports[i].relationship_changes@, deltas[i]));
        lemma_block_change(reports[i], deltas[i], j);
        let c = reports[i].relationship_changes@[j];
        lemma_has_trans(text, parts[i], change_line(c, deltas[i][j]));
        assert(shown_as(show, c.delta, deltas[i][j]));
    }
}

/// The text tells of a change, with its size written by `show`.
pub open spec fn change_told<G: Fn(Single) -> String>(
    show: G,
    c: RelationshipChange,
    text: Seq<char>,
) -> bool {
    exists|delta: Seq<char>| #[trigger]
        shown_as(show, c.delta, delta) && has_text(
            text,
            "- "@ + c.from@ + " -> "@ + c.to@ + " ("@ + kind_shown(c.kind) + ", delta "@ + delta
                + ")"@,
        )
}

proof fn lemma_block_head(r: DetectiveReport, deltas: Seq<Seq<char>>)
    ensures
        has_text(
            report_block(r, deltas),
            "目标用户："@ + r.target_user@ + "\n总结："@ + r.summary@ + "\n关系变化：\n"@,
        ),
{
    let head = "目标用户："@ + r.target_user@ + "\n总结："@ + r.summary@ + "\n关系变化：\n"@;
    let lines = change_lines(r.relationship_changes@, deltas);
    assert(report_block(r, deltas) =~= Seq::<char>::empty() + head + lines);
    lemma_occurs_between(Seq::empty(), head, lines);
}

proof fn lemma_block_change(r: DetectiveReport, deltas: Seq<Seq<char>>, j: int)
    requires
        0 <= j < r.relationship_changes@.len(),
    ensures
        has_text(report_block(r, deltas), change_line(r.relationship_changes@[j], deltas[j])),
{
    let changes = r.relationship_changes@;
    let head = "目标用户："@ + r.target_user@ + "\n总结："@ + r.summary@ + "\n关系变化：\n"@;
    let lines = change_lines(changes, deltas);
    let parts = Seq::new(changes.len(), |i: int| change_line(changes[i], deltas[i]));
    lemma_joined_has(parts, "\n"@, parts.len() as int, j);
    assert(report_block(r, deltas) =~= head + lines + Seq::<char>::empty());
    lemma_occurs_between(head, lines, Seq::empty());
    lemma_has_trans(report_block(r, deltas), lines, parts[j]);
}

/// The model is told one report after the other, with an empty line between them.
pub proof fn law_reports_keep_their_order<G: Fn(Single) -> String>(
    show: G,
    reports: Seq<DetectiveReport>,
    text: Seq<char>,
    i: int,
)
    requires
        is_prompt(show, reports, text),
        0 <= i,
        i + 1 < reports.len(),
    ensures
        exists|lines: Seq<char>| #[trigger]
            told_in_turn(text, reports[i], lines, reports[i + 1]),
{
    let deltas = choose|deltas: Seq<Seq<Seq<char>>>|
        {
            &&& deltas.len() == reports.len()
            &&& forall|i: int|
                0 <= i < reports.len() ==> deltas_shown(
                    show,
                    reports[i].relationship_changes@,
                    #[trigger] deltas[i],
                )
            &&& text == PROMPT_REPORTS@ + #[trigger] report_blocks(reports, deltas) + PROMPT_REST@
        };
    let body = report_blocks(reports, deltas);
    lemma_occurs_between(PROMPT_REPORTS@, body, PROMPT_REST@);
    let parts = Seq::new(reports.len(), |i: int| report_block(reports[i], deltas[i]));
    lemma_joined_neighbours(parts, "\n\n"@, parts.len() as int, i);
    let pair = parts[i] + "\n\n"@ + parts[i + 1];
    lemma_has_trans(text, body, pair);
    let lines = change_lines(reports[i].relationship_changes@, deltas[i]);
    let mid = "\n总结："@ + reports[i].summary@ + "\n关系变化：\n"@ + lines + "\n\n目标用户："@
        + reports[i + 1].target_user@;
    assert("\n\n"@ + "目标用户："@ =~= "\n\n目标用户："@) by {
        reveal_strlit("\n\n");
        reveal_strlit("目标用户：");
        reveal_strlit("\n\n目标用户：");
    }
    let tail = "\n总结："@ + reports[i + 1].summary@ + "\n关系变化：\n"@ + change_lines(
        reports[i + 1].relationship_changes@,
        deltas[i + 1],
    );
    assert(pair =~= ("目标用户："@ + reports[i].target_user@) + mid + tail);
    lemma_occurs_between("目标用户："@ + reports[i].target_user@, mid, tail);
    lemma_has_trans(text, pair, mid);
    assert(told_in_turn(text, reports[i], lines, reports[i + 1]));
}

/// The text tells of `a`, with the changes in `lines`, and right behind it of `b`.
pub open spec fn told_in_turn(
    text: Seq<char>,
    a: DetectiveReport,
    lines: Seq<char>,
    b: DetectiveReport,
) -> bool {
    has_text(
        text,
        "\n总结："@ + a.summary@ + "\n关系变化：\n"@ + lines + "\n\n目标用户："@ + b.target_user@,
    )
}

/// While there is room, no report is lost; where there is none, the oldest goes, the
/// others keep their order, and the new one is the last.
pub proof fn law_reports_are_kept_in_order(
    reports: Seq<DetectiveReport>,
    report: DetectiveReport,
    limit: int,
    i: int,
)
    requires
        limit > 0,
        reports.len() <= limit,
        0 <= i < reports.len(),
    ensures
        reports.len() < limit ==> with_report(reports, report, limit)[i] == reports[i],
        reports.len() == limit && i > 0 ==> with_report(reports, report, limit)[i - 1]
            == reports[i],
        with_report(reports, report, limit).last() == report,
        with_report(reports, report, limit).len() == if reports.len() < limit {
            reports.len() + 1
        } else {
            reports.len()
        },
{
}

/// Where the model fails, the reports come back behind those that came in meanwhile,
/// from the oldest on, as many as there is room for.
pub proof fn law_reports_come_back<F: Fn(&str) -> Result<Vec<GraphUpdate>, String>>(
    read: F,
    before: SolidifyActor,
    reports: Seq<DetectiveReport>,
    error: NekoError,
    after: SolidifyActor,
    step: TickStep,
)
    requires
        before.wf(),
        answered(read, before, reports, Err::<LlmResponse, NekoError>(error), after, step),
    ensures
        step is End,
        forall|i: int|
            0 <= i < before.reports().len() ==> #[trigger] after.reports()[i]
                == before.reports()[i],
        before.reports().len() + reports.len() <= before.settings().report_buffer_limit
            ==> after.reports().len() == before.reports().len() + reports.len(),
        before.reports().len() + reports.len() > before.settings().report_buffer_limit
            ==> after.reports().len() == before.settings().report_buffer_limit,
        forall|i: int|
            before.reports().len() <= i < after.reports().len() ==> #[trigger] after.reports()[i]
                == reports[i - before.reports().len()],
{
}

/// The council is told what the graph holds, under a heading, without white space
/// around it; where there is nothing, it is told so.
pub proof fn law_council_is_told_the_summary(
    summary: Seq<char>,
    step: TickStep,
    given: String,
)
    requires
        given@ == summary,
        tells(Ok::<String, NekoError>(given), step),
    ensures
        step matches TickStep::Send(Event::DailyContext(text)) && {
            &&& (exists|k: int| 0 <= k < summary.len() && !is_space(#[trigger] summary[k]))
                ==> text@ == "以下为昨夜固化的长期关系记忆（按强度排序）：\n"@ + trimmed(summary)
            &&& !(exists|k: int| 0 <= k < summary.len() && !is_space(#[trigger] summary[k]))
                ==> text@ == "以下为昨夜固化的长期关系记忆（按强度排序）：\n"@ + "（暂无关系记录）"@
        },
{
    law_something_is_left(summary);
}

/// Reports are collected, the tick distils them, and nothing else concerns the
/// layer.
pub proof fn law_only_reports_and_ticks_concern(event: Event)
    ensures
        event matches Event::DetectiveReport(r) ==> task_of(event) == SolidifyTask::Collect(r),
        event is SolidifyTick ==> task_of(event) is Tick,
        !(event is DetectiveReport) && !(event is SolidifyTick) ==> task_of(event) is Nothing,
{
}

/// Kinds of relationships are written by their names, others with theirs in quotes.
pub proof fn law_kinds_are_written(kind: RelationKind)
    ensures
        kind is Neutral ==> kind_shown(kind) == "Neutral"@,
        kind is Tease ==> kind_shown(kind) == "Tease"@,
        kind is Support ==> kind_shown(kind) == "Support"@,
        kind is Conflict ==> kind_shown(kind) == "Conflict"@,
        kind is Intimacy ==> kind_shown(kind) == "Intimacy"@,
        kind matches RelationKind::Other(s) ==> kind_shown(kind) == "Other("@ + quoted(s@) + ")"@,
{
}

/// A report that came in is asked about at the next tick, behind those that came
/// before it.
pub proof fn law_report_is_asked_about<G: Fn(Single) -> String>(
    show: G,
    first: SolidifyActor,
    report: DetectiveReport,
    second: SolidifyActor,
    third: SolidifyActor,
    step: TickStep,
)
    requires
        first.wf(),
        collected(first, report, second),
        begun(show, second, third, step),
    ensures
        step matches TickStep::Ask(reports, request) && reports@.last() == report && (
        first.reports().len() < first.settings().report_buffer_limit ==> reports@
            == first.reports().push(report)) && request.messages@.len() == 1 && has_text(
            request.messages@[0].content@,
            "目标用户："@ + report.target_user@ + "\n总结："@ + report.summary@ + "\n关系变化：\n"@,
        ),
        third.reports().len() == 0,
{
    if let TickStep::Ask(reports, request) = step {
        law_reports_reach_model(show, reports@, request.messages@[0].content@);
        let n = reports@.len() - 1;
        assert(reports@[n] == report);
    }
}

} // verus!
