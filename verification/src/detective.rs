//! The fourth layer: investigates users, and decides what to remember of
//! heated conversations.

use vstd::prelude::*;
use vstd::string::*;
use std::sync::Arc;
use crate::clock::{clock_of, Timestamp};
use crate::council::ContextQuery;
use crate::error::{detailed, ErrorKind, NekoError};
use crate::ident::{fresh_id_beside, hyphenated, id_text, reads_as, GroupId, MessageId};
use crate::llm::{parse_or_fallback, payload, read_gives, reads_all};
use crate::sensory::dated;
use crate::single::{show_with, shown_as, shows_all, Single, ONE, ZERO};
use crate::store::{found, found_or_none};
use crate::text::{
    ascii_lowered, copy_texts, ends, has_text, is_space, join, joined, law_something_is_left,
    lemma_has_trans, lemma_joined_has, lemma_occurs_between, same, texts, to_ascii_lowercase, trim, trimmed,
};
use crate::types::{
    ChatMessage, DetectiveInput, DetectiveReport, Event, Fact, LlmMessage, LlmRequest, LlmResponse,
    LlmRole, MemoryDecision, MemoryRecord, RelationKind, RelationshipChange,
    ResponseFormat, Tone, TopicBurst, Weakness,
};
use crate::table::keys_unique;
use crate::vector_store::{
    first, law_stored_text_is_found, law_upsert_keeps_records, lowered, ranked, stands, under_ids,
    upserted, Records,
};

verus! {

/// The settings of the layer.
#[derive(Debug, Clone, Copy, PartialEq, Eq, Structural)]
pub struct DetectiveConfig {
    pub history_limit: usize,
    pub memory_top_k: usize,
    pub llm_temperature: Single,
    pub llm_max_tokens: u32,
    /// A fact at least as similar as this to a stored record is not stored again.
    pub fact_dedup_threshold: Single,
}

impl Default for DetectiveConfig {
    fn default() -> (res: Self)
        ensures
            res == (DetectiveConfig {
                history_limit: 20,
                memory_top_k: 5,
                llm_temperature: Single { bits: 0x3f33_3333 },
                llm_max_tokens: 1024,
                fact_dedup_threshold: Single { bits: 0x3f6b_851f },
            }),
    {
        DetectiveConfig {
            history_limit: 20,
            memory_top_k: 5,
            llm_temperature: Single { bits: 0x3f33_3333 },
            llm_max_tokens: 1024,
            fact_dedup_threshold: Single { bits: 0x3f6b_851f },
        }
    }
}

/// What a model reports.
#[derive(Debug)]
pub struct DetectiveReportJson {
    pub target_user: String,
    pub summary: String,
    pub historical_facts: Vec<FactJson>,
    pub psychological_weaknesses: Vec<WeaknessJson>,
    pub relationship_changes: Vec<RelationshipChangeJson>,
    pub recommended_tone: String,
    pub confidence: Single,
}

/// A fact that a model reports.
#[derive(Debug)]
pub struct FactJson {
    pub text: String,
    pub evidence: Vec<String>,
}

/// A weak spot that a model reports.
#[derive(Debug)]
pub struct WeaknessJson {
    pub description: String,
    pub severity: Single,
}

/// A change of a relationship that a model reports.
#[derive(Debug)]
pub struct RelationshipChangeJson {
    pub from: String,
    pub to: String,
    pub kind: String,
    pub delta: Single,
    pub evidence: Vec<String>,
}

/// `kind` is the kind of relationship that goes by `name`, in whatever case.
pub open spec fn kind_named(name: Seq<char>, kind: RelationKind) -> bool {
    let n = ascii_lowered(name);
    if n == "tease"@ {
        kind is Tease
    } else if n == "support"@ {
        kind is Support
    } else if n == "conflict"@ {
        kind is Conflict
    } else if n == "intimacy"@ {
        kind is Intimacy
    } else if n == "neutral"@ {
        kind is Neutral
    } else {
        kind matches RelationKind::Other(s) && s@ == n
    }
}

/// The tone that goes by `name`, in whatever case.
pub open spec fn tone_named(name: Seq<char>) -> Tone {
    let n = ascii_lowered(name);
    if n == "warm"@ {
        Tone::Warm
    } else if n == "cold"@ {
        Tone::Cold
    } else if n == "playful"@ {
        Tone::Playful
    } else if n == "sarcastic"@ {
        Tone::Sarcastic
    } else if n == "cautious"@ {
        Tone::Cautious
    } else {
        Tone::Neutral
    }
}

/// The kind of relationship that goes by a name.
pub fn parse_relation_kind(s: &str) -> (res: RelationKind)
    ensures
        kind_named(s@, res),
{
    let name: String = to_ascii_lowercase(s);
    if same(name.as_str(), "tease") {
        RelationKind::Tease
    } else if same(name.as_str(), "support") {
        RelationKind::Support
    } else if same(name.as_str(), "conflict") {
        RelationKind::Conflict
    } else if same(name.as_str(), "intimacy") {
        RelationKind::Intimacy
    } else if same(name.as_str(), "neutral") {
        RelationKind::Neutral
    } else {
        RelationKind::Other(name)
    }
}

/// The tone that goes by a name.
pub fn parse_tone(s: &str) -> (res: Tone)
    ensures
        res == tone_named(s@),
{
    let name: String = to_ascii_lowercase(s);
    if same(name.as_str(), "warm") {
        Tone::Warm
    } else if same(name.as_str(), "cold") {
        Tone::Cold
    } else if same(name.as_str(), "playful") {
        Tone::Playful
    } else if same(name.as_str(), "sarcastic") {
        Tone::Sarcastic
    } else if same(name.as_str(), "cautious") {
        Tone::Cautious
    } else {
        Tone::Neutral
    }
}

/// A share of one: `x` limited to the range from zero to one.
pub open spec fn as_share(x: Single) -> Single {
    x.limited(Single { bits: ZERO }, Single { bits: ONE })
}

/// `fact` says what `j` says.
pub open spec fn fact_says(fact: Fact, j: FactJson) -> bool {
    fact.text@ == j.text@ && fact.evidence@ == j.evidence@ && fact.occurred_at is None
}

/// `w` says what `j` says, with a severity between zero and one.
pub open spec fn weakness_says(w: Weakness, j: WeaknessJson) -> bool {
    w.description@ == j.description@ && w.severity == as_share(j.severity)
}

/// `r` says what `j` says.
pub open spec fn change_says(r: RelationshipChange, j: RelationshipChangeJson) -> bool {
    r.from@ == j.from@ && r.to@ == j.to@ && kind_named(j.kind@, r.kind) && r.delta == j.delta
        && r.evidence@ == j.evidence@
}

/// `report` says what `j` says, with a confidence between zero and one.
pub open spec fn report_says(report: DetectiveReport, j: DetectiveReportJson) -> bool {
    &&& report.target_user@ == j.target_user@
    &&& report.summary@ == j.summary@
    &&& report.historical_facts@.len() == j.historical_facts@.len()
    &&& forall|i: int|
        0 <= i < report.historical_facts@.len() ==> fact_says(
            #[trigger] report.historical_facts@[i],
            j.historical_facts@[i],
        )
    &&& report.psychological_weaknesses@.len() == j.psychological_weaknesses@.len()
    &&& forall|i: int|
        0 <= i < report.psychological_weaknesses@.len() ==> weakness_says(
            #[trigger] report.psychological_weaknesses@[i],
            j.psychological_weaknesses@[i],
        )
    &&& report.relationship_changes@.len() == j.relationship_changes@.len()
    &&& forall|i: int|
        0 <= i < report.relationship_changes@.len() ==> change_says(
            #[trigger] report.relationship_changes@[i],
            j.relationship_changes@[i],
        )
    &&& report.recommended_tone == tone_named(j.recommended_tone@)
    &&& report.confidence == as_share(j.confidence)
}

/// The report is not yet tied to a message.
pub open spec fn untied(report: DetectiveReport) -> bool {
    report.message_id == 0 && report.trace_id == 0 && report.group_id@.len() == 0
}

fn read_facts(list: &Vec<FactJson>) -> (res: Vec<Fact>)
    ensures
        res@.len() == list@.len(),
        forall|i: int| 0 <= i < res@.len() ==> fact_says(#[trigger] res@[i], list@[i]),
{
    let mut out: Vec<Fact> = Vec::new();
    let mut i: usize = 0;
    while i < list.len()
        invariant
            0 <= i <= list@.len(),
            out@.len() == i,
            forall|k: int| 0 <= k < i ==> fact_says(#[trigger] out@[k], list@[k]),
        decreases list@.len() - i,
    {
        out.push(
            Fact {
                text: list[i].text.clone(),
                evidence: copy_texts(&list[i].evidence),
                occurred_at: None,
            },
        );
        i = i + 1;
    }
    out
}

fn read_weaknesses(list: &Vec<WeaknessJson>) -> (res: Vec<Weakness>)
    ensures
        res@.len() == list@.len(),
        forall|i: int| 0 <= i < res@.len() ==> weakness_says(#[trigger] res@[i], list@[i]),
{
    let mut out: Vec<Weakness> = Vec::new();
    let mut i: usize = 0;
    while i < list.len()
        invariant
            0 <= i <= list@.len(),
            out@.len() == i,
            forall|k: int| 0 <= k < i ==> weakness_says(#[trigger] out@[k], list@[k]),
        decreases list@.len() - i,
    {
        out.push(
            Weakness {
                description: list[i].description.clone(),
                severity: list[i].severity.clamp(Single { bits: ZERO }, Single { bits: ONE }),
            },
        );
        i = i + 1;
    }
    out
}

fn read_changes(list: &Vec<RelationshipChangeJson>) -> (res: Vec<RelationshipChange>)
    ensures
        res@.len() == list@.len(),
        forall|i: int| 0 <= i < res@.len() ==> change_says(#[trigger] res@[i], list@[i]),
{
    let mut out: Vec<RelationshipChange> = Vec::new();
    let mut i: usize = 0;
    while i < list.len()
        invariant
            0 <= i <= list@.len(),
            out@.len() == i,
            forall|k: int| 0 <= k < i ==> change_says(#[trigger] out@[k], list@[k]),
        decreases list@.len() - i,
    {
        out.push(
            RelationshipChange {
                from: list[i].from.clone(),
                to: list[i].to.clone(),
                kind: parse_relation_kind(list[i].kind.as_str()),
                delta: list[i].delta,
                evidence: copy_texts(&list[i].evidence),
            },
        );
        i = i + 1;
    }
    out
}

/// The report that a model states.
pub fn detective_report(parsed: &DetectiveReportJson) -> (res: DetectiveReport)
    ensures
        report_says(res, *parsed),
        untied(res),
{
    DetectiveReport {
        message_id: 0,
        trace_id: 0,
        group_id: String::new(),
        target_user: parsed.target_user.clone(),
        summary: parsed.summary.clone(),
        historical_facts: read_facts(&parsed.historical_facts),
        psychological_weaknesses: read_weaknesses(&parsed.psychological_weaknesses),
        relationship_changes: read_changes(&parsed.relationship_changes),
        recommended_tone: parse_tone(parsed.recommended_tone.as_str()),
        confidence: parsed.confidence.clamp(Single { bits: ZERO }, Single { bits: ONE }),
    }
}

/// `res` is the report in the answer `raw`, read by `read`.
pub open spec fn report_read<F: Fn(&str) -> Result<DetectiveReportJson, String>>(
    read: F,
    raw: Seq<char>,
    res: Result<DetectiveReport, NekoError>,
) -> bool {
    exists|got: Result<DetectiveReportJson, String>|
        {
            &&& #[trigger] read_gives(read, payload(raw), got)
            &&& match got {
                Ok(j) => res matches Ok(report) && report_says(report, j) && untied(report),
                Err(m) => res matches Err(e) && e.says(
                    ErrorKind::Parse,
                    "cannot parse detective report: "@ + m@,
                ),
            }
        }
}

/// Reads the report in a model's answer.
pub fn parse_detective_report<F: Fn(&str) -> Result<DetectiveReportJson, String>>(
    raw: &str,
    read: &F,
) -> (res: Result<DetectiveReport, NekoError>)
    requires
        reads_all(*read),
    ensures
        report_read(*read, raw@, res),
{
    match parse_or_fallback(raw, read) {
        Ok(parsed) => Ok(detective_report(&parsed)),
        Err((m, _)) => Err(detailed(ErrorKind::Parse, "cannot parse detective report: ", m.as_str())),
    }
}

/// `res` is the memory decision in the answer `raw`, read by `read`.
pub open spec fn memory_read<F: Fn(&str) -> Result<MemoryDecision, String>>(
    read: F,
    raw: Seq<char>,
    res: Result<MemoryDecision, NekoError>,
) -> bool {
    exists|got: Result<MemoryDecision, String>|
        {
            &&& #[trigger] read_gives(read, payload(raw), got)
            &&& match got {
                Ok(d) => res == Ok::<MemoryDecision, NekoError>(d),
                Err(m) => res matches Err(e) && e.says(
                    ErrorKind::Parse,
                    "cannot parse memory decision: "@ + m@,
                ),
            }
        }
}

/// Reads the memory decision in a model's answer.
pub fn parse_memory_decision<F: Fn(&str) -> Result<MemoryDecision, String>>(
    raw: &str,
    read: &F,
) -> (res: Result<MemoryDecision, NekoError>)
    requires
        reads_all(*read),
    ensures
        memory_read(*read, raw@, res),
{
    match parse_or_fallback(raw, read) {
        Ok(d) => Ok(d),
        Err((m, _)) => Err(detailed(ErrorKind::Parse, "cannot parse memory decision: ", m.as_str())),
    }
}

/// A message on a line of its own: when, who and what.
pub open spec fn logged(m: ChatMessage) -> Seq<char> {
    clock_of(m.timestamp) + " ["@ + m.nickname@ + "]: "@ + m.content@
}

/// The messages, one on each line.
pub open spec fn log_lines(messages: Seq<ChatMessage>) -> Seq<char> {
    joined(messages.map_values(|m: ChatMessage| logged(m)), "\n"@)
}

/// The messages, one on each line.
fn log_text(messages: &Vec<ChatMessage>) -> (res: String)
    requires
        dated(messages@),
    ensures
        res@ == log_lines(messages@),
{
    let mut lines: Vec<String> = Vec::new();
    let mut i: usize = 0;
    while i < messages.len()
        invariant
            0 <= i <= messages@.len(),
            dated(messages@),
            texts(lines@) == messages@.take(i as int).map_values(|m: ChatMessage| logged(m)),
        decreases messages@.len() - i,
    {
        let m: &ChatMessage = &messages[i];
        let ghost before = lines@;
        let line: String = m.timestamp.clock().concat(" [").concat(
            m.nickname.as_str(),
        ).concat("]: ").concat(m.content.as_str());
        lines.push(line);
        proof {
            assert(texts(lines@) =~= texts(before).push(logged(*m)));
            assert(messages@.take(i + 1) =~= messages@.take(i as int).push(*m));
            assert(texts(lines@) =~= messages@.take(i + 1).map_values(
                |m: ChatMessage| logged(m),
            ));
        }
        i = i + 1;
    }
    assert(messages@.take(i as int) =~= messages@);
    join(&lines, "\n")
}

/// The prompt of an investigation up to the user.
pub const REPORT_USER: &'static str =
    "你是一台无情的侦探机器。请根据以下信息生成一份脱水、结构化的 JSON 结案报告。\n\
     \n\
     目标用户：";

/// The prompt between the user and the message.
pub const REPORT_MESSAGE: &'static str = "\n当前消息：\"";

/// The prompt between the message and the energy.
pub const REPORT_ENERGY: &'static str = "\"\n精力值：";

/// The prompt between the energy and the favorability.
pub const REPORT_FAVOR: &'static str = "\n好感度：";

/// The prompt between the favorability and the earlier messages.
pub const REPORT_HISTORY: &'static str = "\n\n历史记录：\n";

/// What stands in place of the earlier messages where there are none.
pub const REPORT_NO_HISTORY: &'static str = "（无历史记录）";

/// The heading of the memories.
pub const REPORT_MEMORY: &'static str = "\n\n相关记忆：\n";

/// The prompt between the earlier messages or the memories and the user.
pub const REPORT_FORMAT: &'static str = "\n\
     \n\
     请只输出 JSON，格式如下：\n\
     {\n\
     \"target_user\": \"";

/// The rest of the prompt.
pub const REPORT_REST: &'static str = "\",\n\
     \"summary\": \"一句话总结\",\n\
     \"historical_facts\": [{\"text\": \"事实\", \"evidence\": [\"证据1\"]}],\n\
     \"psychological_weaknesses\": [{\"description\": \"弱点描述\", \"severity\": 0.5}],\n\
     \"relationship_changes\": [{\"from\": \"user_a\", \"to\": \"user_b\", \"kind\": \"tease\", \"delta\": -0.1, \"evidence\": [\"证据\"]}],\n\
     \"recommended_tone\": \"warm\" | \"cold\" | \"playful\" | \"cautious\" | \"neutral\",\n\
     \"confidence\": 0.8\n\
     }";

/// The earlier messages, one on each line.
pub open spec fn history_lines(history: Seq<ChatMessage>) -> Seq<char> {
    if history.len() == 0 {
        REPORT_NO_HISTORY@
    } else {
        log_lines(history)
    }
}

/// What the memory holds, one record on each line; nothing where there are no
/// records.
pub open spec fn memory_lines(memory: Seq<Arc<MemoryRecord>>) -> Seq<char> {
    if memory.len() == 0 {
        Seq::empty()
    } else {
        REPORT_MEMORY@ + joined(memory.map_values(|r: Arc<MemoryRecord>| recalled(*r)), "\n"@)
    }
}

/// A record on a line of its own.
pub open spec fn recalled(r: MemoryRecord) -> Seq<char> {
    "- "@ + r.text@
}

/// What the memory holds, one record on each line.
fn memory_text(memory: &Vec<Arc<MemoryRecord>>) -> (res: String)
    ensures
        res@ == memory_lines(memory@),
{
    if memory.len() == 0 {
        let res: String = String::new();
        assert(res@ =~= memory_lines(memory@));
        return res;
    }
    let mut lines: Vec<String> = Vec::new();
    let mut i: usize = 0;
    while i < memory.len()
        invariant
            0 <= i <= memory@.len(),
            texts(lines@) == memory@.take(i as int).map_values(
                |r: Arc<MemoryRecord>| recalled(*r),
            ),
        decreases memory@.len() - i,
    {
        let r: &MemoryRecord = &memory[i];
        let ghost before = lines@;
        lines.push("- ".to_string().concat(r.text.as_str()));
        proof {
            assert(texts(lines@) =~= texts(before).push(recalled(*r)));
            assert(texts(lines@) =~= memory@.take(i + 1).map_values(
                |r: Arc<MemoryRecord>| recalled(*r),
            ));
        }
        i = i + 1;
    }
    assert(memory@.take(i as int) =~= memory@);
    REPORT_MEMORY.to_string().concat(join(&lines, "\n").as_str())
}

/// The prompt of an investigation, with the energy and the favorability written
/// as given.
pub open spec fn report_prompt(
    input: DetectiveInput,
    history: Seq<ChatMessage>,
    memory: Seq<Arc<MemoryRecord>>,
    energy: Seq<char>,
    favor: Seq<char>,
) -> Seq<char> {
    REPORT_USER@ + input.target_user@ + REPORT_MESSAGE@ + input.message.content@ + REPORT_ENERGY@
        + energy + REPORT_FAVOR@ + favor + REPORT_HISTORY@ + history_lines(history)
        + memory_lines(memory) + REPORT_FORMAT@ + input.target_user@ + REPORT_REST@
}

/// Every earlier message and every record stands in the prompt.
pub open spec fn holds_findings(
    prompt: Seq<char>,
    history: Seq<ChatMessage>,
    memory: Seq<Arc<MemoryRecord>>,
) -> bool {
    &&& forall|i: int|
        0 <= i < history.len() ==> has_text(
            prompt,
            "["@ + (#[trigger] history[i]).nickname@ + "]: "@ + history[i].content@,
        )
    &&& forall|i: int|
        0 <= i < memory.len() ==> has_text(prompt, (#[trigger] memory[i]).text@)
}

/// What was found in the history and in the memory reaches the model.
pub proof fn law_prompt_holds_findings(
    input: DetectiveInput,
    history: Seq<ChatMessage>,
    memory: Seq<Arc<MemoryRecord>>,
    energy: Seq<char>,
    favor: Seq<char>,
)
    ensures
        holds_findings(
            report_prompt(input, history, memory, energy, favor),
            history,
            memory,
        ),
{
    let prompt = report_prompt(input, history, memory, energy, favor);
    let a = REPORT_USER@ + input.target_user@ + REPORT_MESSAGE@ + input.message.content@
        + REPORT_ENERGY@ + energy + REPORT_FAVOR@ + favor + REPORT_HISTORY@;
    let h = history_lines(history);
    let m = memory_lines(memory);
    let z = REPORT_FORMAT@ + input.target_user@ + REPORT_REST@;
    assert(prompt =~= a + h + (m + z));
    assert(prompt =~= (a + h) + m + z);
    assert forall|i: int| 0 <= i < history.len() implies has_text(
        prompt,
        "["@ + (#[trigger] history[i]).nickname@ + "]: "@ + history[i].content@,
    ) by {
        let parts = history.map_values(|m: ChatMessage| logged(m));
        let said = "["@ + history[i].nickname@ + "]: "@ + history[i].content@;
        reveal_strlit(" [");
        reveal_strlit("[");
        let lead = clock_of(history[i].timestamp) + seq![' '];
        assert(parts[i] == logged(history[i]));
        assert(parts[i] =~= lead + said + Seq::<char>::empty());
        lemma_occurs_between(lead, said, Seq::empty());
        lemma_joined_has(parts, "\n"@, parts.len() as int, i);
        lemma_has_trans(h, parts[i], said);
        lemma_occurs_between(a, h, m + z);
        lemma_has_trans(prompt, h, said);
    }
    assert forall|i: int| 0 <= i < memory.len() implies has_text(
        prompt,
        (#[trigger] memory[i]).text@,
    ) by {
        let parts = memory.map_values(|r: Arc<MemoryRecord>| recalled(*r));
        let text = memory[i].text@;
        let body = joined(parts, "\n"@);
        assert(parts[i] == recalled(*memory[i]));
        assert(parts[i] =~= "- "@ + text + Seq::<char>::empty());
        lemma_occurs_between("- "@, text, Seq::empty());
        lemma_joined_has(parts, "\n"@, parts.len() as int, i);
        lemma_has_trans(body, parts[i], text);
        assert(m =~= REPORT_MEMORY@ + body + Seq::<char>::empty());
        lemma_occurs_between(REPORT_MEMORY@, body, Seq::empty());
        lemma_has_trans(m, body, text);
        lemma_occurs_between(a + h, m, z);
        lemma_has_trans(prompt, m, text);
    }
}

/// Builds the prompt that asks for a report, from the earlier messages and from
/// what the memory holds. Numbers are written by `show`.
pub fn detective_prompt<G: Fn(Single) -> String>(
    input: &DetectiveInput,
    history: &Vec<ChatMessage>,
    memory: &Vec<Arc<MemoryRecord>>,
    show: &G,
) -> (res: String)
    requires
        shows_all(*show),
        dated(history@),
    ensures
        exists|energy: Seq<char>, favor: Seq<char>|
            {
                &&& #[trigger] shown_as(*show, input.state.energy, energy)
                &&& #[trigger] shown_as(*show, input.state.favorability, favor)
                &&& res@ == report_prompt(*input, history@, memory@, energy, favor)
            },
        holds_findings(res@, history@, memory@),
{
    let energy: String = show_with(show, input.state.energy);
    let favor: String = show_with(show, input.state.favorability);
    let lines: String = if history.len() == 0 {
        REPORT_NO_HISTORY.to_string()
    } else {
        log_text(history)
    };
    let mut prompt: String = REPORT_USER.to_string();
    prompt.append(input.target_user.as_str());
    prompt.append(REPORT_MESSAGE);
    prompt.append(input.message.content.as_str());
    prompt.append(REPORT_ENERGY);
    prompt.append(energy.as_str());
    prompt.append(REPORT_FAVOR);
    prompt.append(favor.as_str());
    prompt.append(REPORT_HISTORY);
    prompt.append(lines.as_str());
    prompt.append(memory_text(memory).as_str());
    prompt.append(REPORT_FORMAT);
    prompt.append(input.target_user.as_str());
    prompt.append(REPORT_REST);
    proof {
        assert(shown_as(*show, input.state.energy, energy@));
        assert(shown_as(*show, input.state.favorability, favor@));
        assert(prompt@ == report_prompt(*input, history@, memory@, energy@, favor@));
        law_prompt_holds_findings(*input, history@, memory@, energy@, favor@);
    }
    prompt
}

/// The prompt of the memory curator up to the group.
pub const CURATOR_GROUP: &'static str =
    "你是一位群聊记忆管理员。请分析下面这段突然热起来的对话，并决定哪些信息值得长期保存。\n\
     \n\
     请只输出 JSON，顶层结构为：\n\
     {\n\
     \"group_id\": \"";

/// The prompt of the memory curator between the group and the messages.
pub const CURATOR_MESSAGES: &'static str = "\",\n\
     \"summary\": \"这段对话的整体摘要\",\n\
     \"updates\": [\n\
     {\"kind\": \"vector_fact\", \"content\": \"...\", \"tags\": [\"tag\"], \"related_users\": [\"user_id\"]},\n\
     {\"kind\": \"vector_culture\", \"content\": \"...\", \"tags\": [\"meme\"], \"related_users\": []},\n\
     {\"kind\": \"graph_relation\", \"from\": \"u1\", \"to\": \"u2\", \"relation\": \"互怼\", \"delta\": -0.2, \"evidence\": \"...\"},\n\
     {\"kind\": \"affective_delta\", \"target_user\": \"u1\", \"energy_delta\": 0.0, \"favorability_delta\": 0.1, \"mood\": null, \"reason\": \"...\"}\n\
     ]\n\
     }\n\
     \n\
     原则：\n\
     1. 只记录以后可能用得上的信息，避免噪音。\n\
     2. 区分个人事实（vector_fact）和群文化/梗（vector_culture）。\n\
     3. 当梗或文化与某个人相关时，把TA放进 related_users。\n\
     4. 关系变化（graph_relation）可以是友好、对立、调侃、默契等。\n\
     5. 情感变化（affective_delta）幅度要小（-0.3 到 +0.3），除非事件特别强烈。\n\
     6. 没有值得记录的内容时，updates 可以为空。\n\
     \n\
     对话记录：\n";

/// The prompt of the memory curator.
pub open spec fn curator_prompt(burst: TopicBurst) -> Seq<char> {
    CURATOR_GROUP@ + burst.group_id@ + CURATOR_MESSAGES@ + log_lines(burst.messages@)
}

/// Builds the prompt that asks what to remember of a heated conversation, and
/// where.
pub fn memory_curator_prompt(burst: &TopicBurst) -> (res: String)
    requires
        dated(burst.messages@),
    ensures
        res@ == curator_prompt(*burst),
{
    let mut prompt: String = CURATOR_GROUP.to_string();
    prompt.append(burst.group_id.as_str());
    prompt.append(CURATOR_MESSAGES);
    prompt.append(log_text(&burst.messages).as_str());
    prompt
}

/// The report belongs to the message that it was asked for, and to the user
/// that was asked about.
pub open spec fn tied(report: DetectiveReport, req: DetectiveInput) -> bool {
    &&& report.message_id == req.message.id
    &&& report.trace_id == req.message.trace_id
    &&& report.group_id@ == req.message.group_id@
    &&& report.target_user@ == req.target_user@
}

/// The report finds nothing.
pub open spec fn blank_report(report: DetectiveReport) -> bool {
    &&& report.summary@.len() == 0
    &&& report.historical_facts@.len() == 0
    &&& report.psychological_weaknesses@.len() == 0
    &&& report.relationship_changes@.len() == 0
    &&& report.recommended_tone == Tone::Neutral
    &&& report.confidence == (Single { bits: ZERO })
}

/// The reports find the same.
pub open spec fn same_findings(a: DetectiveReport, b: DetectiveReport) -> bool {
    &&& a.summary == b.summary
    &&& a.historical_facts == b.historical_facts
    &&& a.psychological_weaknesses == b.psychological_weaknesses
    &&& a.relationship_changes == b.relationship_changes
    &&& a.recommended_tone == b.recommended_tone
    &&& a.confidence == b.confidence
}

/// A fact that says something.
pub open spec fn says_something(fact: Fact) -> bool {
    trimmed(fact.text@).len() > 0
}

/// A fact that is stored: it says something, and the most similar record is
/// not too similar.
pub open spec fn worth_storing(fact: Fact, similarity: Option<Single>, threshold: Single) -> bool {
    says_something(fact) && match similarity {
        Some(s) => s.nan() || threshold.nan() || s.below(threshold),
        None => true,
    }
}

/// The facts among the first `n` that are stored.
pub open spec fn stored_facts(
    facts: Seq<Fact>,
    similar: Seq<Option<Single>>,
    threshold: Single,
    n: int,
) -> Seq<Fact>
    decreases n,
{
    if n <= 0 {
        Seq::empty()
    } else {
        let before = stored_facts(facts, similar, threshold, n - 1);
        if worth_storing(facts[n - 1], similar[n - 1], threshold) {
            before.push(facts[n - 1])
        } else {
            before
        }
    }
}

/// `record` holds a fact of a report.
pub open spec fn record_of_fact(record: MemoryRecord, fact: Fact, report: DetectiveReport) -> bool {
    &&& exists|id: u128| record.id@ == #[trigger] hyphenated(id)
    &&& record.group_id@ == report.group_id@
    &&& record.speaker_id@ == report.target_user@
    &&& record.target_id is None
    &&& record.text@ == fact.text@
    &&& match fact.occurred_at {
        Some(t) => record.timestamp == t,
        None => record.timestamp.valid(),
    }
    &&& record.relation_delta is None
    &&& texts(record.tags@) == seq!["fact"@, "detective"@]
    &&& record.layer@ == "detective"@
}

/// `records` are what is stored of a report, with `similar` holding for each
/// fact the similarity of the most similar record, where one was found: one
/// record for each fact that is worth it, no two under one id.
pub open spec fn learned(
    report: DetectiveReport,
    similar: Seq<Option<Single>>,
    threshold: Single,
    records: Seq<MemoryRecord>,
) -> bool {
    let kept = stored_facts(report.historical_facts@, similar, threshold, similar.len() as int);
    &&& records.len() == kept.len()
    &&& forall|i: int|
        0 <= i < records.len() ==> record_of_fact(#[trigger] records[i], kept[i], report)
    &&& forall|i: int, j: int|
        0 <= i < j < records.len() ==> (#[trigger] records[i]).id@ != (#[trigger] records[j]).id@
}

/// Whether a fact says something.
pub fn is_worth_checking(fact: &Fact) -> (res: bool)
    ensures
        res == says_something(*fact),
{
    trim(fact.text.as_str()).as_str().unicode_len() > 0
}

/// What to search in the memory for a fact of a report, before it is stored:
/// the one record of the group that is most like it. A fact that says nothing
/// is not searched for.
pub fn fact_query(report: &DetectiveReport, fact: &Fact) -> (res: Option<MemoryQuery>)
    ensures
        match res {
            Some(q) => says_something(*fact) && q.group_id@ == report.group_id@ && q.text@
                == fact.text@ && q.top_k == 1,
            None => !says_something(*fact),
        },
{
    if is_worth_checking(fact) {
        Some(
            MemoryQuery {
                group_id: report.group_id.clone(),
                text: fact.text.clone(),
                top_k: 1,
            },
        )
    } else {
        None
    }
}

/// The similarity of the most similar record that a search found: none, where
/// it found nothing or failed.
pub fn closest(lookup: Result<Vec<(Single, Arc<MemoryRecord>)>, NekoError>) -> (res: Option<Single>)
    ensures
        res == if found(lookup).len() == 0 {
            None
        } else {
            Some(found(lookup)[0].0)
        },
{
    let hits: Vec<(Single, Arc<MemoryRecord>)> = found_or_none(lookup);
    if hits.len() == 0 {
        None
    } else {
        Some(hits[0].0)
    }
}

/// What the detective has to do about an event.
#[derive(Debug)]
pub enum DetectiveTask {
    /// Investigate a user.
    Investigate(DetectiveInput),
    /// Decide what to remember of a conversation.
    Curate(TopicBurst),
    /// Nothing.
    Nothing,
}

/// What the detective has to do about an event.
pub fn detective_task(event: Event) -> (res: DetectiveTask)
    ensures
        res == match event {
            Event::DetectiveRequest(req) => DetectiveTask::Investigate(req),
            Event::TopicBurst(burst) => DetectiveTask::Curate(burst),
            _ => DetectiveTask::Nothing,
        },
{
    match event {
        Event::DetectiveRequest(req) => DetectiveTask::Investigate(req),
        Event::TopicBurst(burst) => DetectiveTask::Curate(burst),
        _ => DetectiveTask::Nothing,
    }
}

/// Asks the model for reports, and works on what it says.
pub struct DetectiveActor {
    config: DetectiveConfig,
}

/// The query asks for the `limit` latest messages of the user in question from
/// before `now`.
pub open spec fn asks_history(
    query: ContextQuery,
    req: DetectiveInput,
    limit: usize,
    now: Timestamp,
) -> bool {
    &&& query.group_id@ == req.message.group_id@
    &&& query.user_id matches Some(user) && user@ == req.target_user@
    &&& query.before == now
    &&& query.limit == limit
}

/// What is to be searched in the memory.
#[derive(Debug)]
pub struct MemoryQuery {
    pub group_id: GroupId,
    pub text: String,
    pub top_k: usize,
}

impl DetectiveActor {
    /// The settings.
    pub closed spec fn settings(self) -> DetectiveConfig {
        self.config
    }

    /// A layer with the given settings.
    pub fn new(config: DetectiveConfig) -> (res: Self)
        ensures
            res.settings() == config,
    {
        DetectiveActor { config }
    }

    /// Which earlier messages to look up: those of the user in question.
    pub fn history_query(&self, req: &DetectiveInput) -> (res: ContextQuery)
        ensures
            exists|now: Timestamp| #[trigger]
                now.valid() && asks_history(res, *req, self.settings().history_limit, now),
    {
        let now: Timestamp = Timestamp::now();
        assert(now.valid());
        self.history_query_at(req, now)
    }

    /// Which messages from before `now` to look up: those of the user in
    /// question.
    pub fn history_query_at(&self, req: &DetectiveInput, now: Timestamp) -> (res: ContextQuery)
        ensures
            asks_history(res, *req, self.settings().history_limit, now),
    {
        ContextQuery {
            group_id: req.message.group_id.clone(),
            user_id: Some(req.target_user.clone()),
            before: now,
            limit: self.config.history_limit,
        }
    }

    /// What to search in the memory: the words of the message.
    pub fn memory_query(&self, req: &DetectiveInput) -> (res: MemoryQuery)
        ensures
            res.group_id@ == req.message.group_id@,
            res.text@ == req.message.content@,
            res.top_k == self.settings().memory_top_k,
    {
        MemoryQuery {
            group_id: req.message.group_id.clone(),
            text: req.message.content.clone(),
            top_k: self.config.memory_top_k,
        }
    }

    /// A request of the layer to the model.
    fn request(&self, prompt: String) -> (res: LlmRequest)
        ensures
            res.messages@.len() == 1,
            res.messages@[0].role == LlmRole::User,
            res.messages@[0].content@ == prompt@,
            res.temperature == self.settings().llm_temperature,
            res.max_tokens == Some(self.settings().llm_max_tokens),
            res.response_format == Some(ResponseFormat::JsonObject),
    {
        let mut messages: Vec<LlmMessage> = Vec::new();
        messages.push(LlmMessage { role: LlmRole::User, content: prompt });
        LlmRequest {
            messages,
            temperature: self.config.llm_temperature,
            max_tokens: Some(self.config.llm_max_tokens),
            response_format: Some(ResponseFormat::JsonObject),
        }
    }

    /// The request to the model for an investigation, given what became of the
    /// lookups of earlier messages and of the memory: where one failed, it found
    /// nothing.
    pub fn report_request<G: Fn(Single) -> String>(
        &self,
        req: &DetectiveInput,
        history: Result<Vec<ChatMessage>, NekoError>,
        memory: Result<Vec<Arc<MemoryRecord>>, NekoError>,
        show: &G,
    ) -> (res: LlmRequest)
        requires
            shows_all(*show),
            dated(found(history)),
        ensures
            res.messages@.len() == 1,
            res.messages@[0].role == LlmRole::User,
            exists|energy: Seq<char>, favor: Seq<char>|
                {
                    &&& #[trigger] shown_as(*show, req.state.energy, energy)
                    &&& #[trigger] shown_as(*show, req.state.favorability, favor)
                    &&& res.messages@[0].content@ == report_prompt(
                        *req,
                        found(history),
                        found(memory),
                        energy,
                        favor,
                    )
                },
            holds_findings(res.messages@[0].content@, found(history), found(memory)),
            res.temperature == self.settings().llm_temperature,
            res.max_tokens == Some(self.settings().llm_max_tokens),
            res.response_format == Some(ResponseFormat::JsonObject),
    {
        let prompt: String = detective_prompt(
            req,
            &found_or_none(history),
            &found_or_none(memory),
            show,
        );
        self.request(prompt)
    }

    /// Takes in the model's answer on an investigation; gives the report. Where
    /// the model failed, the report finds nothing; an answer that is no report
    /// is an error.
    pub fn on_report_answer<F: Fn(&str) -> Result<DetectiveReportJson, String>>(
        &self,
        req: &DetectiveInput,
        answer: Result<LlmResponse, NekoError>,
        read: &F,
    ) -> (res: Result<DetectiveReport, NekoError>)
        requires
            reads_all(*read),
        ensures
            match answer {
                Err(_) => res matches Ok(report) && tied(report, *req) && blank_report(report),
                Ok(resp) => match res {
                    Ok(report) => tied(report, *req) && exists|stated: DetectiveReport| #[trigger]
                        report_read(*read, resp.content@, Ok(stated)) && same_findings(
                            report,
                            stated,
                        ),
                    Err(e) => report_read(*read, resp.content@, Err(e)),
                },
            },
    {
        let stated: DetectiveReport = match answer {
            Ok(resp) => match parse_detective_report(resp.content.as_str(), read) {
                Ok(report) => report,
                Err(e) => {
                    return Err(e);
                },
            },
            Err(_) => DetectiveReport {
                message_id: 0,
                trace_id: 0,
                group_id: String::new(),
                target_user: req.target_user.clone(),
                summary: String::new(),
                historical_facts: Vec::new(),
                psychological_weaknesses: Vec::new(),
                relationship_changes: Vec::new(),
                recommended_tone: Tone::Neutral,
                confidence: Single { bits: ZERO },
            },
        };
        let ghost kept = stated;
        let report: DetectiveReport = DetectiveReport {
            message_id: req.message.id,
            trace_id: req.message.trace_id,
            group_id: req.message.group_id.clone(),
            target_user: req.target_user.clone(),
            summary: stated.summary,
            historical_facts: stated.historical_facts,
            psychological_weaknesses: stated.psychological_weaknesses,
            relationship_changes: stated.relationship_changes,
            recommended_tone: stated.recommended_tone,
            confidence: stated.confidence,
        };
        assert(same_findings(report, kept));
        Ok(report)
    }

    /// The records to store of a report. `similar` holds, for each fact, the
    /// similarity of the most similar record, where one was found.
    pub fn learned_records(&self, report: &DetectiveReport, similar: &Vec<Option<Single>>) -> (res:
        Vec<MemoryRecord>)
        requires
            similar@.len() == report.historical_facts@.len(),
        ensures
            learned(*report, similar@, self.settings().fact_dedup_threshold, res@),
    {
        let mut out: Vec<MemoryRecord> = Vec::new();
        let mut ids: Vec<MessageId> = Vec::new();
        let threshold: Single = self.config.fact_dedup_threshold;
        let mut i: usize = 0;
        while i < similar.len()
            invariant
                0 <= i <= similar@.len(),
                similar@.len() == report.historical_facts@.len(),
                out@.len() == stored_facts(
                    report.historical_facts@,
                    similar@,
                    threshold,
                    i as int,
                ).len(),
                forall|k: int|
                    0 <= k < out@.len() ==> record_of_fact(
                        #[trigger] out@[k],
                        stored_facts(report.historical_facts@, similar@, threshold, i as int)[k],
                        *report,
                    ),
                ids@.len() == out@.len(),
                ids@.no_duplicates(),
                forall|k: int| 0 <= k < out@.len() ==> reads_as((#[trigger] out@[k]).id@, ids@[k]),
            decreases similar@.len() - i,
        {
            let fact: &Fact = &report.historical_facts[i];
            let known: bool = match similar[i] {
                Some(s) => s.ge(&threshold),
                None => false,
            };
            if is_worth_checking(fact) && !known {
                let mut tags: Vec<String> = Vec::new();
                tags.push("fact".to_string());
                tags.push("detective".to_string());
                assert(texts(tags@) =~= seq!["fact"@, "detective"@]);
                let id: MessageId = fresh_id_beside(&ids);
                let record: MemoryRecord = MemoryRecord {
                    id: id_text(id),
                    group_id: report.group_id.clone(),
                    speaker_id: report.target_user.clone(),
                    target_id: None,
                    text: fact.text.clone(),
                    timestamp: match fact.occurred_at {
                        Some(t) => t,
                        None => Timestamp::now(),
                    },
                    relation_delta: None,
                    tags,
                    layer: "detective".to_string(),
                };
                assert(record_of_fact(record, *fact, *report));
                out.push(record);
                ids.push(id);
            }
            i = i + 1;
        }
        out
    }

    /// The request to the model for a heated conversation.
    pub fn burst_request(&self, burst: &TopicBurst) -> (res: LlmRequest)
        requires
            dated(burst.messages@),
        ensures
            res.messages@.len() == 1,
            res.messages@[0].role == LlmRole::User,
            res.messages@[0].content@ == curator_prompt(*burst),
            res.temperature == self.settings().llm_temperature,
            res.max_tokens == Some(self.settings().llm_max_tokens),
            res.response_format == Some(ResponseFormat::JsonObject),
    {
        let prompt: String = memory_curator_prompt(burst);
        self.request(prompt)
    }

    /// Takes in the model's answer on a heated conversation; gives the decision
    /// on what to remember, for the group of the conversation. There is none
    /// where the model failed, its answer could not be read, or nothing is to
    /// be remembered.
    pub fn on_burst_answer<F: Fn(&str) -> Result<MemoryDecision, String>>(
        &self,
        burst: &TopicBurst,
        answer: Result<LlmResponse, NekoError>,
        read: &F,
    ) -> (res: Option<MemoryDecision>)
        requires
            reads_all(*read),
        ensures
            match answer {
                Err(_) => res is None,
                Ok(resp) => exists|stated: Result<MemoryDecision, NekoError>|
                    {
                        &&& #[trigger] memory_read(*read, resp.content@, stated)
                        &&& match (stated, res) {
                            (Ok(d), Some(out)) => d.updates@.len() > 0 && out.group_id@
                                == burst.group_id@ && out.summary == d.summary && out.updates
                                == d.updates,
                            (Ok(d), None) => d.updates@.len() == 0,
                            (Err(_), None) => true,
                            (Err(_), Some(_)) => false,
                        }
                    },
            },
    {
        match answer {
            Err(_) => None,
            Ok(resp) => {
                let stated: Result<MemoryDecision, NekoError> = parse_memory_decision(
                    resp.content.as_str(),
                    read,
                );
                let ghost seen = stated;
                assert(memory_read(*read, resp.content@, seen));
                match stated {
                    Ok(d) => {
                        if d.updates.len() == 0 {
                            None
                        } else {
                            Some(
                                MemoryDecision {
                                    group_id: burst.group_id.clone(),
                                    summary: d.summary,
                                    updates: d.updates,
                                },
                            )
                        }
                    },
                    Err(_) => None,
                }
            },
        }
    }
}

/// A fact that says nothing, or whose most similar record is similar enough, is
/// not stored; any other is.
pub proof fn law_known_facts_are_skipped(
    facts: Seq<Fact>,
    similar: Seq<Option<Single>>,
    threshold: Single,
    n: int,
)
    requires
        0 <= n <= facts.len(),
        facts.len() == similar.len(),
    ensures
        forall|i: int|
            0 <= i < n && worth_storing(#[trigger] facts[i], similar[i], threshold)
                ==> stored_facts(facts, similar, threshold, n).contains(facts[i]),
        (forall|i: int| 0 <= i < n ==> !worth_storing(#[trigger] facts[i], similar[i], threshold))
            ==> stored_facts(facts, similar, threshold, n).len() == 0,
        stored_facts(facts, similar, threshold, n).len() <= n,
    decreases n,
{
    if n > 0 {
        law_known_facts_are_skipped(facts, similar, threshold, n - 1);
        let before = stored_facts(facts, similar, threshold, n - 1);
        let all = stored_facts(facts, similar, threshold, n);
        assert forall|i: int|
            0 <= i < n && worth_storing(
                #[trigger] facts[i],
                similar[i],
                threshold,
            ) implies all.contains(facts[i]) by {
            if i == n - 1 {
                assert(all[before.len() as int] == facts[i]);
            } else {
                assert(before.contains(facts[i]));
                let k = choose|k: int| 0 <= k < before.len() && before[k] == facts[i];
                assert(all[k] == facts[i]);
            }
        }
    }
}

/// A fact whose most similar record matches fully is not stored again, under
/// any threshold up to one.
pub proof fn law_full_match_is_not_stored(fact: Fact, threshold: Single)
    requires
        !threshold.nan(),
        threshold.rank() <= (Single { bits: ONE }).rank(),
    ensures
        !worth_storing(fact, Some(Single { bits: ONE }), threshold),
{
}

/// A fact whose very text is stored for the group is not stored again: the
/// search of the memory in keywords finds it, with the highest score.
pub proof fn law_stored_fact_is_not_stored_again(
    list: Records,
    at: int,
    fact: Fact,
    threshold: Single,
)
    requires
        0 <= at < list.len(),
        list[at].1.text@ == fact.text@,
        !threshold.nan(),
        threshold.rank() <= (Single { bits: ONE }).rank(),
    ensures
        ({
            let res = first(ranked(list, list[at].1.group_id@, lowered(fact.text@)), 1);
            res.len() == 1 && !worth_storing(fact, Some(res[0].0), threshold)
        }),
{
    law_stored_text_is_found(list, at, 1);
}

/// The share of a number lies between zero and one.
pub proof fn law_share_in_range(x: Single)
    requires
        !x.nan(),
    ensures
        0 <= as_share(x).rank() <= (Single { bits: ONE }).rank(),
{
}

/// What is learned of a report: `at` are the places of the facts that are stored.
/// They keep their order; a fact is stored exactly where it says something and no
/// record is as similar as the threshold; and each record says what its fact says,
/// of the user and the group of the report.
pub proof fn law_new_facts_are_learned(
    report: DetectiveReport,
    similar: Seq<Option<Single>>,
    threshold: Single,
    records: Seq<MemoryRecord>,
) -> (at: Seq<int>)
    requires
        similar.len() == report.historical_facts@.len(),
        learned(report, similar, threshold, records),
    ensures
        at.len() == records.len(),
        forall|i: int|
            0 <= i < at.len() ==> {
                &&& 0 <= #[trigger] at[i] < similar.len()
                &&& records[i].text@ == report.historical_facts@[at[i]].text@
                &&& records[i].group_id@ == report.group_id@
                &&& records[i].speaker_id@ == report.target_user@
                &&& records[i].tags@.len() == 2
                &&& records[i].tags@[0]@ == "fact"@
                &&& records[i].tags@[1]@ == "detective"@
            },
        forall|i: int, j: int| 0 <= i < j < at.len() ==> #[trigger] at[i] < #[trigger] at[j],
        forall|p: int|
            0 <= p < similar.len() ==> ((exists|i: int| 0 <= i < at.len() && #[trigger] at[i] == p)
                <==> {
                &&& exists|k: int|
                    0 <= k < report.historical_facts@[p].text@.len() && !is_space(
                        #[trigger] report.historical_facts@[p].text@[k],
                    )
                &&& (#[trigger] similar[p]) matches Some(s) ==> s.nan() || threshold.nan()
                    || s.below(threshold)
            }),
{
    let facts = report.historical_facts@;
    let at = lemma_fact_places(facts, similar, threshold, similar.len() as int);
    assert forall|i: int| 0 <= i < at.len() implies {
        &&& 0 <= #[trigger] at[i] < similar.len()
        &&& records[i].text@ == facts[at[i]].text@
        &&& records[i].group_id@ == report.group_id@
        &&& records[i].speaker_id@ == report.target_user@
        &&& records[i].tags@.len() == 2
        &&& records[i].tags@[0]@ == "fact"@
        &&& records[i].tags@[1]@ == "detective"@
    } by {
        let r = records[i];
        assert(texts(r.tags@).len() == 2);
        assert(texts(r.tags@)[0] == r.tags@[0]@);
        assert(texts(r.tags@)[1] == r.tags@[1]@);
    }
    assert forall|p: int| 0 <= p < similar.len() implies ((exists|i: int|
        0 <= i < at.len() && #[trigger] at[i] == p) <==> {
        &&& exists|k: int| 0 <= k < facts[p].text@.len() && !is_space(#[trigger] facts[p].text@[k])
        &&& (#[trigger] similar[p]) matches Some(s) ==> s.nan() || threshold.nan() || s.below(
            threshold,
        )
    }) by {
        law_something_is_left(facts[p].text@);
    }
    at
}

proof fn lemma_fact_places(
    facts: Seq<Fact>,
    similar: Seq<Option<Single>>,
    threshold: Single,
    n: int,
) -> (at: Seq<int>)
    requires
        0 <= n <= facts.len(),
        facts.len() == similar.len(),
    ensures
        at.len() == stored_facts(facts, similar, threshold, n).len(),
        forall|i: int|
            0 <= i < at.len() ==> 0 <= #[trigger] at[i] < n && stored_facts(
                facts,
                similar,
                threshold,
                n,
            )[i] == facts[at[i]],
        forall|i: int, j: int| 0 <= i < j < at.len() ==> #[trigger] at[i] < #[trigger] at[j],
        forall|p: int|
            0 <= p < n ==> ((exists|i: int| 0 <= i < at.len() && #[trigger] at[i] == p)
                <==> worth_storing(facts[p], #[trigger] similar[p], threshold)),
    decreases n,
{
    if n == 0 {
        Seq::empty()
    } else {
        let before = lemma_fact_places(facts, similar, threshold, n - 1);
        let all = stored_facts(facts, similar, threshold, n);
        let more = all.len() > before.len();
        let at = if more {
            before.push(n - 1)
        } else {
            before
        };
        assert forall|i: int| 0 <= i < at.len() implies 0 <= #[trigger] at[i] < n && all[i]
            == facts[at[i]] by {
            if i < before.len() {
                assert(at[i] == before[i]);
            }
        }
        assert forall|i: int, j: int| 0 <= i < j < at.len() implies #[trigger] at[i]
            < #[trigger] at[j] by {
            assert(at[i] == before[i]);
            if j < before.len() {
                assert(at[j] == before[j]);
            }
        }
        assert forall|p: int| 0 <= p < n implies ((exists|i: int|
            0 <= i < at.len() && #[trigger] at[i] == p) <==> worth_storing(
            facts[p],
            #[trigger] similar[p],
            threshold,
        )) by {
            if p < n - 1 {
                if exists|i: int| 0 <= i < before.len() && #[trigger] before[i] == p {
                    let i = choose|i: int| 0 <= i < before.len() && #[trigger] before[i] == p;
                    assert(at[i] == p);
                }
                if exists|i: int| 0 <= i < at.len() && #[trigger] at[i] == p {
                    let i = choose|i: int| 0 <= i < at.len() && #[trigger] at[i] == p;
                    assert(before[i] == p);
                }
            } else {
                if more {
                    assert(at[before.len() as int] == p);
                } else if exists|i: int| 0 <= i < at.len() && #[trigger] at[i] == p {
                    let i = choose|i: int| 0 <= i < at.len() && #[trigger] at[i] == p;
                    assert(before[i] == p);
                }
            }
        }
        at
    }
}

/// Everything that is learned of a report stays in the memory: once its records
/// are taken up, every one of them stands in the store.
pub proof fn law_learned_facts_stay(
    report: DetectiveReport,
    similar: Seq<Option<Single>>,
    threshold: Single,
    records: Seq<MemoryRecord>,
    list: Records,
    shared: Seq<Arc<MemoryRecord>>,
    i: int,
)
    requires
        learned(report, similar, threshold, records),
        keys_unique(list),
        under_ids(list),
        shared.len() == records.len(),
        forall|k: int| 0 <= k < shared.len() ==> *(#[trigger] shared[k]) == records[k],
        0 <= i < shared.len(),
    ensures
        stands(upserted(list, shared), shared[i]),
        forall|j: int| 0 <= j < records.len() && j != i ==> records[i].id@ != (
        #[trigger] records[j]).id@,
{
    law_upsert_keeps_records(list, shared);
    assert forall|j: int| i < j < shared.len() implies (#[trigger] shared[j]).id@ != shared[i].id@ by {
        assert(records[i].id@ != records[j].id@);
    }
    assert forall|j: int| 0 <= j < records.len() && j != i implies records[i].id@ != (
    #[trigger] records[j]).id@ by {
        if j < i {
            assert(records[j].id@ != records[i].id@);
        }
    }
}

/// A kind of relationship and a tone go by their names, in whatever case; an
/// unknown kind is kept under its name, and an unknown tone is neutral.
pub proof fn law_kinds_and_tones_go_by_name(name: Seq<char>, kind: RelationKind)
    requires
        kind_named(name, kind),
    ensures
        kind is Tease <==> ascii_lowered(name) == "tease"@,
        kind is Support <==> ascii_lowered(name) == "support"@,
        kind is Conflict <==> ascii_lowered(name) == "conflict"@,
        kind is Intimacy <==> ascii_lowered(name) == "intimacy"@,
        kind is Neutral <==> ascii_lowered(name) == "neutral"@,
        kind matches RelationKind::Other(s) ==> s@ == ascii_lowered(name),
        tone_named(name) == Tone::Warm <==> ascii_lowered(name) == "warm"@,
        tone_named(name) == Tone::Cold <==> ascii_lowered(name) == "cold"@,
        tone_named(name) == Tone::Playful <==> ascii_lowered(name) == "playful"@,
        tone_named(name) == Tone::Sarcastic <==> ascii_lowered(name) == "sarcastic"@,
        tone_named(name) == Tone::Cautious <==> ascii_lowered(name) == "cautious"@,
{
    reveal_strlit("tease");
    reveal_strlit("support");
    reveal_strlit("conflict");
    reveal_strlit("intimacy");
    reveal_strlit("neutral");
    reveal_strlit("warm");
    reveal_strlit("cold");
    reveal_strlit("playful");
    reveal_strlit("sarcastic");
    reveal_strlit("cautious");
    assert("tease"@[0] == 't' && "support"@[0] == 's' && "conflict"@[0] == 'c' && "intimacy"@[0]
        == 'i' && "neutral"@[0] == 'n');
    assert("warm"@[0] == 'w' && "cold"@[1] == 'o' && "playful"@[0] == 'p' && "sarcastic"@[0] == 's'
        && "cautious"@[1] == 'a' && "cold"@[0] == 'c' && "cautious"@[0] == 'c');
}

/// A report says what the model stated: every fact, weakness and change, in order
/// and none besides, with its words; sizes that lie between zero and one stay, and
/// others become the limit that they passed.
pub proof fn law_report_says_what_was_stated(report: DetectiveReport, j: DetectiveReportJson)
    requires
        report_says(report, j),
    ensures
        report.summary@ == j.summary@,
        report.historical_facts@.len() == j.historical_facts@.len(),
        forall|i: int|
            0 <= i < j.historical_facts@.len() ==> {
                &&& (#[trigger] report.historical_facts@[i]).text@ == j.historical_facts@[i].text@
                &&& report.historical_facts@[i].evidence@ == j.historical_facts@[i].evidence@
            },
        report.psychological_weaknesses@.len() == j.psychological_weaknesses@.len(),
        forall|i: int|
            0 <= i < j.psychological_weaknesses@.len() ==> {
                &&& (#[trigger] report.psychological_weaknesses@[i]).description@
                    == j.psychological_weaknesses@[i].description@
                &&& j.psychological_weaknesses@[i].severity.bits <= 0x3f80_0000
                    ==> report.psychological_weaknesses@[i].severity
                    == j.psychological_weaknesses@[i].severity
            },
        report.relationship_changes@.len() == j.relationship_changes@.len(),
        forall|i: int|
            0 <= i < j.relationship_changes@.len() ==> {
                &&& (#[trigger] report.relationship_changes@[i]).from@
                    == j.relationship_changes@[i].from@
                &&& report.relationship_changes@[i].to@ == j.relationship_changes@[i].to@
                &&& report.relationship_changes@[i].delta == j.relationship_changes@[i].delta
                &&& report.relationship_changes@[i].evidence@
                    == j.relationship_changes@[i].evidence@
                &&& kind_named(j.relationship_changes@[i].kind@, report.relationship_changes@[i].kind)
            },
        report.recommended_tone == tone_named(j.recommended_tone@),
        j.confidence.bits <= 0x3f80_0000 ==> report.confidence == j.confidence,
        0x3f80_0000 < j.confidence.bits <= 0x7f80_0000 ==> report.confidence.bits == 0x3f80_0000,
        0x8000_0000 < j.confidence.bits <= 0xff80_0000 ==> report.confidence.bits == 0,
{
    assert forall|i: int| 0 <= i < j.psychological_weaknesses@.len() implies {
        &&& (#[trigger] report.psychological_weaknesses@[i]).description@
            == j.psychological_weaknesses@[i].description@
        &&& j.psychological_weaknesses@[i].severity.bits <= 0x3f80_0000
            ==> report.psychological_weaknesses@[i].severity
            == j.psychological_weaknesses@[i].severity
    } by {
        assert(weakness_says(
            report.psychological_weaknesses@[i],
            j.psychological_weaknesses@[i],
        ));
    }
    assert forall|i: int| 0 <= i < j.historical_facts@.len() implies {
        &&& (#[trigger] report.historical_facts@[i]).text@ == j.historical_facts@[i].text@
        &&& report.historical_facts@[i].evidence@ == j.historical_facts@[i].evidence@
    } by {
        assert(fact_says(report.historical_facts@[i], j.historical_facts@[i]));
    }
}

/// A report belongs to the message that it was asked for, whatever the model
/// stated: its id, its trace, its group and the user in question.
pub proof fn law_report_is_tied(report: DetectiveReport, req: DetectiveInput)
    requires
        tied(report, req),
    ensures
        report.message_id == req.message.id,
        report.trace_id == req.message.trace_id,
        report.group_id@ == req.message.group_id@,
        report.target_user@ == req.target_user@,
{
}

/// A model that fails finds nothing: the report is empty, and of no confidence.
pub proof fn law_failed_report_is_empty(report: DetectiveReport)
    requires
        blank_report(report),
    ensures
        report.summary@.len() == 0,
        report.historical_facts@.len() == 0,
        report.psychological_weaknesses@.len() == 0,
        report.relationship_changes@.len() == 0,
        report.confidence.bits == 0,
{
}

/// The memory curator is told every message of a heated conversation, oldest first
/// and one on each line, at the end of the prompt: when, who and what.
pub proof fn law_curator_is_told_the_talk(burst: TopicBurst)
    ensures
        ends(
            curator_prompt(burst),
            joined(
                Seq::new(
                    burst.messages@.len(),
                    |i: int|
                        clock_of(burst.messages@[i].timestamp) + " ["@
                            + burst.messages@[i].nickname@ + "]: "@ + burst.messages@[i].content@,
                ),
                "\n"@,
            ),
        ),
        forall|i: int|
            0 <= i < burst.messages@.len() ==> has_text(
                curator_prompt(burst),
                clock_of((#[trigger] burst.messages@[i]).timestamp) + " ["@
                    + burst.messages@[i].nickname@ + "]: "@ + burst.messages@[i].content@,
            ),
        has_text(curator_prompt(burst), burst.group_id@),
{
    let whole = curator_prompt(burst);
    let m = burst.messages@;
    let parts = m.map_values(|x: ChatMessage| logged(x));
    let lines = log_lines(m);
    assert(parts =~= Seq::new(
        m.len(),
        |i: int| clock_of(m[i].timestamp) + " ["@ + m[i].nickname@ + "]: "@ + m[i].content@,
    ));
    let lead = CURATOR_GROUP@ + burst.group_id@ + CURATOR_MESSAGES@;
    assert(whole =~= lead + lines);
    assert(whole.skip(lead.len() as int) =~= lines);
    assert(whole =~= lead + lines + Seq::<char>::empty());
    lemma_occurs_between(lead, lines, Seq::empty());
    assert forall|i: int| 0 <= i < m.len() implies has_text(
        whole,
        clock_of((#[trigger] m[i]).timestamp) + " ["@ + m[i].nickname@ + "]: "@ + m[i].content@,
    ) by {
        lemma_joined_has(parts, "\n"@, parts.len() as int, i);
        lemma_has_trans(whole, lines, parts[i]);
    }
    assert(whole =~= CURATOR_GROUP@ + burst.group_id@ + (CURATOR_MESSAGES@ + lines));
    lemma_occurs_between(CURATOR_GROUP@, burst.group_id@, CURATOR_MESSAGES@ + lines);
}

/// The model is told whom to look into, on which message and in what state, and
/// the earlier messages in order under their heading.
pub proof fn law_investigation_is_told(
    input: DetectiveInput,
    history: Seq<ChatMessage>,
    memory: Seq<Arc<MemoryRecord>>,
    energy: Seq<char>,
    favor: Seq<char>,
)
    ensures
        has_text(
            report_prompt(input, history, memory, energy, favor),
            input.target_user@ + "\n当前消息：\""@ + input.message.content@ + "\"\n精力值："@ + energy
                + "\n好感度："@ + favor + "\n\n历史记录：\n"@,
        ),
        history.len() > 0 ==> has_text(
            report_prompt(input, history, memory, energy, favor),
            "\n\n历史记录：\n"@ + joined(
                Seq::new(
                    history.len(),
                    |i: int|
                        clock_of(history[i].timestamp) + " ["@ + history[i].nickname@ + "]: "@
                            + history[i].content@,
                ),
                "\n"@,
            ),
        ),
        memory.len() > 0 ==> has_text(
            report_prompt(input, history, memory, energy, favor),
            joined(Seq::new(memory.len(), |i: int| "- "@ + memory[i].text@), "\n"@),
        ),
{
    let whole = report_prompt(input, history, memory, energy, favor);
    let body = input.target_user@ + "\n当前消息：\""@ + input.message.content@ + "\"\n精力值："@
        + energy + "\n好感度："@ + favor + "\n\n历史记录：\n"@;
    let h = history_lines(history);
    let m = memory_lines(memory);
    let z = REPORT_FORMAT@ + input.target_user@ + REPORT_REST@;
    assert(whole =~= REPORT_USER@ + body + (h + m + z));
    lemma_occurs_between(REPORT_USER@, body, h + m + z);
    let a = REPORT_USER@ + input.target_user@ + REPORT_MESSAGE@ + input.message.content@
        + REPORT_ENERGY@ + energy + REPORT_FAVOR@ + favor;
    assert(whole =~= a + ("\n\n历史记录：\n"@ + h) + (m + z));
    lemma_occurs_between(a, "\n\n历史记录：\n"@ + h, m + z);
    assert(history.map_values(|x: ChatMessage| logged(x)) =~= Seq::new(
        history.len(),
        |i: int|
            clock_of(history[i].timestamp) + " ["@ + history[i].nickname@ + "]: "@
                + history[i].content@,
    ));
    if memory.len() > 0 {
        let parts = memory.map_values(|r: Arc<MemoryRecord>| recalled(*r));
        assert(parts =~= Seq::new(memory.len(), |i: int| "- "@ + memory[i].text@));
        let lines = joined(parts, "\n"@);
        assert(m =~= REPORT_MEMORY@ + lines);
        let lead = a + ("\n\n历史记录：\n"@ + h) + REPORT_MEMORY@;
        assert(whole =~= lead + lines + z);
        lemma_occurs_between(lead, lines, z);
    }
}

/// The earlier messages of the user in question are looked up, in the group of the
/// message and from before now.
pub proof fn law_history_is_that_of_the_user(
    query: ContextQuery,
    req: DetectiveInput,
    limit: usize,
    now: Timestamp,
)
    requires
        asks_history(query, req, limit, now),
    ensures
        query.group_id@ == req.message.group_id@,
        query.user_id matches Some(u) && u@ == req.target_user@,
        query.before == now,
        query.limit == limit,
{
}

} // verus!
