//! Transcripts: the messages of a session in the order of their timestamps,
//! rendered as Markdown, as plain text or as JSON.

use vstd::prelude::*;
use vstd::string::*;
use vstd::seq_lib::{to_multiset_insert, to_multiset_build};
use crate::json::{
    Json, json_view, json_views, json_pretty, value_of_u64, value_of_text, empty_entries,
    insert_entry, object_of, array_of, pretty_text,
};
use crate::rows::{Message, messages_of};
use crate::store::ConversationStore;
use crate::text::{lex_le, text_le, same_text, lemma_lex_le_total, lemma_lex_le_transitive};

verus! {

/// Why no transcript was made.
#[derive(Debug, Clone, Copy, PartialEq, Eq)]
pub enum ExportError {
    /// The format is none of `markdown`, `txt` and `json`.
    UnsupportedFormat,
    /// The JSON printer reported an error.
    Serialization,
}

/// A rendered transcript and the file suffix that goes with its format.
#[derive(Debug, Clone, PartialEq, Eq)]
pub struct Transcript {
    pub content: String,
    pub suffix: String,
}

/// Puts a message into a list that is ordered by timestamp: behind every
/// message that is not later than it.
pub open spec fn insert_by_time(ordered: Seq<Message>, m: Message) -> Seq<Message>
    decreases ordered.len(),
{
    if ordered.len() == 0 {
        seq![m]
    } else if lex_le(ordered.last().timestamp@, m.timestamp@) {
        ordered.push(m)
    } else {
        insert_by_time(ordered.drop_last(), m).push(ordered.last())
    }
}

/// The messages in ascending order of their timestamps, compared as text;
/// messages with equal timestamps keep the order in which they stand.
pub open spec fn by_time(messages: Seq<Message>) -> Seq<Message>
    decreases messages.len(),
{
    if messages.len() == 0 {
        Seq::<Message>::empty()
    } else {
        insert_by_time(by_time(messages.drop_last()), messages.last())
    }
}

/// Whether messages stand in ascending order of their timestamps.
pub open spec fn ordered_by_time(messages: Seq<Message>) -> bool {
    forall|i: int, j: int|
        0 <= i < j < messages.len() ==> lex_le(
            (#[trigger] messages[i]).timestamp@,
            (#[trigger] messages[j]).timestamp@,
        )
}

/// The place that a message takes in a list ordered by timestamp: behind the
/// last message that is not later than it.
pub open spec fn insert_index(ordered: Seq<Message>, m: Message) -> int
    decreases ordered.len(),
{
    if ordered.len() == 0 {
        0
    } else if lex_le(ordered.last().timestamp@, m.timestamp@) {
        ordered.len() as int
    } else {
        insert_index(ordered.drop_last(), m)
    }
}

/// Putting a message into a list places it at its index and moves nothing
/// else: what stands before it is not later, what stands behind it is later.
pub proof fn lemma_insert_by_time(ordered: Seq<Message>, m: Message)
    ensures
        0 <= insert_index(ordered, m) <= ordered.len(),
        insert_by_time(ordered, m) == ordered.insert(insert_index(ordered, m), m),
        insert_index(ordered, m) > 0 ==> lex_le(
            ordered[insert_index(ordered, m) - 1].timestamp@,
            m.timestamp@,
        ),
        forall|k: int|
            insert_index(ordered, m) <= k < ordered.len() ==> !lex_le(
                (#[trigger] ordered[k]).timestamp@,
                m.timestamp@,
            ),
    decreases ordered.len(),
{
    if ordered.len() == 0 {
        assert(seq![m] =~= ordered.insert(0, m));
    } else if lex_le(ordered.last().timestamp@, m.timestamp@) {
        assert(ordered.push(m) =~= ordered.insert(ordered.len() as int, m));
    } else {
        let front = ordered.drop_last();
        lemma_insert_by_time(front, m);
        let p = insert_index(front, m);
        assert(front.insert(p, m).push(ordered.last()) =~= ordered.insert(p, m));
        assert forall|k: int| p <= k < ordered.len() implies !lex_le(
            (#[trigger] ordered[k]).timestamp@,
            m.timestamp@,
        ) by {
            if k < front.len() {
                assert(front[k] == ordered[k]);
            }
        }
    }
}

/// Putting a message into an ordered list leaves the list ordered.
pub proof fn lemma_insert_keeps_order(ordered: Seq<Message>, m: Message)
    requires
        ordered_by_time(ordered),
    ensures
        ordered_by_time(insert_by_time(ordered, m)),
{
    lemma_insert_by_time(ordered, m);
    let p = insert_index(ordered, m);
    let r = insert_by_time(ordered, m);
    assert forall|i: int, j: int| 0 <= i < j < r.len() implies lex_le(
        (#[trigger] r[i]).timestamp@,
        (#[trigger] r[j]).timestamp@,
    ) by {
        if i == p {
            assert(r[j] == ordered[j - 1]);
            lemma_lex_le_total(m.timestamp@, ordered[j - 1].timestamp@);
        } else if j == p {
            assert(r[i] == ordered[i]);
            if i < p - 1 {
                lemma_lex_le_transitive(
                    ordered[i].timestamp@,
                    ordered[p - 1].timestamp@,
                    m.timestamp@,
                );
            }
        } else {
            let a = if i < p { i } else { i - 1 };
            let b = if j < p { j } else { j - 1 };
            assert(r[i] == ordered[a] && r[j] == ordered[b]);
        }
    }
}

/// The transcript order is ascending by timestamp and holds each message of
/// the input as often as the input does.
pub proof fn lemma_by_time_sorts(messages: Seq<Message>)
    ensures
        ordered_by_time(by_time(messages)),
        by_time(messages).to_multiset() == messages.to_multiset(),
        by_time(messages).len() == messages.len(),
    decreases messages.len(),
{
    if messages.len() == 0 {
        assert(messages =~= Seq::<Message>::empty());
    } else {
        let front = messages.drop_last();
        lemma_by_time_sorts(front);
        lemma_insert_by_time(by_time(front), messages.last());
        lemma_insert_keeps_order(by_time(front), messages.last());
        to_multiset_insert(
            by_time(front),
            insert_index(by_time(front), messages.last()),
            messages.last(),
        );
        to_multiset_build(front, messages.last());
        assert(front.push(messages.last()) =~= messages);
    }
}

/// Messages that already stand in order of time are left as they stand.
pub proof fn lemma_by_time_keeps_ordered(messages: Seq<Message>)
    requires
        ordered_by_time(messages),
    ensures
        by_time(messages) == messages,
    decreases messages.len(),
{
    if messages.len() > 0 {
        let front = messages.drop_last();
        assert forall|i: int, j: int| 0 <= i < j < front.len() implies lex_le(
            (#[trigger] front[i]).timestamp@,
            (#[trigger] front[j]).timestamp@,
        ) by {
            assert(front[i] == messages[i] && front[j] == messages[j]);
        }
        lemma_by_time_keeps_ordered(front);
        if front.len() > 0 {
            assert(front.last() == messages[front.len() - 1]);
            assert(messages.last() == messages[messages.len() - 1]);
        }
        assert(front.push(messages.last()) =~= messages);
    }
}

/// The Markdown paragraph of a message: the author tag `user` reads `User`,
/// every other tag `Gemini`.
pub open spec fn markdown_paragraph(m: Message) -> Seq<char> {
    (if m.from_user@ == "user"@ {
        "**User:** "@
    } else {
        "**Gemini:** "@
    }) + m.text@ + "\n\n"@
}

/// The Markdown transcript: one paragraph per message, each followed by a
/// blank line.
pub open spec fn markdown_text(messages: Seq<Message>) -> Seq<char>
    decreases messages.len(),
{
    if messages.len() == 0 {
        Seq::<char>::empty()
    } else {
        markdown_text(messages.drop_last()) + markdown_paragraph(messages.last())
    }
}

/// The plain-text line of a message: author tag, colon, text.
pub open spec fn plain_line(m: Message) -> Seq<char> {
    m.from_user@ + ": "@ + m.text@ + "\n"@
}

/// The plain-text transcript: one line per message.
pub open spec fn plain_text(messages: Seq<Message>) -> Seq<char>
    decreases messages.len(),
{
    if messages.len() == 0 {
        Seq::<char>::empty()
    } else {
        plain_text(messages.drop_last()) + plain_line(messages.last())
    }
}

/// The JSON object of a message: all five fields of the stored row.
pub open spec fn message_json(m: Message) -> Json {
    Json::Object(
        Map::<Seq<char>, Json>::empty().insert("id"@, Json::Int(m.id as int)).insert(
            "session_id"@,
            Json::Int(m.session_id as int),
        ).insert("text"@, Json::Text(m.text@)).insert("from_user"@, Json::Text(m.from_user@)).insert(
            "timestamp"@,
            Json::Text(m.timestamp@),
        ),
    )
}

/// The JSON document of a transcript: the array of the messages' objects.
pub open spec fn messages_json(messages: Seq<Message>) -> Json {
    Json::Array(Seq::new(messages.len(), |i: int| message_json(messages[i])))
}

pub struct TranscriptView {
    pub content: Seq<char>,
    pub suffix: Seq<char>,
}

impl View for Transcript {
    type V = TranscriptView;

    open spec fn view(&self) -> TranscriptView {
        TranscriptView { content: self.content@, suffix: self.suffix@ }
    }
}

/// The outcome of printing the JSON transcript.
pub open spec fn json_transcript(printed: Option<Seq<char>>) -> Result<
    TranscriptView,
    ExportError,
> {
    match printed {
        Some(content) => Ok(TranscriptView { content, suffix: "json"@ }),
        None => Err(ExportError::Serialization),
    }
}

/// The transcript of messages that stand in the order of the rows, in a
/// format: the messages are put in order of time and rendered; a format
/// other than `markdown`, `txt` and `json` is refused.
pub open spec fn transcript_of(messages: Seq<Message>, format: Seq<char>) -> Result<
    TranscriptView,
    ExportError,
> {
    if format == "markdown"@ {
        Ok(TranscriptView { content: markdown_text(by_time(messages)), suffix: "md"@ })
    } else if format == "txt"@ {
        Ok(TranscriptView { content: plain_text(by_time(messages)), suffix: "txt"@ })
    } else if format == "json"@ {
        json_transcript(json_pretty(messages_json(by_time(messages))))
    } else {
        Err(ExportError::UnsupportedFormat)
    }
}

/// Whether a result is the given transcript or error.
pub open spec fn transcript_matches(
    r: Result<Transcript, ExportError>,
    expected: Result<TranscriptView, ExportError>,
) -> bool {
    match r {
        Ok(t) => expected == Ok::<TranscriptView, ExportError>(t@),
        Err(e) => expected == Err::<TranscriptView, ExportError>(e),
    }
}

/// Whether a format is one that can be exported.
pub fn is_supported_format(format: &str) -> (r: bool)
    ensures
        r == (format@ == "markdown"@ || format@ == "txt"@ || format@ == "json"@),
{
    same_text(format, "markdown") || same_text(format, "txt") || same_text(format, "json")
}

fn insert_position(ordered: &Vec<Message>, m: &Message) -> (p: usize)
    ensures
        p <= ordered@.len(),
        insert_by_time(ordered@, *m) == ordered@.insert(p as int, *m),
{
    let mut p: usize = ordered.len();
    let mut found = false;
    assert(ordered@.subrange(0, p as int) =~= ordered@);
    assert(insert_by_time(ordered@, *m) =~= insert_by_time(ordered@.subrange(0, p as int), *m)
        + ordered@.subrange(p as int, ordered@.len() as int));
    while p > 0 && !found
        invariant
            p <= ordered@.len(),
            insert_by_time(ordered@, *m) == insert_by_time(ordered@.subrange(0, p as int), *m)
                + ordered@.subrange(p as int, ordered@.len() as int),
            found ==> p > 0 && lex_le(ordered@[p - 1].timestamp@, m.timestamp@),
        decreases p + (if found { 0int } else { 1int }),
    {
        let ghost front = ordered@.subrange(0, p as int);
        assert(front.last() == ordered@[p - 1]);
        if text_le(ordered[p - 1].timestamp.as_str(), m.timestamp.as_str()) {
            found = true;
        } else {
            assert(front.drop_last() =~= ordered@.subrange(0, p - 1));
            assert(insert_by_time(front, *m) == insert_by_time(front.drop_last(), *m).push(
                front.last(),
            ));
            assert(insert_by_time(front, *m) + ordered@.subrange(p as int, ordered@.len() as int)
                =~= insert_by_time(ordered@.subrange(0, p - 1), *m) + ordered@.subrange(
                p - 1,
                ordered@.len() as int,
            ));
            p -= 1;
        }
    }
    proof {
        let front = ordered@.subrange(0, p as int);
        if p > 0 {
            assert(front.last() == ordered@[p - 1]);
        }
        assert(insert_by_time(front, *m) =~= front.push(*m));
        assert(front.push(*m) + ordered@.subrange(p as int, ordered@.len() as int)
            =~= ordered@.insert(p as int, *m));
    }
    p
}

/// Copies messages into ascending order of their timestamps; messages with
/// equal timestamps keep their order.
pub fn order_by_time(messages: &Vec<Message>) -> (r: Vec<Message>)
    ensures
        r@ == by_time(messages@),
        ordered_by_time(r@),
        r@.to_multiset() == messages@.to_multiset(),
{
    proof {
        lemma_by_time_sorts(messages@);
    }
    let mut out: Vec<Message> = Vec::new();
    let mut i: usize = 0;
    while i < messages.len()
        invariant
            i <= messages.len(),
            out@ == by_time(messages@.subrange(0, i as int)),
        decreases messages.len() - i,
    {
        let m = messages[i].clone();
        let p = insert_position(&out, &m);
        out.insert(p, m);
        i += 1;
        assert(messages@.subrange(0, i as int).drop_last() =~= messages@.subrange(0, i - 1));
    }
    assert(messages@.subrange(0, i as int) =~= messages@);
    out
}

/// Renders messages as Markdown, in the order in which they stand.
pub fn render_markdown(messages: &Vec<Message>) -> (r: String)
    ensures
        r@ == markdown_text(messages@),
{
    let mut content = String::new();
    let mut i: usize = 0;
    while i < messages.len()
        invariant
            i <= messages.len(),
            content@ == markdown_text(messages@.subrange(0, i as int)),
        decreases messages.len() - i,
    {
        let ghost before = content@;
        let m = &messages[i];
        if same_text(m.from_user.as_str(), "user") {
            content.append("**User:** ");
        } else {
            content.append("**Gemini:** ");
        }
        content.append(m.text.as_str());
        content.append("\n\n");
        i += 1;
        assert(messages@.subrange(0, i as int).drop_last() =~= messages@.subrange(0, i - 1));
        assert(content@ =~= before + markdown_paragraph(*m));
    }
    assert(messages@.subrange(0, i as int) =~= messages@);
    content
}

/// Renders messages as plain text, in the order in which they stand.
pub fn render_plain(messages: &Vec<Message>) -> (r: String)
    ensures
        r@ == plain_text(messages@),
{
    let mut content = String::new();
    let mut i: usize = 0;
    while i < messages.len()
        invariant
            i <= messages.len(),
            content@ == plain_text(messages@.subrange(0, i as int)),
        decreases messages.len() - i,
    {
        let ghost before = content@;
        let m = &messages[i];
        content.append(m.from_user.as_str());
        content.append(": ");
        content.append(m.text.as_str());
        content.append("\n");
        i += 1;
        assert(messages@.subrange(0, i as int).drop_last() =~= messages@.subrange(0, i - 1));
        assert(content@ =~= before + plain_line(*m));
    }
    assert(messages@.subrange(0, i as int) =~= messages@);
    content
}

/// Builds the JSON object of a message.
pub fn message_value(m: &Message) -> (r: serde_json::Value)
    ensures
        json_view(r) == message_json(*m),
{
    let mut entries = empty_entries();
    insert_entry(&mut entries, "id", value_of_u64(m.id));
    insert_entry(&mut entries, "session_id", value_of_u64(m.session_id));
    insert_entry(&mut entries, "text", value_of_text(m.text.as_str()));
    insert_entry(&mut entries, "from_user", value_of_text(m.from_user.as_str()));
    insert_entry(&mut entries, "timestamp", value_of_text(m.timestamp.as_str()));
    object_of(entries)
}

/// Builds the JSON document of messages, in the order in which they stand.
pub fn messages_value(messages: &Vec<Message>) -> (r: serde_json::Value)
    ensures
        json_view(r) == messages_json(messages@),
{
    let mut items: Vec<serde_json::Value> = Vec::new();
    let mut i: usize = 0;
    while i < messages.len()
        invariant
            i <= messages.len(),
            items@.len() == i,
            forall|j: int| 0 <= j < i ==> json_view(#[trigger] items@[j]) == message_json(messages@[j]),
        decreases messages.len() - i,
    {
        items.push(message_value(&messages[i]));
        i += 1;
    }
    assert(json_views(items@) =~= Seq::new(
        messages@.len(),
        |i: int| message_json(messages@[i]),
    ));
    array_of(items)
}

/// Turns what the JSON printer gave into the transcript or the error.
pub fn finish_json(printed: Option<String>) -> (r: Result<Transcript, ExportError>)
    ensures
        transcript_matches(
            r,
            json_transcript(
                match printed {
                    Some(text) => Some(text@),
                    None => None,
                },
            ),
        ),
{
    match printed {
        Some(content) => Ok(Transcript { content, suffix: "json".to_owned() }),
        None => Err(ExportError::Serialization),
    }
}

/// Renders messages in a format, after putting them in order of time. The
/// JSON transcript holds the full stored rows.
pub fn render(messages: &Vec<Message>, format: &str) -> (r: Result<Transcript, ExportError>)
    ensures
        transcript_matches(r, transcript_of(messages@, format@)),
        r matches Err(ExportError::UnsupportedFormat) <==> !(format@ == "markdown"@ || format@
            == "txt"@ || format@ == "json"@),
        (format@ == "markdown"@ || format@ == "txt"@) ==> r is Ok,
{
    if same_text(format, "markdown") {
        let ordered = order_by_time(messages);
        Ok(Transcript { content: render_markdown(&ordered), suffix: "md".to_owned() })
    } else if same_text(format, "txt") {
        let ordered = order_by_time(messages);
        Ok(Transcript { content: render_plain(&ordered), suffix: "txt".to_owned() })
    } else if same_text(format, "json") {
        let ordered = order_by_time(messages);
        let document = messages_value(&ordered);
        finish_json(pretty_text(&document))
    } else {
        Err(ExportError::UnsupportedFormat)
    }
}

impl ConversationStore {
    /// The transcript of a session in a format. The store is only read.
    pub fn export(&self, session_id: u64, format: &str) -> (r: Result<Transcript, ExportError>)
        requires
            self.wf(),
        ensures
            transcript_matches(
                r,
                transcript_of(messages_of(self.messages(), session_id), format@),
            ),
            r matches Err(ExportError::UnsupportedFormat) <==> !(format@ == "markdown"@ || format@
                == "txt"@ || format@ == "json"@),
            (format@ == "markdown"@ || format@ == "txt"@) ==> r is Ok,
    {
        if !is_supported_format(format) {
            return Err(ExportError::UnsupportedFormat);
        }
        let messages = self.list_messages(session_id);
        render(&messages, format)
    }
}

} // verus!
