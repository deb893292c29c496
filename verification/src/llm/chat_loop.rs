//! One chat turn: the user's message (with a nudge toward the tools when it
//! is about the system), then completions and tool calls until the model
//! gives a final answer or the iteration budget runs out.
//!
//! The application streams each completion and runs each tool; the decisions
//! between those steps are made here.
use vstd::prelude::*;

use super::client::{
    assistant_role, duplicate_calls, is_plain_message, system_role, tool_role, user_role,
    ChatMessage, StreamResult, ToolCall,
};
use crate::text::{alphanumeric, chars_equal, chars_of, is_alphanumeric, lowercase_of, to_lowercase};
use crate::tools::{lookup, tool_is_panel, ToolRegistry};

verus! {

/// How many completions one turn may request.
pub const MAX_TOOL_ITERATIONS: usize = 4;

/// Sent to the model in place of a display-panel tool's real result.
pub const DISPLAY_PANEL_PLACEHOLDER: &'static str = "{\"status\":\"success\",\"note\":\"Shown directly to the user in a panel \u{2014} don't restate the specific values, just briefly acknowledge it.\"}";

/// Appended to a user message that is about the system or its hardware.
pub const TOOL_REMINDER: &'static str = "\n\n(Remember: you have get_system_info and list_processes tools available for questions like this \u{2014} call the appropriate one to get real data rather than guessing or just saying you will.)";

/// The error of a turn that used up its completions on tool calls.
pub const TOOL_LOOP_EXHAUSTED: &'static str = "exceeded max tool-call iterations without a final response";

/// What the assistant is doing, for the front end to show.
pub enum ChatPhase {
    Thinking,
    CallingTool { name: String },
}

impl ChatPhase {
    /// The status text sent to the front end: `thinking`, or
    /// `calling_tool:` followed by the tool's name.
    pub fn status_text(&self) -> (r: String)
        ensures
            r@ == match self {
                ChatPhase::Thinking => "thinking"@,
                ChatPhase::CallingTool { name } => "calling_tool:"@ + name@,
            },
    {
        match self {
            ChatPhase::Thinking => "thinking".to_owned(),
            ChatPhase::CallingTool { name } => {
                let mut v = chars_of("calling_tool:");
                crate::text::push_str(&mut v, name.as_str());
                crate::text::string_from_chars(&v)
            },
        }
    }
}

/// A fresh conversation holding only the system prompt.
pub fn new_conversation(system_prompt: &str) -> (r: Vec<ChatMessage>)
    ensures
        r@.len() == 1,
        is_plain_message(r@[0], system_role(), system_prompt@),
{
    let mut v: Vec<ChatMessage> = Vec::new();
    v.push(ChatMessage::system(system_prompt.to_owned()));
    v
}

// ---------------------------------------------------------------------------
// Recognising questions about the system
// ---------------------------------------------------------------------------

/// Reading `s` left to right: the words finished so far and the word in
/// progress. A word is a maximal run of alphanumeric characters.
pub open spec fn word_state(s: Seq<char>) -> (Seq<Seq<char>>, Seq<char>)
    decreases s.len(),
{
    if s.len() == 0 {
        (Seq::empty(), Seq::empty())
    } else {
        let (words, cur) = word_state(s.drop_last());
        let c = s.last();
        if alphanumeric(c) {
            (words, cur.push(c))
        } else if cur.len() > 0 {
            (words.push(cur), Seq::empty())
        } else {
            (words, Seq::empty())
        }
    }
}

/// The words of `s`: its maximal runs of alphanumeric characters, in order
/// (what splitting at every other character and dropping the empty pieces
/// gives).
pub open spec fn words(s: Seq<char>) -> Seq<Seq<char>> {
    let (w, cur) = word_state(s);
    if cur.len() > 0 {
        w.push(cur)
    } else {
        w
    }
}

proof fn lemma_word_state_whole_words(s: Seq<char>)
    ensures
        forall|i: int|
            0 <= i < word_state(s).0.len() ==> #[trigger] word_state(s).0[i].len() > 0 && forall|k: int|
                0 <= k < word_state(s).0[i].len() ==> alphanumeric(#[trigger] word_state(s).0[i][k]),
        forall|k: int| 0 <= k < word_state(s).1.len() ==> alphanumeric(#[trigger] word_state(s).1[k]),
    decreases s.len(),
{
    if s.len() > 0 {
        lemma_word_state_whole_words(s.drop_last());
        let (w, cur) = word_state(s.drop_last());
        let c = s.last();
        if alphanumeric(c) {
            assert forall|k: int| 0 <= k < cur.push(c).len() implies alphanumeric(#[trigger] cur.push(c)[k]) by {
                if k < cur.len() {
                    assert(cur.push(c)[k] == cur[k]);
                }
            }
        } else if cur.len() > 0 {
            assert forall|i: int| 0 <= i < w.push(cur).len() implies #[trigger] w.push(cur)[i].len() > 0
                && forall|k: int| 0 <= k < w.push(cur)[i].len() ==> alphanumeric(#[trigger] w.push(cur)[i][k]) by {
                if i < w.len() {
                    assert(w.push(cur)[i] == w[i]);
                }
            }
        }
    }
}

/// Tokens are whole words: each is non-empty and made only of alphanumeric
/// characters (so a topic word inside a longer word never counts as one).
pub proof fn law_tokens_are_whole_words(s: Seq<char>)
    ensures
        forall|i: int|
            0 <= i < words(s).len() ==> #[trigger] words(s)[i].len() > 0 && forall|k: int|
                0 <= k < words(s)[i].len() ==> alphanumeric(#[trigger] words(s)[i][k]),
{
    lemma_word_state_whole_words(s);
    let (w, cur) = word_state(s);
    if cur.len() > 0 {
        assert forall|i: int| 0 <= i < w.push(cur).len() implies #[trigger] w.push(cur)[i].len() > 0
            && forall|k: int| 0 <= k < w.push(cur)[i].len() ==> alphanumeric(#[trigger] w.push(cur)[i][k]) by {
            if i < w.len() {
                assert(w.push(cur)[i] == w[i]);
            }
        }
    }
}

/// The tokens of a message: the words of its lower-cased text.
pub open spec fn message_tokens(message: Seq<char>) -> Seq<Seq<char>> {
    words(lowercase_of(message))
}

/// The views of a vector of character vectors.
pub open spec fn views(v: Seq<Vec<char>>) -> Seq<Seq<char>> {
    v.map_values(|t: Vec<char>| t@)
}

/// The words of `text`: its maximal runs of alphanumeric characters.
pub fn split_words(text: &Vec<char>) -> (r: Vec<Vec<char>>)
    ensures
        views(r@) == words(text@),
{
    let mut done: Vec<Vec<char>> = Vec::new();
    let mut cur: Vec<char> = Vec::new();
    let mut i: usize = 0;
    assert(text@.take(0) =~= Seq::<char>::empty());
    while i < text.len()
        invariant
            i <= text.len(),
            (views(done@), cur@) == word_state(text@.take(i as int)),
        decreases text.len() - i,
    {
        let c = text[i];
        let ghost before = text@.take(i as int);
        let ghost after = text@.take(i + 1);
        assert(after.drop_last() =~= before);
        assert(after.last() == c);
        if is_alphanumeric(c) {
            cur.push(c);
        } else if cur.len() > 0 {
            let mut word: Vec<char> = Vec::new();
            std::mem::swap(&mut word, &mut cur);
            let ghost prev = done@;
            done.push(word);
            assert(views(done@) =~= views(prev).push(word@));
        }
        i = i + 1;
    }
    assert(text@.take(i as int) =~= text@);
    if cur.len() > 0 {
        let ghost prev = done@;
        done.push(cur);
        assert(views(done@) =~= views(prev).push(done@.last()@));
    }
    done
}

/// The tokens of `message`: the words of its lower-cased text.
pub fn tokenize(message: &str) -> (r: Vec<Vec<char>>)
    ensures
        views(r@) == message_tokens(message@),
{
    let lower = to_lowercase(message);
    let cs = chars_of(lower.as_str());
    split_words(&cs)
}

/// The single words that mark a message as being about the system.
pub open spec fn topic_words() -> Seq<Seq<char>> {
    seq![
        "sysinfo"@,
        "ram"@,
        "memory"@,
        "cpu"@,
        "processor"@,
        "kernel"@,
        "hostname"@,
        "hardware"@,
        "specs"@,
        "processes"@,
        "os"@,
    ]
}

/// The word pairs that mark a message as being about the system.
pub open spec fn topic_phrases() -> Seq<Seq<Seq<char>>> {
    seq![
        seq!["system"@, "info"@],
        seq!["disk"@, "space"@],
        seq!["disk"@, "usage"@],
        seq!["storage"@, "space"@],
        seq!["operating"@, "system"@],
        seq!["host"@, "name"@],
        seq!["process"@, "list"@],
        seq!["running"@, "process"@],
        seq!["free"@, "space"@],
    ]
}

/// `phrase` occurs as consecutive tokens of `tokens`.
pub open spec fn has_phrase(tokens: Seq<Seq<char>>, phrase: Seq<Seq<char>>) -> bool {
    exists|i: int|
        0 <= i && i + phrase.len() <= tokens.len() && #[trigger] tokens.subrange(i, i + phrase.len())
            == phrase
}

/// Tokens are about the system when one of them is a topic word or a topic
/// phrase occurs among them, whole tokens only.
pub open spec fn tokens_mention_topic(t: Seq<Seq<char>>) -> bool {
    ||| exists|i: int| 0 <= i < t.len() && topic_words().contains(#[trigger] t[i])
    ||| exists|j: int| 0 <= j < topic_phrases().len() && has_phrase(t, #[trigger] topic_phrases()[j])
}

/// A message is about the system when its tokens are.
pub open spec fn is_system_topic(message: Seq<char>) -> bool {
    tokens_mention_topic(message_tokens(message))
}

fn topic_word_list() -> (r: Vec<Vec<char>>)
    ensures
        views(r@) == topic_words(),
{
    let mut r: Vec<Vec<char>> = Vec::new();
    r.push(chars_of("sysinfo"));
    r.push(chars_of("ram"));
    r.push(chars_of("memory"));
    r.push(chars_of("cpu"));
    r.push(chars_of("processor"));
    r.push(chars_of("kernel"));
    r.push(chars_of("hostname"));
    r.push(chars_of("hardware"));
    r.push(chars_of("specs"));
    r.push(chars_of("processes"));
    r.push(chars_of("os"));
    assert(views(r@) =~= topic_words());
    r
}

fn pair(a: &str, b: &str) -> (r: Vec<Vec<char>>)
    ensures
        views(r@) == seq![a@, b@],
        r@.len() == 2,
{
    let mut r: Vec<Vec<char>> = Vec::new();
    r.push(chars_of(a));
    r.push(chars_of(b));
    assert(views(r@) =~= seq![a@, b@]);
    r
}

fn topic_phrase_list() -> (r: Vec<Vec<Vec<char>>>)
    ensures
        r@.len() == topic_phrases().len(),
        forall|j: int| 0 <= j < r@.len() ==> views(#[trigger] r@[j]@) == topic_phrases()[j],
        forall|j: int| 0 <= j < r@.len() ==> #[trigger] r@[j]@.len() > 0,
{
    let mut r: Vec<Vec<Vec<char>>> = Vec::new();
    r.push(pair("system", "info"));
    r.push(pair("disk", "space"));
    r.push(pair("disk", "usage"));
    r.push(pair("storage", "space"));
    r.push(pair("operating", "system"));
    r.push(pair("host", "name"));
    r.push(pair("process", "list"));
    r.push(pair("running", "process"));
    r.push(pair("free", "space"));
    r
}

/// Whether tokens `tokens[start..start + phrase.len()]` are `phrase`.
fn phrase_at(tokens: &Vec<Vec<char>>, phrase: &Vec<Vec<char>>, start: usize) -> (r: bool)
    requires
        start + phrase.len() <= tokens.len(),
    ensures
        r == (views(tokens@).subrange(start as int, start + phrase@.len()) == views(phrase@)),
{
    let ghost window = views(tokens@).subrange(start as int, start + phrase@.len());
    let mut k: usize = 0;
    while k < phrase.len()
        invariant
            start + phrase.len() <= tokens.len(),
            k <= phrase.len(),
            window == views(tokens@).subrange(start as int, start + phrase@.len()),
            forall|m: int| 0 <= m < k ==> window[m] == views(phrase@)[m],
        decreases phrase.len() - k,
    {
        if !chars_equal(&tokens[start + k], &phrase[k]) {
            assert(window[k as int] == tokens@[start + k]@);
            assert(window[k as int] != views(phrase@)[k as int]);
            return false;
        }
        k = k + 1;
    }
    assert(window =~= views(phrase@));
    true
}

/// Whether `phrase` (non-empty) occurs as consecutive tokens of `tokens`.
pub fn contains_phrase(tokens: &Vec<Vec<char>>, phrase: &Vec<Vec<char>>) -> (r: bool)
    requires
        phrase.len() > 0,
    ensures
        r == has_phrase(views(tokens@), views(phrase@)),
{
    if phrase.len() > tokens.len() {
        return false;
    }
    let last = tokens.len() - phrase.len();
    let mut i: usize = 0;
    loop
        invariant
            last == tokens.len() - phrase.len(),
            phrase.len() <= tokens.len(),
            i <= last,
            forall|k: int|
                0 <= k < i ==> #[trigger] views(tokens@).subrange(k, k + phrase@.len()) != views(
                    phrase@,
                ),
        ensures
            forall|k: int|
                0 <= k <= last ==> #[trigger] views(tokens@).subrange(k, k + phrase@.len()) != views(
                    phrase@,
                ),
        decreases last - i,
    {
        if phrase_at(tokens, phrase, i) {
            assert(views(phrase@).len() == phrase@.len());
            assert(views(tokens@).len() == tokens@.len());
            assert(views(tokens@).subrange(i as int, i + views(phrase@).len()) == views(phrase@));
            return true;
        }
        if i == last {
            break;
        }
        i = i + 1;
    }
    assert(views(phrase@).len() == phrase@.len());
    assert(views(tokens@).len() == tokens@.len());
    false
}

/// Whether the tokens `tokens` (lower-cased words) mention the system, its
/// hardware or its processes.
pub fn mentions_topic_tokens(tokens: &Vec<Vec<char>>) -> (r: bool)
    ensures
        r == tokens_mention_topic(views(tokens@)),
{
    let topic = topic_word_list();
    let mut i: usize = 0;
    while i < tokens.len()
        invariant
            i <= tokens.len(),
            views(topic@) == topic_words(),
            forall|k: int| 0 <= k < i ==> !topic_words().contains(#[trigger] views(tokens@)[k]),
        decreases tokens.len() - i,
    {
        let mut w: usize = 0;
        while w < topic.len()
            invariant
                i < tokens.len(),
                w <= topic.len(),
                views(topic@) == topic_words(),
                forall|m: int| 0 <= m < w ==> topic_words()[m] != tokens@[i as int]@,
            decreases topic.len() - w,
        {
            if chars_equal(&tokens[i], &topic[w]) {
                assert(views(tokens@)[i as int] == topic_words()[w as int]);
                assert(topic_words().contains(views(tokens@)[i as int]));
                return true;
            }
            w = w + 1;
        }
        assert(!topic_words().contains(views(tokens@)[i as int]));
        i = i + 1;
    }
    let phrases = topic_phrase_list();
    let mut j: usize = 0;
    while j < phrases.len()
        invariant
            j <= phrases.len(),
            phrases@.len() == topic_phrases().len(),
            forall|m: int| 0 <= m < phrases@.len() ==> views(#[trigger] phrases@[m]@) == topic_phrases()[m],
            forall|m: int| 0 <= m < phrases@.len() ==> #[trigger] phrases@[m]@.len() > 0,
            forall|m: int| 0 <= m < j ==> !has_phrase(views(tokens@), #[trigger] topic_phrases()[m]),
        decreases phrases.len() - j,
    {
        assert(views(phrases@[j as int]@) == topic_phrases()[j as int]);
        if contains_phrase(tokens, &phrases[j]) {
            return true;
        }
        j = j + 1;
    }
    false
}

/// Whether `message` is about the system, its hardware or its processes.
pub fn mentions_system_topic(message: &str) -> (r: bool)
    ensures
        r == is_system_topic(message@),
{
    let tokens = tokenize(message);
    mentions_topic_tokens(&tokens)
}

proof fn lemma_topic_word(x: Seq<char>)
    ensures
        topic_words().contains(x) <==> (x == "sysinfo"@ || x == "ram"@ || x == "memory"@ || x
            == "cpu"@ || x == "processor"@ || x == "kernel"@ || x == "hostname"@ || x
            == "hardware"@ || x == "specs"@ || x == "processes"@ || x == "os"@),
{
    let w = topic_words();
    assert(w[0] == "sysinfo"@);
    assert(w[1] == "ram"@);
    assert(w[2] == "memory"@);
    assert(w[3] == "cpu"@);
    assert(w[4] == "processor"@);
    assert(w[5] == "kernel"@);
    assert(w[6] == "hostname"@);
    assert(w[7] == "hardware"@);
    assert(w[8] == "specs"@);
    assert(w[9] == "processes"@);
    assert(w[10] == "os"@);
    if w.contains(x) {
        let k = choose|k: int| 0 <= k < w.len() && w[k] == x;
        assert(w.len() == 11);
    }
}

proof fn lemma_topic_pair(t: Seq<Seq<char>>, i: int, a: Seq<char>, b: Seq<char>)
    requires
        0 <= i,
        i + 1 < t.len(),
        t[i] == a,
        t[i + 1] == b,
    ensures
        has_phrase(t, seq![a, b]),
{
    assert(t.subrange(i, i + 2) =~= seq![a, b]);
}

/// A message is about the system exactly when one of its lower-cased words
/// is sysinfo, ram, memory, cpu, processor, kernel, hostname, hardware,
/// specs, processes or os, or two consecutive ones are system info, disk
/// space, disk usage, storage space, operating system, host name, process
/// list, running process or free space.
pub proof fn law_system_topics(message: Seq<char>)
    ensures
        is_system_topic(message) <==> {
            let t = message_tokens(message);
            ||| exists|i: int|
                0 <= i < t.len() && {
                    let x = #[trigger] t[i];
                    ||| x == "sysinfo"@
                    ||| x == "ram"@
                    ||| x == "memory"@
                    ||| x == "cpu"@
                    ||| x == "processor"@
                    ||| x == "kernel"@
                    ||| x == "hostname"@
                    ||| x == "hardware"@
                    ||| x == "specs"@
                    ||| x == "processes"@
                    ||| x == "os"@
                }
            ||| exists|i: int|
                0 <= i && i + 1 < t.len() && {
                    let (x, y) = (#[trigger] t[i], t[i + 1]);
                    ||| x == "system"@ && y == "info"@
                    ||| x == "disk"@ && y == "space"@
                    ||| x == "disk"@ && y == "usage"@
                    ||| x == "storage"@ && y == "space"@
                    ||| x == "operating"@ && y == "system"@
                    ||| x == "host"@ && y == "name"@
                    ||| x == "process"@ && y == "list"@
                    ||| x == "running"@ && y == "process"@
                    ||| x == "free"@ && y == "space"@
                }
        },
{
    let t = message_tokens(message);
    let ps = topic_phrases();
    assert(ps[0] == seq!["system"@, "info"@]);
    assert(ps[1] == seq!["disk"@, "space"@]);
    assert(ps[2] == seq!["disk"@, "usage"@]);
    assert(ps[3] == seq!["storage"@, "space"@]);
    assert(ps[4] == seq!["operating"@, "system"@]);
    assert(ps[5] == seq!["host"@, "name"@]);
    assert(ps[6] == seq!["process"@, "list"@]);
    assert(ps[7] == seq!["running"@, "process"@]);
    assert(ps[8] == seq!["free"@, "space"@]);
    assert(ps.len() == 9);
    if exists|i: int| 0 <= i < t.len() && topic_words().contains(#[trigger] t[i]) {
        let i = choose|i: int| 0 <= i < t.len() && topic_words().contains(#[trigger] t[i]);
        lemma_topic_word(t[i]);
    }
    if exists|j: int| 0 <= j < ps.len() && has_phrase(t, #[trigger] ps[j]) {
        let j = choose|j: int| 0 <= j < ps.len() && has_phrase(t, #[trigger] ps[j]);
        let p = ps[j];
        let i = choose|i: int| 0 <= i && i + p.len() <= t.len() && #[trigger] t.subrange(i, i + p.len()) == p;
        assert(p.len() == 2);
        assert(t[i] == t.subrange(i, i + 2)[0]);
        assert(t[i + 1] == t.subrange(i, i + 2)[1]);
    }
    assert forall|i: int| 0 <= i < t.len() implies (#[trigger] topic_words().contains(t[i])
        <==> {
        let x = t[i];
        ||| x == "sysinfo"@
        ||| x == "ram"@
        ||| x == "memory"@
        ||| x == "cpu"@
        ||| x == "processor"@
        ||| x == "kernel"@
        ||| x == "hostname"@
        ||| x == "hardware"@
        ||| x == "specs"@
        ||| x == "processes"@
        ||| x == "os"@
    }) by {
        lemma_topic_word(t[i]);
    }
    assert forall|i: int| 0 <= i && i + 1 < t.len() implies {
        let (x, y) = (#[trigger] t[i], t[i + 1]);
        (x == "system"@ && y == "info"@ ==> has_phrase(t, ps[0]))
        && (x == "disk"@ && y == "space"@ ==> has_phrase(t, ps[1]))
        && (x == "disk"@ && y == "usage"@ ==> has_phrase(t, ps[2]))
        && (x == "storage"@ && y == "space"@ ==> has_phrase(t, ps[3]))
        && (x == "operating"@ && y == "system"@ ==> has_phrase(t, ps[4]))
        && (x == "host"@ && y == "name"@ ==> has_phrase(t, ps[5]))
        && (x == "process"@ && y == "list"@ ==> has_phrase(t, ps[6]))
        && (x == "running"@ && y == "process"@ ==> has_phrase(t, ps[7]))
        && (x == "free"@ && y == "space"@ ==> has_phrase(t, ps[8]))
    } by {
        lemma_topic_pair(t, i, t[i], t[i + 1]);
    }
}

/// The user's message as it goes to the model: with the tool reminder
/// appended when it is about the system.
pub fn with_tool_reminder(user_message: String) -> (r: String)
    ensures
        r@ == if is_system_topic(user_message@) {
            user_message@ + TOOL_REMINDER@
        } else {
            user_message@
        },
{
    if mentions_system_topic(user_message.as_str()) {
        let mut v = chars_of(user_message.as_str());
        crate::text::push_str(&mut v, TOOL_REMINDER);
        crate::text::string_from_chars(&v)
    } else {
        user_message
    }
}

// ---------------------------------------------------------------------------
// The turn itself
// ---------------------------------------------------------------------------

/// `segment` is the message segment to show for a completion with text
/// `content`: the text itself, or nothing when the text is empty.
pub open spec fn is_segment_of(segment: Option<String>, content: Seq<char>) -> bool {
    match segment {
        Some(s) => content.len() > 0 && s@ == content,
        None => content.len() == 0,
    }
}

/// `new` is `old` with one more message at the end.
pub open spec fn appended_one(old: Seq<ChatMessage>, new: Seq<ChatMessage>) -> bool {
    new.len() == old.len() + 1 && new.take(old.len() as int) == old
}

/// What a finished completion leads to.
pub enum CompletionOutcome {
    /// The model answered without calling tools: the turn is over.
    Finished { segment: Option<String> },
    /// The model asked for tools: each is to be run and its result recorded,
    /// then another completion requested.
    CallTools { segment: Option<String>, calls: Vec<ToolCall> },
}

/// The progress of one chat turn: how many completions it has used.
pub struct ChatTurn {
    completions: usize,
}

/// Starts a turn: appends the user's message (with the tool reminder when it
/// is about the system) to the history.
pub fn begin_chat_turn(history: &mut Vec<ChatMessage>, user_message: String) -> (r: ChatTurn)
    ensures
        r.completions() == 0,
        appended_one(old(history)@, final(history)@),
        is_plain_message(
            final(history)@.last(),
            user_role(),
            if is_system_topic(user_message@) {
                user_message@ + TOOL_REMINDER@
            } else {
                user_message@
            },
        ),
{
    let text = with_tool_reminder(user_message);
    history.push(ChatMessage::user(text));
    assert(history@.take(old(history)@.len() as int) =~= old(history)@);
    ChatTurn { completions: 0 }
}

impl ChatTurn {
    /// How many completions this turn has requested.
    pub closed spec fn completions(&self) -> nat {
        self.completions as nat
    }

    /// Whether another completion may be requested.
    pub fn may_request(&self) -> (r: bool)
        ensures
            r == (self.completions() < MAX_TOOL_ITERATIONS),
    {
        self.completions < MAX_TOOL_ITERATIONS
    }

    /// Records a finished completion: appends the assistant's message to the
    /// history and says whether the turn is over or tools are to run. Its
    /// text, when there is any, is a segment to show on its own.
    pub fn record_completion(&mut self, history: &mut Vec<ChatMessage>, result: StreamResult) -> (r:
        CompletionOutcome)
        requires
            old(self).completions() < MAX_TOOL_ITERATIONS,
        ensures
            final(self).completions() == old(self).completions() + 1,
            appended_one(old(history)@, final(history)@),
            final(history)@.last().role@ == assistant_role(),
            final(history)@.last().content@ == result.content@,
            final(history)@.last().tool_calls@ == result.tool_calls@,
            final(history)@.last().tool_call_id is None,
            match r {
                CompletionOutcome::Finished { segment } => {
                    &&& result.tool_calls@.len() == 0
                    &&& is_segment_of(segment, result.content@)
                },
                CompletionOutcome::CallTools { segment, calls } => {
                    &&& result.tool_calls@.len() > 0
                    &&& is_segment_of(segment, result.content@)
                    &&& calls@ == result.tool_calls@
                },
            },
    {
        self.completions = self.completions + 1;
        let has_text = !result.content.as_str().is_empty();
        let segment = if has_text {
            Some(result.content.clone())
        } else {
            None
        };
        if result.tool_calls.len() == 0 {
            history.push(ChatMessage::assistant(result.content));
            assert(history@.take(old(history)@.len() as int) =~= old(history)@);
            CompletionOutcome::Finished { segment }
        } else {
            let calls = duplicate_calls(&result.tool_calls);
            let content = if has_text {
                Some(result.content)
            } else {
                None
            };
            history.push(ChatMessage::assistant_tool_calls(content, result.tool_calls));
            assert(history@.take(old(history)@.len() as int) =~= old(history)@);
            CompletionOutcome::CallTools { segment, calls }
        }
    }
}

/// The history text of a tool's result: the placeholder for a display-panel
/// tool, else the result's JSON text.
pub open spec fn recorded_result(is_panel: bool, result_text: Seq<char>) -> Seq<char> {
    if is_panel {
        DISPLAY_PANEL_PLACEHOLDER@
    } else {
        result_text
    }
}

/// Records the result of tool call `call`, whose JSON text is `result_text`:
/// a display-panel tool's result is kept out of the model's context (the
/// history gets the placeholder and the caller shows the result in a panel);
/// any other result goes into the history as its JSON text. Returns whether
/// the tool is a display-panel tool.
pub fn record_tool_result(
    history: &mut Vec<ChatMessage>,
    tools: &ToolRegistry,
    call: ToolCall,
    result_text: String,
) -> (is_panel: bool)
    ensures
        is_panel == match lookup(tools.tools(), call.name@) {
            Some(t) => tool_is_panel(t),
            None => false,
        },
        appended_one(old(history)@, final(history)@),
        final(history)@.last().role@ == tool_role(),
        final(history)@.last().tool_call_id == Some(call.id),
        final(history)@.last().tool_calls@.len() == 0,
        final(history)@.last().content@ == recorded_result(is_panel, result_text@),
        is_panel ==> final(history)@.last().content@ == DISPLAY_PANEL_PLACEHOLDER@,
        !is_panel ==> final(history)@.last().content@ == result_text@,
{
    let is_panel = tools.is_display_panel(call.name.as_str());
    let content = if is_panel {
        DISPLAY_PANEL_PLACEHOLDER.to_owned()
    } else {
        result_text
    };
    history.push(ChatMessage::tool_result(call.id, content));
    assert(history@.take(old(history)@.len() as int) =~= old(history)@);
    is_panel
}

/// Any other tool's result is recorded as it stands: the whole text,
/// whatever its length.
pub proof fn law_other_results_are_recorded_verbatim(result_text: Seq<char>)
    ensures
        recorded_result(false, result_text) == result_text,
        recorded_result(false, result_text).len() == result_text.len(),
{
}

/// What a display-panel tool produced never reaches the model: whatever two
/// results such a tool gives, the history records the same text for both.
pub proof fn law_panel_results_stay_out_of_history(first: Seq<char>, second: Seq<char>)
    ensures
        recorded_result(true, first) == recorded_result(true, second),
        recorded_result(true, first) == DISPLAY_PANEL_PLACEHOLDER@,
{
}

} // verus!
