//! Chat messages in the OpenAI-compatible shape that llama-server speaks, and
//! the decoding of its streamed (server-sent events) completion replies.
//!
//! The HTTP request itself is made by the application; this module decides
//! how the received bytes become `data:` payloads and how the decoded chunk
//! deltas add up to the final reply text and tool calls.
use vstd::prelude::*;

use crate::text::{
    begins_with, chars_of, push_all, string_from_chars, trim_chars, trimmed,
    utf8_lossy_decode,
};

verus! {

/// A tool invocation requested by the model.
#[derive(Clone, Debug)]
pub struct ToolCall {
    pub id: String,
    pub name: String,
    /// The raw JSON text of the arguments, as the model produced it.
    pub arguments: String,
}

impl ToolCall {
    /// A field-by-field copy.
    pub fn duplicate(&self) -> (r: ToolCall)
        ensures
            r == *self,
    {
        ToolCall { id: self.id.clone(), name: self.name.clone(), arguments: self.arguments.clone() }
    }
}

/// Copies every call of `calls`, in order.
pub fn duplicate_calls(calls: &Vec<ToolCall>) -> (r: Vec<ToolCall>)
    ensures
        r@ == calls@,
{
    let mut r: Vec<ToolCall> = Vec::new();
    let mut i: usize = 0;
    while i < calls.len()
        invariant
            i <= calls.len(),
            r@ == calls@.take(i as int),
        decreases calls.len() - i,
    {
        r.push(calls[i].duplicate());
        i = i + 1;
        assert(r@ =~= calls@.take(i as int));
    }
    assert(calls@.take(i as int) =~= calls@);
    r
}

/// One message of a conversation.
///
/// `tool_calls` is non-empty only on assistant messages that request tools;
/// `tool_call_id` is set only on tool results.
#[derive(Clone, Debug)]
pub struct ChatMessage {
    pub role: String,
    pub content: String,
    pub tool_calls: Vec<ToolCall>,
    pub tool_call_id: Option<String>,
}

/// `m` has the given role and content and neither tool calls nor a call id.
pub open spec fn is_plain_message(m: ChatMessage, role: Seq<char>, content: Seq<char>) -> bool {
    &&& m.role@ == role
    &&& m.content@ == content
    &&& m.tool_calls@.len() == 0
    &&& m.tool_call_id is None
}

pub open spec fn system_role() -> Seq<char> {
    "system"@
}

pub open spec fn user_role() -> Seq<char> {
    "user"@
}

pub open spec fn assistant_role() -> Seq<char> {
    "assistant"@
}

pub open spec fn tool_role() -> Seq<char> {
    "tool"@
}

impl ChatMessage {
    pub fn system(content: String) -> (m: ChatMessage)
        ensures
            is_plain_message(m, system_role(), content@),
    {
        ChatMessage {
            role: "system".to_owned(),
            content,
            tool_calls: Vec::new(),
            tool_call_id: None,
        }
    }

    pub fn user(content: String) -> (m: ChatMessage)
        ensures
            is_plain_message(m, user_role(), content@),
    {
        ChatMessage { role: "user".to_owned(), content, tool_calls: Vec::new(), tool_call_id: None }
    }

    pub fn assistant(content: String) -> (m: ChatMessage)
        ensures
            is_plain_message(m, assistant_role(), content@),
    {
        ChatMessage {
            role: "assistant".to_owned(),
            content,
            tool_calls: Vec::new(),
            tool_call_id: None,
        }
    }

    /// An assistant message that requests `tool_calls`, with the text that
    /// came along with the request (empty when there was none).
    pub fn assistant_tool_calls(content: Option<String>, tool_calls: Vec<ToolCall>) -> (m:
        ChatMessage)
        ensures
            m.role@ == assistant_role(),
            m.content@ == (match content {
                Some(c) => c@,
                None => Seq::<char>::empty(),
            }),
            m.tool_calls@ == tool_calls@,
            m.tool_call_id is None,
    {
        let text = match content {
            Some(c) => c,
            None => String::new(),
        };
        ChatMessage {
            role: "assistant".to_owned(),
            content: text,
            tool_calls,
            tool_call_id: None,
        }
    }

    /// The result of the tool call with id `call_id`.
    pub fn tool_result(call_id: String, content: String) -> (m: ChatMessage)
        ensures
            m.role@ == tool_role(),
            m.content@ == content@,
            m.tool_calls@.len() == 0,
            m.tool_call_id == Some(call_id),
    {
        ChatMessage {
            role: "tool".to_owned(),
            content,
            tool_calls: Vec::new(),
            tool_call_id: Some(call_id),
        }
    }
}

// ---------------------------------------------------------------------------
// Server-sent events: bytes -> lines -> `data:` payloads
// ---------------------------------------------------------------------------

/// Splitting text at `'\n'`: the finished lines so far and the unfinished rest.
pub open spec fn line_state(s: Seq<char>) -> (Seq<Seq<char>>, Seq<char>)
    decreases s.len(),
{
    if s.len() == 0 {
        (Seq::empty(), Seq::empty())
    } else {
        let (lines, rest) = line_state(s.drop_last());
        if s.last() == '\n' {
            (lines.push(rest), Seq::empty())
        } else {
            (lines, rest.push(s.last()))
        }
    }
}

/// The payload of one event-stream line: the trimmed text after a `data:`
/// prefix of the trimmed line, unless it is empty or the `[DONE]` marker.
pub open spec fn payload_of(line: Seq<char>) -> Option<Seq<char>> {
    let t = trimmed(line);
    if begins_with(t, "data:"@) {
        let d = trimmed(t.skip(5));
        if d.len() == 0 || d == "[DONE]"@ {
            None
        } else {
            Some(d)
        }
    } else {
        None
    }
}

/// The payloads of a sequence of lines, in order.
pub open spec fn payloads(lines: Seq<Seq<char>>) -> Seq<Seq<char>>
    decreases lines.len(),
{
    if lines.len() == 0 {
        Seq::empty()
    } else {
        match payload_of(lines.last()) {
            Some(d) => payloads(lines.drop_last()).push(d),
            None => payloads(lines.drop_last()),
        }
    }
}

/// The views of a vector of strings.
pub open spec fn string_views(v: Seq<String>) -> Seq<Seq<char>> {
    v.map_values(|s: String| s@)
}

proof fn lemma_line_state_rest_has_no_newline(s: Seq<char>)
    ensures
        !line_state(s).1.contains('\n'),
    decreases s.len(),
{
    if s.len() > 0 {
        lemma_line_state_rest_has_no_newline(s.drop_last());
        let rest = line_state(s.drop_last()).1;
        if s.last() != '\n' {
            assert forall|k: int| 0 <= k < rest.push(s.last()).len() implies rest.push(s.last())[k]
                != '\n' by {
                if k < rest.len() {
                    assert(rest.push(s.last())[k] == rest[k]);
                }
            }
        }
    }
}

proof fn lemma_line_state_split(x: Seq<char>, y: Seq<char>)
    ensures
        line_state(x + y).0 == line_state(x).0 + line_state(line_state(x).1 + y).0,
        line_state(x + y).1 == line_state(line_state(x).1 + y).1,
    decreases y.len(),
{
    let r = line_state(x).1;
    if y.len() == 0 {
        assert(x + y =~= x);
        assert(r + y =~= r);
        lemma_line_state_rest_has_no_newline(x);
        lemma_line_state_no_newline(r);
        assert(line_state(x).0 + Seq::<Seq<char>>::empty() =~= line_state(x).0);
    } else {
        let y0 = y.drop_last();
        let c = y.last();
        lemma_line_state_split(x, y0);
        assert((x + y).drop_last() =~= x + y0);
        assert((x + y).last() == c);
        assert((r + y).drop_last() =~= r + y0);
        assert((r + y).last() == c);
        let a = line_state(x).0;
        let b = line_state(r + y0).0;
        if c == '\n' {
            assert((a + b).push(line_state(r + y0).1) =~= a + b.push(line_state(r + y0).1));
        }
    }
}

/// The payloads of a concatenation of line lists are those of each list in turn.
pub proof fn lemma_payloads_append(a: Seq<Seq<char>>, b: Seq<Seq<char>>)
    ensures
        payloads(a + b) == payloads(a) + payloads(b),
    decreases b.len(),
{
    if b.len() == 0 {
        assert(a + b =~= a);
        assert(payloads(a) + payloads(b) =~= payloads(a));
    } else {
        lemma_payloads_append(a, b.drop_last());
        assert((a + b).drop_last() =~= a + b.drop_last());
        assert((a + b).last() == b.last());
        match payload_of(b.last()) {
            Some(d) => {
                assert((payloads(a) + payloads(b.drop_last())).push(d) =~= payloads(a) + payloads(
                    b.drop_last(),
                ).push(d));
            },
            None => {},
        }
    }
}

/// How the stream is cut into chunks does not matter: feeding `x` and then
/// `y` to a decoder that holds `pending` yields the payloads, and leaves the
/// held-back text, that feeding `x + y` at once does.
pub proof fn law_chunking_does_not_matter(pending: Seq<char>, x: Seq<char>, y: Seq<char>)
    requires
        !pending.contains('\n'),
    ensures
        ({
            let first = line_state(pending + x);
            let second = line_state(first.1 + y);
            let whole = line_state(pending + (x + y));
            &&& payloads(first.0) + payloads(second.0) == payloads(whole.0)
            &&& second.1 == whole.1
        }),
{
    assert(pending + (x + y) =~= (pending + x) + y);
    lemma_line_state_split(pending + x, y);
    lemma_payloads_append(line_state(pending + x).0, line_state(line_state(pending + x).1 + y).0);
}

/// A stream of valid UTF-8 may be cut into byte chunks at any character
/// boundary: both chunks are valid UTF-8, and decoding and feeding them one
/// after the other gives the payloads, and leaves the held-back text, that
/// decoding and feeding the whole stream at once does.
pub proof fn law_byte_chunking_at_character_boundaries(
    pending: Seq<char>,
    bytes: Seq<u8>,
    cut: int,
)
    requires
        !pending.contains('\n'),
        vstd::utf8::valid_utf8(bytes),
        vstd::utf8::is_char_boundary(bytes, cut),
    ensures
        vstd::utf8::valid_utf8(bytes.subrange(0, cut)),
        vstd::utf8::valid_utf8(bytes.subrange(cut, bytes.len() as int)),
        ({
            let first = line_state(pending + vstd::utf8::decode_utf8(bytes.subrange(0, cut)));
            let second = line_state(
                first.1 + vstd::utf8::decode_utf8(bytes.subrange(cut, bytes.len() as int)),
            );
            let whole = line_state(pending + vstd::utf8::decode_utf8(bytes));
            &&& payloads(first.0) + payloads(second.0) == payloads(whole.0)
            &&& second.1 == whole.1
        }),
{
    let x = bytes.subrange(0, cut);
    let y = bytes.subrange(cut, bytes.len() as int);
    vstd::utf8::valid_utf8_split(bytes, cut);
    vstd::utf8::decode_utf8_split(bytes, cut);
    law_chunking_does_not_matter(pending, vstd::utf8::decode_utf8(x), vstd::utf8::decode_utf8(y));
}

/// Incremental decoder of an event stream: holds the text of the line that
/// has not been finished by a newline yet.
pub struct SseDecoder {
    buffer: Vec<char>,
}

proof fn lemma_line_state_no_newline(s: Seq<char>)
    requires
        !s.contains('\n'),
    ensures
        line_state(s) == (Seq::<Seq<char>>::empty(), s),
    decreases s.len(),
{
    if s.len() > 0 {
        assert(s.drop_last().len() < s.len());
        assert(!s.drop_last().contains('\n')) by {
            assert forall|k: int| 0 <= k < s.drop_last().len() implies s.drop_last()[k] != '\n' by {
                assert(s.drop_last()[k] == s[k]);
            }
        }
        lemma_line_state_no_newline(s.drop_last());
        assert(s[s.len() - 1] == s.last());
        assert(s.drop_last().push(s.last()) =~= s);
    }
}

impl SseDecoder {
    #[verifier::type_invariant]
    spec fn no_newline(self) -> bool {
        !self.buffer@.contains('\n')
    }

    /// The unfinished line held back for the next chunk.
    pub closed spec fn pending(&self) -> Seq<char> {
        self.buffer@
    }

    pub fn new() -> (r: SseDecoder)
        ensures
            r.pending() == Seq::<char>::empty(),
            !r.pending().contains('\n'),
    {
        SseDecoder { buffer: Vec::new() }
    }

    /// The payload of a finished line, if it carries one.
    fn line_payload(line: &Vec<char>) -> (r: Option<Vec<char>>)
        ensures
            match r {
                Some(d) => payload_of(line@) == Some(d@),
                None => payload_of(line@) is None,
            },
    {
        let t = trim_chars(line);
        let prefix = chars_of("data:");
        if !crate::text::starts_with_chars(&t, &prefix) {
            return None;
        }
        proof {
            reveal_strlit("data:");
        }
        let mut rest: Vec<char> = Vec::new();
        let mut i: usize = 5;
        while i < t.len()
            invariant
                5 <= i <= t.len(),
                rest@ == t@.subrange(5, i as int),
            decreases t.len() - i,
        {
            rest.push(t[i]);
            i = i + 1;
            assert(rest@ =~= t@.subrange(5, i as int));
        }
        assert(rest@ =~= t@.skip(5));
        let d = trim_chars(&rest);
        let done = chars_of("[DONE]");
        if d.len() == 0 || crate::text::chars_equal(&d, &done) {
            None
        } else {
            Some(d)
        }
    }

    /// Feeds decoded text; returns the payloads of the lines it finishes, in
    /// order, and keeps the unfinished rest for the next call.
    pub fn push_text(&mut self, text: &str) -> (r: Vec<String>)
        ensures
            string_views(r@) == payloads(line_state(old(self).pending() + text@).0),
            final(self).pending() == line_state(old(self).pending() + text@).1,
            !final(self).pending().contains('\n'),
    {
        proof {
            use_type_invariant(&*self);
            lemma_line_state_no_newline(self.buffer@);
            lemma_line_state_rest_has_no_newline(self.buffer@ + text@);
        }
        let cs = chars_of(text);
        let ghost start = self.buffer@;
        let mut out: Vec<String> = Vec::new();
        let mut i: usize = 0;
        assert(start + cs@.take(0) =~= start);
        while i < cs.len()
            invariant
                i <= cs.len(),
                cs@ == text@,
                !self.buffer@.contains('\n'),
                string_views(out@) == payloads(line_state(start + cs@.take(i as int)).0),
                self.buffer@ == line_state(start + cs@.take(i as int)).1,
            decreases cs.len() - i,
        {
            let c = cs[i];
            let ghost before = start + cs@.take(i as int);
            let ghost after = start + cs@.take(i + 1);
            assert(after.drop_last() =~= before);
            assert(after.last() == c);
            if c == '\n' {
                let line = self.take_buffer();
                let ghost lines = line_state(before).0;
                assert(line_state(after).0 == lines.push(line@));
                assert(lines.push(line@).drop_last() =~= lines);
                assert(lines.push(line@).last() == line@);
                match Self::line_payload(&line) {
                    Some(d) => {
                        let s = string_from_chars(&d);
                        out.push(s);
                        assert(string_views(out@) =~= string_views(out@.drop_last()).push(d@));
                    },
                    None => {},
                }
            } else {
                self.push_char(c);
                assert(line_state(after).0 == line_state(before).0);
            }
            i = i + 1;
        }
        assert(cs@.take(i as int) =~= text@);
        out
    }

    /// Empties the buffer, returning what it held.
    fn take_buffer(&mut self) -> (r: Vec<char>)
        ensures
            r@ == old(self).buffer@,
            final(self).buffer@ == Seq::<char>::empty(),
    {
        let mut empty: Vec<char> = Vec::new();
        std::mem::swap(&mut self.buffer, &mut empty);
        empty
    }

    /// Appends a character other than a newline to the buffer.
    fn push_char(&mut self, c: char)
        requires
            c != '\n',
        ensures
            final(self).buffer@ == old(self).buffer@.push(c),
    {
        proof {
            use_type_invariant(&*self);
        }
        let mut b: Vec<char> = Vec::new();
        std::mem::swap(&mut self.buffer, &mut b);
        b.push(c);
        assert(!b@.contains('\n')) by {
            assert forall|k: int| 0 <= k < b@.len() implies b@[k] != '\n' by {
                if k < b@.len() - 1 {
                    assert(b@[k] == old(self).buffer@[k]);
                }
            }
        }
        self.buffer = b;
    }

    /// Feeds one received chunk of bytes, decoded as `String::from_utf8_lossy`
    /// does; returns the payloads of the lines it finishes.
    pub fn push_bytes(&mut self, bytes: &[u8]) -> (r: Vec<String>)
        ensures
            string_views(r@) == payloads(
                line_state(old(self).pending() + crate::text::utf8_lossy(bytes@)).0,
            ),
            final(self).pending() == line_state(old(self).pending() + crate::text::utf8_lossy(
                bytes@,
            )).1,
            vstd::utf8::valid_utf8(bytes@) ==> {
                &&& string_views(r@) == payloads(
                    line_state(old(self).pending() + vstd::utf8::decode_utf8(bytes@)).0,
                )
                &&& final(self).pending() == line_state(
                    old(self).pending() + vstd::utf8::decode_utf8(bytes@),
                ).1
            },
    {
        let text = utf8_lossy_decode(bytes);
        self.push_text(text.as_str())
    }
}

// ---------------------------------------------------------------------------
// Accumulating the decoded chunk deltas into one reply
// ---------------------------------------------------------------------------

/// The part of one streamed chunk that concerns one tool call: the call is
/// identified by `index`; the other fields are present when the chunk
/// carries them.
#[derive(Clone, Debug)]
pub struct ToolCallDelta {
    pub index: u64,
    pub id: Option<String>,
    pub name: Option<String>,
    pub arguments: Option<String>,
}

/// A finished streamed reply: its text and the tool calls it requested.
#[derive(Clone, Debug)]
pub struct StreamResult {
    pub content: String,
    pub tool_calls: Vec<ToolCall>,
}

/// A tool call by the views of its id, name and arguments.
pub open spec fn call_view(c: ToolCall) -> (Seq<char>, Seq<char>, Seq<char>) {
    (c.id@, c.name@, c.arguments@)
}

pub open spec fn text_or_empty(o: Option<String>) -> Seq<char> {
    match o {
        Some(s) => s@,
        None => Seq::<char>::empty(),
    }
}

/// A call first seen in delta `d`.
pub open spec fn started_call(d: ToolCallDelta) -> (Seq<char>, Seq<char>, Seq<char>) {
    (text_or_empty(d.id), text_or_empty(d.name), text_or_empty(d.arguments))
}

/// Call `c` after delta `d` for it: an id or name that `d` carries replaces
/// the old one, and argument text is appended.
pub open spec fn merged_call(c: (Seq<char>, Seq<char>, Seq<char>), d: ToolCallDelta) -> (
    Seq<char>,
    Seq<char>,
    Seq<char>,
) {
    (
        match d.id {
            Some(s) => s@,
            None => c.0,
        },
        match d.name {
            Some(s) => s@,
            None => c.1,
        },
        c.2 + text_or_empty(d.arguments),
    )
}

/// The reply being received: the text so far and the tool calls so far,
/// each tool call kept under the index the stream gave it, in order of
/// first appearance.
pub struct StreamAccumulator {
    content: Vec<char>,
    entries: Vec<(u64, ToolCall)>,
}

impl StreamAccumulator {
    /// No stream index is kept for two tool calls.
    #[verifier::type_invariant]
    spec fn distinct_indices(self) -> bool {
        forall|i: int, j: int|
            0 <= i < j < self.entries@.len() ==> #[trigger] self.entries@[i].0
                != #[trigger] self.entries@[j].0
    }

    /// The reply text received so far.
    pub closed spec fn text(&self) -> Seq<char> {
        self.content@
    }

    /// The stream indices of the tool calls so far.
    pub closed spec fn keys(&self) -> Seq<u64> {
        self.entries@.map_values(|e: (u64, ToolCall)| e.0)
    }

    /// The tool calls so far.
    pub closed spec fn calls(&self) -> Seq<(Seq<char>, Seq<char>, Seq<char>)> {
        self.entries@.map_values(|e: (u64, ToolCall)| call_view(e.1))
    }

    pub fn new() -> (r: StreamAccumulator)
        ensures
            r.text() == Seq::<char>::empty(),
            r.keys() == Seq::<u64>::empty(),
            r.calls() == Seq::<(Seq<char>, Seq<char>, Seq<char>)>::empty(),
    {
        let r = StreamAccumulator { content: Vec::new(), entries: Vec::new() };
        assert(r.keys() =~= Seq::<u64>::empty());
        assert(r.calls() =~= Seq::<(Seq<char>, Seq<char>, Seq<char>)>::empty());
        r
    }

    /// Appends a piece of reply text.
    pub fn add_content(&mut self, piece: &str)
        ensures
            final(self).text() == old(self).text() + piece@,
            final(self).keys() == old(self).keys(),
            final(self).calls() == old(self).calls(),
    {
        proof {
            use_type_invariant(&*self);
        }
        let cs = chars_of(piece);
        let mut content: Vec<char> = Vec::new();
        std::mem::swap(&mut content, &mut self.content);
        push_all(&mut content, &cs);
        self.content = content;
    }

    /// Folds one tool-call delta in: into the call with the same index if
    /// there is one, else as a new call at the end.
    pub fn add_tool_delta(&mut self, d: ToolCallDelta)
        ensures
            forall|j: int|
                0 <= j < old(self).keys().len() && old(self).keys()[j] == d.index ==> {
                    &&& final(self).keys() == old(self).keys()
                    &&& final(self).calls() == old(self).calls().update(
                        j,
                        merged_call(old(self).calls()[j], d),
                    )
                },
            (forall|j: int|
                0 <= j < old(self).keys().len() ==> old(self).keys()[j] != d.index) ==> {
                &&& final(self).keys() == old(self).keys().push(d.index)
                &&& final(self).calls() == old(self).calls().push(started_call(d))
            },
            final(self).text() == old(self).text(),
    {
        proof {
            use_type_invariant(&*self);
        }
        let ghost old_keys = self.keys();
        let ghost old_calls = self.calls();
        let mut entries: Vec<(u64, ToolCall)> = Vec::new();
        std::mem::swap(&mut entries, &mut self.entries);
        let ghost before = entries@;
        let n = entries.len();
        let mut j: usize = 0;
        while j < n && entries[j].0 != d.index
            invariant
                j <= n,
                n == entries@.len(),
                entries@ == before,
                forall|k: int| 0 <= k < j ==> entries@[k].0 != d.index,
            decreases n - j,
        {
            j = j + 1;
        }
        if j < n {
            let old_call = entries[j].1.duplicate();
            let id = match d.id {
                Some(s) => s,
                None => old_call.id,
            };
            let name = match d.name {
                Some(s) => s,
                None => old_call.name,
            };
            let mut args = chars_of(old_call.arguments.as_str());
            match d.arguments {
                Some(a) => {
                    let more = chars_of(a.as_str());
                    push_all(&mut args, &more);
                },
                None => {},
            }
            let call = ToolCall { id, name, arguments: string_from_chars(&args) };
            entries.set(j, (d.index, call));
            proof {
                assert(old_keys[j as int] == d.index);
                assert(entries@ == before.update(j as int, (d.index, call)));
                assert forall|a: int, b: int| 0 <= a < b < entries@.len() implies #[trigger] entries@[a].0
                    != #[trigger] entries@[b].0 by {
                    assert(before[a].0 != before[b].0);
                }
                assert forall|k: int| 0 <= k < n && old_keys[k] == d.index implies k == j by {
                    if k != j && k > j {
                        assert(before[j as int].0 != before[k].0);
                    }
                }
            }
            self.entries = entries;
            proof {
                assert(self.keys() =~= old_keys);
                assert(self.calls() =~= old_calls.update(j as int, merged_call(old_calls[j as int], d)));
            }
        } else {
            let call = ToolCall {
                id: match d.id {
                    Some(s) => s,
                    None => String::new(),
                },
                name: match d.name {
                    Some(s) => s,
                    None => String::new(),
                },
                arguments: match d.arguments {
                    Some(s) => s,
                    None => String::new(),
                },
            };
            entries.push((d.index, call));
            proof {
                assert forall|k: int| 0 <= k < old_keys.len() implies old_keys[k] != d.index by {
                    assert(old_keys[k] == before[k].0);
                }
                assert forall|a: int, b: int| 0 <= a < b < entries@.len() implies #[trigger] entries@[a].0
                    != #[trigger] entries@[b].0 by {
                    assert(entries@[a] == before[a]);
                    if b < before.len() {
                        assert(entries@[b] == before[b]);
                    }
                }
            }
            self.entries = entries;
            proof {
                assert(self.keys() =~= old_keys.push(d.index));
                assert(self.calls() =~= old_calls.push(started_call(d)));
            }
        }
    }

    /// The finished reply.
    pub fn finish(self) -> (r: StreamResult)
        ensures
            r.content@ == self.text(),
            r.tool_calls@.map_values(|c: ToolCall| call_view(c)) == self.calls(),
    {
        let mut tool_calls: Vec<ToolCall> = Vec::new();
        let mut i: usize = 0;
        while i < self.entries.len()
            invariant
                i <= self.entries@.len(),
                tool_calls@.len() == i,
                forall|k: int| 0 <= k < i ==> #[trigger] tool_calls@[k] == self.entries@[k].1,
            decreases self.entries@.len() - i,
        {
            tool_calls.push(self.entries[i].1.duplicate());
            i = i + 1;
        }
        let r = StreamResult { content: string_from_chars(&self.content), tool_calls };
        assert(r.tool_calls@.map_values(|c: ToolCall| call_view(c)) =~= self.calls());
        r
    }
}

} // verus!
