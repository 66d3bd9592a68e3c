//! The decisions of a streamed chat completion.
//!
//! A completion arrives as a server-sent event stream, in byte chunks that need not end at
//! line breaks. [`CompletionStream`] holds what the stream has produced so far: it frames the
//! bytes into lines, turns each decoded event into reasoning and content tokens, and gives the
//! final output when the body ends. Reading the body, decoding the JSON of each event,
//! delivering the tokens and timing the request are left to the caller.
use vstd::prelude::*;
use crate::executor::{Output, OutputMetadata, Token};
use crate::llm_executors::types::{sse_payload_of, StreamChoice, StreamChunk};
use crate::text::{decode_utf8_lossy, utf8_lossy};
use vstd::utf8::{decode_utf8, valid_utf8};

verus! {

/// Behavioural knobs that distinguish the providers' otherwise identical streams.
#[derive(Debug, Clone, Copy, PartialEq, Eq)]
pub struct CompletionOptions {
    /// Forward reasoning deltas as thinking tokens.
    pub emit_reasoning: bool,
    /// When no content arrived, the reasoning text is the final result.
    pub fallback_to_thinking: bool,
}

impl Default for CompletionOptions {
    fn default() -> (o: Self)
        ensures
            !o.emit_reasoning,
            !o.fallback_to_thinking,
    {
        CompletionOptions { emit_reasoning: false, fallback_to_thinking: false }
    }
}

/// The position of the first line break in `s`, if any.
pub open spec fn newline_at(s: Seq<char>) -> Option<nat>
    decreases s.len(),
{
    if s.len() == 0 {
        None
    } else if s[0] == '\n' {
        Some(0)
    } else {
        match newline_at(s.drop_first()) {
            Some(i) => Some(i + 1),
            None => None,
        }
    }
}

/// The complete lines of `s`, in order, and the unfinished text after the last line break.
pub open spec fn split_lines(s: Seq<char>) -> (Seq<Seq<char>>, Seq<char>)
    decreases s.len(),
{
    match newline_at(s) {
        Some(i) => {
            // A line break found in `s` lies inside it; the test only shows the recursion ends.
            if i < s.len() {
                let rest = split_lines(s.skip(i as int + 1));
                (seq![s.take(i as int)] + rest.0, rest.1)
            } else {
                (seq![], s)
            }
        },
        None => (seq![], s),
    }
}

/// The texts joined end to end.
pub open spec fn joined(texts: Seq<Seq<char>>) -> Seq<char>
    decreases texts.len(),
{
    if texts.len() == 0 {
        seq![]
    } else {
        joined(texts.drop_last()) + texts.last()
    }
}

/// The text of a delta field when it is present and not empty.
pub open spec fn nonempty(o: Option<String>) -> Option<Seq<char>> {
    match o {
        Some(s) => if s@.len() > 0 { Some(s@) } else { None },
        None => None,
    }
}

/// The thinking tokens' texts that `choices` give, in order: the non-empty reasoning deltas,
/// when reasoning is emitted.
pub open spec fn thinking_texts(options: CompletionOptions, choices: Seq<StreamChoice>) -> Seq<Seq<char>>
    decreases choices.len(),
{
    if choices.len() == 0 {
        seq![]
    } else {
        let before = thinking_texts(options, choices.drop_last());
        match nonempty(choices.last().delta.reasoning) {
            Some(t) => if options.emit_reasoning { before.push(t) } else { before },
            None => before,
        }
    }
}

/// The content tokens' texts that `choices` give, in order: the non-empty content deltas.
pub open spec fn content_texts(choices: Seq<StreamChoice>) -> Seq<Seq<char>>
    decreases choices.len(),
{
    if choices.len() == 0 {
        seq![]
    } else {
        let before = content_texts(choices.drop_last());
        match nonempty(choices.last().delta.content) {
            Some(t) => before.push(t),
            None => before,
        }
    }
}

/// Whether `tokens` carry `texts`, numbered on from `first_index`.
pub open spec fn numbered(tokens: Seq<Token>, texts: Seq<Seq<char>>, first_index: int) -> bool {
    &&& tokens.len() == texts.len()
    &&& forall|k: int|
        #![trigger tokens[k]]
        0 <= k < tokens.len() ==> tokens[k].content@ == texts[k] && tokens[k].index == first_index
            + k
}

/// The final result of a stream whose thinking and content texts are those given.
pub open spec fn final_text(
    options: CompletionOptions,
    thinking: Seq<Seq<char>>,
    content: Seq<Seq<char>>,
) -> Seq<char> {
    if options.fallback_to_thinking && joined(content).len() == 0 {
        joined(thinking)
    } else {
        joined(content)
    }
}

proof fn lemma_joined_push(texts: Seq<Seq<char>>, t: Seq<char>)
    ensures
        joined(texts.push(t)) == joined(texts) + t,
{
    assert(texts.push(t).drop_last() =~= texts);
}

proof fn lemma_texts_bounded(options: CompletionOptions, choices: Seq<StreamChoice>)
    ensures
        thinking_texts(options, choices).len() <= choices.len(),
        content_texts(choices).len() <= choices.len(),
    decreases choices.len(),
{
    if choices.len() > 0 {
        lemma_texts_bounded(options, choices.drop_last());
    }
}

/// What a streamed chat completion has produced so far, with the invariant carried in the
/// contracts of its operations.
struct StreamState {
    options: CompletionOptions,
    buffer: Vec<char>,
    thinking_content: String,
    response_content: String,
    thinking_token_index: usize,
    content_token_index: usize,
    thinking_history: Ghost<Seq<Seq<char>>>,
    content_history: Ghost<Seq<Seq<char>>>,
}

impl StreamState {
    /// The options the stream was opened with.
    spec fn options(&self) -> CompletionOptions {
        self.options
    }

    /// Decoded text received and not yet taken as a line.
    spec fn pending(&self) -> Seq<char> {
        self.buffer@
    }

    /// The texts of all thinking tokens given out so far, in order.
    spec fn thinking(&self) -> Seq<Seq<char>> {
        self.thinking_history@
    }

    /// The texts of all content tokens given out so far, in order.
    spec fn content(&self) -> Seq<Seq<char>> {
        self.content_history@
    }

    /// The stream's invariant: the accumulated texts and the token counters agree with the
    /// tokens given out.
    spec fn wf(&self) -> bool {
        &&& self.thinking_content@ == joined(self.thinking_history@)
        &&& self.response_content@ == joined(self.content_history@)
        &&& self.thinking_token_index == self.thinking_history@.len()
        &&& self.content_token_index == self.content_history@.len()
    }

    /// A stream that has received nothing yet.
    fn new(options: CompletionOptions) -> (s: Self)
        ensures
            s.wf(),
            s.options() == options,
            s.pending() == Seq::<char>::empty(),
            s.thinking() == Seq::<Seq<char>>::empty(),
            s.content() == Seq::<Seq<char>>::empty(),
    {
        StreamState {
            options,
            buffer: Vec::new(),
            thinking_content: String::new(),
            response_content: String::new(),
            thinking_token_index: 0,
            content_token_index: 0,
            thinking_history: Ghost(Seq::empty()),
            content_history: Ghost(Seq::empty()),
        }
    }

    /// Takes in one chunk of the response body, decoded as `String::from_utf8_lossy` does.
    fn push_bytes(&mut self, chunk: &[u8])
        requires
            old(self).wf(),
        ensures
            final(self).wf(),
            final(self).pending() == old(self).pending() + utf8_lossy(chunk@),
            valid_utf8(chunk@) ==> final(self).pending() == old(self).pending() + decode_utf8(chunk@),
            final(self).options() == old(self).options(),
            final(self).thinking() == old(self).thinking(),
            final(self).content() == old(self).content(),
    {
        let text = decode_utf8_lossy(chunk);
        let mut add = crate::text::chars_of(text.as_str());
        self.buffer.append(&mut add);
    }

    /// Takes in one chunk of the response body, decoded as `String::from_utf8_lossy` does, and
    /// takes out every line it completes, in order; the text after the last line break stays
    /// pending.
    fn feed(&mut self, chunk: &[u8]) -> (lines: Vec<String>)
        requires
            old(self).wf(),
        ensures
            final(self).wf(),
            final(self).options() == old(self).options(),
            final(self).thinking() == old(self).thinking(),
            final(self).content() == old(self).content(),
            texts_of(lines@) == split_lines(old(self).pending() + utf8_lossy(chunk@)).0,
            final(self).pending() == split_lines(old(self).pending() + utf8_lossy(chunk@)).1,
            valid_utf8(chunk@) ==> texts_of(lines@) == split_lines(old(self).pending() + decode_utf8(chunk@)).0
                && final(self).pending() == split_lines(old(self).pending() + decode_utf8(chunk@)).1,
    {
        self.push_bytes(chunk);
        let ghost p0 = self.buffer@;
        let mut lines: Vec<String> = Vec::new();
        let mut done = false;
        while !done
            invariant
                self.wf(),
                self.options == old(self).options,
                self.thinking_history == old(self).thinking_history,
                self.content_history == old(self).content_history,
                texts_of(lines@) + split_lines(self.buffer@).0 == split_lines(p0).0,
                split_lines(self.buffer@).1 == split_lines(p0).1,
                done ==> newline_at(self.buffer@) is None,
            decreases self.buffer@.len() + if done { 0int } else { 1int },
        {
            let ghost before = self.buffer@;
            let ghost lines_before = lines@;
            proof {
                law_next_line_walks_split_lines(before);
                lemma_newline_bounded(before);
            }
            match self.next_line() {
                Some(l) => {
                    lines.push(l);
                    assert(texts_of(lines@) =~= texts_of(lines_before).push(l@));
                    assert(texts_of(lines@) + split_lines(self.buffer@).0 =~= texts_of(lines_before)
                        + split_lines(before).0);
                },
                None => {
                    done = true;
                },
            }
        }
        proof {
            law_next_line_walks_split_lines(self.buffer@);
            assert(texts_of(lines@) + split_lines(self.buffer@).0 =~= texts_of(lines@));
        }
        lines
    }

    /// Takes the next complete line out of the received text: the text before the first line
    /// break, which is dropped with it. `None`, and nothing taken, while no line break is pending.
    fn next_line(&mut self) -> (line: Option<String>)
        requires
            old(self).wf(),
        ensures
            final(self).wf(),
            final(self).options() == old(self).options(),
            final(self).thinking() == old(self).thinking(),
            final(self).content() == old(self).content(),
            match newline_at(old(self).pending()) {
                Some(i) => line matches Some(l) && l@ == old(self).pending().take(i as int)
                    && final(self).pending() == old(self).pending().skip(i as int + 1),
                None => line is None && final(self).pending() == old(self).pending(),
            },
    {
        let mut i: usize = 0;
        while i < self.buffer.len() && self.buffer[i] != '\n'
            invariant
                i <= self.buffer.len(),
                forall|k: int| 0 <= k < i ==> self.buffer@[k] != '\n',
            decreases self.buffer.len() - i,
        {
            i = i + 1;
        }
        proof {
            lemma_newline_at(self.buffer@, i as int);
        }
        if i == self.buffer.len() {
            return None;
        }
        let line = crate::text::string_of(&self.buffer, 0, i);
        let rest = self.buffer.split_off(i + 1);
        self.buffer = rest;
        assert(line@ =~= old(self).pending().take(i as int));
        Some(line)
    }

    /// Whether applying `chunk` keeps the token counters within `usize`.
    fn has_room_for(&self, chunk: &StreamChunk) -> (b: bool)
        requires
            self.wf(),
        ensures
            b == (self.thinking().len() + chunk.choices.len() <= usize::MAX && self.content().len()
                + chunk.choices.len() <= usize::MAX),
    {
        chunk.choices.len() <= usize::MAX - self.thinking_token_index && chunk.choices.len()
            <= usize::MAX - self.content_token_index
    }

    /// Turns one decoded event into the thinking tokens and the content tokens that it
    /// carries, each numbered on from the tokens given out before on its own channel, and
    /// adds their text to the stream's accumulated text.
    fn apply_chunk(&mut self, chunk: &StreamChunk) -> (tokens: (Vec<Token>, Vec<Token>))
        requires
            old(self).wf(),
            old(self).thinking().len() + chunk.choices.len() <= usize::MAX,
            old(self).content().len() + chunk.choices.len() <= usize::MAX,
        ensures
            final(self).wf(),
            final(self).options() == old(self).options(),
            final(self).pending() == old(self).pending(),
            numbered(
                tokens.0@,
                thinking_texts(old(self).options(), chunk.choices@),
                old(self).thinking().len() as int,
            ),
            numbered(tokens.1@, content_texts(chunk.choices@), old(self).content().len() as int),
            final(self).thinking() == old(self).thinking() + thinking_texts(
                old(self).options(),
                chunk.choices@,
            ),
            final(self).content() == old(self).content() + content_texts(chunk.choices@),
    {
        let mut thinking: Vec<Token> = Vec::new();
        let mut content: Vec<Token> = Vec::new();
        let ghost t0 = self.thinking_history@;
        let ghost c0 = self.content_history@;
        let n = chunk.choices.len();
        let mut j: usize = 0;
        while j < n
            invariant
                n == chunk.choices.len(),
                j <= n,
                self.wf(),
                self.options == old(self).options,
                self.buffer@ == old(self).buffer@,
                t0 == old(self).thinking_history@,
                c0 == old(self).content_history@,
                t0.len() + n <= usize::MAX,
                c0.len() + n <= usize::MAX,
                self.thinking_history@ == t0 + thinking_texts(self.options, chunk.choices@.take(j as int)),
                self.content_history@ == c0 + content_texts(chunk.choices@.take(j as int)),
                numbered(thinking@, thinking_texts(self.options, chunk.choices@.take(j as int)), t0.len() as int),
                numbered(content@, content_texts(chunk.choices@.take(j as int)), c0.len() as int),
            decreases n - j,
        {
            let ghost pre = chunk.choices@.take(j as int);
            let ghost post = chunk.choices@.take(j + 1);
            assert(post.drop_last() =~= pre);
            assert(post.last() == chunk.choices@[j as int]);
            proof {
                lemma_texts_bounded(self.options, pre);
            }
            let choice = &chunk.choices[j];
            if self.options.emit_reasoning {
                if let Some(r) = &choice.delta.reasoning {
                    if !r.as_str().is_empty() {
                        thinking.push(Token { content: r.clone(), index: self.thinking_token_index });
                        self.thinking_content.append(r.as_str());
                        self.thinking_token_index = self.thinking_token_index + 1;
                        proof {
                            lemma_joined_push(self.thinking_history@, r@);
                        }
                        self.thinking_history = Ghost(self.thinking_history@.push(r@));
                    }
                }
            }
            if let Some(c) = &choice.delta.content {
                if !c.as_str().is_empty() {
                    content.push(Token { content: c.clone(), index: self.content_token_index });
                    self.response_content.append(c.as_str());
                    self.content_token_index = self.content_token_index + 1;
                    proof {
                        lemma_joined_push(self.content_history@, c@);
                    }
                    self.content_history = Ghost(self.content_history@.push(c@));
                }
            }
            assert(self.thinking_history@ =~= t0 + thinking_texts(self.options, post));
            assert(self.content_history@ =~= c0 + content_texts(post));
            j = j + 1;
        }
        assert(chunk.choices@.take(n as int) =~= chunk.choices@);
        (thinking, content)
    }

    /// The final output once the body has ended: the accumulated content, or the accumulated
    /// reasoning when falling back to it and no content arrived; the number of content tokens;
    /// and the model and generation time given. Text after the last line break is dropped.
    fn finish(self, model: String, generation_time_ms: u64) -> (o: Output<String>)
        requires
            self.wf(),
        ensures
            o.result@ == final_text(self.options(), self.thinking(), self.content()),
            o.metadata.total_tokens == self.content().len(),
            o.metadata.generation_time_ms == generation_time_ms,
            o.metadata.model_id == model,
    {
        let final_response = if self.options.fallback_to_thinking
            && self.response_content.as_str().is_empty() {
            self.thinking_content
        } else {
            self.response_content
        };
        let metadata = OutputMetadata {
            total_tokens: self.content_token_index,
            generation_time_ms,
            model_id: model,
        };
        Output::new(final_response, metadata)
    }
}

/// The state of one streamed chat completion.
pub struct CompletionStream {
    state: StreamState,
}

impl CompletionStream {
    /// The stream's invariant: the accumulated texts and the token counters agree with the
    /// tokens given out.
    #[verifier::type_invariant]
    spec fn consistent(self) -> bool {
        self.state.wf()
    }

    /// The options the stream was opened with.
    pub closed spec fn options(&self) -> CompletionOptions {
        self.state.options
    }

    /// Decoded text received and not yet taken as a line.
    pub closed spec fn pending(&self) -> Seq<char> {
        self.state.buffer@
    }

    /// The texts of all thinking tokens given out so far, in order.
    pub closed spec fn thinking(&self) -> Seq<Seq<char>> {
        self.state.thinking_history@
    }

    /// The texts of all content tokens given out so far, in order.
    pub closed spec fn content(&self) -> Seq<Seq<char>> {
        self.state.content_history@
    }

    /// A stream that has received nothing yet.
    pub fn new(options: CompletionOptions) -> (s: Self)
        ensures
            s.options() == options,
            s.pending() == Seq::<char>::empty(),
            s.thinking() == Seq::<Seq<char>>::empty(),
            s.content() == Seq::<Seq<char>>::empty(),
    {
        CompletionStream { state: StreamState::new(options) }
    }

    /// Moves the state out, leaving a fresh one with the same options in its place.
    fn take_state(&mut self) -> (s: StreamState)
        ensures
            s == old(self).state,
            s.wf(),
    {
        proof {
            use_type_invariant(&*self);
        }
        let mut s = StreamState::new(self.state.options);
        std::mem::swap(&mut s, &mut self.state);
        s
    }

    /// Takes in one chunk of the response body, decoded as `String::from_utf8_lossy` does.
    pub fn push_bytes(&mut self, chunk: &[u8])
        ensures
            final(self).pending() == old(self).pending() + utf8_lossy(chunk@),
            valid_utf8(chunk@) ==> final(self).pending() == old(self).pending() + decode_utf8(chunk@),
            final(self).options() == old(self).options(),
            final(self).thinking() == old(self).thinking(),
            final(self).content() == old(self).content(),
    {
        let mut state = self.take_state();
        state.push_bytes(chunk);
        self.state = state;
    }

    /// Takes in one chunk of the response body, decoded as `String::from_utf8_lossy` does, and
    /// takes out every line it completes, in order; the text after the last line break stays
    /// pending.
    pub fn feed(&mut self, chunk: &[u8]) -> (lines: Vec<String>)
        ensures
            final(self).options() == old(self).options(),
            final(self).thinking() == old(self).thinking(),
            final(self).content() == old(self).content(),
            texts_of(lines@) == split_lines(old(self).pending() + utf8_lossy(chunk@)).0,
            final(self).pending() == split_lines(old(self).pending() + utf8_lossy(chunk@)).1,
            valid_utf8(chunk@) ==> texts_of(lines@) == split_lines(old(self).pending() + decode_utf8(chunk@)).0
                && final(self).pending() == split_lines(old(self).pending() + decode_utf8(chunk@)).1,
    {
        let mut state = self.take_state();
        let lines = state.feed(chunk);
        self.state = state;
        lines
    }

    /// Takes the next complete line out of the received text: the text before the first line
    /// break, which is dropped with it. `None`, and nothing taken, while no line break is pending.
    pub fn next_line(&mut self) -> (line: Option<String>)
        ensures
            final(self).options() == old(self).options(),
            final(self).thinking() == old(self).thinking(),
            final(self).content() == old(self).content(),
            match newline_at(old(self).pending()) {
                Some(i) => line matches Some(l) && l@ == old(self).pending().take(i as int)
                    && final(self).pending() == old(self).pending().skip(i as int + 1),
                None => line is None && final(self).pending() == old(self).pending(),
            },
    {
        let mut state = self.take_state();
        let line = state.next_line();
        self.state = state;
        line
    }

    /// Whether applying `chunk` keeps the token counters within `usize`.
    pub fn has_room_for(&self, chunk: &StreamChunk) -> (b: bool)
        ensures
            b == (self.thinking().len() + chunk.choices.len() <= usize::MAX && self.content().len()
                + chunk.choices.len() <= usize::MAX),
    {
        proof {
            use_type_invariant(self);
        }
        self.state.has_room_for(chunk)
    }

    /// Turns one decoded event into the thinking tokens and the content tokens that it
    /// carries, each numbered on from the tokens given out before on its own channel, and
    /// adds their text to the stream's accumulated text.
    pub fn apply_chunk(&mut self, chunk: &StreamChunk) -> (tokens: (Vec<Token>, Vec<Token>))
        requires
            old(self).thinking().len() + chunk.choices.len() <= usize::MAX,
            old(self).content().len() + chunk.choices.len() <= usize::MAX,
        ensures
            final(self).options() == old(self).options(),
            final(self).pending() == old(self).pending(),
            numbered(
                tokens.0@,
                thinking_texts(old(self).options(), chunk.choices@),
                old(self).thinking().len() as int,
            ),
            numbered(tokens.1@, content_texts(chunk.choices@), old(self).content().len() as int),
            final(self).thinking() == old(self).thinking() + thinking_texts(
                old(self).options(),
                chunk.choices@,
            ),
            final(self).content() == old(self).content() + content_texts(chunk.choices@),
    {
        let mut state = self.take_state();
        let tokens = state.apply_chunk(chunk);
        self.state = state;
        tokens
    }

    /// The final output once the body has ended: the accumulated content, or the accumulated
    /// reasoning when falling back to it and no content arrived; the number of content tokens;
    /// and the model and generation time given. Text after the last line break is dropped.
    pub fn finish(self, model: String, generation_time_ms: u64) -> (o: Output<String>)
        ensures
            o.result@ == final_text(self.options(), self.thinking(), self.content()),
            o.metadata.total_tokens == self.content().len(),
            o.metadata.generation_time_ms == generation_time_ms,
            o.metadata.model_id == model,
    {
        proof {
            use_type_invariant(&self);
        }
        self.state.finish(model, generation_time_ms)
    }
}

proof fn lemma_newline_at(s: Seq<char>, i: int)
    requires
        0 <= i <= s.len(),
        forall|k: int| 0 <= k < i ==> s[k] != '\n',
        i == s.len() || s[i] == '\n',
    ensures
        if i == s.len() { newline_at(s) is None } else { newline_at(s) == Some(i as nat) },
    decreases i,
{
    if s.len() > 0 && i > 0 {
        let t = s.drop_first();
        assert forall|k: int| 0 <= k < i - 1 implies t[k] != '\n' by {
            assert(t[k] == s[k + 1]);
        }
        if i < s.len() {
            assert(t[i - 1] == s[i]);
        }
        lemma_newline_at(t, i - 1);
    }
}

proof fn lemma_newline_bounded(s: Seq<char>)
    ensures
        newline_at(s) matches Some(i) ==> i < s.len() && s[i as int] == '\n' && forall|k: int|
            0 <= k < i ==> s[k] != '\n',
    decreases s.len(),
{
    if s.len() > 0 && s[0] != '\n' {
        let t = s.drop_first();
        lemma_newline_bounded(t);
        if let Some(i) = newline_at(t) {
            assert forall|k: int| 0 <= k < i + 1 implies s[k] != '\n' by {
                if k > 0 {
                    assert(s[k] == t[k - 1]);
                }
            }
        }
    }
}

proof fn lemma_newline_extends(a: Seq<char>, b: Seq<char>)
    requires
        newline_at(a) is Some,
    ensures
        newline_at(a + b) == newline_at(a),
{
    lemma_newline_bounded(a);
    let i = newline_at(a)->0;
    assert forall|k: int| 0 <= k < i implies (a + b)[k] != '\n' by {
        assert((a + b)[k] == a[k]);
    }
    assert((a + b)[i as int] == a[i as int]);
    lemma_newline_at(a + b, i as int);
}

/// Framing lines does not depend on where the body was cut into chunks: the lines of `a + b`
/// are the lines of `a`, then the lines of what `a` left unfinished followed by `b`; and the
/// text left unfinished is the same.
pub proof fn law_lines_ignore_chunk_boundaries(a: Seq<char>, b: Seq<char>)
    ensures
        split_lines(a + b).0 == split_lines(a).0 + split_lines(split_lines(a).1 + b).0,
        split_lines(a + b).1 == split_lines(split_lines(a).1 + b).1,
    decreases a.len(),
{
    lemma_newline_bounded(a);
    match newline_at(a) {
        Some(i) => {
            lemma_newline_extends(a, b);
            let rest = a.skip(i as int + 1);
            assert((a + b).skip(i as int + 1) =~= rest + b);
            assert((a + b).take(i as int) =~= a.take(i as int));
            law_lines_ignore_chunk_boundaries(rest, b);
            assert(split_lines(a + b).0 =~= seq![a.take(i as int)] + split_lines(rest + b).0);
            assert(split_lines(a).0 =~= seq![a.take(i as int)] + split_lines(rest).0);
            assert(split_lines(a + b).0 =~= split_lines(a).0 + split_lines(split_lines(a).1 + b).0);
        },
        None => {
            assert(split_lines(a).0 =~= Seq::<Seq<char>>::empty());
            assert(split_lines(a).0 + split_lines(a + b).0 =~= split_lines(a + b).0);
        },
    }
}

/// Chunks that are each valid UTF-8 decode, one after the other, to the text of the whole body:
/// cutting a body between characters changes nothing of the text that lines are framed from.
/// (A cut inside a character is another matter: each half decodes to a replacement character.)
pub proof fn law_valid_chunks_decode_as_whole(a: Seq<u8>, b: Seq<u8>)
    requires
        valid_utf8(a),
        valid_utf8(b),
    ensures
        valid_utf8(a + b),
        decode_utf8(a + b) == decode_utf8(a) + decode_utf8(b),
    decreases a.len(),
{
    vstd::utf8::valid_utf8_concat(a, b);
    if a.len() == 0 {
        assert(a + b =~= b);
        assert(decode_utf8(a) + decode_utf8(b) =~= decode_utf8(b));
    } else {
        let n = vstd::utf8::length_of_first_scalar(a);
        let rest = vstd::utf8::pop_first_scalar(a);
        assert(n <= a.len());
        assert(rest.len() == a.len() - n);
        assert(forall|k: int| 0 <= k < a.len() ==> #[trigger] (a + b)[k] == a[k]);
        assert(vstd::utf8::pop_first_scalar(a + b) =~= rest + b);
        law_valid_chunks_decode_as_whole(rest, b);
        assert(decode_utf8(a + b) =~= decode_utf8(a) + decode_utf8(b));
    }
}

/// The texts of the lines.
pub open spec fn texts_of(lines: Seq<String>) -> Seq<Seq<char>> {
    lines.map_values(|l: String| l@)
}

/// The lines taken, and the text left pending, when `texts` arrive one after the other after
/// `start` and every completed line is taken after each arrival.
pub open spec fn fed_lines(start: Seq<char>, texts: Seq<Seq<char>>) -> (Seq<Seq<char>>, Seq<char>)
    decreases texts.len(),
{
    if texts.len() == 0 {
        (seq![], start)
    } else {
        let before = fed_lines(start, texts.drop_last());
        let now = split_lines(before.1 + texts.last());
        (before.0 + now.0, now.1)
    }
}

/// The bytes of the chunks, one after the other.
pub open spec fn joined_bytes(chunks: Seq<Seq<u8>>) -> Seq<u8>
    decreases chunks.len(),
{
    if chunks.len() == 0 {
        seq![]
    } else {
        joined_bytes(chunks.drop_last()) + chunks.last()
    }
}

/// Whether every chunk is valid UTF-8 on its own.
pub open spec fn all_valid_utf8(chunks: Seq<Seq<u8>>) -> bool {
    forall|i: int| 0 <= i < chunks.len() ==> valid_utf8(#[trigger] chunks[i])
}

/// The text of each chunk.
pub open spec fn decoded_chunks(chunks: Seq<Seq<u8>>) -> Seq<Seq<char>> {
    chunks.map_values(|b: Seq<u8>| decode_utf8(b))
}

/// The choices that `lines` carry, in order, when each payload is decoded by `decode`; a line
/// without payload, or whose payload does not decode, carries none.
pub open spec fn line_choices(
    lines: Seq<Seq<char>>,
    decode: spec_fn(Seq<char>) -> Option<StreamChunk>,
) -> Seq<StreamChoice>
    decreases lines.len(),
{
    if lines.len() == 0 {
        seq![]
    } else {
        line_choices(lines.drop_last(), decode) + match sse_payload_of(lines.last()) {
            Some(p) => match decode(p) {
                Some(c) => c.choices@,
                None => seq![],
            },
            None => seq![],
        }
    }
}

/// Feeding texts one after another, after a pending text that holds no line break, frames the
/// same lines as the whole text at once.
pub proof fn law_fed_lines_are_split_lines(start: Seq<char>, texts: Seq<Seq<char>>)
    requires
        newline_at(start) is None,
    ensures
        fed_lines(start, texts) == split_lines(start + joined(texts)),
    decreases texts.len(),
{
    if texts.len() == 0 {
        assert(start + joined(texts) =~= start);
        law_next_line_walks_split_lines(start);
    } else {
        let init = texts.drop_last();
        law_fed_lines_are_split_lines(start, init);
        law_lines_ignore_chunk_boundaries(start + joined(init), texts.last());
        assert(start + joined(texts) =~= (start + joined(init)) + texts.last());
    }
}

/// Chunks that are each valid UTF-8 decode, one after the other, to the text of all of them.
pub proof fn law_valid_chunks_join(chunks: Seq<Seq<u8>>)
    requires
        all_valid_utf8(chunks),
    ensures
        valid_utf8(joined_bytes(chunks)),
        joined(decoded_chunks(chunks)) == decode_utf8(joined_bytes(chunks)),
    decreases chunks.len(),
{
    if chunks.len() == 0 {
        assert(joined(decoded_chunks(chunks)) =~= Seq::<char>::empty());
        assert(valid_utf8(Seq::<u8>::empty()));
        assert(decode_utf8(Seq::<u8>::empty()) =~= Seq::<char>::empty());
    } else {
        let init = chunks.drop_last();
        assert forall|i: int| 0 <= i < init.len() implies valid_utf8(#[trigger] init[i]) by {
            assert(init[i] == chunks[i]);
        }
        law_valid_chunks_join(init);
        assert(valid_utf8(chunks[chunks.len() - 1]));
        law_valid_chunks_decode_as_whole(joined_bytes(init), chunks.last());
        assert(decoded_chunks(chunks).drop_last() =~= decoded_chunks(init));
    }
}

/// The lines that `a + b` carry carry the choices of `a`'s lines, then those of `b`'s.
pub proof fn law_line_choices_concatenate(
    a: Seq<Seq<char>>,
    b: Seq<Seq<char>>,
    decode: spec_fn(Seq<char>) -> Option<StreamChunk>,
)
    ensures
        line_choices(a + b, decode) == line_choices(a, decode) + line_choices(b, decode),
    decreases b.len(),
{
    if b.len() == 0 {
        assert(a + b =~= a);
        assert(line_choices(a, decode) + line_choices(b, decode) =~= line_choices(a, decode));
    } else {
        law_line_choices_concatenate(a, b.drop_last(), decode);
        assert((a + b).drop_last() =~= a + b.drop_last());
        assert(line_choices(a + b, decode) =~= line_choices(a, decode) + line_choices(b, decode));
    }
}

/// How the body is cut into chunks does not matter. For two cuts of the same bytes into chunks
/// that are each valid UTF-8, a stream fed one cut and a stream fed the other take the same
/// lines and leave the same text pending; so, whatever decodes the payloads, the events carry
/// the same choices, which give the same thinking and content tokens and the same final text.
pub proof fn law_body_cut_does_not_matter(
    options: CompletionOptions,
    c1: Seq<Seq<u8>>,
    c2: Seq<Seq<u8>>,
    decode: spec_fn(Seq<char>) -> Option<StreamChunk>,
)
    requires
        all_valid_utf8(c1),
        all_valid_utf8(c2),
        joined_bytes(c1) == joined_bytes(c2),
    ensures
        fed_lines(seq![], decoded_chunks(c1)) == fed_lines(seq![], decoded_chunks(c2)),
        ({
            let ch1 = line_choices(fed_lines(seq![], decoded_chunks(c1)).0, decode);
            let ch2 = line_choices(fed_lines(seq![], decoded_chunks(c2)).0, decode);
            &&& thinking_texts(options, ch1) == thinking_texts(options, ch2)
            &&& content_texts(ch1) == content_texts(ch2)
            &&& final_text(options, thinking_texts(options, ch1), content_texts(ch1)) == final_text(
                options,
                thinking_texts(options, ch2),
                content_texts(ch2),
            )
        }),
{
    law_valid_chunks_join(c1);
    law_valid_chunks_join(c2);
    assert(newline_at(Seq::<char>::empty()) is None);
    law_fed_lines_are_split_lines(seq![], decoded_chunks(c1));
    law_fed_lines_are_split_lines(seq![], decoded_chunks(c2));
    assert(Seq::<char>::empty() + joined(decoded_chunks(c1)) =~= joined(decoded_chunks(c1)));
    assert(Seq::<char>::empty() + joined(decoded_chunks(c2)) =~= joined(decoded_chunks(c2)));
}

/// Taking lines one at a time gives the lines that `split_lines` finds: when a line break is
/// pending, the first line is the text before it and the rest come from what follows it;
/// otherwise no line is complete.
pub proof fn law_next_line_walks_split_lines(s: Seq<char>)
    ensures
        match newline_at(s) {
            Some(i) => split_lines(s).0 == seq![s.take(i as int)] + split_lines(s.skip(i as int + 1)).0
                && split_lines(s).1 == split_lines(s.skip(i as int + 1)).1,
            None => split_lines(s).0.len() == 0 && split_lines(s).1 == s,
        },
{
    lemma_newline_bounded(s);
}

/// Reasoning is never forwarded unless the options ask for it: whatever the choices carry,
/// they give no thinking token.
pub proof fn law_no_thinking_unless_emitted(options: CompletionOptions, choices: Seq<StreamChoice>)
    requires
        !options.emit_reasoning,
    ensures
        thinking_texts(options, choices).len() == 0,
    decreases choices.len(),
{
    if choices.len() > 0 {
        law_no_thinking_unless_emitted(options, choices.drop_last());
    }
}

/// Content is never held back: the content texts of choices given one after the other are the
/// content texts of each, in order; likewise the thinking texts.
pub proof fn law_texts_concatenate(options: CompletionOptions, a: Seq<StreamChoice>, b: Seq<StreamChoice>)
    ensures
        content_texts(a + b) == content_texts(a) + content_texts(b),
        thinking_texts(options, a + b) == thinking_texts(options, a) + thinking_texts(options, b),
    decreases b.len(),
{
    if b.len() == 0 {
        assert(a + b =~= a);
        assert(content_texts(a) + content_texts(b) =~= content_texts(a));
        assert(thinking_texts(options, a) + thinking_texts(options, b) =~= thinking_texts(options, a));
    } else {
        law_texts_concatenate(options, a, b.drop_last());
        assert((a + b).drop_last() =~= a + b.drop_last());
        assert((a + b).last() == b.last());
        assert(content_texts(a + b) =~= content_texts(a) + content_texts(b));
        assert(thinking_texts(options, a + b) =~= thinking_texts(options, a) + thinking_texts(options, b));
    }
}

/// Each choice gives one content token exactly when its content delta is present and not
/// empty, and that token carries the delta's text unchanged, whatever the text is (white space
/// included) and whatever else the choice carries.
pub proof fn law_each_content_delta_is_one_token(c: StreamChoice)
    ensures
        c.delta.content matches Some(s) ==> content_texts(seq![c]) == (if s@.len() > 0 {
            seq![s@]
        } else {
            Seq::<Seq<char>>::empty()
        }),
        c.delta.content is None ==> content_texts(seq![c]) == Seq::<Seq<char>>::empty(),
{
    assert(seq![c].drop_last() =~= Seq::<StreamChoice>::empty());
    assert(seq![c].last() == c);
    assert(content_texts(Seq::<StreamChoice>::empty()) =~= Seq::<Seq<char>>::empty());
    if let Some(s) = c.delta.content {
        assert(Seq::<Seq<char>>::empty().push(s@) =~= seq![s@]);
    }
}

/// With reasoning emitted, each choice gives one thinking token exactly when its reasoning
/// delta is present and not empty, carrying the delta's text unchanged; without it, none.
pub proof fn law_each_reasoning_delta_is_one_token(options: CompletionOptions, c: StreamChoice)
    ensures
        c.delta.reasoning matches Some(s) ==> thinking_texts(options, seq![c]) == (if options.emit_reasoning
            && s@.len() > 0 {
            seq![s@]
        } else {
            Seq::<Seq<char>>::empty()
        }),
        c.delta.reasoning is None ==> thinking_texts(options, seq![c]) == Seq::<Seq<char>>::empty(),
{
    assert(seq![c].drop_last() =~= Seq::<StreamChoice>::empty());
    assert(seq![c].last() == c);
    assert(thinking_texts(options, Seq::<StreamChoice>::empty()) =~= Seq::<Seq<char>>::empty());
    if let Some(s) = c.delta.reasoning {
        assert(Seq::<Seq<char>>::empty().push(s@) =~= seq![s@]);
    }
}

/// The tokens of choices depend on their deltas alone: choices whose deltas agree one by one
/// give the same content and thinking texts, whatever their finish reasons say.
pub proof fn law_tokens_depend_on_deltas_only(
    options: CompletionOptions,
    a: Seq<StreamChoice>,
    b: Seq<StreamChoice>,
)
    requires
        a.len() == b.len(),
        forall|i: int| 0 <= i < a.len() ==> #[trigger] a[i].delta == b[i].delta,
    ensures
        content_texts(a) == content_texts(b),
        thinking_texts(options, a) == thinking_texts(options, b),
    decreases a.len(),
{
    if a.len() > 0 {
        assert forall|i: int| 0 <= i < a.drop_last().len() implies #[trigger] a.drop_last()[i].delta
            == b.drop_last()[i].delta by {
            assert(a.drop_last()[i] == a[i] && b.drop_last()[i] == b[i]);
        }
        law_tokens_depend_on_deltas_only(options, a.drop_last(), b.drop_last());
        assert(a.last().delta == b[a.len() - 1].delta);
    }
}

/// When every choice carries a non-empty content delta, there is one content token per choice,
/// in order, each with its delta's text unchanged; the joined content is then all those texts
/// one after another.
pub proof fn law_every_content_delta_is_kept(choices: Seq<StreamChoice>)
    requires
        forall|i: int|
            0 <= i < choices.len() ==> ((#[trigger] choices[i]).delta.content matches Some(s) && s@.len()
                > 0),
    ensures
        content_texts(choices).len() == choices.len(),
        forall|i: int|
            0 <= i < choices.len() ==> #[trigger] content_texts(choices)[i]
                == choices[i].delta.content->Some_0@,
    decreases choices.len(),
{
    if choices.len() > 0 {
        let init = choices.drop_last();
        assert forall|i: int| 0 <= i < init.len() implies ((#[trigger] init[i]).delta.content matches Some(
            s,
        ) && s@.len() > 0) by {
            assert(init[i] == choices[i]);
        }
        law_every_content_delta_is_kept(init);
        assert forall|i: int| 0 <= i < choices.len() implies #[trigger] content_texts(choices)[i]
            == choices[i].delta.content->Some_0@ by {
            if i < init.len() {
                assert(init[i] == choices[i]);
                assert(content_texts(init)[i] == init[i].delta.content->Some_0@);
            }
        }
    }
}

/// The final result: the joined content tokens when any content arrived; with no content, the
/// joined thinking tokens if the options fall back to them, and nothing otherwise.
pub proof fn law_final_text(options: CompletionOptions, thinking: Seq<Seq<char>>, content: Seq<Seq<char>>)
    ensures
        joined(content).len() > 0 ==> final_text(options, thinking, content) == joined(content),
        joined(content).len() == 0 && options.fallback_to_thinking ==> final_text(options, thinking, content)
            == joined(thinking),
        joined(content).len() == 0 && !options.fallback_to_thinking ==> final_text(options, thinking, content).len()
            == 0,
{
}

/// Joining texts one after another is joining all of them.
pub proof fn law_joined_concatenates(a: Seq<Seq<char>>, b: Seq<Seq<char>>)
    ensures
        joined(a + b) == joined(a) + joined(b),
    decreases b.len(),
{
    if b.len() == 0 {
        assert(a + b =~= a);
        assert(joined(a) + joined(b) =~= joined(a));
    } else {
        law_joined_concatenates(a, b.drop_last());
        assert((a + b).drop_last() =~= a + b.drop_last());
        assert(joined(a + b) =~= joined(a) + joined(b));
    }
}

} // verus!
