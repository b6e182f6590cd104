//! The research library and its assistant: a document's title and category,
//! search snippets, the model server's command line and context size, and
//! how a grounded prompt is packed into the model's context (the token
//! counting is the model server's, asked by the caller).

use vstd::prelude::*;

use crate::text::ov;
use crate::common::utf8_len;
use crate::text::{
    chars_of, decimal, decimal_chars, first_match, find_chars, lemma_first_match, lemma_split_nonempty,
    lit, lowercase, match_at, parse_unsigned, parse_unsigned_spec, push_all, push_str, seqs_view,
    slice_chars, split_char, split_chars, starts_with, str_eq, str_to_lowercase, string_of, strs_view,
    trim, trim_chars, trim_str, has_prefix,
};
use crate::wp_html::{char_index_at_byte, char_index_at_byte_exec, lemma_char_index_at_byte, lines_of, lines_spec};

verus! {

// ─── Documents ──────────────────────────────────────────────────────────────

/// The title of a markdown document: the first line that, trimmed, starts
/// with `# `, without that marker and trimmed.
pub open spec fn title_in(lines: Seq<Seq<char>>) -> Option<Seq<char>>
    decreases lines.len(),
{
    if lines.len() == 0 {
        None
    } else {
        let t = trim(lines[0]);
        if starts_with(t, "# "@) {
            Some(trim(t.skip(2)))
        } else {
            title_in(lines.drop_first())
        }
    }
}

pub fn markdown_title(content: &str) -> (r: Option<String>)
    ensures
        ov(r) == title_in(lines_spec(content@)),
{
    let lines = lines_of(content);
    let ghost lv = seqs_view(lines@);
    let marker = chars_of("# ");
    proof {
        reveal_strlit("# ");
    }
    let mut i: usize = 0;
    assert(lv.skip(0) =~= lv);
    while i < lines.len()
        invariant
            i <= lines@.len(),
            lv == seqs_view(lines@),
            lv == lines_spec(content@),
            marker@ == "# "@,
            marker@ == seq!['#', ' '],
            title_in(lv) == title_in(lv.skip(i as int)),
        decreases lines@.len() - i,
    {
        let ghost cur = lv.skip(i as int);
        assert(cur[0] == lines@[i as int]@);
        assert(cur.drop_first() =~= lv.skip(i + 1));
        let t = trim_chars(lines[i].as_slice());
        if has_prefix(t.as_slice(), marker.as_slice()) {
            let n = t.len();
            let rest = slice_chars(t.as_slice(), 2, n);
            assert(rest@ =~= t@.skip(2));
            return Some(string_of(trim_chars(rest.as_slice()).as_slice()));
        }
        i = i + 1;
    }
    assert(lv.skip(lines@.len() as int) =~= Seq::<Seq<char>>::empty());
    None
}

/// A document's category: the first segment of its path in the library.
pub open spec fn category_spec(relative: Seq<char>) -> Seq<char> {
    split_char(relative, '/')[0]
}

pub fn category_of(relative: &str) -> (r: String)
    ensures
        r@ == category_spec(relative@),
{
    let parts = split_chars(chars_of(relative).as_slice(), '/');
    proof {
        lemma_split_nonempty(relative@, '/');
    }
    assert(seqs_view(parts@)[0] == parts@[0]@);
    string_of(parts[0].as_slice())
}

// ─── Snippets ───────────────────────────────────────────────────────────────

/// Chars of context shown on each side of a hit.
pub const SNIPPET_CONTEXT: usize = 60;

/// Where the query's lower-cased form first occurs in the text's
/// lower-cased form, as a char position of the text itself (`None` when
/// it does not occur, or the byte position of the hit is not a char
/// boundary of the text).
pub open spec fn hit_pos(text: Seq<char>, query: Seq<char>) -> Option<int> {
    let lt = str_to_lowercase(text);
    let lq = str_to_lowercase(query);
    match first_match(lt, lq, 0) {
        Some(j) => char_index_at_byte(text, utf8_len(lt.take(j)) as int),
        None => None,
    }
}

/// A search snippet: 60 chars either side of the hit (`...` marking what
/// was cut), else the first `max_len` chars.
pub open spec fn snippet_spec(text: Seq<char>, query: Seq<char>, max_len: nat) -> Seq<char> {
    match hit_pos(text, query) {
        Some(k) => {
            let start = if k > SNIPPET_CONTEXT {
                k - SNIPPET_CONTEXT
            } else {
                0
            };
            let e = k + query.len() + SNIPPET_CONTEXT;
            let end = if e < text.len() {
                e
            } else {
                text.len() as int
            };
            let s = text.subrange(start, end);
            if start > 0 {
                "..."@ + s + "..."@
            } else {
                s + "..."@
            }
        },
        None => if text.len() > max_len {
            text.take(max_len as int) + "..."@
        } else {
            text
        },
    }
}

proof fn lemma_utf8_len_first(s: Seq<char>)
    requires
        s.len() > 0,
    ensures
        utf8_len(s) == crate::common::char_width(s[0]) + utf8_len(s.drop_first()),
    decreases s.len(),
{
    if s.len() > 1 {
        lemma_utf8_len_first(s.drop_last());
        assert(s.drop_last().drop_first() =~= s.drop_first().drop_last());
        assert(s.drop_last()[0] == s[0]);
    } else {
        assert(s.drop_first() =~= Seq::<char>::empty());
        assert(s.drop_last() =~= Seq::<char>::empty());
    }
}

/// A byte offset on a char boundary lies within the text.
proof fn lemma_char_index_within(s: Seq<char>, n: int)
    requires
        char_index_at_byte(s, n) is Some,
    ensures
        n <= utf8_len(s),
    decreases s.len(),
{
    if n != 0 && s.len() > 0 {
        lemma_utf8_len_first(s);
        lemma_char_index_within(s.drop_first(), n - crate::common::char_width(s[0]));
    }
}

fn utf8_prefix_len(v: &[char], j: usize) -> (n: Option<usize>)
    requires
        j <= v@.len(),
    ensures
        match n {
            Some(x) => x == utf8_len(v@.take(j as int)),
            None => utf8_len(v@.take(j as int)) > usize::MAX,
        },
{
    let mut total: usize = 0;
    let mut i: usize = 0;
    while i < j
        invariant
            i <= j,
            j <= v@.len(),
            total == utf8_len(v@.take(i as int)),
        decreases j - i,
    {
        assert(v@.take(i + 1).drop_last() =~= v@.take(i as int));
        let w = crate::common::char_len_utf8(v[i]);
        if w > usize::MAX - total {
            proof {
                crate::common::lemma_utf8_len_prefix(v@.take(j as int), i + 1);
                assert(v@.take(j as int).take(i + 1) =~= v@.take(i + 1));
            }
            return None;
        }
        total = total + w;
        i = i + 1;
    }
    Some(total)
}

/// The snippet shown for a search hit.
pub fn generate_snippet(text: &str, query: &str, max_len: usize) -> (r: String)
    ensures
        r@ == snippet_spec(text@, query@, max_len as nat),
{
    let tv = chars_of(text);
    let lt = chars_of(lowercase(text).as_str());
    let lq = chars_of(lowercase(query).as_str());
    proof {
        lemma_first_match(lt@, lq@, 0);
    }
    let hit: Option<usize> = match find_chars(lt.as_slice(), lq.as_slice(), 0) {
        Some(j) => {
            proof {
                crate::common::lemma_utf8_len_prefix(lt@, j as int);
            }
            match utf8_prefix_len(lt.as_slice(), j) {
                Some(pos) => {
                    proof {
                        lemma_char_index_at_byte(tv@, pos as int);
                    }
                    let r = char_index_at_byte_exec(tv.as_slice(), pos);
                    match r {
                        Some(k) => {
                            assert(k <= tv@.len());
                        },
                        None => {},
                    }
                    r
                },
                None => {
                    let tb = crate::common::byte_len(text);
                    proof {
                        if char_index_at_byte(tv@, utf8_len(lt@.take(j as int)) as int) is Some {
                            lemma_char_index_within(tv@, utf8_len(lt@.take(j as int)) as int);
                        }
                    }
                    None
                },
            }
        },
        None => None,
    };
    assert(match hit {
        Some(k) => hit_pos(text@, query@) == Some(k as int) && k <= tv@.len(),
        None => hit_pos(text@, query@) is None,
    });
    match hit {
        Some(k) => {
            let qn = chars_of(query).len();
            let n = tv.len();
            let start: usize = if k > SNIPPET_CONTEXT {
                k - SNIPPET_CONTEXT
            } else {
                0
            };
            let room = n - k;
            let end: usize = if qn < room && SNIPPET_CONTEXT < room - qn {
                k + qn + SNIPPET_CONTEXT
            } else {
                n
            };
            let s = slice_chars(tv.as_slice(), start, end);
            let mut out: Vec<char> = Vec::new();
            if start > 0 {
                push_str(&mut out, "...");
            }
            push_all(&mut out, s.as_slice());
            push_str(&mut out, "...");
            string_of(out.as_slice())
        },
        None => {
            if tv.len() > max_len {
                let mut out = slice_chars(tv.as_slice(), 0, max_len);
                assert(out@ =~= tv@.take(max_len as int));
                push_str(&mut out, "...");
                string_of(out.as_slice())
            } else {
                string_of(tv.as_slice())
            }
        },
    }
}

// ─── The model server ───────────────────────────────────────────────────────

/// The model server's command line: the binary, `-m` and the model, then
/// the configured flags.
pub open spec fn launch_args_spec(binary: Seq<char>, model: Seq<char>, flags: Seq<Seq<char>>) -> Seq<
    Seq<char>,
> {
    seq![binary, "-m"@, model] + flags
}

pub fn launch_args(binary: &str, model: &str, flags: &Vec<String>) -> (r: Vec<String>)
    ensures
        strs_view(r@) == launch_args_spec(binary@, model@, strs_view(flags@)),
{
    let mut out: Vec<String> = Vec::new();
    out.push(lit(binary));
    out.push(lit("-m"));
    out.push(lit(model));
    let ghost base = strs_view(out@);
    let mut i: usize = 0;
    while i < flags.len()
        invariant
            i <= flags@.len(),
            base == seq![binary@, "-m"@, model@],
            strs_view(out@) =~= base + strs_view(flags@).take(i as int),
        decreases flags@.len() - i,
    {
        let ghost prev = strs_view(out@);
        out.push(flags[i].clone());
        assert(strs_view(out@) =~= prev.push(flags@[i as int]@));
        i = i + 1;
    }
    assert(strs_view(flags@).take(flags@.len() as int) =~= strs_view(flags@));
    out
}

/// The first flag pair `--ctx-size N`, if any.
pub open spec fn ctx_flag(flags: Seq<Seq<char>>) -> Option<Seq<char>>
    decreases flags.len(),
{
    if flags.len() < 2 {
        None
    } else if flags[0] == "--ctx-size"@ {
        Some(flags[1])
    } else {
        ctx_flag(flags.drop_first())
    }
}

/// The context window: the value after the first `--ctx-size` when it
/// parses as a count, else 8192.
pub open spec fn ctx_size_spec(flags: Seq<Seq<char>>) -> nat {
    match ctx_flag(flags) {
        Some(v) => match parse_unsigned_spec(v, usize::MAX as nat) {
            Some(n) => n,
            None => 8192,
        },
        None => 8192,
    }
}

pub fn ctx_size(flags: &Vec<String>) -> (r: usize)
    ensures
        r == ctx_size_spec(strs_view(flags@)),
{
    let ghost fv = strs_view(flags@);
    let mut i: usize = 0;
    assert(fv.skip(0) =~= fv);
    while i < flags.len() && flags.len() - i > 1
        invariant
            i <= flags@.len(),
            fv == strs_view(flags@),
            ctx_flag(fv) == ctx_flag(fv.skip(i as int)),
        decreases flags@.len() - i,
    {
        let ghost cur = fv.skip(i as int);
        assert(cur[0] == flags@[i as int]@);
        assert(cur[1] == flags@[i + 1]@);
        assert(cur.drop_first() =~= fv.skip(i + 1));
        if str_eq(flags[i].as_str(), "--ctx-size") {
            return match parse_unsigned(chars_of(flags[i + 1].as_str()).as_slice(), usize::MAX as u64) {
                Some(n) => n as usize,
                None => 8192,
            };
        }
        i = i + 1;
    }
    8192
}

// ─── Prompts ────────────────────────────────────────────────────────────────

/// What the assistant is told before any question.
pub open spec fn system_prompt() -> Seq<char> {
    "You are the Bug Bounty Research Vault assistant. Ground every answer in the provided context; never invent details. If unsure, say so. Format lists with markdown."@
}

pub fn system_prompt_exec() -> (r: &'static str)
    ensures
        r@ == system_prompt(),
{
    "You are the Bug Bounty Research Vault assistant. Ground every answer in the provided context; never invent details. If unsure, say so. Format lists with markdown."
}

/// A chat request.
pub struct ChatQuery {
    pub message: String,
    pub limit: usize,
}

/// Chunks retrieved when a request does not say.
pub const DEFAULT_CHAT_LIMIT: usize = 5;

/// The question asked: the message trimmed; a blank one is refused.
pub fn chat_message(q: &ChatQuery) -> (r: Result<String, String>)
    ensures
        match r {
            Ok(m) => m@ == trim(q.message@) && m@.len() > 0,
            Err(e) => trim(q.message@).len() == 0 && e@ == "Message cannot be empty"@,
        },
{
    let m = trim_str(q.message.as_str());
    if chars_of(m.as_str()).len() == 0 {
        Err(lit("Message cannot be empty"))
    } else {
        Ok(m)
    }
}

/// The answer when the model server is down.
pub open spec fn model_down_spec(api_base: Seq<char>) -> Seq<char> {
    "Model server is not running. Click “Start model” in the Ask panel (or launch llama-server at "@
        + api_base + "). See server/rag/model_config.toml."@
}

pub fn model_down_message(api_base: &str) -> (r: String)
    ensures
        r@ == model_down_spec(api_base@),
{
    let mut v = chars_of(
        "Model server is not running. Click “Start model” in the Ask panel (or launch llama-server at ",
    );
    push_str(&mut v, api_base);
    push_str(&mut v, "). See server/rag/model_config.toml.");
    string_of(v.as_slice())
}

/// Tokens the context may take: the window less the system prompt, the
/// question, the answer's allowance and a safety margin (never below 0).
pub open spec fn context_budget_spec(ctx: nat, system: nat, question: nat, max_tokens: nat) -> nat {
    let a = if ctx > system {
        (ctx - system) as nat
    } else {
        0nat
    };
    let b = if a > question {
        (a - question) as nat
    } else {
        0nat
    };
    let c = if b > max_tokens {
        (b - max_tokens) as nat
    } else {
        0nat
    };
    if c > 128 {
        (c - 128) as nat
    } else {
        0nat
    }
}

pub fn context_budget(ctx: usize, system: usize, question: usize, max_tokens: usize) -> (r: usize)
    ensures
        r == context_budget_spec(ctx as nat, system as nat, question as nat, max_tokens as nat),
{
    ctx.saturating_sub(system).saturating_sub(question).saturating_sub(max_tokens).saturating_sub(128)
}

/// The header of the `i`-th context entry.
pub open spec fn chunk_header_spec(i: nat, path: Seq<char>, title: Seq<char>) -> Seq<char> {
    "\n\n["@ + decimal(i) + "] File: "@ + path + "\nTitle: "@ + title + "\n"@
}

pub fn chunk_header(i: usize, path: &str, title: &str) -> (r: String)
    ensures
        r@ == chunk_header_spec(i as nat, path@, title@),
{
    let mut v = chars_of("\n\n[");
    push_all(&mut v, decimal_chars(i as u64).as_slice());
    push_str(&mut v, "] File: ");
    push_str(&mut v, path);
    push_str(&mut v, "\nTitle: ");
    push_str(&mut v, title);
    push_str(&mut v, "\n");
    string_of(v.as_slice())
}

/// The question as measured against the budget.
pub open spec fn question_line_spec(query: Seq<char>) -> Seq<char> {
    "Question: "@ + query
}

pub fn question_line(query: &str) -> (r: String)
    ensures
        r@ == question_line_spec(query@),
{
    let mut v = chars_of("Question: ");
    push_str(&mut v, query);
    string_of(v.as_slice())
}

/// The grounded prompt around the packed context.
pub open spec fn grounded_prompt_spec(context: Seq<char>, query: Seq<char>) -> Seq<char> {
    "You are an expert bug bounty researcher's assistant. Answer the user's question using ONLY the context below (retrieved from the Vault library). Cite your sources inline as [0], [1], etc. If the context does not contain the answer, say you don't know and suggest what to search for. Be concise.\n\n=== CONTEXT ===\n"@
        + context + "\n=== END CONTEXT ===\n\nQuestion: "@ + query
}

pub fn grounded_prompt(context: &str, query: &str) -> (r: String)
    ensures
        r@ == grounded_prompt_spec(context@, query@),
{
    let mut v = chars_of(
        "You are an expert bug bounty researcher's assistant. Answer the user's question using ONLY the context below (retrieved from the Vault library). Cite your sources inline as [0], [1], etc. If the context does not contain the answer, say you don't know and suggest what to search for. Be concise.\n\n=== CONTEXT ===\n",
    );
    push_str(&mut v, context);
    push_str(&mut v, "\n=== END CONTEXT ===\n\nQuestion: ");
    push_str(&mut v, query);
    string_of(v.as_slice())
}

/// Whether an entry's header (with 16 tokens of slack) still fits the
/// budget; if so, the budget left for its body.
pub fn header_fits(budget: usize, header_tokens: usize) -> (r: Option<usize>)
    ensures
        match r {
            Some(left) => header_tokens + 16 <= budget && left == budget - header_tokens - 16,
            None => header_tokens + 16 > budget,
        },
{
    if header_tokens > budget || budget - header_tokens < 16 {
        None
    } else {
        Some(budget - header_tokens - 16)
    }
}

// ─── Fitting a body to a token budget ───────────────────────────────────────

/// A search for the longest char prefix of a body whose token count fits
/// the budget; the caller counts the tokens of each prefix probed.
pub struct PrefixSearch {
    pub lo: usize,
    pub hi: usize,
    pub best: usize,
}

/// What the search knows after probing, for a body of `len` chars and
/// whether each prefix length fits: every length below `lo` fits up to
/// `best` (`lo - 1` once anything fitted), none from `hi` on (below `len`).
pub open spec fn search_inv(s: PrefixSearch, len: nat, fits: spec_fn(nat) -> bool) -> bool {
    &&& s.lo <= s.hi <= len
    &&& (s.lo == 0 ==> s.best == 0)
    &&& (s.lo > 0 ==> s.best == s.lo - 1 && fits(s.best as nat))
    &&& forall|k: nat| s.hi <= k < len ==> !#[trigger] fits(k)
}

/// A fresh search over a body of `len` chars.
pub fn prefix_search(len: usize) -> (s: PrefixSearch)
    ensures
        s.lo == 0 && s.hi == len && s.best == 0,
{
    PrefixSearch { lo: 0, hi: len, best: 0 }
}

impl PrefixSearch {
    /// The prefix length to count next, or `None` once the search is over.
    pub fn probe(&self) -> (r: Option<usize>)
        ensures
            match r {
                Some(m) => self.lo < self.hi && m == (self.lo + self.hi) / 2,
                None => self.lo >= self.hi,
            },
    {
        if self.lo < self.hi {
            Some(self.lo + (self.hi - self.lo) / 2)
        } else {
            None
        }
    }

    /// Records whether the probed prefix fitted.
    pub fn record(&mut self, fits: bool)
        requires
            old(self).lo < old(self).hi,
        ensures
            ({
                let m = (old(self).lo + old(self).hi) / 2;
                if fits {
                    final(self).best == m && final(self).lo == m + 1 && final(self).hi == old(self).hi
                } else {
                    final(self).best == old(self).best && final(self).lo == old(self).lo
                        && final(self).hi == m
                }
            }),
    {
        let m = self.lo + (self.hi - self.lo) / 2;
        if fits {
            self.best = m;
            self.lo = m + 1;
        } else {
            self.hi = m;
        }
    }
}

/// Each recorded answer keeps what the search knows, when the answers come
/// from a rule under which shorter prefixes of a fitting one fit too.
pub proof fn record_keeps_search_inv(
    before: PrefixSearch,
    after: PrefixSearch,
    len: nat,
    fits: spec_fn(nat) -> bool,
)
    requires
        search_inv(before, len, fits),
        before.lo < before.hi,
        forall|a: nat, b: nat| a <= b && #[trigger] fits(b) ==> #[trigger] fits(a),
        ({
            let m = (before.lo + before.hi) / 2;
            if fits(m as nat) {
                after.best == m && after.lo == m + 1 && after.hi == before.hi
            } else {
                after.best == before.best && after.lo == before.lo && after.hi == m
            }
        }),
    ensures
        search_inv(after, len, fits),
{
    let m = (before.lo + before.hi) / 2;
    if !fits(m as nat) {
        assert forall|k: nat| after.hi <= k < len implies !#[trigger] fits(k) by {
            if k < before.hi {
                if fits(k) {
                    assert(fits(m as nat));
                }
            }
        }
    }
}

/// A finished search has found the longest fitting prefix below the
/// body's length (0 when none fits).
pub proof fn finished_search_is_longest(s: PrefixSearch, len: nat, fits: spec_fn(nat) -> bool)
    requires
        search_inv(s, len, fits),
        s.lo >= s.hi,
    ensures
        s.best < len || len == 0,
        s.lo > 0 ==> fits(s.best as nat),
        forall|k: nat| s.best < k < len ==> !#[trigger] fits(k),
        s.lo == 0 ==> forall|k: nat| k < len ==> !#[trigger] fits(k),
{
}


// ─── Streamed answers ───────────────────────────────────────────────────────

/// Where the first complete event of a server-sent event stream ends: the
/// first blank line (`\n\n`), `None` while none has arrived.
pub fn sse_event_end(buf: &[u8]) -> (r: Option<usize>)
    ensures
        match r {
            Some(i) => {
                &&& i + 1 < buf@.len()
                &&& buf@[i as int] == 10 && buf@[i + 1] == 10
                &&& forall|j: int| 0 <= j < i ==> !(#[trigger] buf@[j] == 10 && buf@[j + 1] == 10)
            },
            None => forall|j: int| 0 <= j < buf@.len() - 1 ==> !(#[trigger] buf@[j] == 10 && buf@[j + 1] == 10),
        },
{
    let n = buf.len();
    let mut i: usize = 0;
    while n > 1 && i < n - 1
        invariant
            n == buf@.len(),
            n > 1 ==> i <= n - 1,
            forall|j: int| 0 <= j < i ==> !(#[trigger] buf@[j] == 10 && buf@[j + 1] == 10),
        decreases buf@.len() - i,
    {
        if buf[i] == 10 && buf[i + 1] == 10 {
            return Some(i);
        }
        i = i + 1;
    }
    None
}

/// The payloads of an event's `data:` lines (each line trimmed, the marker
/// dropped and the rest trimmed), in order.
pub open spec fn data_payloads(lines: Seq<Seq<char>>) -> Seq<Seq<char>>
    decreases lines.len(),
{
    if lines.len() == 0 {
        seq![]
    } else {
        let p = data_payloads(lines.drop_last());
        let t = trim(lines.last());
        if starts_with(t, "data:"@) {
            p.push(trim(t.skip(5)))
        } else {
            p
        }
    }
}

/// The data carried by one server-sent event.
pub fn sse_data(event: &str) -> (r: Vec<String>)
    ensures
        strs_view(r@) == data_payloads(lines_spec(event@)),
{
    let lines = lines_of(event);
    let ghost lv = seqs_view(lines@);
    let marker = chars_of("data:");
    proof {
        reveal_strlit("data:");
    }
    let mut out: Vec<String> = Vec::new();
    let mut i: usize = 0;
    while i < lines.len()
        invariant
            i <= lines@.len(),
            lv == seqs_view(lines@),
            lv == lines_spec(event@),
            marker@ == "data:"@,
            marker@.len() == 5,
            strs_view(out@) == data_payloads(lv.take(i as int)),
        decreases lines@.len() - i,
    {
        assert(lv.take(i + 1).drop_last() =~= lv.take(i as int));
        assert(lv.take(i + 1).last() == lines@[i as int]@);
        let t = trim_chars(lines[i].as_slice());
        if has_prefix(t.as_slice(), marker.as_slice()) {
            let n = t.len();
            let rest = slice_chars(t.as_slice(), 5, n);
            assert(rest@ =~= t@.skip(5));
            let d = string_of(trim_chars(rest.as_slice()).as_slice());
            let ghost before = strs_view(out@);
            out.push(d);
            assert(strs_view(out@) =~= before.push(d@));
        }
        i = i + 1;
    }
    assert(lv.take(lines@.len() as int) =~= lv);
    out
}


// ─── Rendering ──────────────────────────────────────────────────────────────

/// The HTML that pulldown-cmark renders for a markdown text with tables,
/// footnotes, strikethrough, task lists and heading attributes enabled.
pub uninterp spec fn markdown_html(content: Seq<char>) -> Seq<char>;

/// `pulldown_cmark::Parser::new_ext` with those extensions, rendered by
/// `pulldown_cmark::html::push_html` into an empty string; the HTML is named
/// by `markdown_html`.
#[verifier::external_body]
fn markdown_to_html(content: &str) -> (r: String)
    ensures
        r@ == markdown_html(content@),
{
    let mut options = pulldown_cmark::Options::empty();
    options.insert(pulldown_cmark::Options::ENABLE_TABLES);
    options.insert(pulldown_cmark::Options::ENABLE_FOOTNOTES);
    options.insert(pulldown_cmark::Options::ENABLE_STRIKETHROUGH);
    options.insert(pulldown_cmark::Options::ENABLE_TASKLISTS);
    options.insert(pulldown_cmark::Options::ENABLE_HEADING_ATTRIBUTES);
    let mut out = String::new();
    pulldown_cmark::html::push_html(&mut out, pulldown_cmark::Parser::new_ext(content, options));
    out
}

/// A document's page: its rendered HTML inside a `markdown-body` block.
pub fn render_markdown(content: &str) -> (r: String)
    ensures
        r@ == "<div class=\"markdown-body\">"@ + markdown_html(content@) + "</div>"@,
{
    let mut v = chars_of("<div class=\"markdown-body\">");
    push_str(&mut v, markdown_to_html(content).as_str());
    push_str(&mut v, "</div>");
    string_of(v.as_slice())
}

} // verus!
