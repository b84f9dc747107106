//! Reading a suggested search query out of a chat-completion reply, which may
//! be plain JSON or JSON wrapped in a Markdown code fence.

use crate::text::{
    chars_of, find_newline, is_space, join_lines, lemma_newline_at, lines, preview,
    strip_cr, trim, trim_bounds, truncate_preview,
};
use vstd::prelude::*;

verus! {

/// Characters of a rejected reply that an error message quotes.
pub const PREVIEW_CHARS: usize = 200;

/// What JSON text `text` holds under member `key`, when it is one object
/// whose member `key` is a string.
pub uninterp spec fn json_string_member(text: Seq<char>, key: Seq<char>) -> Option<Seq<char>>;

/// What `text` holds under member `key` as JSON; text that opens with a
/// backtick is no JSON.
pub open spec fn json_member(text: Seq<char>, key: Seq<char>) -> Option<Seq<char>> {
    if text.len() > 0 && text[0] == '`' {
        None
    } else {
        json_string_member(text, key)
    }
}

pub open spec fn opt_view(o: Option<String>) -> Option<Seq<char>> {
    match o {
        Some(s) => Some(s@),
        None => None,
    }
}

pub open spec fn query_key() -> Seq<char> {
    seq!['q', 'u', 'e', 'r', 'y']
}

pub open spec fn fence_mark() -> Seq<char> {
    seq!['`', '`', '`']
}

pub open spec fn starts_with_fence(s: Seq<char>) -> bool {
    s.len() >= 3 && s.take(3) == fence_mark()
}

pub open spec fn is_fence_line(line: Seq<char>) -> bool {
    trim(line) == fence_mark()
}

/// The lines before the first closing fence line.
pub open spec fn fence_body(ls: Seq<Seq<char>>) -> Seq<Seq<char>>
    decreases ls.len(),
{
    if ls.len() == 0 || is_fence_line(ls[0]) {
        seq![]
    } else {
        seq![ls[0]] + fence_body(ls.drop_first())
    }
}

/// What a code fence in `s` encloses: the lines after the opening line (which
/// may carry a language tag) up to a closing fence line or the end, joined and
/// trimmed; `None` when `s` does not open with a fence or encloses no line.
pub open spec fn stripped_fence(s: Seq<char>) -> Option<Seq<char>> {
    if !starts_with_fence(s) {
        None
    } else {
        let body = fence_body(lines(s).drop_first());
        if body.len() == 0 {
            None
        } else {
            Some(trim(join_lines(body)))
        }
    }
}

/// The query a reply suggests: its `query` member read as JSON, else the
/// same read from the fenced part of the trimmed reply.
pub open spec fn suggested_query(content: Seq<char>) -> Option<Seq<char>> {
    match json_member(content, query_key()) {
        Some(q) => Some(q),
        None => match stripped_fence(trim(content)) {
            Some(body) => json_member(body, query_key()),
            None => None,
        },
    }
}

/// A reply from which no query could be read.
#[derive(Debug)]
pub struct SuggestionError {
    /// The start of the reply, for the message.
    pub preview: String,
}

impl SuggestionError {
    pub fn message(&self) -> (r: String)
        ensures
            r@ == "OpenAI response was not valid JSON (first 200 chars): "@ + self.preview@,
    {
        let mut r = String::from_str("OpenAI response was not valid JSON (first 200 chars): ");
        r.append(self.preview.as_str());
        r
    }
}

/// Relies on serde_json::from_str: parses `text` as a JSON object of arbitrary
/// members and hands back member `key` when it is a string. No JSON text
/// begins with a backtick.
#[verifier::external_body]
fn decode_string_member(text: &str, key: &str) -> (r: Option<String>)
    ensures
        opt_view(r) == (if text@.len() > 0 && text@[0] == '`' {
            None
        } else {
            json_string_member(text@, key@)
        }),
{
    match serde_json::from_str::<std::collections::BTreeMap<String, serde_json::Value>>(text) {
        Ok(mut members) => match members.remove(key) {
            Some(serde_json::Value::String(q)) => Some(q),
            _ => None,
        },
        Err(_) => None,
    }
}

/// The text inside a Markdown code fence that opens `input`.
pub fn strip_code_fence(input: &str) -> (r: Option<String>)
    ensures
        opt_view(r) == stripped_fence(input@),
{
    let v = chars_of(input);
    let n = v.len();
    if n < 3 || v[0] != '`' || v[1] != '`' || v[2] != '`' {
        proof {
            if n >= 3 {
                assert(v@.take(3)[0] == v@[0]);
                assert(v@.take(3)[1] == v@[1]);
                assert(v@.take(3)[2] == v@[2]);
            }
        }
        return None;
    }
    assert(v@.take(3) =~= fence_mark());
    let k0 = find_newline(&v, 0);
    assert(v@.subrange(0, n as int) =~= v@);
    if k0 >= n {
        assert(lines(v@) == seq![v@]);
        assert(lines(v@).drop_first() =~= Seq::<Seq<char>>::empty());
        return None;
    }
    let ghost all = lines(v@).drop_first();
    assert(v@.skip(k0 + 1 as int) =~= v@.subrange(k0 + 1, n as int));
    assert(all =~= lines(v@.subrange(k0 + 1, n as int)));
    let mut out = String::new();
    let mut count: usize = 0;
    let ghost mut done: Seq<Seq<char>> = seq![];
    let mut p = k0 + 1;
    let mut closed = false;
    let nl = "\n";
    proof {
        reveal_strlit("\n");
    }
    while p < n && !closed
        invariant
            n == v@.len(),
            v@ == input@,
            nl@ == seq!['\n'],
            p <= n,
            count <= p,
            count == done.len(),
            out@ == join_lines(done),
            closed ==> fence_body(all) == done,
            !closed ==> fence_body(all) == done + fence_body(lines(v@.subrange(p as int, n as int))),
        decreases n - p + (if closed { 0int } else { 1int }),
    {
        let k = find_newline(&v, p);
        let e = if k < n && k > p && v[k - 1] == '\r' {
            k - 1
        } else {
            k
        };
        let ghost rest = v@.subrange(p as int, n as int);
        let ghost line = v@.subrange(p as int, e as int);
        proof {
            if k < n {
                assert(rest.take(k - p) =~= v@.subrange(p as int, k as int));
                assert(strip_cr(rest.take(k - p)) =~= line);
                assert(rest.skip(k - p + 1) =~= v@.subrange(k + 1, n as int));
                assert(lines(rest) == seq![line] + lines(v@.subrange(k + 1, n as int)));
            } else {
                assert(rest =~= line);
                assert(lines(rest) == seq![line]);
            }
        }
        let (a, b) = trim_bounds(&v, p, e);
        if b - a == 3 && v[a] == '`' && v[a + 1] == '`' && v[a + 2] == '`' {
            assert(v@.subrange(a as int, b as int) =~= fence_mark());
            closed = true;
        } else {
            proof {
                if v@.subrange(a as int, b as int) == fence_mark() {
                    assert(fence_mark().len() == 3);
                    assert(v@.subrange(a as int, b as int)[0] == v@[a as int]);
                    assert(v@.subrange(a as int, b as int)[1] == v@[a + 1]);
                    assert(v@.subrange(a as int, b as int)[2] == v@[a + 2]);
                }
            }
            if count > 0 {
                out.append(nl);
            }
            out.append(input.substring_char(p, e));
            proof {
                let nd = done.push(line);
                assert(nd.drop_last() =~= done);
                if done.len() == 0 {
                    assert(join_lines(nd) == line);
                }
                let tail = if k < n {
                    lines(v@.subrange(k + 1, n as int))
                } else {
                    Seq::<Seq<char>>::empty()
                };
                assert((seq![line] + tail).drop_first() =~= tail);
                assert(done + (seq![line] + fence_body(tail)) =~= nd + fence_body(tail));
                done = nd;
            }
            count = count + 1;
            p = if k < n {
                k + 1
            } else {
                n
            };
            proof {
                if k >= n {
                    assert(v@.subrange(p as int, n as int) =~= Seq::<char>::empty());
                }
            }
        }
    }
    proof {
        if !closed {
            assert(v@.subrange(p as int, n as int) =~= Seq::<char>::empty());
            assert(done + Seq::<Seq<char>>::empty() =~= done);
        }
    }
    if count == 0 {
        return None;
    }
    let w = chars_of(out.as_str());
    let (a, b) = trim_bounds(&w, 0, w.len());
    assert(w@.subrange(0, w@.len() as int) =~= w@);
    Some(String::from_str(out.as_str().substring_char(a, b)))
}

/// The query a chat-completion reply suggests: the reply's `query` member
/// when it is JSON, else that of the JSON inside the code fence that opens the
/// trimmed reply; otherwise an error that quotes the start of the reply.
pub fn parse_query_from_content(content: &str) -> (r: Result<String, SuggestionError>)
    ensures
        match r {
            Ok(q) => suggested_query(content@) == Some(q@),
            Err(e) => suggested_query(content@) is None && e.preview@ == preview(
                content@,
                PREVIEW_CHARS as nat,
            ),
        },
{
    let key = "query";
    proof {
        reveal_strlit("query");
        assert(key@ =~= query_key());
    }
    if let Some(q) = decode_string_member(content, key) {
        return Ok(q);
    }
    let v = chars_of(content);
    let (a, b) = trim_bounds(&v, 0, v.len());
    assert(v@.subrange(0, v@.len() as int) =~= v@);
    let trimmed = content.substring_char(a, b);
    if let Some(body) = strip_code_fence(trimmed) {
        if let Some(q) = decode_string_member(body.as_str(), key) {
            return Ok(q);
        }
    }
    Err(SuggestionError { preview: truncate_preview(content, PREVIEW_CHARS) })
}

proof fn lemma_trim_len(s: Seq<char>)
    ensures
        trim(s).len() <= s.len(),
    decreases s.len(),
{
    if s.len() > 0 {
        if is_space(s[0]) {
            lemma_trim_len(s.drop_first());
        } else if is_space(s.last()) {
            lemma_trim_len(s.drop_last());
        }
    }
}

/// A text that trims to itself has no white space at either end.
proof fn lemma_trimmed_ends(s: Seq<char>)
    requires
        trim(s) == s,
        s.len() > 0,
    ensures
        !is_space(s[0]),
        !is_space(s.last()),
{
    if is_space(s[0]) {
        lemma_trim_len(s.drop_first());
    } else if is_space(s.last()) {
        lemma_trim_len(s.drop_last());
    }
}

/// A text without line feeds is one line.
proof fn lemma_single_line(s: Seq<char>)
    requires
        s.len() > 0,
        forall|i: int| 0 <= i < s.len() ==> s[i] != '\n',
    ensures
        lines(s) == seq![s],
{
    lemma_newline_at(s, s.len());
}

/// A reply that wraps a one-line JSON text in a code fence, the opening
/// fence carrying a language tag, yields the same suggested query as the
/// JSON text alone.
pub proof fn lemma_fenced_reply_same_query(json: Seq<char>, tag: Seq<char>)
    requires
        forall|i: int| 0 <= i < json.len() ==> json[i] != '\n',
        forall|i: int| 0 <= i < tag.len() ==> tag[i] != '\n',
        trim(json) == json,
    ensures
        suggested_query(fence_mark() + tag + seq!['\n'] + json + seq!['\n'] + fence_mark())
            == suggested_query(json),
{
    let f = fence_mark();
    let fenced = f + tag + seq!['\n'] + json + seq!['\n'] + f;
    assert(!is_space('`'));
    assert(trim(f) == f);
    assert(lines(f) == seq![f]) by {
        lemma_single_line(f);
    }
    // The JSON text alone: no fence is found in it.
    if json.len() > 0 {
        lemma_trimmed_ends(json);
        lemma_single_line(json);
        assert(lines(json).drop_first() =~= Seq::<Seq<char>>::empty());
    }
    assert(stripped_fence(json) is None);
    // The fenced reply: it is not JSON, and trims to itself.
    assert(fenced[0] == '`');
    assert(fenced.last() == '`');
    assert(trim(fenced) == fenced);
    let k = 3 + tag.len();
    assert(forall|i: int| 0 <= i < k ==> fenced[i] != '\n') by {
        assert forall|i: int| 0 <= i < k implies fenced[i] != '\n' by {
            if i >= 3 {
                assert(fenced[i] == tag[i - 3]);
            }
        }
    }
    assert(fenced[k as int] == '\n');
    lemma_newline_at(fenced, k);
    let rest = json + seq!['\n'] + f;
    assert(fenced.skip(k + 1 as int) =~= rest);
    assert(rest[json.len() as int] == '\n');
    assert(forall|i: int| 0 <= i < json.len() ==> rest[i] != '\n') by {
        assert forall|i: int| 0 <= i < json.len() implies rest[i] != '\n' by {
            assert(rest[i] == json[i]);
        }
    }
    lemma_newline_at(rest, json.len());
    assert(rest.take(json.len() as int) =~= json);
    assert(rest.skip(json.len() + 1 as int) =~= f);
    assert(strip_cr(json) == json) by {
        if json.len() > 0 {
            lemma_trimmed_ends(json);
        }
    }
    assert(lines(rest) == seq![json] + seq![f]);
    assert(fenced.take(3) =~= f);
    assert(lines(fenced).drop_first() =~= seq![json, f]);
    let ls = seq![json, f];
    assert(ls.drop_first() =~= seq![f]);
    assert(seq![f].drop_first() =~= Seq::<Seq<char>>::empty());
    if is_fence_line(json) {
        assert(json == f);
        assert(fence_body(ls) == Seq::<Seq<char>>::empty());
    } else {
        assert(fence_body(seq![f]) == Seq::<Seq<char>>::empty());
        assert(fence_body(ls) =~= seq![json]);
        assert(join_lines(seq![json]) == json);
    }
}

} // verus!
