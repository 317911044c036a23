//! Lenient parsing of the JSON that a model writes for tool arguments:
//! the text as it is, else the content of a fenced code block in it, else
//! the text with common mistakes repaired.

use vstd::prelude::*;
use crate::text::{
    chars_of, owned, push_all, push_str, replace_all, replace_any, str_replace, string_from, trim,
    trim_chars,
};

verus! {

#[verifier::external_type_specification]
#[verifier::external_body]
pub struct ExJsonValue(serde_json::Value);

/// `Clone` of `serde_json::Value` is derived: the copy equals the original.
pub assume_specification[ <serde_json::Value as Clone>::clone ](v: &serde_json::Value) -> (r:
    serde_json::Value)
    ensures
        r == *v,
;

/// The document that `serde_json::from_str::<Value>` reads from `text`, or
/// `None` when it refuses the text.
pub uninterp spec fn json_value_of(text: Seq<char>) -> Option<serde_json::Value>;

/// Whether `serde_json` accepts `text` as a JSON document.
pub open spec fn json_accepts(text: Seq<char>) -> bool {
    json_value_of(text) is Some
}

/// The pattern of a fenced code block, optionally tagged `json`, whose
/// first group is the block's content.
pub open spec fn code_block_pattern() -> Seq<char> {
    "```(?:json)?\\s*(.*?)\\s*```"@
}

/// The text of the first capture group of the first match, in `text`, of
/// the regex that `regex::Regex::new` compiles from `pattern`; `None` when
/// the pattern does not compile, nothing matches or the group took no part
/// in the match.
pub uninterp spec fn regex_first_group(pattern: Seq<char>, text: Seq<char>) -> Option<Seq<char>>;

/// The content of the first code block in `text`, if the code-block
/// pattern matches.
pub open spec fn code_block_of(text: Seq<char>) -> Option<Seq<char>> {
    regex_first_group(code_block_pattern(), text)
}

/// Parses `text` with `serde_json::from_str::<Value>`; the result is named
/// by `json_value_of`.
#[verifier::external_body]
fn parse_value(text: &str) -> (r: Option<serde_json::Value>)
    ensures
        r == json_value_of(text@),
{
    serde_json::from_str::<serde_json::Value>(text).ok()
}

/// Compiles `pattern` with `regex::Regex::new`, runs it on `text` with
/// `Regex::captures` and takes the text of group 1; the result is named
/// `regex_first_group`.
#[verifier::external_body]
fn first_group(pattern: &str, text: &str) -> (r: Option<String>)
    ensures
        match r {
            Some(g) => regex_first_group(pattern@, text@) == Some(g@),
            None => regex_first_group(pattern@, text@) is None,
        },
{
    match regex::Regex::new(pattern) {
        Err(_) => None,
        Ok(re) => match re.captures(text) {
            None => None,
            Some(c) => c.get(1).map(|m| m.as_str().to_string()),
        },
    }
}

/// `s` with every run of spaces shortened to one space.
pub open spec fn squeeze_spaces(s: Seq<char>) -> Seq<char>
    decreases s.len(),
{
    if s.len() == 0 {
        s
    } else if s.len() >= 2 && s.last() == ' ' && s[s.len() - 2] == ' ' {
        squeeze_spaces(s.drop_last())
    } else {
        squeeze_spaces(s.drop_last()).push(s.last())
    }
}

/// The repairs tried on JSON that does not parse: single quotes become
/// double quotes, line breaks become spaces, runs of spaces shrink to one,
/// a comma before a closing brace or bracket goes, and the ends are
/// trimmed.
pub open spec fn fixed_json(s: Seq<char>) -> Seq<char> {
    let a = str_replace(s, "'"@, "\""@);
    let b = str_replace(a, "\n"@, " "@);
    let c = str_replace(b, "\r"@, " "@);
    let d = squeeze_spaces(c);
    let e = str_replace(d, ",}"@, "}"@);
    let f = str_replace(e, ", }"@, "}"@);
    let g = str_replace(f, ",]"@, "]"@);
    let h = str_replace(g, ", ]"@, "]"@);
    trim(h)
}

/// The error when no strategy gives JSON.
pub open spec fn parse_failure_message(raw: Seq<char>, fixed: Seq<char>) -> Seq<char> {
    "Failed to parse JSON after all strategies.\nRaw input: "@ + raw + "\nFixed attempt: "@ + fixed
}

fn squeeze_spaces_exec(s: &[char]) -> (r: Vec<char>)
    ensures
        r@ == squeeze_spaces(s@),
{
    let mut out: Vec<char> = Vec::new();
    let mut i: usize = 0;
    assert(s@.take(0) =~= Seq::<char>::empty());
    while i < s.len()
        invariant
            i <= s@.len(),
            out@ == squeeze_spaces(s@.take(i as int)),
        decreases s@.len() - i,
    {
        let ghost t = s@.take(i + 1);
        assert(t.drop_last() =~= s@.take(i as int));
        if !(i >= 1 && s[i] == ' ' && s[i - 1] == ' ') {
            out.push(s[i]);
        }
        i = i + 1;
    }
    assert(s@.take(s@.len() as int) =~= s@);
    out
}

fn replace_lit(s: &[char], from: &str, to: &str) -> (r: Vec<char>)
    ensures
        r@ == str_replace(s@, from@, to@),
{
    let f = chars_of(from);
    let t = chars_of(to);
    replace_any(s, f.as_slice(), t.as_slice())
}

/// The document read from `raw`: from `raw` itself when it parses, else
/// from the content of its first code block when that parses, else from
/// the repaired `raw`.
pub open spec fn robust_value(raw: Seq<char>) -> Option<serde_json::Value> {
    if json_accepts(raw) {
        json_value_of(raw)
    } else if code_block_of(raw) is Some && json_accepts(code_block_of(raw)->0) {
        json_value_of(code_block_of(raw)->0)
    } else {
        json_value_of(fixed_json(raw))
    }
}

/// Tries to parse model-written JSON in three ways.
pub struct JsonParser {
    code_block_pattern: String,
}

impl JsonParser {
    /// The pattern the parser looks for code blocks with.
    pub closed spec fn pattern(&self) -> Seq<char> {
        self.code_block_pattern@
    }

    /// The parser looks for code blocks with the code-block pattern.
    #[verifier::type_invariant]
    closed spec fn uses_code_block_pattern(&self) -> bool {
        self.code_block_pattern@ == code_block_pattern()
    }

    /// A parser that looks for code blocks with the code-block pattern.
    pub fn new() -> (r: JsonParser)
        ensures
            r.pattern() == code_block_pattern(),
    {
        JsonParser { code_block_pattern: owned("```(?:json)?\\s*(.*?)\\s*```") }
    }

    /// The content of the first code block in `raw` (see `code_block_of`).
    fn code_block(&self, raw: &str) -> (r: Option<String>)
        ensures
            match r {
                Some(b) => code_block_of(raw@) == Some(b@),
                None => code_block_of(raw@) is None,
            },
    {
        proof {
            use_type_invariant(self);
        }
        first_group(self.code_block_pattern.as_str(), raw)
    }

    /// `json` with common mistakes repaired (see `fixed_json`).
    pub fn fix_common_errors(&self, json: &str) -> (r: String)
        ensures
            r@ == fixed_json(json@),
    {
        let s = chars_of(json);
        let a = replace_lit(s.as_slice(), "'", "\"");
        let b = replace_lit(a.as_slice(), "\n", " ");
        let c = replace_lit(b.as_slice(), "\r", " ");
        let d = squeeze_spaces_exec(c.as_slice());
        let e = replace_lit(d.as_slice(), ",}", "}");
        let f = replace_lit(e.as_slice(), ", }", "}");
        let g = replace_lit(f.as_slice(), ",]", "]");
        let h = replace_lit(g.as_slice(), ", ]", "]");
        let t = trim_chars(h.as_slice());
        string_from(t.as_slice())
    }

    /// The JSON in `raw`: `raw` itself when it parses, else the content of
    /// its first code block when that parses, else the repaired `raw` when
    /// that parses; otherwise an error showing `raw` and the repair.
    pub fn parse_robust(&self, raw: &str) -> (r: Result<serde_json::Value, String>)
        ensures
            match robust_value(raw@) {
                Some(v) => r matches Ok(x) && x == v,
                None => r matches Err(e) && e@ == parse_failure_message(raw@, fixed_json(raw@)),
            },
    {
        if let Some(v) = parse_value(raw) {
            return Ok(v);
        }
        if let Some(block) = self.code_block(raw) {
            if let Some(v) = parse_value(block.as_str()) {
                return Ok(v);
            }
        }
        let fixed = self.fix_common_errors(raw);
        if let Some(v) = parse_value(fixed.as_str()) {
            return Ok(v);
        }
        let mut m: Vec<char> = Vec::new();
        push_str(&mut m, "Failed to parse JSON after all strategies.\nRaw input: ");
        push_str(&mut m, raw);
        push_str(&mut m, "\nFixed attempt: ");
        push_str(&mut m, fixed.as_str());
        Err(string_from(m.as_slice()))
    }
}

/// JSON that parses as it is is read as it is; otherwise the content of
/// its first code block is read when that parses; only then is the
/// repaired text tried.
pub proof fn law_robust_parse_order(raw: Seq<char>)
    ensures
        json_value_of(raw) is Some ==> robust_value(raw) == json_value_of(raw),
        json_value_of(raw) is None && code_block_of(raw) is Some && json_value_of(code_block_of(raw)->0)
            is Some ==> robust_value(raw) == json_value_of(code_block_of(raw)->0),
        json_value_of(raw) is None && !(code_block_of(raw) is Some && json_value_of(code_block_of(raw)->0)
            is Some)
            ==> robust_value(raw) == json_value_of(fixed_json(raw)),
{
}

} // verus!
