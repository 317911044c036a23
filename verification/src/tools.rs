//! The file and shell tools: what each one asks of its parameters, the
//! checks it makes and the result it reports. Running the command and
//! touching the file system is the application's part.

use vstd::prelude::*;
use vstd::utf8::encode_utf8;
use crate::params::{missing_param_message, str_param, ToolParams};
use crate::text::{
    byte_len, chars_of, contains, decimal, decimal_chars, push_all, push_str, seq_contains,
    str_replace, replace_any, string_from,
};

verus! {

/// What a tool reports back to the model.
#[derive(Debug, Clone)]
pub struct ToolResult {
    pub content: String,
    pub is_error: bool,
}

/// Appends the decimal digits of `n`.
fn push_decimal(out: &mut Vec<char>, n: usize)
    ensures
        final(out)@ == old(out)@ + decimal(n as nat),
{
    let d = decimal_chars(n as u64);
    push_all(out, d.as_slice());
}

fn result_of(content: Vec<char>, is_error: bool) -> (r: ToolResult)
    ensures
        r.content@ == content@,
        r.is_error == is_error,
{
    ToolResult { content: string_from(content.as_slice()), is_error }
}

// ---------------------------------------------------------------- bash

/// Runs shell commands with a time limit.
pub struct BashTool {
    pub timeout_seconds: u64,
}

/// The error when a bash command outlives its time limit.
pub open spec fn bash_timeout_message(seconds: nat, command: Seq<char>) -> Seq<char> {
    "Command timed out after "@ + decimal(seconds) + " seconds.\n\n"@
        + "For long-running processes (servers, watchers, etc.), consider:\n"@
        + "1. Running the command in the background by appending '&' (e.g., 'python app.py &')\n"@
        + "2. Using 'nohup' for processes that should continue after disconnect\n"@
        + "3. Increasing the timeout in synthia.toml under [timeouts] bash_timeout\n\n"@
        + "Command: "@ + command
}

/// What a finished bash command reports: its standard output, preceded by
/// a label and followed by its standard error when there is any.
pub open spec fn bash_output(stdout: Seq<char>, stderr: Seq<char>) -> Seq<char> {
    if stderr.len() > 0 {
        "stdout:\n"@ + stdout + "\nstderr:\n"@ + stderr
    } else {
        stdout
    }
}

impl BashTool {
    /// A bash tool whose commands may run `timeout_seconds` seconds.
    pub fn new(timeout_seconds: u64) -> (r: BashTool)
        ensures
            r.timeout_seconds == timeout_seconds,
    {
        BashTool { timeout_seconds }
    }

    /// The command to run, or the error naming the parameters received
    /// (`params_text`, the JSON of the call's parameters).
    pub fn command(params: &ToolParams, params_text: &str) -> (r: Result<String, String>)
        ensures
            match str_param(params.entries@, "command"@) {
                Some(c) => r is Ok && r->Ok_0@ == c,
                None => r is Err && r->Err_0@ == "Missing 'command' parameter. Received params: "@
                    + params_text@,
            },
    {
        match params.require_str("command") {
            Ok(c) => Ok(c),
            Err(_) => {
                let mut m: Vec<char> = Vec::new();
                push_str(&mut m, "Missing 'command' parameter. Received params: ");
                push_str(&mut m, params_text);
                Err(string_from(m.as_slice()))
            },
        }
    }

    /// The error when `command` outlives the time limit.
    pub fn timeout_message(&self, command: &str) -> (r: String)
        ensures
            r@ == bash_timeout_message(self.timeout_seconds as nat, command@),
    {
        let mut m: Vec<char> = Vec::new();
        push_str(&mut m, "Command timed out after ");
        let d = decimal_chars(self.timeout_seconds);
        push_all(&mut m, d.as_slice());
        push_str(&mut m, " seconds.\n\n");
        push_str(&mut m, "For long-running processes (servers, watchers, etc.), consider:\n");
        push_str(
            &mut m,
            "1. Running the command in the background by appending '&' (e.g., 'python app.py &')\n",
        );
        push_str(&mut m, "2. Using 'nohup' for processes that should continue after disconnect\n");
        push_str(&mut m, "3. Increasing the timeout in synthia.toml under [timeouts] bash_timeout\n\n");
        push_str(&mut m, "Command: ");
        push_str(&mut m, command);
        string_from(m.as_slice())
    }

    /// The result of a finished command: an error exactly when it did not
    /// succeed.
    pub fn outcome(stdout: &str, stderr: &str, success: bool) -> (r: ToolResult)
        ensures
            r.content@ == bash_output(stdout@, stderr@),
            r.is_error == !success,
    {
        let mut m: Vec<char> = Vec::new();
        let e = chars_of(stderr);
        if e.len() > 0 {
            push_str(&mut m, "stdout:\n");
            push_str(&mut m, stdout);
            push_str(&mut m, "\nstderr:\n");
            push_all(&mut m, e.as_slice());
        } else {
            push_str(&mut m, stdout);
        }
        result_of(m, !success)
    }
}

// ---------------------------------------------------------------- edit

/// Replaces text in a file.
pub struct EditTool;

/// The parameters of an edit.
pub struct EditRequest {
    pub file_path: String,
    pub old_string: String,
    pub new_string: String,
}

impl EditTool {
    pub fn new() -> (r: EditTool) {
        EditTool
    }

    /// The file, the text to find and its replacement; the first missing
    /// one is reported.
    pub fn request(params: &ToolParams) -> (r: Result<EditRequest, String>)
        ensures
            match (
                str_param(params.entries@, "file_path"@),
                str_param(params.entries@, "old_string"@),
                str_param(params.entries@, "new_string"@),
            ) {
                (Some(f), Some(o), Some(n)) => r is Ok && r->Ok_0.file_path@ == f
                    && r->Ok_0.old_string@ == o && r->Ok_0.new_string@ == n,
                (None, _, _) => r is Err && r->Err_0@ == missing_param_message("file_path"@),
                (Some(_), None, _) => r is Err && r->Err_0@ == missing_param_message(
                    "old_string"@,
                ),
                (Some(_), Some(_), None) => r is Err && r->Err_0@ == missing_param_message(
                    "new_string"@,
                ),
            },
    {
        let file_path = match params.require_str("file_path") {
            Ok(v) => v,
            Err(e) => return Err(e),
        };
        let old_string = match params.require_str("old_string") {
            Ok(v) => v,
            Err(e) => return Err(e),
        };
        let new_string = match params.require_str("new_string") {
            Ok(v) => v,
            Err(e) => return Err(e),
        };
        Ok(EditRequest { file_path, old_string, new_string })
    }

    /// The new content of a file holding `content`: every occurrence of
    /// `old` replaced by `new`; an error result when `old` does not occur.
    pub fn apply(content: &str, old: &str, new: &str) -> (r: Result<String, ToolResult>)
        ensures
            seq_contains(content@, old@) ==> r is Ok && r->Ok_0@ == str_replace(
                content@,
                old@,
                new@,
            ),
            !seq_contains(content@, old@) ==> r is Err && r->Err_0.is_error
                && r->Err_0.content@ == "String '"@ + old@ + "' not found in file"@,
    {
        let c = chars_of(content);
        let o = chars_of(old);
        if !contains(c.as_slice(), o.as_slice()) {
            let mut m: Vec<char> = Vec::new();
            push_str(&mut m, "String '");
            push_all(&mut m, o.as_slice());
            push_str(&mut m, "' not found in file");
            return Err(result_of(m, true));
        }
        let n = chars_of(new);
        let r = replace_any(c.as_slice(), o.as_slice(), n.as_slice());
        Ok(string_from(r.as_slice()))
    }

    /// The result of a successful edit of `path`.
    pub fn success(path: &str) -> (r: ToolResult)
        ensures
            r.content@ == "Successfully edited "@ + path@,
            !r.is_error,
    {
        let mut m: Vec<char> = Vec::new();
        push_str(&mut m, "Successfully edited ");
        push_str(&mut m, path);
        result_of(m, false)
    }
}

// ---------------------------------------------------------------- read

/// Reads files, refusing those over a size limit and warning about large
/// ones.
pub struct ReadTool {
    pub max_output_chars: usize,
    pub warn_at_chars: usize,
}

/// Counting blocks further along never counts fewer.
proof fn lemma_block_count_grows(ls: Seq<Seq<char>>, bs: int, start: int, u: int, v: int)
    requires
        0 <= u <= v,
    ensures
        block_count(ls, bs, start, u) <= block_count(ls, bs, start, v),
    decreases v - u,
{
    if u < v {
        lemma_block_count_grows(ls, bs, start, u, v - 1);
    }
}

/// A text of fewer than twenty lines is never taken for a runaway
/// repetition.
pub proof fn law_short_text_not_duplicated(ls: Seq<Seq<char>>)
    requires
        ls.len() < 20,
    ensures
        !excessive_duplication(ls),
{
}

/// A block of ten lines written four times over is a runaway repetition.
pub proof fn law_four_copies_are_duplication(b: Seq<Seq<char>>)
    requires
        b.len() == 10,
    ensures
        excessive_duplication(b + b + b + b),
{
    let ls = b + b + b + b;
    assert(ls.len() == 40);
    assert forall|k: int| 0 <= k < 4 implies #[trigger] ls.subrange(10 * k, 10 * k + 10) =~= b by {
        assert forall|j: int| 0 <= j < 10 implies ls.subrange(10 * k, 10 * k + 10)[j] == b[j] by {
            assert(ls[10 * k + j] == b[j]);
        }
    }
    assert(same_block(ls, 0, 0, 10)) by {
        assert(ls.subrange(0, 10) =~= b);
    }
    assert(same_block(ls, 10, 0, 10)) by {
        assert(ls.subrange(10 * 1int, 10 * 1int + 10) =~= b);
        assert(ls.subrange(0, 10) =~= b);
    }
    assert(same_block(ls, 20, 0, 10)) by {
        assert(ls.subrange(10 * 2int, 10 * 2int + 10) =~= b);
        assert(ls.subrange(0, 10) =~= b);
    }
    assert(same_block(ls, 30, 0, 10)) by {
        assert(ls.subrange(10 * 3int, 10 * 3int + 10) =~= b);
        assert(ls.subrange(0, 10) =~= b);
    }
    assert(block_count(ls, 10, 0, 1) == 1) by {
        assert(block_count(ls, 10, 0, 0) == 0);
    }
    lemma_block_count_grows(ls, 10, 0, 1, 10);
    assert(block_count(ls, 10, 0, 11) >= 2);
    lemma_block_count_grows(ls, 10, 0, 11, 20);
    assert(block_count(ls, 10, 0, 21) >= 3);
    lemma_block_count_grows(ls, 10, 0, 21, 30);
    assert(block_count(ls, 10, 0, 31) >= 4);
    assert(block_count(ls, 10, 0, ls.len() - 10 + 1) > 3);
}

/// The error for a file of `size` characters over the limit `max`.
pub open spec fn read_too_large_message(path: Seq<char>, size: nat, max: nat) -> Seq<char> {
    "ERROR: File too large to read in full\n\n"@ + "File: "@ + path + "\n"@ + "Size: "@
        + decimal(size) + " chars (~"@ + decimal(size / 4) + " tokens)\n"@ + "Limit: "@
        + decimal(max) + " chars (~"@ + decimal(max / 4) + " tokens)\n\n"@ + "Options:\n"@
        + "1. Use grep/rg to search for specific content in the file\n"@
        + "2. Use 'head' to read the first N lines: head -n 100 "@ + path + "\n"@
        + "3. Use 'tail' to read the last N lines: tail -n 100 "@ + path + "\n"@
        + "4. Ask me to summarize specific sections or search for keywords\n"@
        + "5. Increase max_read_output_chars in synthia.toml if absolutely necessary\n\n"@
        + "Tip: For large files, it's better to search for what you need rather than reading everything."@
}

/// The warning put before the content of a large file of `size`
/// characters.
pub open spec fn read_warning(size: nat) -> Seq<char> {
    "\u{26a0}\u{fe0f}  WARNING: Large file ("@ + decimal(size) + " chars / ~"@ + decimal(size / 4)
        + " tokens)\n"@
        + "Consider using grep/head/tail for large files to reduce token usage.\n\n"@
}

impl ReadTool {
    pub fn new(max_output_chars: usize, warn_at_chars: usize) -> (r: ReadTool)
        ensures
            r.max_output_chars == max_output_chars,
            r.warn_at_chars == warn_at_chars,
    {
        ReadTool { max_output_chars, warn_at_chars }
    }

    /// The file to read.
    pub fn request(params: &ToolParams) -> (r: Result<String, String>)
        ensures
            match str_param(params.entries@, "file_path"@) {
                Some(v) => r is Ok && r->Ok_0@ == v,
                None => r is Err && r->Err_0@ == missing_param_message("file_path"@),
            },
    {
        params.require_str("file_path")
    }

    /// The result when `path` does not exist.
    pub fn not_found(path: &str) -> (r: ToolResult)
        ensures
            r.content@ == "File not found: "@ + path@,
            r.is_error,
    {
        let mut m: Vec<char> = Vec::new();
        push_str(&mut m, "File not found: ");
        push_str(&mut m, path);
        result_of(m, true)
    }

    /// What reading `path`, which holds `content`, reports: an error when
    /// the content has more characters than the limit, otherwise the
    /// content after the path and, past the warning size in characters, a
    /// warning.
    pub fn present(&self, path: &str, content: &str) -> (r: ToolResult)
        ensures
            ({
                let size = content@.len();
                if size > self.max_output_chars {
                    r.is_error && r.content@ == read_too_large_message(
                        path@,
                        size,
                        self.max_output_chars as nat,
                    )
                } else {
                    !r.is_error && r.content@ == "File: "@ + path@ + "\n\n"@ + (if size
                        > self.warn_at_chars {
                        read_warning(size)
                    } else {
                        Seq::<char>::empty()
                    }) + content@
                }
            }),
    {
        let size = crate::text::chars_of(content).len();
        let mut m: Vec<char> = Vec::new();
        if size > self.max_output_chars {
            push_str(&mut m, "ERROR: File too large to read in full\n\n");
            push_str(&mut m, "File: ");
            push_str(&mut m, path);
            push_str(&mut m, "\n");
            push_str(&mut m, "Size: ");
            push_decimal(&mut m, size);
            push_str(&mut m, " chars (~");
            push_decimal(&mut m, size / 4);
            push_str(&mut m, " tokens)\n");
            push_str(&mut m, "Limit: ");
            push_decimal(&mut m, self.max_output_chars);
            push_str(&mut m, " chars (~");
            push_decimal(&mut m, self.max_output_chars / 4);
            push_str(&mut m, " tokens)\n\n");
            push_str(&mut m, "Options:\n");
            push_str(&mut m, "1. Use grep/rg to search for specific content in the file\n");
            push_str(&mut m, "2. Use 'head' to read the first N lines: head -n 100 ");
            push_str(&mut m, path);
            push_str(&mut m, "\n");
            push_str(&mut m, "3. Use 'tail' to read the last N lines: tail -n 100 ");
            push_str(&mut m, path);
            push_str(&mut m, "\n");
            push_str(&mut m, "4. Ask me to summarize specific sections or search for keywords\n");
            push_str(
                &mut m,
                "5. Increase max_read_output_chars in synthia.toml if absolutely necessary\n\n",
            );
            push_str(
                &mut m,
                "Tip: For large files, it's better to search for what you need rather than reading everything.",
            );
            return result_of(m, true);
        }
        push_str(&mut m, "File: ");
        push_str(&mut m, path);
        push_str(&mut m, "\n\n");
        if size > self.warn_at_chars {
            push_str(&mut m, "\u{26a0}\u{fe0f}  WARNING: Large file (");
            push_decimal(&mut m, size);
            push_str(&mut m, " chars / ~");
            push_decimal(&mut m, size / 4);
            push_str(&mut m, " tokens)\n");
            push_str(&mut m, "Consider using grep/head/tail for large files to reduce token usage.\n\n");
        }
        push_str(&mut m, content);
        result_of(m, false)
    }
}

// ---------------------------------------------------------------- write

/// Writes files, refusing content that looks like a runaway generation.
pub struct WriteTool;

/// The largest content, in bytes, that the write tool accepts (100 KB).
pub const MAX_WRITE_SIZE: usize = 102400;

/// The lines `ls[a..a + bs]` and `ls[b..b + bs]` are the same.
pub open spec fn same_block(ls: Seq<Seq<char>>, a: int, b: int, bs: int) -> bool {
    ls.subrange(a, a + bs) == ls.subrange(b, b + bs)
}

/// How many of the blocks of `bs` lines starting before `upto` equal the
/// one starting at `start`.
pub open spec fn block_count(ls: Seq<Seq<char>>, bs: int, start: int, upto: int) -> nat
    decreases upto,
{
    if upto <= 0 {
        0
    } else {
        block_count(ls, bs, start, upto - 1) + if same_block(ls, upto - 1, start, bs) {
            1nat
        } else {
            0nat
        }
    }
}

/// Some block of 10 to 50 lines, at most half the text long, occurs more
/// than three times.
pub open spec fn excessive_duplication(ls: Seq<Seq<char>>) -> bool {
    exists|bs: int, start: int|
        10 <= bs <= 50 && 2 * bs <= ls.len() && 0 <= start <= ls.len() - bs && #[trigger] block_count(
            ls,
            bs,
            start,
            ls.len() - bs + 1,
        ) > 3
}

/// The error for content of `size` bytes over the limit.
pub open spec fn write_too_large_message(size: nat) -> Seq<char> {
    "Error: Content size ("@ + decimal(size) + " bytes) exceeds maximum allowed size (102400 bytes / 100 KB). "@
        + "This usually indicates a code generation loop. Please break this into smaller files "@
        + "or use the 'edit' tool to modify existing files incrementally."@
}

/// The error for content with excessive duplication.
pub open spec fn write_duplication_message() -> Seq<char> {
    "Error: Content contains excessive duplicate code blocks (detected repeated patterns). "@
        + "This usually indicates a code generation loop. Please review the content and avoid "@
        + "generating the same code multiple times. File not written to prevent corruption."@
}

fn blocks_equal(ls: &Vec<Vec<char>>, a: usize, b: usize, bs: usize) -> (r: bool)
    requires
        a + bs <= ls@.len(),
        b + bs <= ls@.len(),
    ensures
        r == same_block(crate::text::views(ls@), a as int, b as int, bs as int),
{
    let ghost v = crate::text::views(ls@);
    let n = ls.len();
    let mut k: usize = 0;
    while k < bs
        invariant
            k <= bs,
            n == ls@.len(),
            a + bs <= ls@.len(),
            b + bs <= ls@.len(),
            v == crate::text::views(ls@),
            v.subrange(a as int, a + k) == v.subrange(b as int, b + k),
        decreases bs - k,
    {
        if !crate::text::chars_eq(ls[a + k].as_slice(), ls[b + k].as_slice()) {
            assert(v.subrange(a as int, a + bs)[k as int] != v.subrange(b as int, b + bs)[k as int]);
            return false;
        }
        assert(v.subrange(a as int, a + k + 1) =~= v.subrange(a as int, a + k).push(v[a + k]));
        assert(v.subrange(b as int, b + k + 1) =~= v.subrange(b as int, b + k).push(v[b + k]));
        k = k + 1;
    }
    true
}

fn count_blocks(ls: &Vec<Vec<char>>, bs: usize, start: usize) -> (r: usize)
    requires
        1 <= bs <= ls@.len(),
        start + bs <= ls@.len(),
    ensures
        r == block_count(crate::text::views(ls@), bs as int, start as int, ls@.len() - bs + 1),
{
    let n = ls.len();
    let mut count: usize = 0;
    let mut t: usize = 0;
    while t <= n - bs
        invariant
            n == ls@.len(),
            1 <= bs <= n,
            start + bs <= n,
            t <= n - bs + 1,
            count <= t,
            count == block_count(crate::text::views(ls@), bs as int, start as int, t as int),
        decreases n - bs + 1 - t,
    {
        if blocks_equal(ls, t, start, bs) {
            count = count + 1;
        }
        t = t + 1;
    }
    count
}

impl WriteTool {
    pub fn new() -> (r: WriteTool) {
        WriteTool
    }

    /// The file and the content to write; the first missing one is
    /// reported.
    pub fn request(params: &ToolParams) -> (r: Result<(String, String), String>)
        ensures
            match (str_param(params.entries@, "file_path"@), str_param(params.entries@, "content"@)) {
                (Some(f), Some(c)) => r is Ok && r->Ok_0.0@ == f && r->Ok_0.1@ == c,
                (None, _) => r is Err && r->Err_0@ == missing_param_message("file_path"@),
                (Some(_), None) => r is Err && r->Err_0@ == missing_param_message("content"@),
            },
    {
        let file_path = match params.require_str("file_path") {
            Ok(v) => v,
            Err(e) => return Err(e),
        };
        let content = match params.require_str("content") {
            Ok(v) => v,
            Err(e) => return Err(e),
        };
        Ok((file_path, content))
    }

    /// Whether some block of 10 to 50 lines of `content` is repeated more
    /// than three times, the mark of a generation loop.
    pub fn has_excessive_duplication(content: &str) -> (r: bool)
        ensures
            r == excessive_duplication(crate::text::lines(content@)),
    {
        let cs = chars_of(content);
        let ls = crate::text::split_lines(cs.as_slice());
        let ghost v = crate::text::views(ls@);
        let n = ls.len();
        let mut bs: usize = 10;
        while bs <= 50
            invariant
                10 <= bs <= 51,
                n == ls@.len(),
                v == crate::text::views(ls@),
                v == crate::text::lines(content@),
                forall|b: int, st: int|
                    10 <= b < bs && 2 * b <= n && 0 <= st <= n - b ==> #[trigger] block_count(
                        v,
                        b,
                        st,
                        n - b + 1,
                    ) <= 3,
            decreases 51 - bs,
        {
            if bs * 2 > n {
                assert(!excessive_duplication(v)) by {
                    if excessive_duplication(v) {
                        let (b, st) = choose|b: int, st: int|
                            10 <= b <= 50 && 2 * b <= v.len() && 0 <= st <= v.len() - b
                                && #[trigger] block_count(v, b, st, v.len() - b + 1) > 3;
                        assert(b < bs);
                    }
                }
                return false;
            }
            let mut start: usize = 0;
            while start <= n - bs
                invariant
                    10 <= bs <= 50,
                    2 * bs <= n,
                    n == ls@.len(),
                    v == crate::text::views(ls@),
                    v == crate::text::lines(content@),
                    start <= n - bs + 1,
                    forall|st: int| 0 <= st < start ==> #[trigger] block_count(v, bs as int, st, n - bs + 1) <= 3,
                decreases n - bs + 1 - start,
            {
                let c = count_blocks(&ls, bs, start);
                if c > 3 {
                    assert(block_count(v, bs as int, start as int, v.len() - bs + 1) > 3);
                    return true;
                }
                start = start + 1;
            }
            bs = bs + 1;
        }
        assert(!excessive_duplication(v)) by {
            if excessive_duplication(v) {
                let (b, st) = choose|b: int, st: int|
                    10 <= b <= 50 && 2 * b <= v.len() && 0 <= st <= v.len() - b
                        && #[trigger] block_count(v, b, st, v.len() - b + 1) > 3;
                assert(b < bs);
            }
        }
        false
    }

    /// Checks `content` before writing: an error result when it is over
    /// the size limit (in bytes) or too repetitive, `None` when it may be
    /// written.
    pub fn check(content: &str) -> (r: Option<ToolResult>)
        ensures
            encode_utf8(content@).len() > MAX_WRITE_SIZE ==> r is Some && r->0.is_error
                && r->0.content@ == write_too_large_message(encode_utf8(content@).len()),
            encode_utf8(content@).len() <= MAX_WRITE_SIZE && excessive_duplication(
                crate::text::lines(content@),
            ) ==> r is Some && r->0.is_error && r->0.content@ == write_duplication_message(),
            encode_utf8(content@).len() <= MAX_WRITE_SIZE && !excessive_duplication(
                crate::text::lines(content@),
            ) ==> r is None,
    {
        let size = byte_len(content);
        if size > MAX_WRITE_SIZE {
            let mut m: Vec<char> = Vec::new();
            push_str(&mut m, "Error: Content size (");
            push_decimal(&mut m, size);
            push_str(&mut m, " bytes) exceeds maximum allowed size (102400 bytes / 100 KB). ");
            push_str(
                &mut m,
                "This usually indicates a code generation loop. Please break this into smaller files ",
            );
            push_str(&mut m, "or use the 'edit' tool to modify existing files incrementally.");
            return Some(result_of(m, true));
        }
        if Self::has_excessive_duplication(content) {
            let mut m: Vec<char> = Vec::new();
            push_str(
                &mut m,
                "Error: Content contains excessive duplicate code blocks (detected repeated patterns). ",
            );
            push_str(
                &mut m,
                "This usually indicates a code generation loop. Please review the content and avoid ",
            );
            push_str(
                &mut m,
                "generating the same code multiple times. File not written to prevent corruption.",
            );
            return Some(result_of(m, true));
        }
        None
    }

    /// The result of a successful write of `path`.
    pub fn success(path: &str) -> (r: ToolResult)
        ensures
            r.content@ == "Successfully wrote to "@ + path@,
            !r.is_error,
    {
        let mut m: Vec<char> = Vec::new();
        push_str(&mut m, "Successfully wrote to ");
        push_str(&mut m, path);
        result_of(m, false)
    }
}

} // verus!
