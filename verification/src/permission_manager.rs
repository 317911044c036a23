//! Deciding whether a tool call may run: the call is described by a
//! permission pattern such as `Bash(cargo:*)` or `Read(//abs/path)`, which is
//! checked against the deny list first and the allow list second.

use vstd::prelude::*;
use crate::params::{str_param, ToolParams};
use crate::paths::{is_absolute, is_absolute_path, join, join_path, path_parent, path_parent_of};
use crate::permission_config::{allow_after_add, pattern_views, PermissionConfig};
use crate::urls::{url_host, url_host_of};
use crate::text::{
    chars_eq, chars_of, contains_char, copy_chars, ends_with, find_char, find_first, owned,
    push_all, push_str, seq_ends_with, seq_starts_with, slice_range, split_words, starts_with,
    str_eq, string_from, trim_end_char, trim_end_matching, words,
};

verus! {

/// The outcome of a permission check.
#[derive(Debug, Clone, Copy, PartialEq, Eq, Structural)]
pub enum PermissionDecision {
    Allow,
    Deny,
    Ask,
}

/// The permission settings of a project, with where they are stored.
pub struct PermissionManager {
    pub config: PermissionConfig,
    pub config_path: String,
    pub project_root: String,
}

/// Whether `text` matches the glob `pattern`, or `None` when `pattern` is
/// not a valid glob.
pub uninterp spec fn glob_matches(pattern: Seq<char>, text: Seq<char>) -> Option<bool>;

/// Compiles `pattern` with `glob::Pattern::new` and, when that succeeds,
/// tests `text` with `Pattern::matches`; the contract ties the result to
/// both arguments through a name only.
#[verifier::external_body]
fn glob_match(pattern: &str, text: &str) -> (r: Option<bool>)
    ensures
        r == glob_matches(pattern@, text@),
{
    glob::Pattern::new(pattern).ok().map(|p| p.matches(text))
}

/// The first word of `cmd`, or all of `cmd` when it has none.
pub open spec fn first_word_or_all(cmd: Seq<char>) -> Seq<char> {
    if words(cmd).len() > 0 {
        words(cmd)[0]
    } else {
        cmd
    }
}

/// `path` made absolute against the project root.
pub open spec fn spec_normalize_path(root: Seq<char>, path: Seq<char>) -> Seq<char> {
    if is_absolute_path(path) {
        path
    } else {
        join_path(root, path)
    }
}

/// An absolute path written with the leading `//` of permission patterns.
pub open spec fn double_rooted(abs: Seq<char>) -> Seq<char> {
    if abs.len() > 0 && abs[0] == '/' {
        seq!['/'] + abs
    } else {
        seq!['/', '/'] + abs
    }
}

/// The permission pattern that describes calling `tool` with `params`.
pub open spec fn spec_build_pattern(root: Seq<char>, tool: Seq<char>, params: Seq<
    crate::params::ParamEntry,
>) -> Seq<char> {
    if tool == "bash"@ {
        match str_param(params, "command"@) {
            Some(c) => "Bash("@ + first_word_or_all(c) + ":*)"@,
            None => "Bash(unknown:*)"@,
        }
    } else if tool == "read"@ {
        match str_param(params, "file_path"@) {
            Some(f) => "Read("@ + double_rooted(spec_normalize_path(root, f)) + ")"@,
            None => "Read(unknown)"@,
        }
    } else if tool == "write"@ || tool == "edit"@ {
        match str_param(params, "file_path"@) {
            Some(f) => (if tool == "write"@ {
                "Write"@
            } else {
                "Edit"@
            }) + "("@ + double_rooted(spec_normalize_path(root, f)) + ")"@,
            None => tool + "(unknown)"@,
        }
    } else if tool == "git"@ {
        match str_param(params, "command"@) {
            Some(c) => if words(c).len() > 1 && words(c)[0] == "git"@ {
                "Git("@ + words(c)[1] + ":*)"@
            } else {
                "Git(unknown:*)"@
            },
            None => "Git(unknown:*)"@,
        }
    } else if tool == "webfetch"@ {
        match str_param(params, "url"@) {
            Some(u) => match url_host_of(u) {
                Some(d) => "WebFetch(domain:"@ + d + ")"@,
                None => "WebFetch(unknown)"@,
            },
            None => "WebFetch(unknown)"@,
        }
    } else {
        tool
    }
}

/// A permission string split into its tool and its pattern: the text
/// before the first `(`, and the text after it without trailing `)`s; a
/// string without `(` is a tool with an empty pattern.
pub open spec fn spec_parse_permission(perm: Seq<char>) -> (Seq<char>, Seq<char>) {
    match find_char(perm, '(') {
        Some(i) => (perm.subrange(0, i), trim_end_char(perm.subrange(i + 1, perm.len() as int), ')')),
        None => (perm, seq![]),
    }
}

/// Whether the operation pattern `op` is covered by the permission `pat`.
pub open spec fn spec_matches(op: Seq<char>, pat: Seq<char>) -> bool {
    if op == pat {
        true
    } else {
        let (pt, pp) = spec_parse_permission(pat);
        let (ot, ov) = spec_parse_permission(op);
        if pt != ot {
            false
        } else if pp == "*"@ {
            true
        } else if seq_ends_with(pp, ":*"@) {
            seq_starts_with(ov, pp.subrange(0, pp.len() - 2))
        } else if pp.contains('*') && glob_matches(pp, ov) is Some {
            glob_matches(pp, ov)->0
        } else {
            seq_starts_with(ov, pp)
        }
    }
}

/// Some permission of `pats` covers `op`.
pub open spec fn spec_matches_any(op: Seq<char>, pats: Seq<Seq<char>>) -> bool {
    exists|i: int| 0 <= i < pats.len() && spec_matches(op, #[trigger] pats[i])
}

/// The decision for the operation pattern `op`: denied when a deny
/// permission covers it, else allowed when an allow permission does,
/// else the user is asked.
pub open spec fn decision_for(op: Seq<char>, allow: Seq<Seq<char>>, deny: Seq<Seq<char>>) -> PermissionDecision {
    if spec_matches_any(op, deny) {
        PermissionDecision::Deny
    } else if spec_matches_any(op, allow) {
        PermissionDecision::Allow
    } else {
        PermissionDecision::Ask
    }
}

/// The suggestion shown for "don't ask again" on calling `tool` with `params`.
pub open spec fn spec_suggest_pattern(root: Seq<char>, tool: Seq<char>, params: Seq<
    crate::params::ParamEntry,
>) -> Seq<char> {
    if tool == "bash"@ {
        match str_param(params, "command"@) {
            Some(c) => "don't ask again for '"@ + first_word_or_all(c) + "' commands"@,
            None => "don't ask again for this command"@,
        }
    } else if tool == "read"@ {
        match str_param(params, "file_path"@) {
            Some(f) => "don't ask again for reads in "@ + (match path_parent_of(
                spec_normalize_path(root, f),
            ) {
                Some(d) => d,
                None => spec_normalize_path(root, f),
            }) + "/**"@,
            None => "don't ask again for reads"@,
        }
    } else if tool == "write"@ || tool == "edit"@ {
        match str_param(params, "file_path"@) {
            Some(f) => "don't ask again for edits to "@ + f,
            None => "don't ask again for edits"@,
        }
    } else {
        "don't ask again for this operation"@
    }
}

/// The first word of `cmd`, or a copy of `cmd` when it has none.
fn first_word_or_all_exec(cmd: &[char]) -> (r: Vec<char>)
    ensures
        r@ == first_word_or_all(cmd@),
{
    let ws = split_words(cmd);
    if ws.len() > 0 {
        copy_chars(ws[0].as_slice())
    } else {
        copy_chars(cmd)
    }
}

/// `abs` with the leading `//` of permission patterns.
fn double_rooted_exec(abs: &[char]) -> (r: Vec<char>)
    ensures
        r@ == double_rooted(abs@),
{
    let mut out: Vec<char> = Vec::new();
    out.push('/');
    if !(abs.len() > 0 && abs[0] == '/') {
        out.push('/');
    }
    push_all(&mut out, abs);
    proof {
        if abs@.len() > 0 && abs@[0] == '/' {
            assert(out@ =~= seq!['/'] + abs@);
        } else {
            assert(out@ =~= seq!['/', '/'] + abs@);
        }
    }
    out
}

/// Splits a permission string into its tool and its pattern.
pub fn parse_permission(perm: &str) -> (r: (String, String))
    ensures
        (r.0@, r.1@) == spec_parse_permission(perm@),
{
    let c = chars_of(perm);
    let (t, p) = parse_permission_chars(c.as_slice());
    (string_from(t.as_slice()), string_from(p.as_slice()))
}

fn parse_permission_chars(perm: &[char]) -> (r: (Vec<char>, Vec<char>))
    ensures
        (r.0@, r.1@) == spec_parse_permission(perm@),
{
    match find_first(perm, '(') {
        Some(i) => {
            proof {
                lemma_find_char_bound(perm@, '(', 0);
                assert(i < perm@.len());
                assert(perm@.len() == perm.len());
            }
            let tool = slice_range(perm, 0, i);
            let rest = slice_range(perm, i + 1, perm.len());
            let pat = trim_end_matching(rest.as_slice(), ')');
            (tool, pat)
        },
        None => (copy_chars(perm), Vec::new()),
    }
}

proof fn lemma_find_char_bound(s: Seq<char>, c: char, i: int)
    requires
        0 <= i,
    ensures
        crate::text::find_char_from(s, c, i) matches Some(k) ==> i <= k < s.len() && s[k] == c,
    decreases s.len() - i,
{
    if i < s.len() && s[i] != c {
        lemma_find_char_bound(s, c, i + 1);
    }
}

/// Whether the operation pattern `op` is covered by the permission `pat`.
fn matches_chars(op: &[char], pat: &[char]) -> (r: bool)
    ensures
        r == spec_matches(op@, pat@),
{
    if chars_eq(op, pat) {
        return true;
    }
    let (pt, pp) = parse_permission_chars(pat);
    let (ot, ov) = parse_permission_chars(op);
    if !chars_eq(pt.as_slice(), ot.as_slice()) {
        return false;
    }
    let star = chars_of("*");
    if chars_eq(pp.as_slice(), star.as_slice()) {
        return true;
    }
    let suffix = chars_of(":*");
    proof {
        reveal_strlit(":*");
    }
    if ends_with(pp.as_slice(), suffix.as_slice()) {
        let prefix = slice_range(pp.as_slice(), 0, pp.len() - 2);
        return starts_with(ov.as_slice(), prefix.as_slice());
    }
    if contains_char(pp.as_slice(), '*') {
        let ps = string_from(pp.as_slice());
        let os = string_from(ov.as_slice());
        match glob_match(ps.as_str(), os.as_str()) {
            Some(b) => {
                return b;
            },
            None => {},
        }
    }
    starts_with(ov.as_slice(), pp.as_slice())
}

/// Whether some pattern of `patterns` covers `op`.
fn matches_any_chars(op: &[char], patterns: &Vec<String>) -> (r: bool)
    ensures
        r == spec_matches_any(op@, pattern_views(patterns@)),
{
    let ghost pv = pattern_views(patterns@);
    let mut i: usize = 0;
    while i < patterns.len()
        invariant
            i <= patterns@.len(),
            pv == pattern_views(patterns@),
            forall|j: int| 0 <= j < i ==> !spec_matches(op@, #[trigger] pv[j]),
        decreases patterns@.len() - i,
    {
        let p = chars_of(patterns[i].as_str());
        if matches_chars(op, p.as_slice()) {
            assert(spec_matches(op@, pv[i as int]));
            return true;
        }
        i = i + 1;
    }
    false
}

impl PermissionManager {
    /// A manager for the project at `project_root` whose settings, stored in
    /// `.synthia/settings-local.json` under the root, are `config`.
    pub fn new(project_root: String, config: PermissionConfig) -> (r: PermissionManager)
        ensures
            r.project_root@ == project_root@,
            r.config_path@ == join_path(project_root@, ".synthia/settings-local.json"@),
            r.config == config,
    {
        let config_path = crate::paths::join_str(project_root.as_str(), ".synthia/settings-local.json");
        PermissionManager { config, config_path, project_root }
    }

    /// The permission decision for calling `tool` with `params`.
    pub fn check_permission(&self, tool: &str, params: &ToolParams) -> (r: PermissionDecision)
        ensures
            r == decision_for(
                spec_build_pattern(self.project_root@, tool@, params.entries@),
                self.config.allow_view(),
                self.config.deny_view(),
            ),
    {
        let pattern = self.build_pattern(tool, params);
        let p = chars_of(pattern.as_str());
        if matches_any_chars(p.as_slice(), &self.config.permissions.deny) {
            return PermissionDecision::Deny;
        }
        if matches_any_chars(p.as_slice(), &self.config.permissions.allow) {
            return PermissionDecision::Allow;
        }
        PermissionDecision::Ask
    }

    /// Adds `pattern` to the allow list unless it is already there; writing
    /// the settings back to `config_path` is the caller's part. It always
    /// succeeds.
    pub fn add_permission(&mut self, pattern: String) -> (r: Result<(), String>)
        ensures
            r is Ok,
            final(self).config.allow_view() == allow_after_add(old(self).config.allow_view(), pattern@),
            final(self).config.deny_view() == old(self).config.deny_view(),
            final(self).config.ask_view() == old(self).config.ask_view(),
            final(self).project_root == old(self).project_root,
            final(self).config_path == old(self).config_path,
    {
        self.config.add_permission(pattern)
    }

    /// `path` made absolute against the project root.
    pub fn normalize_path(&self, path: &str) -> (r: String)
        ensures
            r@ == spec_normalize_path(self.project_root@, path@),
    {
        let p = chars_of(path);
        let n = self.normalize_chars(p.as_slice());
        string_from(n.as_slice())
    }

    fn normalize_chars(&self, path: &[char]) -> (r: Vec<char>)
        ensures
            r@ == spec_normalize_path(self.project_root@, path@),
    {
        if is_absolute(path) {
            copy_chars(path)
        } else {
            let root = chars_of(self.project_root.as_str());
            join(root.as_slice(), path)
        }
    }

    /// Whether the operation pattern `operation` is covered by the
    /// permission `pattern`.
    pub fn matches(&self, operation: &str, pattern: &str) -> (r: bool)
        ensures
            r == spec_matches(operation@, pattern@),
    {
        let o = chars_of(operation);
        let p = chars_of(pattern);
        matches_chars(o.as_slice(), p.as_slice())
    }

    /// Whether some pattern of `patterns` covers `operation`.
    pub fn matches_any(&self, operation: &str, patterns: &Vec<String>) -> (r: bool)
        ensures
            r == spec_matches_any(operation@, pattern_views(patterns@)),
    {
        let o = chars_of(operation);
        matches_any_chars(o.as_slice(), patterns)
    }

    /// The permission pattern that describes calling `tool` with `params`.
    pub fn build_pattern(&self, tool: &str, params: &ToolParams) -> (r: String)
        ensures
            r@ == spec_build_pattern(self.project_root@, tool@, params.entries@),
    {
        let mut out: Vec<char> = Vec::new();
        if str_eq(tool, "bash") {
            match params.get_str("command") {
                Some(c) => {
                    let w = first_word_or_all_exec(c.as_slice());
                    push_str(&mut out, "Bash(");
                    push_all(&mut out, w.as_slice());
                    push_str(&mut out, ":*)");
                },
                None => push_str(&mut out, "Bash(unknown:*)"),
            }
        } else if str_eq(tool, "read") {
            match params.get_str("file_path") {
                Some(f) => {
                    let abs = self.normalize_chars(f.as_slice());
                    let d = double_rooted_exec(abs.as_slice());
                    push_str(&mut out, "Read(");
                    push_all(&mut out, d.as_slice());
                    push_str(&mut out, ")");
                },
                None => push_str(&mut out, "Read(unknown)"),
            }
        } else if str_eq(tool, "write") || str_eq(tool, "edit") {
            match params.get_str("file_path") {
                Some(f) => {
                    let abs = self.normalize_chars(f.as_slice());
                    let d = double_rooted_exec(abs.as_slice());
                    if str_eq(tool, "write") {
                        push_str(&mut out, "Write");
                    } else {
                        push_str(&mut out, "Edit");
                    }
                    push_str(&mut out, "(");
                    push_all(&mut out, d.as_slice());
                    push_str(&mut out, ")");
                },
                None => {
                    push_str(&mut out, tool);
                    push_str(&mut out, "(unknown)");
                },
            }
        } else if str_eq(tool, "git") {
            match params.get_str("command") {
                Some(c) => {
                    let ws = split_words(c.as_slice());
                    let g = chars_of("git");
                    if ws.len() > 1 && chars_eq(ws[0].as_slice(), g.as_slice()) {
                        push_str(&mut out, "Git(");
                        push_all(&mut out, ws[1].as_slice());
                        push_str(&mut out, ":*)");
                    } else {
                        push_str(&mut out, "Git(unknown:*)");
                    }
                },
                None => push_str(&mut out, "Git(unknown:*)"),
            }
        } else if str_eq(tool, "webfetch") {
            let host = match params.get_str("url") {
                Some(u) => {
                    let us = string_from(u.as_slice());
                    url_host(us.as_str())
                },
                None => None,
            };
            match host {
                Some(d) => {
                    push_str(&mut out, "WebFetch(domain:");
                    push_str(&mut out, d.as_str());
                    push_str(&mut out, ")");
                },
                None => push_str(&mut out, "WebFetch(unknown)"),
            }
        } else {
            push_str(&mut out, tool);
        }
        proof {
            assert(out@ =~= spec_build_pattern(self.project_root@, tool@, params.entries@));
        }
        string_from(out.as_slice())
    }

    /// The suggestion shown for "don't ask again" on calling `tool` with
    /// `params`.
    pub fn suggest_pattern(&self, tool: &str, params: &ToolParams) -> (r: String)
        ensures
            r@ == spec_suggest_pattern(self.project_root@, tool@, params.entries@),
    {
        let mut out: Vec<char> = Vec::new();
        if str_eq(tool, "bash") {
            match params.get_str("command") {
                Some(c) => {
                    let w = first_word_or_all_exec(c.as_slice());
                    push_str(&mut out, "don't ask again for '");
                    push_all(&mut out, w.as_slice());
                    push_str(&mut out, "' commands");
                },
                None => push_str(&mut out, "don't ask again for this command"),
            }
        } else if str_eq(tool, "read") {
            match params.get_str("file_path") {
                Some(f) => {
                    let abs = self.normalize_chars(f.as_slice());
                    let abs_s = string_from(abs.as_slice());
                    let dir = match path_parent(abs_s.as_str()) {
                        Some(d) => chars_of(d.as_str()),
                        None => abs,
                    };
                    push_str(&mut out, "don't ask again for reads in ");
                    push_all(&mut out, dir.as_slice());
                    push_str(&mut out, "/**");
                },
                None => push_str(&mut out, "don't ask again for reads"),
            }
        } else if str_eq(tool, "write") || str_eq(tool, "edit") {
            match params.get_str("file_path") {
                Some(f) => {
                    push_str(&mut out, "don't ask again for edits to ");
                    push_all(&mut out, f.as_slice());
                },
                None => push_str(&mut out, "don't ask again for edits"),
            }
        } else {
            push_str(&mut out, "don't ask again for this operation");
        }
        proof {
            assert(out@ =~= spec_suggest_pattern(self.project_root@, tool@, params.entries@));
        }
        string_from(out.as_slice())
    }
}

/// Every permission covers the operation it is equal to.
pub proof fn law_pattern_covers_itself(op: Seq<char>)
    ensures
        spec_matches(op, op),
{
}

/// A deny permission that covers an operation decides it, whatever the
/// allow list holds.
pub proof fn law_deny_overrides_allow(op: Seq<char>, allow: Seq<Seq<char>>, deny: Seq<Seq<char>>)
    requires
        spec_matches_any(op, deny),
    ensures
        decision_for(op, allow, deny) == PermissionDecision::Deny,
{
}

/// "Yes, and don't ask again": once the pattern built for a call is added
/// to the allow list, the same call is never asked about again; it is
/// allowed unless a deny permission covers it.
pub proof fn law_dont_ask_again(
    root: Seq<char>,
    tool: Seq<char>,
    params: Seq<crate::params::ParamEntry>,
    allow: Seq<Seq<char>>,
    deny: Seq<Seq<char>>,
)
    ensures
        ({
            let p = spec_build_pattern(root, tool, params);
            decision_for(p, allow_after_add(allow, p), deny) == if spec_matches_any(p, deny) {
                PermissionDecision::Deny
            } else {
                PermissionDecision::Allow
            }
        }),
{
    let p = spec_build_pattern(root, tool, params);
    let allow2 = allow_after_add(allow, p);
    if allow.contains(p) {
        let k = choose|k: int| 0 <= k < allow.len() && allow[k] == p;
        assert(spec_matches(p, allow2[k]));
    } else {
        assert(allow2[allow.len() as int] == p);
        assert(spec_matches(p, allow2[allow.len() as int]));
    }
}

proof fn lemma_find_char_in_prefix(t: Seq<char>, rest: Seq<char>, c: char, i: int)
    requires
        0 <= i <= t.len(),
        !t.contains(c),
        rest.len() > 0,
        rest[0] == c,
    ensures
        crate::text::find_char_from(t + rest, c, i) == Some(t.len() as int),
    decreases t.len() - i,
{
    if i < t.len() {
        assert((t + rest)[i] == t[i]);
        assert(t[i] != c);
        lemma_find_char_in_prefix(t, rest, c, i + 1);
    } else {
        assert((t + rest)[i] == rest[0]);
    }
}

/// A permission `T(*)` covers every operation of the tool `T`.
pub proof fn law_tool_wildcard_covers_tool(t: Seq<char>, op: Seq<char>)
    requires
        !t.contains('('),
        spec_parse_permission(op).0 == t,
    ensures
        spec_matches(op, t + "(*)"@),
{
    reveal_strlit("(*)");
    reveal_strlit("*");
    let pat = t + "(*)"@;
    lemma_find_char_in_prefix(t, "(*)"@, '(', 0);
    assert(pat.subrange(0, t.len() as int) =~= t);
    let tail = pat.subrange(t.len() as int + 1, pat.len() as int);
    assert(tail =~= seq!['*', ')']);
    assert(tail.drop_last() =~= seq!['*']);
    assert(trim_end_char(tail, ')') == trim_end_char(seq!['*'], ')'));
    assert(trim_end_char(seq!['*'], ')') == seq!['*']);
    assert(spec_parse_permission(pat) == (t, seq!['*']));
    assert(seq!['*'] =~= "*"@);
}

/// A permission of the operation's tool whose pattern has no `*` covers
/// the operation exactly when its pattern is a prefix of the operation's
/// value: `Read(/src)` covers `Read(/src/main.rs)` but not `Read(/lib)`.
pub proof fn law_plain_pattern_covers_prefixes(op: Seq<char>, pat: Seq<char>)
    requires
        spec_parse_permission(op).0 == spec_parse_permission(pat).0,
        !spec_parse_permission(pat).1.contains('*'),
    ensures
        ({
            let pp = spec_parse_permission(pat).1;
            let ov = spec_parse_permission(op).1;
            spec_matches(op, pat) <==> (pp.len() <= ov.len() && forall|k: int|
                0 <= k < pp.len() ==> #[trigger] ov[k] == pp[k])
        }),
{
    let pp = spec_parse_permission(pat).1;
    let ov = spec_parse_permission(op).1;
    reveal_strlit("*");
    reveal_strlit(":*");
    if pp == "*"@ {
        assert(pp[0] == '*');
        assert(pp.contains('*'));
    }
    if seq_ends_with(pp, ":*"@) {
        assert(pp.subrange(pp.len() - 2, pp.len() as int)[1] == pp[pp.len() - 1]);
        assert(pp[pp.len() - 1] == '*');
        assert(pp.contains('*'));
    }
    if pp.len() <= ov.len() && (forall|k: int| 0 <= k < pp.len() ==> #[trigger] ov[k] == pp[k]) {
        assert(ov.subrange(0, pp.len() as int) =~= pp);
    }
    if seq_starts_with(ov, pp) {
        assert forall|k: int| 0 <= k < pp.len() implies #[trigger] ov[k] == pp[k] by {
            assert(ov.subrange(0, pp.len() as int)[k] == ov[k]);
        }
    }
}

/// A permission `T(prefix:*)` covers an operation of the tool `T` exactly
/// when the operation's value starts with `prefix`.
pub proof fn law_colon_wildcard_covers_prefixes(op: Seq<char>, pat: Seq<char>)
    requires
        op != pat,
        spec_parse_permission(op).0 == spec_parse_permission(pat).0,
        seq_ends_with(spec_parse_permission(pat).1, ":*"@),
        spec_parse_permission(pat).1 != "*"@,
    ensures
        ({
            let pp = spec_parse_permission(pat).1;
            let ov = spec_parse_permission(op).1;
            let prefix = pp.take(pp.len() - 2);
            spec_matches(op, pat) <==> (prefix.len() <= ov.len() && forall|k: int|
                0 <= k < prefix.len() ==> #[trigger] ov[k] == prefix[k])
        }),
{
    let pp = spec_parse_permission(pat).1;
    let ov = spec_parse_permission(op).1;
    let prefix = pp.take(pp.len() - 2);
    reveal_strlit(":*");
    assert(pp.subrange(0, pp.len() - 2) =~= prefix);
    if prefix.len() <= ov.len() && (forall|k: int| 0 <= k < prefix.len() ==> #[trigger] ov[k] == prefix[k]) {
        assert(ov.subrange(0, prefix.len() as int) =~= prefix);
    }
    if seq_starts_with(ov, prefix) {
        assert forall|k: int| 0 <= k < prefix.len() implies #[trigger] ov[k] == prefix[k] by {
            assert(ov.subrange(0, prefix.len() as int)[k] == ov[k]);
        }
    }
}

/// A permission of another tool never covers an operation that differs
/// from it.
pub proof fn law_other_tool_not_covered(op: Seq<char>, pat: Seq<char>)
    requires
        op != pat,
        spec_parse_permission(op).0 != spec_parse_permission(pat).0,
    ensures
        !spec_matches(op, pat),
{
}

/// An allow permission of the same tool, without `*`, whose pattern is a
/// prefix of the operation's value allows the operation when no deny
/// permission covers it.
pub proof fn law_allowed_by_prefix(op: Seq<char>, pat: Seq<char>, allow: Seq<Seq<char>>, deny: Seq<Seq<char>>)
    requires
        allow.contains(pat),
        !spec_matches_any(op, deny),
        spec_parse_permission(op).0 == spec_parse_permission(pat).0,
        !spec_parse_permission(pat).1.contains('*'),
        spec_parse_permission(pat).1.len() <= spec_parse_permission(op).1.len(),
        forall|k: int|
            0 <= k < spec_parse_permission(pat).1.len() ==> #[trigger] spec_parse_permission(op).1[k]
                == spec_parse_permission(pat).1[k],
    ensures
        decision_for(op, allow, deny) == PermissionDecision::Allow,
{
    law_plain_pattern_covers_prefixes(op, pat);
    let j = choose|j: int| 0 <= j < allow.len() && allow[j] == pat;
    assert(spec_matches(op, allow[j]));
}

} // verus!
