//! The todo list that the model keeps to track a multi-step task.

use vstd::prelude::*;
use crate::text::{decimal, decimal_chars, push_all, push_str, string_from};
use crate::diff::{lemma_line_breaks_add, lemma_no_line_breaks, line_breaks};
use crate::tools::ToolResult;

verus! {

/// Where a task stands.
#[derive(Debug, Clone, Copy, PartialEq, Eq, Structural)]
pub enum TodoStatus {
    Pending,
    InProgress,
    Completed,
}

/// A task: what to do, where it stands, and how to say it while it is
/// being done ("Running tests" for "Run tests").
#[derive(Debug, Clone)]
pub struct Todo {
    pub content: String,
    pub status: TodoStatus,
    pub active_form: String,
}

/// The tool that holds the current todo list.
pub struct TodoTool {
    pub todos: Vec<Todo>,
}

/// The mark shown before a task in each status.
pub open spec fn status_icon(s: TodoStatus) -> char {
    match s {
        TodoStatus::Pending => '\u{2610}',
        TodoStatus::InProgress => '\u{23f3}',
        TodoStatus::Completed => '\u{2713}',
    }
}

/// The text shown for a task: its active form while in progress, its
/// content otherwise.
pub open spec fn todo_text(t: Todo) -> Seq<char> {
    match t.status {
        TodoStatus::InProgress => t.active_form@,
        _ => t.content@,
    }
}

/// The line of the task numbered `number`.
pub open spec fn todo_line(number: nat, t: Todo) -> Seq<char> {
    decimal(number) + ". "@ + seq![status_icon(t.status), ' '] + todo_text(t) + "\n"@
}

/// The lines of the first `n` tasks, numbered from 1.
pub open spec fn todo_lines(ts: Seq<Todo>, n: int) -> Seq<char>
    decreases n,
{
    if n <= 0 {
        seq![]
    } else {
        todo_lines(ts, n - 1) + todo_line(n as nat, ts[n - 1])
    }
}

/// The rendering of a todo list.
pub open spec fn formatted_todos(ts: Seq<Todo>) -> Seq<char> {
    if ts.len() == 0 {
        "No todos"@
    } else {
        "Todo List:\n\n"@ + todo_lines(ts, ts.len() as int)
    }
}

fn icon(s: TodoStatus) -> (c: char)
    ensures
        c == status_icon(s),
{
    match s {
        TodoStatus::Pending => '\u{2610}',
        TodoStatus::InProgress => '\u{23f3}',
        TodoStatus::Completed => '\u{2713}',
    }
}

impl TodoTool {
    /// A tool with an empty list.
    pub fn new() -> (r: TodoTool)
        ensures
            r.todos@.len() == 0,
    {
        TodoTool { todos: Vec::new() }
    }

    /// The list as shown to the model: "No todos", or a header and one
    /// numbered line per task.
    pub fn format_todos(&self) -> (r: String)
        ensures
            r@ == formatted_todos(self.todos@),
    {
        let n = self.todos.len();
        let mut out: Vec<char> = Vec::new();
        if n == 0 {
            push_str(&mut out, "No todos");
            return string_from(out.as_slice());
        }
        push_str(&mut out, "Todo List:\n\n");
        let ghost head = out@;
        let mut i: usize = 0;
        while i < n
            invariant
                i <= n,
                n == self.todos@.len(),
                out@ == head + todo_lines(self.todos@, i as int),
            decreases n - i,
        {
            let t = &self.todos[i];
            let num = decimal_chars(i as u64 + 1);
            push_all(&mut out, num.as_slice());
            push_str(&mut out, ". ");
            out.push(icon(t.status));
            out.push(' ');
            match t.status {
                TodoStatus::InProgress => push_str(&mut out, t.active_form.as_str()),
                _ => push_str(&mut out, t.content.as_str()),
            }
            push_str(&mut out, "\n");
            assert(out@ =~= head + todo_lines(self.todos@, i + 1));
            i = i + 1;
        }
        string_from(out.as_slice())
    }

    /// Replaces the list with `todos` and reports the new list.
    pub fn set_todos(&mut self, todos: Vec<Todo>) -> (r: ToolResult)
        ensures
            final(self).todos@ == todos@,
            r.content@ == formatted_todos(todos@),
            !r.is_error,
    {
        self.todos = todos;
        ToolResult { content: self.format_todos(), is_error: false }
    }
}

proof fn lemma_decimal_one_line(n: nat)
    ensures
        line_breaks(decimal(n)) == 0,
    decreases n,
{
    let digits = seq!['0', '1', '2', '3', '4', '5', '6', '7', '8', '9'];
    if n < 10 {
        assert(crate::text::digit_char(n as int) == digits[n as int]);
        lemma_no_line_breaks(seq![crate::text::digit_char(n as int)]);
    } else {
        lemma_decimal_one_line(n / 10);
        let d = crate::text::digit_char((n % 10) as int);
        assert(d == digits[(n % 10) as int]);
        assert(decimal(n).drop_last() =~= decimal(n / 10));
        assert(decimal(n).last() == d);
    }
}

/// Each task takes one line, the `n`-th numbered `n`, after the list's
/// heading and a blank line: a list of tasks whose texts hold no line
/// break has two line breaks more than it has tasks.
pub proof fn law_one_numbered_line_per_task(ts: Seq<Todo>, n: int)
    requires
        0 <= n < ts.len(),
        forall|i: int| 0 <= i < ts.len() ==> line_breaks(#[trigger] todo_text(ts[i])) == 0,
    ensures
        todo_lines(ts, n + 1).take(todo_lines(ts, n).len() as int) == todo_lines(ts, n),
        todo_lines(ts, n + 1).skip(todo_lines(ts, n).len() as int).take(decimal((n + 1) as nat).len() as int + 2)
            == decimal((n + 1) as nat) + ". "@,
        line_breaks(formatted_todos(ts)) == ts.len() + 2,
{
    let a = todo_lines(ts, n);
    let line = todo_line((n + 1) as nat, ts[n]);
    assert(todo_lines(ts, n + 1) == a + line);
    assert((a + line).take(a.len() as int) =~= a);
    assert((a + line).skip(a.len() as int) =~= line);
    reveal_strlit(". ");
    assert(line.take(decimal((n + 1) as nat).len() as int + 2) =~= decimal((n + 1) as nat) + ". "@);
    lemma_lines_count(ts, ts.len() as int);
    reveal_strlit("Todo List:\n\n");
    reveal_strlit("Todo List:");
    let head = "Todo List:\n\n"@;
    let nl2 = seq!['\n', '\n'];
    assert(head =~= "Todo List:"@ + nl2);
    lemma_no_line_breaks("Todo List:"@);
    assert(nl2.drop_last() =~= seq!['\n']);
    assert(seq!['\n'].drop_last() =~= Seq::<char>::empty());
    assert(line_breaks(Seq::<char>::empty()) == 0);
    assert(line_breaks(seq!['\n']) == 1);
    assert(line_breaks(nl2) == 2);
    lemma_line_breaks_add("Todo List:"@, nl2);
    lemma_line_breaks_add(head, todo_lines(ts, ts.len() as int));
}

proof fn lemma_lines_count(ts: Seq<Todo>, n: int)
    requires
        0 <= n <= ts.len(),
        forall|i: int| 0 <= i < ts.len() ==> line_breaks(#[trigger] todo_text(ts[i])) == 0,
    ensures
        line_breaks(todo_lines(ts, n)) == n,
    decreases n,
{
    if n > 0 {
        lemma_lines_count(ts, n - 1);
        let t = ts[n - 1];
        let num = decimal(n as nat);
        lemma_decimal_one_line(n as nat);
        reveal_strlit(". ");
        reveal_strlit("\n");
        lemma_no_line_breaks(". "@);
        lemma_no_line_breaks(seq![status_icon(t.status), ' ']);
        assert("\n"@ =~= seq!['\n']);
        assert(seq!['\n'].drop_last() =~= Seq::<char>::empty());
        assert(line_breaks(Seq::<char>::empty()) == 0);
        assert(line_breaks(seq!['\n']) == 1);
        assert(line_breaks(todo_text(ts[n - 1])) == 0);
        lemma_line_breaks_add(num, ". "@);
        lemma_line_breaks_add(num + ". "@, seq![status_icon(t.status), ' ']);
        lemma_line_breaks_add(num + ". "@ + seq![status_icon(t.status), ' '], todo_text(t));
        lemma_line_breaks_add(num + ". "@ + seq![status_icon(t.status), ' '] + todo_text(t), "\n"@);
        lemma_line_breaks_add(todo_lines(ts, n - 1), todo_line(n as nat, t));
    } else {
        assert(line_breaks(Seq::<char>::empty()) == 0);
    }
}

} // verus!
