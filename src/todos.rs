//! The todo list kept by the built-in todo tools: status normalisation,
//! the summary after an update, and the rendered list.
use vstd::prelude::*;
use vstd::string::*;
use crate::text::{decimal, push_decimal, str_eq};

verus! {

/// One entry of the todo list.
#[derive(Debug)]
pub struct TodoItem {
    pub content: String,
    pub status: String,
    pub active_form: Option<String>,
}

impl Clone for TodoItem {
    fn clone(&self) -> (r: Self)
        ensures
            r == *self,
    {
        TodoItem {
            content: self.content.clone(),
            status: self.status.clone(),
            active_form: crate::model::copy_opt(&self.active_form),
        }
    }
}

/// The statuses the list knows.
pub open spec fn known_status(s: Seq<char>) -> bool {
    s == "pending"@ || s == "in_progress"@ || s == "completed"@
}

/// How many entries have status `st`.
pub open spec fn count_status(todos: Seq<TodoItem>, st: Seq<char>) -> nat
    decreases todos.len(),
{
    if todos.len() == 0 {
        0
    } else {
        count_status(todos.drop_last(), st) + if todos.last().status@ == st {
            1nat
        } else {
            0nat
        }
    }
}

/// `new` is `old` with an unknown status replaced by `pending`.
pub open spec fn normalized_entry(new: TodoItem, old: TodoItem) -> bool {
    &&& new.content == old.content
    &&& new.active_form == old.active_form
    &&& new.status@ == if known_status(old.status@) {
        old.status@
    } else {
        "pending"@
    }
}

/// Replaces every status the list does not know by `pending`.
pub fn normalize_statuses(todos: &mut Vec<TodoItem>)
    ensures
        final(todos)@.len() == old(todos)@.len(),
        forall|i: int| 0 <= i < old(todos)@.len() ==> normalized_entry(#[trigger] final(todos)@[i], old(todos)@[i]),
{
    proof {
        reveal_strlit("pending");
        reveal_strlit("in_progress");
        reveal_strlit("completed");
    }
    let mut i: usize = 0;
    while i < todos.len()
        invariant
            0 <= i <= todos@.len(),
            todos@.len() == old(todos)@.len(),
            forall|j: int| i <= j < todos@.len() ==> todos@[j] == old(todos)@[j],
            forall|j: int| 0 <= j < i ==> normalized_entry(#[trigger] todos@[j], old(todos)@[j]),
        decreases todos@.len() - i,
    {
        proof {
            reveal_strlit("pending");
            reveal_strlit("in_progress");
            reveal_strlit("completed");
        }
        let st = todos[i].status.as_str();
        let known = str_eq(st, "pending") || str_eq(st, "in_progress") || str_eq(st, "completed");
        let ghost pre = todos@;
        if !known {
            let mut item = todos[i].clone();
            item.status = String::from_str("pending");
            todos.set(i, item);
        }
        proof {
            assert forall|j: int| 0 <= j < i + 1 implies normalized_entry(#[trigger] todos@[j], old(todos)@[j]) by {
                if j < i {
                    assert(todos@[j] == pre[j]);
                }
            }
        }
        i = i + 1;
    }
}

fn count_of(todos: &Vec<TodoItem>, st: &str) -> (r: u64)
    ensures
        r == count_status(todos@, st@),
{
    let mut n: u64 = 0;
    let mut i: usize = 0;
    while i < todos.len()
        invariant
            0 <= i <= todos@.len(),
            n == count_status(todos@.subrange(0, i as int), st@),
            n <= i,
        decreases todos@.len() - i,
    {
        assert(todos@.subrange(0, i as int + 1).drop_last() =~= todos@.subrange(0, i as int));
        if str_eq(todos[i].status.as_str(), st) {
            n = n + 1;
        }
        i = i + 1;
    }
    assert(todos@.subrange(0, todos@.len() as int) =~= todos@);
    n
}

/// The message after the list was replaced.
pub open spec fn summary_text(todos: Seq<TodoItem>) -> Seq<char> {
    "Updated todos: "@ + decimal(count_status(todos, "pending"@)) + " pending, "@ + decimal(
        count_status(todos, "in_progress"@),
    ) + " in progress, "@ + decimal(count_status(todos, "completed"@)) + " completed"@
}

/// Summarises the list by status.
pub fn todo_summary(todos: &Vec<TodoItem>) -> (r: String)
    ensures
        r@ == summary_text(todos@),
{
    let mut r = String::from_str("Updated todos: ");
    push_decimal(&mut r, count_of(todos, "pending"));
    r.append(" pending, ");
    push_decimal(&mut r, count_of(todos, "in_progress"));
    r.append(" in progress, ");
    push_decimal(&mut r, count_of(todos, "completed"));
    r.append(" completed");
    r
}

/// The marker of a status.
pub open spec fn marker(st: Seq<char>) -> Seq<char> {
    if st == "pending"@ {
        "[ ]"@
    } else if st == "in_progress"@ {
        "[>]"@
    } else if st == "completed"@ {
        "[x]"@
    } else {
        "[?]"@
    }
}

/// The line of the entry at position `i` (counted from zero).
pub open spec fn todo_line(i: nat, item: TodoItem) -> Seq<char> {
    decimal(i + 1) + ". "@ + marker(item.status@) + " "@ + item.content@
}

/// The lines of the first `n` entries, separated by newlines.
pub open spec fn todo_lines(todos: Seq<TodoItem>, n: nat) -> Seq<char>
    decreases n,
{
    if n == 0 {
        Seq::empty()
    } else if n == 1 {
        todo_line(0, todos[0])
    } else {
        todo_lines(todos, (n - 1) as nat) + seq!['\n'] + todo_line((n - 1) as nat, todos[n - 1])
    }
}

/// The rendered list, or a note that it is empty.
pub open spec fn rendered_todos(todos: Seq<TodoItem>) -> Seq<char> {
    if todos.len() == 0 {
        "Todo list is empty"@
    } else {
        todo_lines(todos, todos.len())
    }
}

fn marker_of(st: &str) -> (r: &'static str)
    ensures
        r@ == marker(st@),
{
    proof {
        reveal_strlit("pending");
        reveal_strlit("in_progress");
        reveal_strlit("completed");
    }
    if str_eq(st, "pending") {
        "[ ]"
    } else if str_eq(st, "in_progress") {
        "[>]"
    } else if str_eq(st, "completed") {
        "[x]"
    } else {
        "[?]"
    }
}

/// Renders the list, one numbered line per entry.
pub fn render_todos(todos: &Vec<TodoItem>) -> (r: String)
    ensures
        r@ == rendered_todos(todos@),
{
    if todos.len() == 0 {
        return String::from_str("Todo list is empty");
    }
    let mut r = String::new();
    let mut i: usize = 0;
    while i < todos.len()
        invariant
            0 <= i <= todos@.len(),
            r@ == todo_lines(todos@, i as nat),
        decreases todos@.len() - i,
    {
        proof {
            reveal_strlit("\n");
        }
        let ghost before = r@;
        if i > 0 {
            r.append("\n");
        }
        push_decimal(&mut r, (i as u64) + 1);
        r.append(". ");
        r.append(marker_of(todos[i].status.as_str()));
        r.append(" ");
        r.append(todos[i].content.as_str());
        proof {
            if i == 0 {
                assert(r@ =~= todo_line(0, todos@[0]));
            } else {
                assert("\n"@ =~= seq!['\n']);
                assert(r@ =~= before + seq!['\n'] + todo_line(i as nat, todos@[i as int]));
            }
        }
        i = i + 1;
    }
    r
}

} // verus!
