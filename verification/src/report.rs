//! The daily report that is copied to the clipboard.
use vstd::prelude::*;

use crate::clock::{format_hm, hm_text, is_date_text, local_of, local_reading, today_str, LocalTime, LOCAL_RANGE_MS};
use crate::logic::on_day;
use crate::sorting::{sort_todo_list, sorted_todos};
use crate::store::{Data, Todo};
use crate::text::{chars_of, u64_digits, int_text, push_all, push_str, same_text, string_from_chars};

verus! {

/// `- ` then, for a to-do with a deadline, its local time in back-quotes, then the title.
pub open spec fn report_line(t: Todo, hm: Option<(u32, u32)>) -> Seq<char> {
    "- "@ + match hm {
        Some((h, m)) => "`"@ + hm_text(h as int, m as int) + "` "@,
        None => Seq::<char>::empty(),
    } + t.title@
}

/// The lines joined with `\n`.
pub open spec fn join_lines(ls: Seq<Seq<char>>) -> Seq<char>
    decreases ls.len(),
{
    if ls.len() == 0 {
        Seq::empty()
    } else if ls.len() == 1 {
        ls[0]
    } else {
        join_lines(ls.drop_last()) + seq!['\n'] + ls.last()
    }
}

/// `name | day 업무 보고` when a non-empty name is set, else `day 업무 보고`.
pub open spec fn report_header(name: Option<Seq<char>>, day: Seq<char>) -> Seq<char> {
    match name {
        Some(n) if n.len() > 0 => n + " | "@ + day + " 업무 보고"@,
        _ => day + " 업무 보고"@,
    }
}

/// The report: a heading, the count of done to-dos out of all, and one line per done
/// to-do (or a note that none is done).
pub open spec fn report_text(
    name: Option<Seq<char>>,
    day: Seq<char>,
    total: int,
    done: Seq<Todo>,
    hms: Seq<Option<(u32, u32)>>,
) -> Seq<char> {
    let body = if done.len() == 0 {
        "- (완료한 항목 없음)"@
    } else {
        join_lines(Seq::new(done.len(), |i: int| report_line(done[i], hms[i])))
    };
    "## 📋 "@ + report_header(name, day) + "\n\n"@ + "완료 **"@ + int_text(done.len() as int)
        + "** / 전체 "@ + int_text(total) + "\n\n"@ + body
}

fn header_chars(name: &Option<String>, day: &str) -> (v: Vec<char>)
    ensures
        v@ == report_header(match name { Some(n) => Some(n@), None => None }, day@),
{
    let mut v: Vec<char> = Vec::new();
    match name {
        Some(n) => {
            if !n.as_str().is_empty() {
                push_str(&mut v, n.as_str());
                push_str(&mut v, " | ");
            }
        },
        None => {},
    }
    push_str(&mut v, day);
    push_str(&mut v, " 업무 보고");
    v
}

fn line_chars(t: &Todo, hm: Option<(u32, u32)>) -> (v: Vec<char>)
    ensures
        v@ == report_line(*t, hm),
{
    let mut v: Vec<char> = chars_of("- ");
    match hm {
        Some((h, m)) => {
            push_str(&mut v, "`");
            let x = format_hm(h, m);
            push_all(&mut v, &x);
            push_str(&mut v, "` ");
        },
        None => {},
    }
    push_str(&mut v, t.title.as_str());
    v
}

fn body_chars(done: &Vec<Todo>, hms: &Vec<Option<(u32, u32)>>) -> (v: Vec<char>)
    requires
        hms@.len() == done@.len(),
        done@.len() > 0,
    ensures
        v@ == join_lines(Seq::new(done@.len(), |i: int| report_line(done@[i], hms@[i]))),
{
    let ghost lines = Seq::new(done@.len(), |i: int| report_line(done@[i], hms@[i]));
    let mut v: Vec<char> = Vec::new();
    let mut i: usize = 0;
    assert(lines.take(0) =~= Seq::<Seq<char>>::empty());
    while i < done.len()
        invariant
            i <= done@.len(),
            hms@.len() == done@.len(),
            lines == Seq::new(done@.len(), |i: int| report_line(done@[i], hms@[i])),
            v@ == join_lines(lines.take(i as int)),
        decreases done@.len() - i,
    {
        if i > 0 {
            v.push('\n');
        }
        let l = line_chars(&done[i], hms[i]);
        push_all(&mut v, &l);
        proof {
            let lt = lines.take(i + 1);
            assert(lt.drop_last() =~= lines.take(i as int));
            assert(lt.last() == lines[i as int]);
            if i == 0 {
                assert(lt =~= seq![lines[0]]);
            }
        }
        i = i + 1;
    }
    assert(lines.take(done@.len() as int) =~= lines);
    v
}

/// Renders the report for `day` with `total` to-dos, the done ones (in display order) and
/// the local time of each one's deadline.
pub fn render_daily_report(
    name: &Option<String>,
    day: &str,
    total: usize,
    done: &Vec<Todo>,
    hms: &Vec<Option<(u32, u32)>>,
) -> (r: String)
    requires
        hms@.len() == done@.len(),
    ensures
        r@ == report_text(
            match name { Some(n) => Some(n@), None => None },
            day@,
            total as int,
            done@,
            hms@,
        ),
{
    let mut v: Vec<char> = chars_of("## 📋 ");
    let h = header_chars(name, day);
    push_all(&mut v, &h);
    push_str(&mut v, "\n\n");
    push_str(&mut v, "완료 **");
    let c = u64_digits(done.len() as u64);
    push_all(&mut v, &c);
    push_str(&mut v, "** / 전체 ");
    let t = u64_digits(total as u64);
    push_all(&mut v, &t);
    push_str(&mut v, "\n\n");
    let body = if done.len() == 0 {
        chars_of("- (완료한 항목 없음)")
    } else {
        body_chars(done, hms)
    };
    push_all(&mut v, &body);
    assert(v@ =~= report_text(
        match name { Some(n) => Some(n@), None => None },
        day@,
        total as int,
        done@,
        hms@,
    ));
    string_from_chars(&v)
}

/// The to-dos of `day`, in order.
pub open spec fn todos_of_day(todos: Seq<Todo>, day: Seq<char>) -> Seq<Todo> {
    todos.filter(|t: Todo| on_day(t, day))
}

/// The done to-dos, in order.
pub open spec fn done_todos(todos: Seq<Todo>) -> Seq<Todo> {
    todos.filter(|t: Todo| t.done)
}

/// The to-dos of `day`, copied in order.
pub fn todos_on(todos: &Vec<Todo>, day: &str) -> (r: Vec<Todo>)
    ensures
        r@ == todos_of_day(todos@, day@),
{
    let mut r: Vec<Todo> = Vec::new();
    let mut i: usize = 0;
    while i < todos.len()
        invariant
            i <= todos@.len(),
            r@ == todos_of_day(todos@.take(i as int), day@),
        decreases todos@.len() - i,
    {
        proof {
            reveal_with_fuel(Seq::<_>::filter, 1);
            assert(todos@.take(i + 1).drop_last() =~= todos@.take(i as int));
        }
        if same_text(todos[i].date.as_str(), day) {
            r.push(todos[i].clone());
        }
        i = i + 1;
    }
    assert(todos@.take(todos@.len() as int) =~= todos@);
    r
}

fn done_only(todos: &Vec<Todo>) -> (r: Vec<Todo>)
    ensures
        r@ == done_todos(todos@),
{
    let mut r: Vec<Todo> = Vec::new();
    let mut i: usize = 0;
    while i < todos.len()
        invariant
            i <= todos@.len(),
            r@ == done_todos(todos@.take(i as int)),
        decreases todos@.len() - i,
    {
        proof {
            reveal_with_fuel(Seq::<_>::filter, 1);
            assert(todos@.take(i + 1).drop_last() =~= todos@.take(i as int));
        }
        if todos[i].done {
            r.push(todos[i].clone());
        }
        i = i + 1;
    }
    assert(todos@.take(todos@.len() as int) =~= todos@);
    r
}

/// The local times of the deadlines: one per to-do, present when it has a deadline.
pub open spec fn deadline_times_ok(done: Seq<Todo>, hms: Seq<Option<(u32, u32)>>) -> bool {
    &&& hms.len() == done.len()
    &&& forall|i: int|
        0 <= i < hms.len() ==> (#[trigger] hms[i] is Some <==> done[i].due_at is Some) && (hms[i] matches Some(
            (h, m),
        ) ==> h <= 23 && m <= 59)
}

/// Each time shown is the local hour and minute of that to-do's own deadline (at some
/// offset from UTC of less than a day).
pub open spec fn deadline_times_local(done: Seq<Todo>, hms: Seq<Option<(u32, u32)>>) -> bool {
    forall|i: int|
        0 <= i < done.len() && (#[trigger] done[i]).due_at is Some && -LOCAL_RANGE_MS <= done[i].due_at->0
            <= LOCAL_RANGE_MS ==> (hms[i] matches Some(p) && exists|t: LocalTime|
            #[trigger] local_reading(t, done[i].due_at->0 as int) && p == (t.hour, t.minute))
}

/// The name of the Notion assignee, if one is set.
pub open spec fn assignee_name(d: Data) -> Option<Seq<char>> {
    match d.settings.notion_assignee {
        Some(a) => Some(a.name@),
        None => None,
    }
}

/// Today's report from the saved data.
pub fn build_daily_report(data: &Data) -> (r: String)
    ensures
        exists|day: Seq<char>, hms: Seq<Option<(u32, u32)>>|
            is_date_text(day) && deadline_times_ok(
                done_todos(sorted_todos(todos_of_day(data.todos@, day))),
                hms,
            ) && deadline_times_local(done_todos(sorted_todos(todos_of_day(data.todos@, day))), hms) && r@ == #[trigger] report_text(
                assignee_name(*data),
                day,
                todos_of_day(data.todos@, day).len() as int,
                done_todos(sorted_todos(todos_of_day(data.todos@, day))),
                hms,
            ),
{
    let today = today_str();
    let todays = todos_on(&data.todos, today.as_str());
    let sorted = sort_todo_list(&todays);
    let done = done_only(&sorted);
    let mut hms: Vec<Option<(u32, u32)>> = Vec::new();
    let mut i: usize = 0;
    while i < done.len()
        invariant
            i <= done@.len(),
            hms@.len() == i,
            forall|j: int|
                0 <= j < i ==> (#[trigger] hms@[j] is Some <==> done@[j].due_at is Some) && (hms@[j] matches Some(
                    (h, m),
                ) ==> h <= 23 && m <= 59),
            forall|j: int|
                0 <= j < i && (#[trigger] done@[j]).due_at is Some && -LOCAL_RANGE_MS <= done@[j].due_at->0
                    <= LOCAL_RANGE_MS ==> (hms@[j] matches Some(p) && exists|t: LocalTime|
                    #[trigger] local_reading(t, done@[j].due_at->0 as int) && p == (t.hour, t.minute)),
        decreases done@.len() - i,
    {
        match done[i].due_at {
            Some(ms) => {
                let t = local_of(ms);
                hms.push(Some((t.hour, t.minute)));
                proof {
                    if -LOCAL_RANGE_MS <= ms <= LOCAL_RANGE_MS {
                        assert(local_reading(t, ms as int));
                    }
                }
            },
            None => {
                hms.push(None);
            },
        }
        i = i + 1;
    }
    let name = match &data.settings.notion_assignee {
        Some(a) => Some(a.name.clone()),
        None => None,
    };
    let r = render_daily_report(&name, today.as_str(), todays.len(), &done, &hms);
    assert(deadline_times_ok(done@, hms@));
    assert(deadline_times_local(done@, hms@));
    r
}


/// The to-dos of `day` in display order, as the windows list them.
pub fn todos_for_day(data: &Data, day: &str) -> (r: Vec<Todo>)
    ensures
        r@ == sorted_todos(todos_of_day(data.todos@, day@)),
{
    let todays = todos_on(&data.todos, day);
    sort_todo_list(&todays)
}

} // verus!
