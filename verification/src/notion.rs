//! Notion: recognising a database's properties, reading users and pages out of API
//! replies, and merging a day's pages into the to-dos.
use vstd::prelude::*;

use crate::clock::{parse_rfc3339_ms, rfc3339_instant};
use crate::store::{Data, Todo};
use vstd::string::StringSliceAdditionalSpecFns;

use crate::text::{chars_of, dec_digits, opt_text, push_all, push_str, same_text, string_from_chars, u64_digits};

verus! {

/// Which database properties hold the title, the date, the done checkbox and the
/// assignee.
pub struct Schema {
    pub title_prop: String,
    pub date_prop: String,
    pub done_prop: Option<String>,
    pub person_prop: Option<String>,
}

/// The first property (in the order given) of the type `ty`.
pub open spec fn first_prop_of(props: Seq<(String, String)>, ty: Seq<char>) -> Option<String>
    decreases props.len(),
{
    if props.len() == 0 {
        None
    } else {
        match first_prop_of(props.drop_last(), ty) {
            Some(n) => Some(n),
            None => if props.last().1@ == ty {
                Some(props.last().0)
            } else {
                None
            },
        }
    }
}

pub open spec fn no_properties_error() -> Seq<char> {
    "데이터베이스 속성을 읽을 수 없습니다"@
}

pub open spec fn no_title_error() -> Seq<char> {
    "데이터베이스에 제목(title) 속성이 없습니다"@
}

pub open spec fn no_date_error() -> Seq<char> {
    "데이터베이스에 날짜(date) 속성이 없습니다"@
}

/// The schema read from a database's properties, as (name, type) pairs in the order the
/// reply lists them (nothing when the reply has no property object).
pub open spec fn schema_of(props: Option<Seq<(String, String)>>) -> Result<
    (String, String, Option<String>, Option<String>),
    Seq<char>,
> {
    match props {
        None => Err(no_properties_error()),
        Some(ps) => match (first_prop_of(ps, "title"@), first_prop_of(ps, "date"@)) {
            (None, _) => Err(no_title_error()),
            (Some(_), None) => Err(no_date_error()),
            (Some(t), Some(d)) => Ok(
                (t, d, first_prop_of(ps, "checkbox"@), first_prop_of(ps, "people"@)),
            ),
        },
    }
}

/// Finds the title, date, checkbox and people properties of a database: the first of each
/// type; a database without a title or a date property cannot be used.
pub fn detect_schema(props: Option<&Vec<(String, String)>>) -> (r: Result<Schema, String>)
    ensures
        match (r, schema_of(match props { Some(p) => Some(p@), None => None })) {
            (Ok(s), Ok(x)) => s.title_prop == x.0 && s.date_prop == x.1 && s.done_prop == x.2
                && s.person_prop == x.3,
            (Err(e), Err(x)) => e@ == x,
            _ => false,
        },
{
    let ps = match props {
        Some(p) => p,
        None => return Err(String::from_str("데이터베이스 속성을 읽을 수 없습니다")),
    };
    let mut title: Option<String> = None;
    let mut date: Option<String> = None;
    let mut done: Option<String> = None;
    let mut person: Option<String> = None;
    let mut i: usize = 0;
    while i < ps.len()
        invariant
            i <= ps@.len(),
            title == first_prop_of(ps@.take(i as int), "title"@),
            date == first_prop_of(ps@.take(i as int), "date"@),
            done == first_prop_of(ps@.take(i as int), "checkbox"@),
            person == first_prop_of(ps@.take(i as int), "people"@),
        decreases ps@.len() - i,
    {
        assert(ps@.take(i + 1).drop_last() =~= ps@.take(i as int));
        let name = &ps[i].0;
        let ty = ps[i].1.as_str();
        if same_text(ty, "title") && title.is_none() {
            title = Some(name.clone());
        }
        if same_text(ty, "date") && date.is_none() {
            date = Some(name.clone());
        }
        if same_text(ty, "checkbox") && done.is_none() {
            done = Some(name.clone());
        }
        if same_text(ty, "people") && person.is_none() {
            person = Some(name.clone());
        }
        i = i + 1;
    }
    assert(ps@.take(ps@.len() as int) =~= ps@);
    let t = match title {
        Some(t) => t,
        None => return Err(String::from_str("데이터베이스에 제목(title) 속성이 없습니다")),
    };
    let d = match date {
        Some(d) => d,
        None => return Err(String::from_str("데이터베이스에 날짜(date) 속성이 없습니다")),
    };
    Ok(Schema { title_prop: t, date_prop: d, done_prop: done, person_prop: person })
}

/// A workspace member.
pub struct NotionUser {
    pub id: String,
    pub name: String,
}

/// What a reply says of one user: its type, id and name (each absent when missing or
/// not a string).
pub struct UserFields {
    pub kind: Option<String>,
    pub id: Option<String>,
    pub name: Option<String>,
}

/// A person (bots are left out), with an empty id when none is given and a placeholder
/// name when the name is missing or empty.
pub open spec fn user_of(f: UserFields) -> Option<(Seq<char>, Seq<char>)> {
    if f.kind matches Some(k) && k@ == "person"@ {
        Some(
            (
                match f.id {
                    Some(i) => i@,
                    None => Seq::<char>::empty(),
                },
                match f.name {
                    Some(n) if n@.len() > 0 => n@,
                    _ => "(이름 없음)"@,
                },
            ),
        )
    } else {
        None
    }
}

/// The people among the users of one reply page, in order.
pub open spec fn people_of(fs: Seq<UserFields>) -> Seq<(Seq<char>, Seq<char>)>
    decreases fs.len(),
{
    if fs.len() == 0 {
        Seq::empty()
    } else {
        let prev = people_of(fs.drop_last());
        match user_of(fs.last()) {
            Some(u) => prev.push(u),
            None => prev,
        }
    }
}

pub fn users_from_page(results: &Vec<UserFields>) -> (r: Vec<NotionUser>)
    ensures
        r@.map_values(|u: NotionUser| (u.id@, u.name@)) == people_of(results@),
{
    let mut r: Vec<NotionUser> = Vec::new();
    let mut i: usize = 0;
    while i < results.len()
        invariant
            i <= results@.len(),
            r@.map_values(|u: NotionUser| (u.id@, u.name@)) == people_of(results@.take(i as int)),
        decreases results@.len() - i,
    {
        assert(results@.take(i + 1).drop_last() =~= results@.take(i as int));
        let f = &results[i];
        let is_person = match &f.kind {
            Some(k) => same_text(k.as_str(), "person"),
            None => false,
        };
        if is_person {
            let id = match &f.id {
                Some(x) => x.clone(),
                None => String::new(),
            };
            let name = match &f.name {
                Some(n) => if n.as_str().is_empty() {
                    String::from_str("(이름 없음)")
                } else {
                    n.clone()
                },
                None => String::from_str("(이름 없음)"),
            };
            r.push(NotionUser { id, name });
        }
        assert(r@.map_values(|u: NotionUser| (u.id@, u.name@)) =~= people_of(results@.take(i + 1)));
        i = i + 1;
    }
    assert(results@.take(results@.len() as int) =~= results@);
    r
}

/// One page of a day, as the to-dos use it.
pub struct NotionPage {
    pub id: String,
    pub title: String,
    pub due_at: Option<i64>,
    pub done: bool,
}

impl Clone for NotionPage {
    fn clone(&self) -> (r: Self)
        ensures
            r == *self,
    {
        NotionPage { id: self.id.clone(), title: self.title.clone(), due_at: self.due_at, done: self.done }
    }
}

/// What a reply says of one page: its id, the plain texts of its title (nothing when the
/// title property holds no list), the start of its date and its checkbox.
pub struct PageFields {
    pub id: Option<String>,
    pub title_parts: Option<Vec<String>>,
    pub start: Option<String>,
    pub checkbox: Option<bool>,
}

/// The texts joined.
pub open spec fn concat_texts(parts: Seq<String>) -> Seq<char>
    decreases parts.len(),
{
    if parts.len() == 0 {
        Seq::empty()
    } else {
        concat_texts(parts.drop_last()) + parts.last()@
    }
}

/// The title of a page: its texts joined, a placeholder when that is empty.
pub open spec fn page_title(parts: Option<Seq<String>>) -> Seq<char> {
    match parts {
        Some(p) if concat_texts(p).len() > 0 => concat_texts(p),
        _ => "(제목 없음)"@,
    }
}

/// The deadline of a page: only a date with a time of day (a start longer than ten
/// bytes) has one, the instant it denotes.
pub open spec fn page_due(start: Option<Seq<char>>) -> Option<i64> {
    match start {
        Some(s) if (vstd::utf8::encode_utf8(s).len() as usize) > 10 => rfc3339_instant(s),
        _ => None,
    }
}

/// The page read from its fields; its checkbox counts only when the database has one.
pub open spec fn page_of(f: PageFields, has_done_prop: bool) -> (Seq<char>, Seq<char>, Option<i64>, bool) {
    (
        match f.id {
            Some(i) => i@,
            None => Seq::<char>::empty(),
        },
        page_title(match f.title_parts { Some(p) => Some(p@), None => None }),
        page_due(opt_text(f.start)),
        has_done_prop && f.checkbox == Some(true),
    )
}

pub fn page_from_fields(f: &PageFields, has_done_prop: bool) -> (p: NotionPage)
    ensures
        (p.id@, p.title@, p.due_at, p.done) == page_of(*f, has_done_prop),
{
    let id = match &f.id {
        Some(x) => x.clone(),
        None => String::new(),
    };
    let title = match &f.title_parts {
        Some(parts) => {
            let mut v: Vec<char> = Vec::new();
            let mut i: usize = 0;
            while i < parts.len()
                invariant
                    i <= parts@.len(),
                    v@ == concat_texts(parts@.take(i as int)),
                decreases parts@.len() - i,
            {
                assert(parts@.take(i + 1).drop_last() =~= parts@.take(i as int));
                push_str(&mut v, parts[i].as_str());
                i = i + 1;
            }
            assert(parts@.take(parts@.len() as int) =~= parts@);
            if v.len() == 0 {
                String::from_str("(제목 없음)")
            } else {
                string_from_chars(&v)
            }
        },
        None => String::from_str("(제목 없음)"),
    };
    let due = match &f.start {
        Some(s) => if s.as_str().len() > 10 {
            parse_rfc3339_ms(s.as_str())
        } else {
            None
        },
        None => None,
    };
    let done = has_done_prop && match f.checkbox {
        Some(b) => b,
        None => false,
    };
    NotionPage { id, title, due_at: due, done }
}


// ---------------------------------------------------------------------------
// Account and write-back
// ---------------------------------------------------------------------------

pub open spec fn no_credentials_error() -> Seq<char> {
    "노션 토큰/DB가 설정되지 않았습니다"@
}

/// What a synchronisation uses: the token, the database and the assignee's id.
pub struct SyncCredentials {
    pub token: String,
    pub db: String,
    pub assignee_id: Option<String>,
}

/// The credentials of the settings; an error when the token or the database is missing.
pub fn sync_credentials(data: &Data) -> (r: Result<SyncCredentials, String>)
    ensures
        data.settings.notion_token@.len() == 0 || data.settings.notion_db@.len() == 0 ==> (r matches Err(e) && e@ == no_credentials_error()),
        data.settings.notion_token@.len() > 0 && data.settings.notion_db@.len() > 0 ==> (r matches Ok(c) && c.token == data.settings.notion_token
            && c.db == data.settings.notion_db && c.assignee_id == match data.settings.notion_assignee {
                Some(a) => Some(a.id),
                None => None,
            }),
{
    let s = &data.settings;
    if s.notion_token.as_str().is_empty() || s.notion_db.as_str().is_empty() {
        return Err(String::from_str("노션 토큰/DB가 설정되지 않았습니다"));
    }
    Ok(
        SyncCredentials {
            token: s.notion_token.clone(),
            db: s.notion_db.clone(),
            assignee_id: match &s.notion_assignee {
                Some(a) => Some(a.id.clone()),
                None => None,
            },
        },
    )
}

/// The first to-do with this id.
pub open spec fn first_todo_id(todos: Seq<Todo>, id: Seq<char>) -> Option<int>
    decreases todos.len(),
{
    if todos.len() == 0 {
        None
    } else {
        match first_todo_id(todos.drop_last(), id) {
            Some(i) => Some(i),
            None => if todos.last().id@ == id {
                Some(todos.len() - 1)
            } else {
                None
            },
        }
    }
}

proof fn lemma_first_todo_id_extend(todos: Seq<Todo>, id: Seq<char>, k: int, m: int)
    requires
        0 <= k < m <= todos.len(),
        first_todo_id(todos.take(k + 1), id) == Some(k),
    ensures
        first_todo_id(todos.take(m), id) == Some(k),
    decreases m - k,
{
    if m > k + 1 {
        lemma_first_todo_id_extend(todos, id, k, m - 1);
        assert(todos.take(m).drop_last() =~= todos.take(m - 1));
    }
}

fn find_first_id(todos: &Vec<Todo>, id: &str) -> (r: Option<usize>)
    ensures
        r matches Some(i) ==> first_todo_id(todos@, id@) == Some(i as int) && i < todos@.len(),
        r is None ==> first_todo_id(todos@, id@) is None,
{
    let mut i: usize = 0;
    while i < todos.len()
        invariant
            i <= todos@.len(),
            first_todo_id(todos@.take(i as int), id@) is None,
        decreases todos@.len() - i,
    {
        assert(todos@.take(i + 1).drop_last() =~= todos@.take(i as int));
        if same_text(todos[i].id.as_str(), id) {
            proof {
                lemma_first_todo_id_extend(todos@, id@, i as int, todos@.len() as int);
                assert(todos@.take(todos@.len() as int) =~= todos@);
            }
            return Some(i);
        }
        i = i + 1;
    }
    assert(todos@.take(todos@.len() as int) =~= todos@);
    None
}

/// A done state to write to a Notion page.
pub struct WriteBack {
    pub token: String,
    pub db: String,
    pub page_id: String,
    pub done: bool,
}

/// What to write back after the to-do with this id changed: its page and done state, when
/// the account is set up and the to-do is linked to a page.
pub fn notion_write_back(data: &Data, id: &str) -> (r: Option<WriteBack>)
    ensures
        match first_todo_id(data.todos@, id@) {
            Some(i) if data.settings.notion_token@.len() > 0 && data.settings.notion_db@.len() > 0
                && data.todos@[i].notion_page_id is Some => r matches Some(w) && w.token
                == data.settings.notion_token && w.db == data.settings.notion_db && Some(w.page_id)
                == data.todos@[i].notion_page_id && w.done == data.todos@[i].done,
            _ => r is None,
        },
{
    let i = match find_first_id(&data.todos, id) {
        Some(i) => i,
        None => return None,
    };
    let s = &data.settings;
    let t = &data.todos[i];
    if s.notion_token.as_str().is_empty() || s.notion_db.as_str().is_empty() {
        return None;
    }
    match &t.notion_page_id {
        Some(pid) => Some(
            WriteBack {
                token: s.notion_token.clone(),
                db: s.notion_db.clone(),
                page_id: pid.clone(),
                done: t.done,
            },
        ),
        None => None,
    }
}

/// Records that the page of the to-do with this id now shows `done`.
pub fn mark_notion_done(data: &mut Data, id: &str, done: bool)
    ensures
        match first_todo_id(old(data).todos@, id@) {
            Some(i) => final(data).todos@ == old(data).todos@.update(
                i,
                Todo { notion_done: Some(done), ..old(data).todos@[i] },
            ),
            None => final(data).todos == old(data).todos,
        },
        final(data).settings == old(data).settings,
        final(data).streak == old(data).streak,
        final(data).last_reward_date == old(data).last_reward_date,
        final(data).points == old(data).points,
        final(data).stats == old(data).stats,
        final(data).badges == old(data).badges,
        final(data).suppressed_notion_ids == old(data).suppressed_notion_ids,
{
    match find_first_id(&data.todos, id) {
        Some(i) => {
            let mut t = data.todos[i].clone();
            t.notion_done = Some(done);
            data.todos.set(i, t);
        },
        None => {},
    }
}


// ---------------------------------------------------------------------------
// Requests
// ---------------------------------------------------------------------------

/// One condition of the query for a day's pages.
pub enum QueryCondition {
    /// The date property is on this day or later.
    OnOrAfter { prop: String, day: String },
    /// The date property is before this day.
    Before { prop: String, day: String },
    /// The people property holds this person.
    PeopleContains { prop: String, person: String },
}

/// The pages of `day`: dated from that day and before `next_day`, and, when an assignee
/// is set and the database has a people property, assigned to that person.
pub open spec fn day_conditions_ok(
    s: Schema,
    day: Seq<char>,
    next_day: Seq<char>,
    assignee: Option<Seq<char>>,
    r: Seq<QueryCondition>,
) -> bool {
    &&& r.len() >= 2
    &&& r[0] matches QueryCondition::OnOrAfter { prop, day: d } && prop == s.date_prop && d@ == day
    &&& r[1] matches QueryCondition::Before { prop, day: d } && prop == s.date_prop && d@ == next_day
    &&& match (assignee, s.person_prop) {
        (Some(a), Some(pp)) => r.len() == 3 && (r[2] matches QueryCondition::PeopleContains {
            prop,
            person,
        } && prop == pp && person@ == a),
        _ => r.len() == 2,
    }
}

pub fn query_conditions(s: &Schema, day: &str, next_day: &str, assignee: Option<&str>) -> (r: Vec<QueryCondition>)
    ensures
        day_conditions_ok(*s, day@, next_day@, crate::text::opt_str(assignee), r@),
{
    let mut r: Vec<QueryCondition> = Vec::new();
    r.push(QueryCondition::OnOrAfter { prop: s.date_prop.clone(), day: String::from_str(day) });
    r.push(QueryCondition::Before { prop: s.date_prop.clone(), day: String::from_str(next_day) });
    match (assignee, &s.person_prop) {
        (Some(a), Some(pp)) => {
            r.push(QueryCondition::PeopleContains { prop: pp.clone(), person: String::from_str(a) });
        },
        _ => {},
    }
    r
}

/// The query string of one page of the user list: from `cursor` when there is one, a
/// hundred users at a time.
pub open spec fn users_query_of(cursor: Option<Seq<char>>) -> Seq<char> {
    match cursor {
        Some(c) => "?start_cursor="@ + c + "&page_size=100"@,
        None => "?page_size=100"@,
    }
}

pub fn users_query(cursor: &Option<String>) -> (r: String)
    ensures
        r@ == users_query_of(opt_text(*cursor)),
{
    match cursor {
        Some(c) => {
            let mut v = chars_of("?start_cursor=");
            push_str(&mut v, c.as_str());
            push_str(&mut v, "&page_size=100");
            string_from_chars(&v)
        },
        None => String::from_str("?page_size=100"),
    }
}

/// Where the user list goes on: from the reply's cursor when it says there are more;
/// nothing ends the listing.
pub fn next_users_cursor(has_more: bool, next_cursor: Option<String>) -> (r: Option<String>)
    ensures
        r == if has_more { next_cursor } else { None },
{
    if has_more {
        next_cursor
    } else {
        None
    }
}

/// The text of a failed request: the status and the first 300 characters of the reply.
pub open spec fn api_error_of(status: u16, body: Seq<char>) -> Seq<char> {
    "Notion API "@ + dec_digits(status as nat) + ": "@ + if body.len() > 300 {
        body.take(300)
    } else {
        body
    }
}

pub fn api_error_text(status: u16, body: &str) -> (r: String)
    ensures
        r@ == api_error_of(status, body@),
{
    let mut v = chars_of("Notion API ");
    let d = u64_digits(status as u64);
    push_all(&mut v, &d);
    push_str(&mut v, ": ");
    let b = chars_of(body);
    let n: usize = if b.len() > 300 {
        300
    } else {
        b.len()
    };
    let mut i: usize = 0;
    let ghost v0 = v@;
    while i < n
        invariant
            i <= n,
            n <= b@.len(),
            v@ == v0 + b@.take(i as int),
        decreases n - i,
    {
        v.push(b[i]);
        assert(b@.take(i + 1) =~= b@.take(i as int).push(b@[i as int]));
        i = i + 1;
    }
    assert(b@.take(n as int) =~= if b@.len() > 300 { b@.take(300) } else { b@ });
    string_from_chars(&v)
}

/// The key under which a database's schema is kept: the token's last eight bytes, a
/// colon and the database.
pub open spec fn schema_key_of(token: Seq<char>, db: Seq<char>) -> Seq<char> {
    let b = vstd::utf8::encode_utf8(token);
    if b.len() > 8 {
        vstd::utf8::decode_utf8(b.subrange(b.len() - 8, b.len() as int)) + ":"@ + db
    } else {
        token + ":"@ + db
    }
}

/// The last eight bytes of the token begin a character (else cutting them out panics).
pub open spec fn token_tail_cuttable(token: Seq<char>) -> bool {
    let b = vstd::utf8::encode_utf8(token);
    b.len() > 8 ==> vstd::utf8::is_char_boundary(b, b.len() - 8)
}

pub fn schema_cache_key(token: &str, db: &str) -> (r: String)
    requires
        token_tail_cuttable(token@),
    ensures
        r@ == schema_key_of(token@, db@),
{
    let n = token.as_bytes().len();
    let ghost b = vstd::utf8::encode_utf8(token@);
    assert(token.spec_bytes() == b);
    let mut v: Vec<char> = Vec::new();
    if n > 8 {
        let (_, tail) = token.split_at(n - 8);
        proof {
            vstd::utf8::encode_utf8_decode_utf8(tail@);
            assert(b.subrange(b.len() - 8, b.len() as int) =~= tail.spec_bytes());
        }
        push_str(&mut v, tail);
    } else {
        push_str(&mut v, token);
    }
    push_str(&mut v, ":");
    push_str(&mut v, db);
    string_from_chars(&v)
}

} // verus!
