//! What is kept of a conversation in the database, and what is read back.
use vstd::prelude::*;
use crate::agent::{kind_named, AgentKind};
use crate::message::{call_views, clone_calls, Message, MessageView, Role, ToolCall, ToolCallView};
use crate::text::{concat3, contains_text, opt_view, owned, str_eq, views};

verus! {

// ── Sessions ──────────────────────────────────────────────────────────────────

/// What a list of sessions shows of one of them.
#[derive(Debug)]
pub struct SessionMeta {
    pub id: i64,
    pub title: String,
    pub updated_at: String,
    pub agent: AgentKind,
    /// The model that was chosen; `None` where none was.
    pub model: Option<String>,
}

/// What a [`SessionMeta`] holds.
pub struct SessionMetaView {
    pub id: i64,
    pub title: Seq<char>,
    pub updated_at: Seq<char>,
    pub agent: AgentKind,
    pub model: Option<Seq<char>>,
}

impl View for SessionMeta {
    type V = SessionMetaView;

    open spec fn view(&self) -> SessionMetaView {
        SessionMetaView {
            id: self.id,
            title: self.title@,
            updated_at: self.updated_at@,
            agent: self.agent,
            model: opt_view(self.model),
        }
    }
}

impl Clone for SessionMeta {
    fn clone(&self) -> (r: Self)
        ensures
            r@ == self@,
    {
        SessionMeta {
            id: self.id,
            title: self.title.clone(),
            updated_at: self.updated_at.clone(),
            agent: self.agent,
            model: self.model.clone(),
        }
    }
}

/// The views of a list of sessions.
pub open spec fn meta_views(v: Seq<SessionMeta>) -> Seq<SessionMetaView> {
    v.map_values(|m: SessionMeta| m@)
}

/// A row of the table of sessions.
#[derive(Debug)]
pub struct StoredSession {
    pub id: i64,
    pub title: String,
    pub updated_at: String,
    pub agent: Option<String>,
    pub model: Option<String>,
}

impl StoredSession {
    /// The session of the row. One without a profile has the first of them.
    pub fn into_meta(self) -> (r: SessionMeta)
        ensures
            r@ == (SessionMetaView {
                id: self.id,
                title: self.title@,
                updated_at: self.updated_at@,
                agent: match opt_view(self.agent) {
                    Some(a) => kind_named(a),
                    None => AgentKind::Build,
                },
                model: opt_view(self.model),
            }),
    {
        let agent = match &self.agent {
            Some(a) => AgentKind::from_str_or_default(a.as_str()),
            None => AgentKind::Build,
        };
        SessionMeta {
            id: self.id,
            title: self.title,
            updated_at: self.updated_at,
            agent,
            model: self.model,
        }
    }
}

// ── Messages ──────────────────────────────────────────────────────────────────

/// The name of a role in the database.
pub open spec fn role_text(role: Role) -> Seq<char> {
    match role {
        Role::System => "system"@,
        Role::User => "user"@,
        Role::Assistant => "assistant"@,
        Role::Tool => "tool"@,
    }
}

/// The role with the name `s`; the user for every other text.
pub open spec fn role_named(s: Seq<char>) -> Role {
    if s == "system"@ {
        Role::System
    } else if s == "assistant"@ {
        Role::Assistant
    } else if s == "tool"@ {
        Role::Tool
    } else {
        Role::User
    }
}

/// The name of a role in the database.
pub fn role_str(role: Role) -> (r: &'static str)
    ensures
        r@ == role_text(role),
{
    match role {
        Role::System => "system",
        Role::User => "user",
        Role::Assistant => "assistant",
        Role::Tool => "tool",
    }
}

/// A row of the table of messages; its tool calls are `None` where the row has none, or none that
/// can be read.
#[derive(Debug)]
pub struct StoredMessage {
    pub role: String,
    pub content: String,
    pub tool_calls: Option<Vec<ToolCall>>,
    pub tool_call_id: Option<String>,
    pub reasoning: Option<String>,
}

/// What a [`StoredMessage`] holds.
#[verifier::ext_equal]
pub struct StoredView {
    pub role: Seq<char>,
    pub content: Seq<char>,
    pub tool_calls: Option<Seq<ToolCallView>>,
    pub tool_call_id: Option<Seq<char>>,
    pub reasoning: Option<Seq<char>>,
}

/// What a list of tool calls holds, where there is one.
pub open spec fn opt_calls(v: Option<Vec<ToolCall>>) -> Option<Seq<ToolCallView>> {
    match v {
        Some(c) => Some(call_views(c@)),
        None => None,
    }
}

impl View for StoredMessage {
    type V = StoredView;

    open spec fn view(&self) -> StoredView {
        StoredView {
            role: self.role@,
            content: self.content@,
            tool_calls: opt_calls(self.tool_calls),
            tool_call_id: opt_view(self.tool_call_id),
            reasoning: opt_view(self.reasoning),
        }
    }
}

/// What is kept of a message.
pub open spec fn stored(m: MessageView) -> StoredView {
    StoredView {
        role: role_text(m.role),
        content: m.content,
        tool_calls: if m.tool_calls.len() == 0 {
            None
        } else {
            Some(m.tool_calls)
        },
        tool_call_id: m.tool_call_id,
        reasoning: m.reasoning,
    }
}

/// The message of a row.
pub open spec fn restored(s: StoredView) -> MessageView {
    MessageView {
        role: role_named(s.role),
        content: s.content,
        tool_calls: match s.tool_calls {
            Some(c) => c,
            None => Seq::empty(),
        },
        tool_call_id: s.tool_call_id,
        reasoning: s.reasoning,
    }
}

impl StoredMessage {
    /// What is kept of a message.
    pub fn from_message(m: &Message) -> (r: Self)
        ensures
            r@ == stored(m@),
    {
        let tool_calls = if m.tool_calls.len() == 0 {
            None
        } else {
            Some(clone_calls(&m.tool_calls))
        };
        StoredMessage {
            role: owned(role_str(m.role)),
            content: m.content.clone(),
            tool_calls,
            tool_call_id: m.tool_call_id.clone(),
            reasoning: m.reasoning.clone(),
        }
    }

    /// The message of the row.
    pub fn into_message(self) -> (r: Message)
        ensures
            r@ == restored(self@),
    {
        let role = if str_eq(self.role.as_str(), "system") {
            Role::System
        } else if str_eq(self.role.as_str(), "assistant") {
            Role::Assistant
        } else if str_eq(self.role.as_str(), "tool") {
            Role::Tool
        } else {
            Role::User
        };
        let tool_calls = match self.tool_calls {
            Some(c) => c,
            None => {
                let none: Vec<ToolCall> = Vec::new();
                assert(call_views(none@) =~= Seq::empty());
                none
            },
        };
        Message {
            role,
            content: self.content,
            tool_calls,
            tool_call_id: self.tool_call_id,
            reasoning: self.reasoning,
        }
    }
}

/// A role is read back from its name.
pub proof fn role_round_trip(role: Role)
    ensures
        role_named(role_text(role)) == role,
{
    reveal_strlit("system");
    reveal_strlit("user");
    reveal_strlit("assistant");
    reveal_strlit("tool");
    assert("user"@[0] != "system"@[0]);
    assert("user"@[0] != "assistant"@[0]);
    assert("user"@[0] != "tool"@[0]);
    assert("assistant"@[0] != "system"@[0]);
    assert("tool"@[0] != "system"@[0]);
    assert("tool"@[0] != "assistant"@[0]);
}

/// A message is read back as it was written.
pub proof fn message_round_trip(m: MessageView)
    ensures
        restored(stored(m)) == m,
{
    role_round_trip(m.role);
    if m.tool_calls.len() == 0 {
        assert(m.tool_calls =~= Seq::empty());
    }
}

// ── Durations ─────────────────────────────────────────────────────────────────

/// A duration as the database holds it.
pub open spec fn kept_ms(ms: u64) -> int {
    if ms <= i64::MAX {
        ms as int
    } else {
        ms - 0x1_0000_0000_0000_0000
    }
}

/// A duration as the database holds it.
pub fn stored_ms(ms: u64) -> (r: i64)
    ensures
        r == kept_ms(ms),
{
    assert(ms <= 0x7fff_ffff_ffff_ffff ==> (ms as i64) == ms) by (bit_vector);
    assert(ms > 0x7fff_ffff_ffff_ffff ==> (ms as i64) == ms - 0x1_0000_0000_0000_0000)
        by (bit_vector);
    #[verifier::truncate]
    let r: i64 = ms as i64;
    r
}

/// A duration that the database holds; one below zero counts as zero.
pub fn loaded_ms(ms: i64) -> (r: u64)
    ensures
        r == (if ms < 0 {
            0
        } else {
            ms as int
        }),
{
    if ms < 0 {
        0
    } else {
        ms as u64
    }
}

/// A duration is read back as it was written, unless it is longer than the database can hold.
pub proof fn duration_round_trip(ms: u64)
    requires
        ms <= i64::MAX,
    ensures
        kept_ms(ms) == ms,
        kept_ms(ms) >= 0,
{
}

// ── Columns ───────────────────────────────────────────────────────────────────

/// A column that was added to a table after the table.
#[derive(Debug)]
pub struct Column {
    pub table: &'static str,
    pub name: &'static str,
    pub ty: &'static str,
}

/// What a [`Column`] holds.
pub struct ColumnView {
    pub table: Seq<char>,
    pub name: Seq<char>,
    pub ty: Seq<char>,
}

impl View for Column {
    type V = ColumnView;

    open spec fn view(&self) -> ColumnView {
        ColumnView { table: self.table@, name: self.name@, ty: self.ty@ }
    }
}

/// A column of text.
pub open spec fn text_column(table: Seq<char>, name: Seq<char>) -> ColumnView {
    ColumnView { table, name, ty: "TEXT"@ }
}

/// The columns that were added, in the order in which they were.
pub open spec fn columns() -> Seq<ColumnView> {
    seq![
        text_column("messages"@, "tool_calls"@),
        text_column("messages"@, "tool_call_id"@),
        text_column("messages"@, "snapshot"@),
        text_column("sessions"@, "agent"@),
        text_column("sessions"@, "model"@),
        text_column("messages"@, "reasoning"@),
        ColumnView { table: "messages"@, name: "reasoning_ms"@, ty: "INTEGER"@ },
    ]
}

/// The columns that were added, in the order in which they were.
pub fn added_columns() -> (r: Vec<Column>)
    ensures
        r@.map_values(|c: Column| c@) == columns(),
{
    let mut v: Vec<Column> = Vec::new();
    v.push(Column { table: "messages", name: "tool_calls", ty: "TEXT" });
    v.push(Column { table: "messages", name: "tool_call_id", ty: "TEXT" });
    v.push(Column { table: "messages", name: "snapshot", ty: "TEXT" });
    v.push(Column { table: "sessions", name: "agent", ty: "TEXT" });
    v.push(Column { table: "sessions", name: "model", ty: "TEXT" });
    v.push(Column { table: "messages", name: "reasoning", ty: "TEXT" });
    v.push(Column { table: "messages", name: "reasoning_ms", ty: "INTEGER" });
    assert(v@.map_values(|c: Column| c@) =~= columns());
    v
}

/// The statement that adds a column.
pub open spec fn add_column(c: ColumnView) -> Seq<char> {
    "ALTER TABLE "@ + c.table + " ADD COLUMN "@ + c.name + " "@ + c.ty
}

/// The statement that makes sure of a column, where the table has the columns `present`: none
/// where it is there.
pub open spec fn column_step(c: ColumnView, present: Seq<Seq<char>>) -> Option<Seq<char>> {
    if present.contains(c.name) {
        None
    } else {
        Some(add_column(c))
    }
}

/// The statement that makes sure of a column, where the table has the columns `present`.
pub fn ensure_column(c: &Column, present: &Vec<String>) -> (r: Option<String>)
    ensures
        opt_view(r) == column_step(c@, views(present@)),
{
    if contains_text(present, c.name) {
        return None;
    }
    let mut s = concat3("ALTER TABLE ", c.table, " ADD COLUMN ");
    s.push_str(c.name);
    s.push_str(" ");
    s.push_str(c.ty);
    Some(s)
}

/// Making sure of a column a second time does nothing.
pub proof fn columns_are_added_once(c: ColumnView, present: Seq<Seq<char>>)
    ensures
        column_step(c, present.push(c.name)) is None,
        column_step(c, present) is None <==> present.contains(c.name),
{
    assert(present.push(c.name)[present.len() as int] == c.name);
}

} // verus!
