//! The command table: each registered verb with its reply code and the
//! mode change it triggers.
use vstd::prelude::*;
use crate::responses::is_catalog_code;
use crate::text::same_text;

verus! {

/// What a matched command does to the session besides replying.
#[derive(Clone, Copy, Debug, PartialEq, Eq, Structural)]
pub enum Action {
    /// Reply only.
    Keep,
    /// Enter body capture.
    StartBody,
    /// Go back to command mode.
    Reset,
    /// End the session.
    Terminate,
}

/// One registered verb.
#[derive(Clone, Copy, Debug)]
pub struct Command {
    pub verb: &'static str,
    pub response: u16,
    pub action: Action,
}

/// A row of the table as values: verb, reply code, action.
pub type Row = (Seq<char>, u16, Action);

impl Command {
    pub open spec fn row(&self) -> Row {
        (self.verb@, self.response, self.action)
    }

    /// A command that only replies.
    pub fn plain(verb: &'static str, response: u16) -> (r: Command)
        ensures
            r.row() == (verb@, response, Action::Keep),
    {
        Command { verb, response, action: Action::Keep }
    }

    /// A command that replies and then applies `action`.
    pub fn with_action(verb: &'static str, response: u16, action: Action) -> (r: Command)
        ensures
            r.row() == (verb@, response, action),
    {
        Command { verb, response, action }
    }
}

/// Whether `rows` holds a row for `verb`.
pub open spec fn has_verb(rows: Seq<Row>, verb: Seq<char>) -> bool {
    exists|i: int| 0 <= i < rows.len() && #[trigger] rows[i].0 == verb
}

/// The row for `verb`, if any.
pub open spec fn find_row(rows: Seq<Row>, verb: Seq<char>) -> Option<Row> {
    if has_verb(rows, verb) {
        Some(rows[choose|i: int| 0 <= i < rows.len() && #[trigger] rows[i].0 == verb])
    } else {
        None
    }
}

/// No two rows share a verb, and each reply code is in the catalog.
pub open spec fn rows_well_formed(rows: Seq<Row>) -> bool {
    &&& forall|i: int, j: int|
        0 <= i < rows.len() && 0 <= j < rows.len() && #[trigger] rows[i].0 == #[trigger] rows[j].0
            ==> i == j
    &&& forall|i: int| 0 <= i < rows.len() ==> is_catalog_code(#[trigger] rows[i].1)
}

/// The rows that a server starts with.
pub open spec fn standard_rows() -> Seq<Row> {
    seq![
        ("EHLO"@, 500u16, Action::Keep),
        ("HELO"@, 250u16, Action::Keep),
        ("MAIL FROM:"@, 250u16, Action::Keep),
        ("RCPT TO:"@, 250u16, Action::Keep),
        ("HELP"@, 502u16, Action::Keep),
        ("NOOP"@, 250u16, Action::Keep),
        ("DATA"@, 354u16, Action::StartBody),
        ("RSET"@, 250u16, Action::Reset),
        ("QUIT"@, 221u16, Action::Terminate),
    ]
}

/// An immutable registry of commands, built once and shared read-only.
pub struct CommandTable {
    entries: Vec<Command>,
}

impl View for CommandTable {
    type V = Seq<Row>;

    closed spec fn view(&self) -> Seq<Row> {
        self.entries@.map_values(|c: Command| c.row())
    }
}

impl CommandTable {
    /// Verbs are unique and every reply code is in the catalog.
    pub open spec fn wf(&self) -> bool {
        rows_well_formed(self@)
    }

    /// The table with the standard verbs.
    pub fn standard() -> (r: CommandTable)
        ensures
            r@ == standard_rows(),
            r.wf(),
    {
        let mut entries: Vec<Command> = Vec::new();
        entries.push(Command::plain("EHLO", 500));
        entries.push(Command::plain("HELO", 250));
        entries.push(Command::plain("MAIL FROM:", 250));
        entries.push(Command::plain("RCPT TO:", 250));
        entries.push(Command::plain("HELP", 502));
        entries.push(Command::plain("NOOP", 250));
        entries.push(Command::with_action("DATA", 354, Action::StartBody));
        entries.push(Command::with_action("RSET", 250, Action::Reset));
        entries.push(Command::with_action("QUIT", 221, Action::Terminate));
        let r = CommandTable { entries };
        assert(r@ =~= standard_rows());
        proof {
            lemma_standard_rows_well_formed();
        }
        r
    }

    /// The number of registered verbs.
    pub fn len(&self) -> (r: usize)
        ensures
            r == self@.len(),
    {
        self.entries.len()
    }

    /// The command whose verb equals `line` exactly, if any.
    pub fn lookup(&self, line: &str) -> (r: Option<Command>)
        requires
            self.wf(),
        ensures
            r is None <==> find_row(self@, line@) is None,
            r is Some ==> find_row(self@, line@) == Some(r->0.row()),
    {
        let mut i: usize = 0;
        while i < self.entries.len()
            invariant
                self.wf(),
                i <= self.entries@.len(),
                forall|j: int| 0 <= j < i ==> (#[trigger] self@[j]).0 != line@,
            decreases self.entries@.len() - i,
        {
            let c = self.entries[i];
            if same_text(c.verb, line) {
                assert(self@[i as int].0 == line@);
                assert(has_verb(self@, line@));
                return Some(c);
            }
            i = i + 1;
        }
        assert(!has_verb(self@, line@));
        None
    }
}

/// The standard rows have distinct verbs and catalog reply codes.
pub proof fn lemma_standard_rows_well_formed()
    ensures
        rows_well_formed(standard_rows()),
{
    reveal_strlit("EHLO");
    reveal_strlit("HELO");
    reveal_strlit("MAIL FROM:");
    reveal_strlit("RCPT TO:");
    reveal_strlit("HELP");
    reveal_strlit("NOOP");
    reveal_strlit("DATA");
    reveal_strlit("RSET");
    reveal_strlit("QUIT");
    let rows = standard_rows();
    assert forall|i: int, j: int|
        0 <= i < rows.len() && 0 <= j < rows.len() && #[trigger] rows[i].0 == #[trigger] rows[j].0
        implies i == j by {
        assert(rows[i].0.len() == rows[j].0.len());
        assert(rows[i].0[0] == rows[j].0[0]);
        assert(rows[i].0[3] == rows[j].0[3]);
    }
}

} // verus!
