//! The per-connection state machine. A session consumes the client's lines
//! one at a time and says, for each, what to answer and what to store; the
//! caller performs the I/O.
use vstd::prelude::*;
use crate::commands::{
    Action, CommandTable, Row, find_row, has_verb, lemma_standard_rows_well_formed,
    rows_well_formed, standard_rows,
};
use crate::responses::is_catalog_code;
use crate::text::{same_text, trim, trimmed};

verus! {

/// The phase a session is in.
#[derive(Clone, Copy, Debug, PartialEq, Eq, Structural)]
pub enum Mode {
    /// Lines are looked up in the command table.
    Command,
    /// Lines are message content, until a lone `.`.
    BodyCapture,
    /// The session is over.
    Terminated,
}

/// What the caller must do after handing a line (or the end of input) to a
/// session.
#[derive(Clone, Copy, Debug, PartialEq, Eq, Structural)]
pub enum Effect {
    /// Send the catalog line for this code.
    Reply(u16),
    /// Append the raw line, terminator included, to the sink.
    Store,
    /// Send the catalog line for this code, then close the connection.
    Close(u16),
    /// Do nothing: the session is already over.
    Ignore,
    /// Flush and close the sink; send nothing.
    Finish,
}

/// The mode that a matched command's action leads to.
pub open spec fn mode_after(action: Action) -> Mode {
    match action {
        Action::Keep => Mode::Command,
        Action::StartBody => Mode::BodyCapture,
        Action::Reset => Mode::Command,
        Action::Terminate => Mode::Terminated,
    }
}

/// The next mode and the effect when `line` arrives in `mode`, with the
/// commands `rows`.
pub open spec fn next(rows: Seq<Row>, mode: Mode, line: Seq<char>) -> (Mode, Effect) {
    match mode {
        Mode::Command => match find_row(rows, trimmed(line)) {
            Some(row) => (
                mode_after(row.2),
                if row.2 == Action::Terminate {
                    Effect::Close(row.1)
                } else {
                    Effect::Reply(row.1)
                },
            ),
            None => (Mode::Command, Effect::Reply(500)),
        },
        Mode::BodyCapture => if trimmed(line) == "."@ {
            (Mode::Command, Effect::Reply(250))
        } else {
            (Mode::BodyCapture, Effect::Store)
        },
        Mode::Terminated => (Mode::Terminated, Effect::Ignore),
    }
}

/// The code an effect replies with, if it replies.
pub open spec fn reply_code(e: Effect) -> Option<u16> {
    match e {
        Effect::Reply(c) => Some(c),
        Effect::Close(c) => Some(c),
        _ => None,
    }
}

/// The state of one client connection.
pub struct Session {
    mode: Mode,
}

impl Session {
    /// The mode the session is in.
    pub closed spec fn spec_mode(&self) -> Mode {
        self.mode
    }

    /// A fresh session, in command mode.
    pub fn new() -> (r: Session)
        ensures
            r.spec_mode() == Mode::Command,
    {
        Session { mode: Mode::Command }
    }

    /// The current mode.
    pub fn mode(&self) -> (r: Mode)
        ensures
            r == self.spec_mode(),
    {
        self.mode
    }

    /// Processes one line as read from the client, terminator included.
    pub fn handle_line(&mut self, table: &CommandTable, line: &str) -> (r: Effect)
        requires
            table.wf(),
        ensures
            (final(self).spec_mode(), r) == next(table@, old(self).spec_mode(), line@),
            reply_code(r) matches Some(c) ==> is_catalog_code(c),
    {
        let key = trim(line);
        let r = match self.mode {
            Mode::Command => match table.lookup(key) {
                Some(cmd) => {
                    self.mode = match cmd.action {
                        Action::Keep => Mode::Command,
                        Action::StartBody => Mode::BodyCapture,
                        Action::Reset => Mode::Command,
                        Action::Terminate => Mode::Terminated,
                    };
                    match cmd.action {
                        Action::Terminate => Effect::Close(cmd.response),
                        _ => Effect::Reply(cmd.response),
                    }
                },
                None => Effect::Reply(500),
            },
            Mode::BodyCapture => {
                if same_text(key, ".") {
                    self.mode = Mode::Command;
                    Effect::Reply(250)
                } else {
                    Effect::Store
                }
            },
            Mode::Terminated => Effect::Ignore,
        };
        proof {
            lemma_reply_codes_in_catalog(table@, old(self).spec_mode(), line@);
        }
        r
    }

    /// Records that the client closed the connection.
    pub fn handle_end_of_stream(&mut self) -> (r: Effect)
        ensures
            final(self).spec_mode() == Mode::Terminated,
            r == Effect::Finish,
    {
        self.mode = Mode::Terminated;
        Effect::Finish
    }
}

/// With a well-formed table, every reply uses a code that the catalog has.
pub proof fn lemma_reply_codes_in_catalog(rows: Seq<Row>, mode: Mode, line: Seq<char>)
    requires
        rows_well_formed(rows),
    ensures
        reply_code(next(rows, mode, line).1) matches Some(c) ==> is_catalog_code(c),
{
    let key = trimmed(line);
    if mode == Mode::Command && find_row(rows, key) is Some {
        let i = choose|i: int| 0 <= i < rows.len() && #[trigger] rows[i].0 == key;
        assert(is_catalog_code(rows[i].1));
    }
}

/// The lines that a session starting in `mode` stores to its sink while
/// it processes `lines` in order.
pub open spec fn stored_lines(rows: Seq<Row>, mode: Mode, lines: Seq<Seq<char>>) -> Seq<Seq<char>>
    decreases lines.len(),
{
    if lines.len() == 0 {
        seq![]
    } else {
        let (m, e) = next(rows, mode, lines[0]);
        let rest = stored_lines(rows, m, lines.drop_first());
        if e == Effect::Store {
            seq![lines[0]] + rest
        } else {
            rest
        }
    }
}

/// The mode of a session starting in `mode` after it processes `lines`.
pub open spec fn mode_after_lines(rows: Seq<Row>, mode: Mode, lines: Seq<Seq<char>>) -> Mode
    decreases lines.len(),
{
    if lines.len() == 0 {
        mode
    } else {
        mode_after_lines(rows, next(rows, mode, lines[0]).0, lines.drop_first())
    }
}

/// In command mode, a line that is a registered verb once trimmed gets the
/// reply of that verb's code (closing the connection for a terminating
/// command) and moves to the mode that the verb's action names.
pub proof fn lemma_registered_verb_reply(rows: Seq<Row>, i: int, line: Seq<char>)
    requires
        rows_well_formed(rows),
        0 <= i < rows.len(),
        trimmed(line) == rows[i].0,
    ensures
        next(rows, Mode::Command, line) == (
            mode_after(rows[i].2),
            if rows[i].2 == Action::Terminate {
                Effect::Close(rows[i].1)
            } else {
                Effect::Reply(rows[i].1)
            },
        ),
        is_catalog_code(rows[i].1),
{
    let key = trimmed(line);
    assert(has_verb(rows, key));
    let j = choose|j: int| 0 <= j < rows.len() && #[trigger] rows[j].0 == key;
    assert(rows[i].0 == rows[j].0);
}

/// In command mode, a line that is no registered verb once trimmed gets the
/// 500 reply and leaves the session in command mode.
pub proof fn lemma_unregistered_line(rows: Seq<Row>, line: Seq<char>)
    requires
        !has_verb(rows, trimmed(line)),
    ensures
        next(rows, Mode::Command, line) == (Mode::Command, Effect::Reply(500)),
{
}

/// With the standard table, `DATA` answers 354 and starts body capture, and
/// a lone `.` in body capture answers 250 and goes back to command mode.
pub proof fn lemma_data_then_dot(data_line: Seq<char>, dot_line: Seq<char>)
    requires
        trimmed(data_line) == "DATA"@,
        trimmed(dot_line) == "."@,
    ensures
        next(standard_rows(), Mode::Command, data_line) == (Mode::BodyCapture, Effect::Reply(354)),
        next(standard_rows(), Mode::BodyCapture, dot_line) == (Mode::Command, Effect::Reply(250)),
{
    lemma_standard_rows_well_formed();
    lemma_registered_verb_reply(standard_rows(), 6, data_line);
}

/// With the standard table, `QUIT` answers 221 and ends the session, and an
/// ended session does nothing with any further line.
pub proof fn lemma_quit_ends_session(quit_line: Seq<char>, later: Seq<char>)
    requires
        trimmed(quit_line) == "QUIT"@,
    ensures
        next(standard_rows(), Mode::Command, quit_line) == (Mode::Terminated, Effect::Close(221)),
        next(standard_rows(), Mode::Terminated, later) == (Mode::Terminated, Effect::Ignore),
{
    lemma_standard_rows_well_formed();
    lemma_registered_verb_reply(standard_rows(), 8, quit_line);
}

/// In body capture every line but a lone `.` is stored and keeps the session
/// in body capture, command verbs such as `RSET` and `QUIT` included.
pub proof fn lemma_body_line_stored(rows: Seq<Row>, line: Seq<char>)
    requires
        trimmed(line) != "."@,
    ensures
        next(rows, Mode::BodyCapture, line) == (Mode::BodyCapture, Effect::Store),
{
}

proof fn lemma_body_until_dot(rows: Seq<Row>, body: Seq<Seq<char>>, dot_line: Seq<char>)
    requires
        forall|k: int| 0 <= k < body.len() ==> trimmed(#[trigger] body[k]) != "."@,
        trimmed(dot_line) == "."@,
    ensures
        stored_lines(rows, Mode::BodyCapture, body.push(dot_line)) == body,
        mode_after_lines(rows, Mode::BodyCapture, body.push(dot_line)) == Mode::Command,
    decreases body.len(),
{
    let lines = body.push(dot_line);
    if body.len() == 0 {
        assert(lines[0] == dot_line);
        assert(lines.drop_first() =~= seq![]);
        assert(stored_lines(rows, Mode::Command, lines.drop_first()) == Seq::<Seq<char>>::empty());
        assert(mode_after_lines(rows, Mode::Command, lines.drop_first()) == Mode::Command);
        assert(body =~= Seq::<Seq<char>>::empty());
    } else {
        assert(lines[0] == body[0]);
        let rest = body.drop_first();
        assert(lines.drop_first() =~= rest.push(dot_line));
        assert forall|k: int| 0 <= k < rest.len() implies trimmed(#[trigger] rest[k]) != "."@ by {
            assert(rest[k] == body[k + 1]);
        }
        lemma_body_until_dot(rows, rest, dot_line);
        assert(next(rows, Mode::BodyCapture, lines[0]) == (Mode::BodyCapture, Effect::Store));
        assert(stored_lines(rows, Mode::BodyCapture, lines.drop_first()) == rest);
        assert(seq![body[0]] + rest =~= body);
    }
}

/// With the standard table, the lines sent between `DATA` and a lone `.` are
/// exactly the lines stored, in order and unchanged, and the session is back
/// in command mode afterwards.
pub proof fn lemma_body_round_trip(
    data_line: Seq<char>,
    body: Seq<Seq<char>>,
    dot_line: Seq<char>,
)
    requires
        trimmed(data_line) == "DATA"@,
        forall|k: int| 0 <= k < body.len() ==> trimmed(#[trigger] body[k]) != "."@,
        trimmed(dot_line) == "."@,
    ensures
        stored_lines(standard_rows(), Mode::Command, seq![data_line] + body.push(dot_line))
            == body,
        mode_after_lines(standard_rows(), Mode::Command, seq![data_line] + body.push(dot_line))
            == Mode::Command,
{
    let lines = seq![data_line] + body.push(dot_line);
    lemma_data_then_dot(data_line, dot_line);
    assert(lines[0] == data_line);
    assert(lines.drop_first() =~= body.push(dot_line));
    lemma_body_until_dot(standard_rows(), body, dot_line);
}

} // verus!
