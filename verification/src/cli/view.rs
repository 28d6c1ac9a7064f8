//! What the console shows: lines of text, each piece in its own style.

use vstd::prelude::*;

use super::commands;
use super::commands::{command, DurationField, COMMAND_COUNT};
use super::{App, AppModel, IdleInhibitState, ManualModeState};
use crate::text;

verus! {

pub const HEADER_HEIGHT: u16 = 5;

pub const LOG_HEIGHT: u16 = 9;

/// How many messages of the log are shown.
pub const LOG_VISIBLE_LINES: usize = 7;

/// How a piece of text looks.
#[derive(Debug, Clone, Copy, PartialEq, Eq, Structural)]
pub enum Tone {
    Plain,
    Bold,
    Gray,
    DarkGray,
    Yellow,
    LightYellow,
    Green,
    Red,
    Cyan,
    LightCyan,
    LightRed,
}

/// A piece of text.
#[derive(Debug)]
pub struct Piece {
    pub text: String,
    pub tone: Tone,
}

/// A line, as a value.
pub type LineModel = Seq<(Seq<char>, Tone)>;

/// The pieces of a line.
pub open spec fn line_model(line: Vec<Piece>) -> LineModel {
    Seq::new(line@.len(), |i: int| (line@[i].text@, line@[i].tone))
}

/// Lines of pieces.
pub open spec fn lines_model(lines: Seq<Vec<Piece>>) -> Seq<LineModel> {
    Seq::new(lines.len(), |i: int| line_model(lines[i]))
}

/// A line of plain text.
pub open spec fn plain_line(text: Seq<char>) -> LineModel {
    seq![(text, Tone::Plain)]
}

fn piece(text: &str, tone: Tone) -> (piece: Piece)
    ensures
        piece.text@ == text@,
        piece.tone == tone,
{
    Piece { text: String::from_str(text), tone }
}

fn plain(text: &str) -> (line: Vec<Piece>)
    ensures
        line_model(line) == plain_line(text@),
{
    let line = vec![piece(text, Tone::Plain)];
    assert(line_model(line) =~= plain_line(text@));
    line
}

fn push_line(lines: &mut Vec<Vec<Piece>>, line: Vec<Piece>)
    ensures
        lines_model(final(lines)@) == lines_model(old(lines)@).push(line_model(line)),
{
    lines.push(line);
    assert(lines_model(lines@) =~= lines_model(old(lines)@).push(line_model(line)));
}

fn push_plain(lines: &mut Vec<Vec<Piece>>, text: &str)
    ensures
        lines_model(final(lines)@) == lines_model(old(lines)@).push(plain_line(text@)),
{
    push_line(lines, plain(text));
}

fn push_pair(lines: &mut Vec<Vec<Piece>>, first: Piece, second: Piece)
    ensures
        lines_model(final(lines)@) == lines_model(old(lines)@).push(
            seq![(first.text@, first.tone), (second.text@, second.tone)],
        ),
{
    let line = vec![first, second];
    assert(line_model(line) =~= seq![(first.text@, first.tone), (second.text@, second.tone)]);
    push_line(lines, line);
}

impl ManualModeState {
    pub open spec fn shown(self) -> (Seq<char>, Tone) {
        match self {
            ManualModeState::Unknown => ("unknown"@, Tone::Yellow),
            ManualModeState::PendingEnable => ("requesting control"@, Tone::LightYellow),
            ManualModeState::PendingDisable => ("releasing control"@, Tone::LightYellow),
            ManualModeState::Enabled => ("enabled"@, Tone::Green),
            ManualModeState::Disabled => ("disabled"@, Tone::Red),
        }
    }

    /// The state as it is shown.
    pub fn label_and_style(self) -> (shown: (&'static str, Tone))
        ensures
            (shown.0@, shown.1) == self.shown(),
    {
        match self {
            ManualModeState::Unknown => ("unknown", Tone::Yellow),
            ManualModeState::PendingEnable => ("requesting control", Tone::LightYellow),
            ManualModeState::PendingDisable => ("releasing control", Tone::LightYellow),
            ManualModeState::Enabled => ("enabled", Tone::Green),
            ManualModeState::Disabled => ("disabled", Tone::Red),
        }
    }
}

impl IdleInhibitState {
    pub open spec fn shown(self) -> (Seq<char>, Tone) {
        match self {
            IdleInhibitState::Unknown => ("unknown"@, Tone::Yellow),
            IdleInhibitState::PendingEnable => ("enabling"@, Tone::LightYellow),
            IdleInhibitState::PendingDisable => ("disabling"@, Tone::LightYellow),
            IdleInhibitState::Enabled => ("enabled"@, Tone::Green),
            IdleInhibitState::Disabled => ("disabled"@, Tone::Red),
        }
    }

    /// The state as it is shown.
    pub fn label_and_style(self) -> (shown: (&'static str, Tone))
        ensures
            (shown.0@, shown.1) == self.shown(),
    {
        match self {
            IdleInhibitState::Unknown => ("unknown", Tone::Yellow),
            IdleInhibitState::PendingEnable => ("enabling", Tone::LightYellow),
            IdleInhibitState::PendingDisable => ("disabling", Tone::LightYellow),
            IdleInhibitState::Enabled => ("enabled", Tone::Green),
            IdleInhibitState::Disabled => ("disabled", Tone::Red),
        }
    }
}

/// The line of a command in the list.
pub open spec fn command_line(app: AppModel, index: int) -> (Seq<char>, Tone) {
    let descriptor = commands::command_at(index);
    let text = descriptor.label + (if descriptor.supported {
        Seq::empty()
    } else {
        " (unsupported)"@
    }) + (if descriptor.takes_color() {
        " · color"@
    } else {
        Seq::empty()
    });
    let tone = if !descriptor.supported {
        Tone::DarkGray
    } else if index == app.selected {
        Tone::Cyan
    } else {
        Tone::Plain
    };
    (text, tone)
}

/// The lines about a colour.
pub open spec fn color_lines(app: AppModel) -> Seq<LineModel> {
    let complete = app.color.buffer.len() == 6;
    seq![
        seq![
            ("Color: "@, Tone::Gray),
            (
                app.color.color_text(),
                if complete {
                    Tone::LightCyan
                } else {
                    Tone::LightRed
                },
            ),
        ],
        plain_line(
            if app.color.editing {
                "Editing color — type hex digits, Backspace to delete, Enter to confirm."@
            } else if complete {
                "Press 'e' to edit the #RRGGBB value."@
            } else {
                "Enter a full #RRGGBB value by pressing 'e'."@
            },
        ),
    ]
}

/// The lines about a duration.
pub open spec fn duration_lines(app: AppModel, field: DurationField) -> Seq<LineModel> {
    let (name, input) = match field {
        DurationField::IdleInhibit => ("Idle inhibit timeout"@, app.idle_timeout),
        DurationField::FadeOut => ("Fade out duration"@, app.fade_out),
    };
    seq![
        seq![
            (name + ": "@, Tone::Gray),
            (
                input.duration_text(),
                if input.duration() is Some {
                    Tone::LightCyan
                } else {
                    Tone::Gray
                },
            ),
        ],
        plain_line(
            if input.editing {
                "Editing duration — type digits, Backspace to delete, Enter to confirm."@
            } else {
                "Press 't' to edit duration · Leave blank to send no override."@
            },
        ),
    ]
}

/// The lines about the selected command.
pub open spec fn detail_lines(app: AppModel) -> Seq<LineModel> {
    let descriptor = commands::command_at(app.selected as int);
    seq![plain_line(descriptor.description)] + (if descriptor.supported {
        Seq::empty()
    } else {
        seq![
            plain_line(
                "This command requires uploading a full LED frame and is not yet supported."@,
            ),
        ]
    }) + (if descriptor.takes_color() {
        color_lines(app)
    } else {
        Seq::empty()
    }) + (match descriptor.duration {
        Some(field) => duration_lines(app, field),
        None => Seq::empty(),
    }) + seq![
        plain_line(
            if descriptor.supported {
                "Press Enter to send the highlighted message."@
            } else {
                "Selection is informational only."@
            },
        ),
        plain_line(
            "Arrow keys move selection · 'm' toggles manual mode · 'i' toggles idle inhibit · 't' edits duration when available."@,
        ),
    ]
}

/// The messages of the log that are shown: the newest ones, the oldest of them first.
pub open spec fn shown_logs(logs: Seq<Seq<char>>) -> Seq<Seq<char>> {
    if logs.len() == 0 {
        seq!["Activity will appear here."@]
    } else if logs.len() <= LOG_VISIBLE_LINES {
        logs
    } else {
        logs.skip(logs.len() - LOG_VISIBLE_LINES)
    }
}

/// The lines of the header.
pub open spec fn header_lines(app: AppModel) -> Seq<LineModel> {
    seq![
        seq![("Manual mode: "@, Tone::Bold), app.manual_state.shown()],
        seq![
            ("Idle inhibit: "@, Tone::Bold),
            app.idle_inhibit_state.shown(),
            (" · timeout: "@, Tone::Plain),
            (app.idle_timeout.duration_text(), Tone::Gray),
        ],
        plain_line("Pending requests: "@ + text::decimal(app.pending.dom().len())),
        plain_line(
            "Press Enter to send · 'm' toggles manual mode · 'i' toggles idle inhibit · Esc/q exits"@,
        ),
    ]
}

impl App {
    /// The header.
    pub fn render_header(&self) -> (lines: Vec<Vec<Piece>>)
        requires
            self.wf(),
        ensures
            lines_model(lines@) == header_lines(self@),
    {
        let mut lines: Vec<Vec<Piece>> = Vec::new();
        assert(lines_model(lines@) =~= Seq::empty());
        let (status_label, status_tone) = self.manual_state().label_and_style();
        push_pair(
            &mut lines,
            piece("Manual mode: ", Tone::Bold),
            piece(status_label, status_tone),
        );
        let (idle_label, idle_tone) = self.idle_inhibit_state().label_and_style();
        let idle_timeout = self.duration_text(DurationField::IdleInhibit);
        let idle = vec![
            piece("Idle inhibit: ", Tone::Bold),
            piece(idle_label, idle_tone),
            piece(" · timeout: ", Tone::Plain),
            Piece { text: idle_timeout, tone: Tone::Gray },
        ];
        assert(line_model(idle) =~= header_lines(self@)[1]);
        push_line(&mut lines, idle);
        let mut pending = String::from_str("Pending requests: ");
        text::push_decimal(&mut pending, self.pending_count() as u64);
        push_plain(&mut lines, pending.as_str());
        push_plain(
            &mut lines,
            "Press Enter to send · 'm' toggles manual mode · 'i' toggles idle inhibit · Esc/q exits",
        );
        assert(lines_model(lines@) =~= header_lines(self@));
        lines
    }

    /// The list of commands.
    pub fn render_command_list(&self) -> (lines: Vec<Piece>)
        requires
            self.wf(),
        ensures
            line_model(lines) == Seq::new(
                COMMAND_COUNT as nat,
                |i: int| command_line(self@, i),
            ),
    {
        let mut lines: Vec<Piece> = Vec::new();
        let mut index: usize = 0;
        while index < COMMAND_COUNT
            invariant
                index <= COMMAND_COUNT,
                self.wf(),
                line_model(lines) == Seq::new(index as nat, |i: int| command_line(self@, i)),
            decreases COMMAND_COUNT - index,
        {
            let descriptor = command(index);
            let mut content = String::from_str(descriptor.label);
            let ghost label = content@;
            if !descriptor.supported {
                content.append(" (unsupported)");
            } else {
                assert(content@ =~= label + Seq::<char>::empty());
            }
            let ghost marked = content@;
            if descriptor.needs_color() {
                content.append(" · color");
            } else {
                assert(content@ =~= marked + Seq::<char>::empty());
            }
            let tone = if !descriptor.supported {
                Tone::DarkGray
            } else if index == self.selected() {
                Tone::Cyan
            } else {
                Tone::Plain
            };
            let ghost before = lines;
            lines.push(Piece { text: content, tone });
            index += 1;
            assert(line_model(lines) =~= line_model(before).push(
                command_line(self@, index - 1),
            ));
            assert(line_model(lines) =~= Seq::new(index as nat, |i: int| command_line(self@, i)));
        }
        lines
    }

    fn push_color_lines(&self, lines: &mut Vec<Vec<Piece>>)
        requires
            self.wf(),
        ensures
            lines_model(final(lines)@) == lines_model(old(lines)@) + color_lines(self@),
    {
        let complete = self.color_is_complete();
        let tone = if complete {
            Tone::LightCyan
        } else {
            Tone::LightRed
        };
        push_pair(
            lines,
            piece("Color: ", Tone::Gray),
            Piece { text: self.color_text(), tone },
        );
        if self.is_editing_color() {
            push_plain(
                lines,
                "Editing color — type hex digits, Backspace to delete, Enter to confirm.",
            );
        } else if complete {
            push_plain(lines, "Press 'e' to edit the #RRGGBB value.");
        } else {
            push_plain(lines, "Enter a full #RRGGBB value by pressing 'e'.");
        }
        assert(lines_model(lines@) =~= lines_model(old(lines)@) + color_lines(self@));
    }

    fn push_duration_lines(&self, lines: &mut Vec<Vec<Piece>>, field: DurationField)
        requires
            self.wf(),
        ensures
            lines_model(final(lines)@) == lines_model(old(lines)@) + duration_lines(self@, field),
    {
        let tone = if self.duration(field).is_some() {
            Tone::LightCyan
        } else {
            Tone::Gray
        };
        let name = text::joined(self.duration_label(field), ": ");
        push_pair(
            lines,
            Piece { text: name, tone: Tone::Gray },
            Piece { text: self.duration_text(field), tone },
        );
        if self.is_editing_duration(field) {
            push_plain(
                lines,
                "Editing duration — type digits, Backspace to delete, Enter to confirm.",
            );
        } else {
            push_plain(lines, "Press 't' to edit duration · Leave blank to send no override.");
        }
        assert(lines_model(lines@) =~= lines_model(old(lines)@) + duration_lines(self@, field));
    }

    /// What there is to say about the selected command.
    pub fn render_command_detail(&self) -> (lines: Vec<Vec<Piece>>)
        requires
            self.wf(),
        ensures
            lines_model(lines@) == detail_lines(self@),
    {
        let descriptor = self.selected_descriptor();
        let mut lines: Vec<Vec<Piece>> = Vec::new();
        assert(lines_model(lines@) =~= Seq::empty());
        push_plain(&mut lines, descriptor.description);
        let ghost described = lines_model(lines@);
        assert(described =~= seq![plain_line(descriptor.description@)]);
        if !descriptor.supported {
            push_plain(
                &mut lines,
                "This command requires uploading a full LED frame and is not yet supported.",
            );
        }
        let ghost explained = lines_model(lines@);
        assert(explained =~= described + (if descriptor.supported {
            Seq::empty()
        } else {
            seq![
                plain_line(
                    "This command requires uploading a full LED frame and is not yet supported."@,
                ),
            ]
        }));
        if descriptor.needs_color() {
            self.push_color_lines(&mut lines);
        } else {
            assert(lines_model(lines@) =~= explained + Seq::<LineModel>::empty());
        }
        let ghost colored = lines_model(lines@);
        if let Some(field) = descriptor.duration_field() {
            self.push_duration_lines(&mut lines, field);
        } else {
            assert(lines_model(lines@) =~= colored + Seq::<LineModel>::empty());
        }
        if descriptor.supported {
            push_plain(&mut lines, "Press Enter to send the highlighted message.");
        } else {
            push_plain(&mut lines, "Selection is informational only.");
        }
        push_plain(
            &mut lines,
            "Arrow keys move selection · 'm' toggles manual mode · 'i' toggles idle inhibit · 't' edits duration when available.",
        );
        assert(lines_model(lines@) =~= detail_lines(self@));
        lines
    }

    /// The newest messages.
    pub fn render_logs(&self) -> (lines: Vec<Vec<Piece>>)
        requires
            self.wf(),
        ensures
            lines_model(lines@) == Seq::new(
                shown_logs(self@.logs).len(),
                |i: int| plain_line(shown_logs(self@.logs)[i]),
            ),
    {
        let mut lines: Vec<Vec<Piece>> = Vec::new();
        let ghost shown = shown_logs(self@.logs);
        let count: usize = self.log_count();
        if count == 0 {
            push_plain(&mut lines, "Activity will appear here.");
            assert(lines_model(lines@) =~= Seq::new(shown.len(), |i: int| plain_line(shown[i])));
            return lines;
        }
        let first: usize = if count <= LOG_VISIBLE_LINES {
            0
        } else {
            count - LOG_VISIBLE_LINES
        };
        let mut i: usize = first;
        assert(lines_model(lines@) =~= Seq::new(0, |j: int| plain_line(shown[j])));
        while i < count
            invariant
                self.wf(),
                first <= i <= count == self@.logs.len(),
                shown == shown_logs(self@.logs),
                shown.len() == count - first,
                forall|j: int| 0 <= j < shown.len() ==> shown[j] == self@.logs[first + j],
                lines_model(lines@) == Seq::new(
                    (i - first) as nat,
                    |j: int| plain_line(shown[j]),
                ),
            decreases count - i,
        {
            push_plain(&mut lines, self.log(i));
            i += 1;
            assert(lines_model(lines@) =~= Seq::new(
                (i - first) as nat,
                |j: int| plain_line(shown[j]),
            ));
        }
        lines
    }
}

/// What is pending is never shown like what is settled, and what is on never like what is
/// off.
pub proof fn states_are_shown_apart(a: ManualModeState, b: ManualModeState)
    ensures
        ManualModeState::Enabled.shown().1 == Tone::Green,
        ManualModeState::Disabled.shown().1 == Tone::Red,
        ManualModeState::PendingEnable.shown().1 == Tone::LightYellow,
        ManualModeState::PendingDisable.shown().1 == Tone::LightYellow,
        IdleInhibitState::Enabled.shown().1 == Tone::Green,
        IdleInhibitState::Disabled.shown().1 == Tone::Red,
        IdleInhibitState::PendingEnable.shown().1 == Tone::LightYellow,
        IdleInhibitState::PendingDisable.shown().1 == Tone::LightYellow,
        a.shown() == b.shown() ==> a == b,
{
    reveal_strlit("unknown");
    reveal_strlit("requesting control");
    reveal_strlit("releasing control");
    reveal_strlit("enabled");
    reveal_strlit("disabled");
    assert("requesting control"@.len() == 18 && "releasing control"@.len() == 17);
}

/// One command is marked in the list: the one that is selected, unless it is not supported.
pub proof fn selected_command_is_marked(app: AppModel, index: int)
    ensures
        command_line(app, index).1 == Tone::Cyan ==> index == app.selected,
        index == app.selected && commands::command_at(index).supported ==> command_line(
            app,
            index,
        ).1 == Tone::Cyan,
        !commands::command_at(index).supported ==> command_line(app, index).1 == Tone::DarkGray,
{
}

/// The log shows its newest messages in order, and never more than fit.
pub proof fn newest_messages_are_shown(logs: Seq<Seq<char>>, i: int)
    requires
        logs.len() > 0,
        0 <= i < shown_logs(logs).len(),
    ensures
        shown_logs(logs).len() <= LOG_VISIBLE_LINES,
        shown_logs(logs).len() == logs.len() || shown_logs(logs).len() == LOG_VISIBLE_LINES,
        shown_logs(logs)[shown_logs(logs).len() - 1 - i] == logs[logs.len() - 1 - i],
{
}

} // verus!
