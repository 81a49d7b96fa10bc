//! The prompt shown at launch when the daemon does not answer.

use vstd::prelude::*;
use crate::editor::text_of;
use crate::key::{KeyCode, KeyEvent};
use crate::nav::{next_index, prev_index, wrap_next, wrap_prev};
use crate::style::{Color, Line, LineView, Span, Style, line_views, push_line, rawsp, sp};
use crate::text::concat3;
use crate::theme::MUTED_COLOR_INDEX;

verus! {

pub const DIALOG_HEIGHT: u16 = 14;

#[derive(Debug, Clone, Copy, PartialEq, Eq, Structural)]
pub enum DaemonChoice {
    StartAndConnect,
    ContinueWithout,
    Exit,
}

#[derive(Debug, Clone, Copy, PartialEq, Eq, Structural)]
pub enum DaemonStatus {
    Running,
    Stale,
    NotRunning,
}

/// Where the daemon keeps its files.
#[derive(Debug)]
pub struct DaemonPaths {
    pub pid_file: String,
    pub socket: String,
}

pub struct DaemonPromptDialog {
    status: DaemonStatus,
    paths: DaemonPaths,
    cursor: usize,
    chosen: Option<DaemonChoice>,
    error: Option<String>,
}

#[verifier::ext_equal]
pub struct PromptView {
    pub status: DaemonStatus,
    pub pid_file: Seq<char>,
    pub socket: Seq<char>,
    pub cursor: int,
    pub chosen: Option<DaemonChoice>,
    pub error: Option<Seq<char>>,
}

impl View for DaemonPromptDialog {
    type V = PromptView;

    closed spec fn view(&self) -> PromptView {
        PromptView {
            status: self.status,
            pid_file: self.paths.pid_file@,
            socket: self.paths.socket@,
            cursor: self.cursor as int,
            chosen: self.chosen,
            error: text_of(self.error),
        }
    }
}

/// The choice of a row.
pub open spec fn choice_at(row: int) -> DaemonChoice {
    if row == 0 {
        DaemonChoice::StartAndConnect
    } else if row == 1 {
        DaemonChoice::ContinueWithout
    } else {
        DaemonChoice::Exit
    }
}

impl PromptView {
    /// The prompt after a key.
    pub open spec fn after_key(self, key: KeyEvent) -> PromptView {
        if key.code is Esc {
            PromptView { chosen: Some(DaemonChoice::Exit), ..self }
        } else if key.code is Up || key.code == KeyCode::Char('k') {
            PromptView { cursor: prev_index(self.cursor, 3), ..self }
        } else if key.code is Down || key.code == KeyCode::Char('j') {
            PromptView { cursor: next_index(self.cursor, 3), ..self }
        } else if key.code is Enter {
            PromptView { chosen: Some(choice_at(self.cursor)), ..self }
        } else {
            self
        }
    }

    /// Whether a key closes the prompt.
    pub open spec fn closes(key: KeyEvent) -> bool {
        key.code is Esc || key.code is Enter
    }

    pub open spec fn row(self, i: int, label: Seq<char>) -> LineView {
        seq![
            rawsp(
                if i == self.cursor {
                    "▸ "@
                } else {
                    "  "@
                },
            ),
            sp(
                label,
                if i == self.cursor {
                    Style::fg(Color::Yellow).bold()
                } else {
                    Style::fg(Color::White)
                },
            ),
        ]
    }

    pub open spec fn headline(self) -> Seq<char> {
        match self.status {
            DaemonStatus::NotRunning => "The cockpit daemon is not running."@,
            DaemonStatus::Stale =>
                "A stale daemon pid file was found, but the socket isn't responding."@,
            DaemonStatus::Running => "Daemon is running."@,
        }
    }

    /// The body of the prompt.
    pub open spec fn lines(self) -> Seq<LineView> {
        let muted = Style::fg(Color::Indexed(MUTED_COLOR_INDEX));
        let body = seq![
            seq![sp(self.headline(), Style::plain().bold())],
            LineView::empty(),
            seq![
                sp(
                    "The daemon is required for v2 features (multi-session ownership,"@,
                    muted,
                ),
            ],
            seq![
                sp(
                    "remote relay). v1 cockpit still runs standalone if you skip it."@,
                    muted,
                ),
            ],
            LineView::empty(),
            self.row(0, "Start the daemon and connect (Recommended)"@),
            self.row(1, "Continue without daemon"@),
            self.row(2, "Exit"@),
            LineView::empty(),
            seq![
                sp("  pid file: "@ + self.pid_file + "    socket: "@ + self.socket, muted),
            ],
            seq![sp("  stop later with: `cockpit daemon stop`"@, muted)],
        ];
        match self.error {
            Some(e) => body.push(LineView::empty()).push(seq![sp(e, Style::fg(Color::Red))]),
            None => body,
        }
    }
}

/// Moving through the rows never makes a choice and never closes the prompt;
/// the cursor stays on one of the three rows.
pub proof fn navigation_chooses_nothing(v: PromptView, key: KeyEvent)
    requires
        0 <= v.cursor < 3,
        !PromptView::closes(key),
    ensures
        v.after_key(key).chosen == v.chosen,
        0 <= v.after_key(key).cursor < 3,
{
}

impl DaemonPromptDialog {
    pub fn new(status: DaemonStatus, paths: DaemonPaths) -> (r: DaemonPromptDialog)
        ensures
            r@ == (PromptView {
                status,
                pid_file: paths.pid_file@,
                socket: paths.socket@,
                cursor: 0,
                chosen: None,
                error: None,
            }),
    {
        DaemonPromptDialog { status, paths, cursor: 0, chosen: None, error: None }
    }

    /// The focused row.
    pub fn cursor(&self) -> (r: usize)
        ensures
            r == self@.cursor,
    {
        self.cursor
    }

    /// Take the choice after [`DaemonPromptDialog::handle_key`] returned `true`.
    pub fn take_choice(&mut self) -> (r: Option<DaemonChoice>)
        ensures
            r == old(self)@.chosen,
            final(self)@ == (PromptView { chosen: None, ..old(self)@ }),
    {
        let r: Option<DaemonChoice> = self.chosen;
        self.chosen = None;
        r
    }

    /// Show why the daemon could not be started.
    pub fn set_error(&mut self, msg: String)
        ensures
            final(self)@ == (PromptView { error: Some(msg@), ..old(self)@ }),
    {
        self.error = Some(msg);
    }

    /// A key. Returns `true` when the prompt closes.
    pub fn handle_key(&mut self, key: KeyEvent) -> (r: bool)
        ensures
            final(self)@ == old(self)@.after_key(key),
            r == PromptView::closes(key),
    {
        match key.code {
            KeyCode::Esc => {
                self.chosen = Some(DaemonChoice::Exit);
                true
            },
            KeyCode::Up | KeyCode::Char('k') => {
                self.cursor = wrap_prev(self.cursor, 3);
                false
            },
            KeyCode::Down | KeyCode::Char('j') => {
                self.cursor = wrap_next(self.cursor, 3);
                false
            },
            KeyCode::Enter => {
                self.chosen = Some(
                    if self.cursor == 0 {
                        DaemonChoice::StartAndConnect
                    } else if self.cursor == 1 {
                        DaemonChoice::ContinueWithout
                    } else {
                        DaemonChoice::Exit
                    },
                );
                true
            },
            _ => false,
        }
    }

    fn option_line(&self, i: usize, label: &str) -> (r: Line)
        ensures
            r@ == self@.row(i as int, label@),
    {
        let focused: bool = i == self.cursor;
        let marker: &str = if focused {
            "▸ "
        } else {
            "  "
        };
        let style: Style = if focused {
            Style::fg(Color::Yellow).bold()
        } else {
            Style::fg(Color::White)
        };
        Line::of2(Span::raw(String::from_str(marker)), Span::new(label, style))
    }

    /// The body of the prompt.
    pub fn render(&self) -> (r: Vec<Line>)
        ensures
            line_views(r@) == self@.lines(),
    {
        let muted: Style = Style::fg(Color::Indexed(MUTED_COLOR_INDEX));
        let mut lines: Vec<Line> = Vec::new();
        let headline: &str = match self.status {
            DaemonStatus::NotRunning => "The cockpit daemon is not running.",
            DaemonStatus::Stale =>
                "A stale daemon pid file was found, but the socket isn't responding.",
            DaemonStatus::Running => "Daemon is running.",
        };
        push_line(&mut lines, Line::of(Span::new(headline, Style::plain().bold())));
        push_line(&mut lines, Line::blank());
        push_line(
            &mut lines,
            Line::of(
                Span::new(
                    "The daemon is required for v2 features (multi-session ownership,",
                    muted,
                ),
            ),
        );
        push_line(
            &mut lines,
            Line::of(
                Span::new(
                    "remote relay). v1 cockpit still runs standalone if you skip it.",
                    muted,
                ),
            ),
        );
        push_line(&mut lines, Line::blank());
        push_line(&mut lines, self.option_line(0, "Start the daemon and connect (Recommended)"));
        push_line(&mut lines, self.option_line(1, "Continue without daemon"));
        push_line(&mut lines, self.option_line(2, "Exit"));
        push_line(&mut lines, Line::blank());
        let mut files: String = concat3(
            "  pid file: ",
            self.paths.pid_file.as_str(),
            "    socket: ",
        );
        files.append(self.paths.socket.as_str());
        push_line(&mut lines, Line::of(Span::styled(files, muted)));
        push_line(
            &mut lines,
            Line::of(Span::new("  stop later with: `cockpit daemon stop`", muted)),
        );
        match &self.error {
            Some(e) => {
                push_line(&mut lines, Line::blank());
                push_line(&mut lines, Line::of(Span::styled(e.clone(), Style::fg(Color::Red))));
            },
            None => {},
        }
        proof {
            assert(line_views(lines@) =~= self@.lines());
        }
        lines
    }
}

} // verus!
