//! The viewer's state: the document, the viewport and the Normal/Insert
//! key state machine.
use vstd::prelude::*;
use crate::highlight::Theme;
use crate::line::{gutter_width, highlight_line, line_spans, num_digits, spans_view, LineRecord};
use crate::viewport::{down_offset, max_offset, scroll_down, scroll_up, up_offset, visible_range};

verus! {

/// The interaction mode.
#[derive(Debug, Clone, Copy, PartialEq, Eq, Structural)]
pub enum Mode {
    Normal,
    Insert,
}

/// The key of a key event, as far as the viewer tells keys apart.
#[derive(Debug, Clone, Copy, PartialEq, Eq, Structural)]
pub enum Key {
    Char(char),
    Up,
    Down,
    Esc,
    Other,
}

/// A key event: its key, whether the accelerate modifier was held, and
/// whether it is a press (release and repeat events are ignored).
#[derive(Debug, Clone, Copy, PartialEq, Eq, Structural)]
pub struct KeyEvent {
    pub code: Key,
    pub accelerate: bool,
    pub press: bool,
}

/// What key events change: the first visible line, the mode, the scroll
/// step and whether the viewer has quit.
#[derive(Debug, Clone, Copy, PartialEq, Eq, Structural)]
pub struct ViewState {
    pub row: usize,
    pub mode: Mode,
    pub move_speed: usize,
    pub exited: bool,
}

/// The scroll step for an event: 5 with the accelerate modifier, else 1.
pub open spec fn speed_of(ev: KeyEvent) -> usize {
    if ev.accelerate {
        5
    } else {
        1
    }
}

/// The state after one key press, for a document of `total` lines shown in
/// a window of `height` lines.
pub open spec fn key_step(s: ViewState, ev: KeyEvent, total: int, height: int) -> ViewState {
    let speed = speed_of(ev);
    let s = ViewState { move_speed: speed, ..s };
    match (s.mode, ev.code) {
        (Mode::Normal, Key::Char('q')) => ViewState { exited: true, ..s },
        (Mode::Normal, Key::Char('i')) => ViewState { mode: Mode::Insert, ..s },
        (Mode::Insert, Key::Esc) => ViewState { mode: Mode::Normal, ..s },
        (_, Key::Down) => ViewState {
            row: down_offset(s.row as int, speed as int, total, height) as usize,
            ..s
        },
        (_, Key::Up) => ViewState { row: up_offset(s.row as int, speed as int) as usize, ..s },
        _ => s,
    }
}

/// The state after one event: presses go through `key_step`, other events
/// change nothing.
pub open spec fn event_step(s: ViewState, ev: KeyEvent, total: int, height: int) -> ViewState {
    if ev.press {
        key_step(s, ev, total, height)
    } else {
        s
    }
}

/// The state after the events in order, stopping at the first quit.
pub open spec fn run_events(s: ViewState, evs: Seq<KeyEvent>, total: int, height: int) -> ViewState
    decreases evs.len(),
{
    if s.exited || evs.len() == 0 {
        s
    } else {
        run_events(event_step(s, evs[0], total, height), evs.drop_first(), total, height)
    }
}

/// How many of the events are consumed before the viewer quits.
pub open spec fn events_used(s: ViewState, evs: Seq<KeyEvent>, total: int, height: int) -> nat
    decreases evs.len(),
{
    if s.exited || evs.len() == 0 {
        0
    } else {
        1 + events_used(event_step(s, evs[0], total, height), evs.drop_first(), total, height)
    }
}

/// From Normal mode, a second press of `i` changes nothing: the viewer is
/// in Insert mode after one press and stays as it is after the next.
pub proof fn lemma_insert_twice(s: ViewState, ev: KeyEvent, total: int, height: int)
    requires
        s.mode == Mode::Normal,
        ev.code == Key::Char('i'),
        ev.press,
    ensures
        event_step(s, ev, total, height).mode == Mode::Insert,
        event_step(event_step(s, ev, total, height), ev, total, height) == event_step(
            s,
            ev,
            total,
            height,
        ),
{
}

/// Escape in Normal mode leaves the mode, the offset and the run state as
/// they are.
pub proof fn lemma_escape_in_normal(s: ViewState, ev: KeyEvent, total: int, height: int)
    requires
        s.mode == Mode::Normal,
        ev.code == Key::Esc,
    ensures
        event_step(s, ev, total, height).mode == Mode::Normal,
        event_step(s, ev, total, height).row == s.row,
        event_step(s, ev, total, height).exited == s.exited,
{
}

/// `q` cannot quit from Insert mode: after `i` then `q` from Normal mode the
/// viewer still runs, while `q` alone from Normal mode quits.
pub proof fn lemma_quit_only_in_normal(
    s: ViewState,
    i_ev: KeyEvent,
    q_ev: KeyEvent,
    total: int,
    height: int,
)
    requires
        s.mode == Mode::Normal,
        !s.exited,
        i_ev.code == Key::Char('i'),
        i_ev.press,
        q_ev.code == Key::Char('q'),
        q_ev.press,
    ensures
        !run_events(s, seq![i_ev, q_ev], total, height).exited,
        run_events(s, seq![q_ev], total, height).exited,
{
    let s1 = event_step(s, i_ev, total, height);
    let s2 = event_step(s1, q_ev, total, height);
    assert(seq![i_ev, q_ev].drop_first() =~= seq![q_ev]);
    assert(seq![q_ev].drop_first() =~= Seq::<KeyEvent>::empty());
    assert(run_events(s2, Seq::<KeyEvent>::empty(), total, height) == s2);
    assert(run_events(s1, seq![q_ev], total, height) == s2);
    let t = event_step(s, q_ev, total, height);
    assert(run_events(t, Seq::<KeyEvent>::empty(), total, height) == t);
}

/// One key press applied to `s`.
pub fn transition(s: ViewState, ev: KeyEvent, total: usize, height: usize) -> (r: ViewState)
    requires
        s.row <= max_offset(total as int, height as int),
    ensures
        r == key_step(s, ev, total as int, height as int),
        r.row <= max_offset(total as int, height as int),
{
    let speed: usize = if ev.accelerate {
        5
    } else {
        1
    };
    let s = ViewState { move_speed: speed, ..s };
    match (s.mode, ev.code) {
        (Mode::Normal, Key::Char('q')) => ViewState { exited: true, ..s },
        (Mode::Normal, Key::Char('i')) => ViewState { mode: Mode::Insert, ..s },
        (Mode::Insert, Key::Esc) => ViewState { mode: Mode::Normal, ..s },
        (_, Key::Down) => ViewState { row: scroll_down(s.row, speed, total, height), ..s },
        (_, Key::Up) => ViewState { row: scroll_up(s.row, speed), ..s },
        _ => s,
    }
}

/// The lines of a text, as `str::lines` splits it.
pub uninterp spec fn lines_of(s: Seq<char>) -> Seq<Seq<char>>;

pub open spec fn strings_view(v: Seq<String>) -> Seq<Seq<char>> {
    v.map_values(|l: String| l@)
}

/// Relies on `str::lines`, which splits a text at each `\n` or `\r\n`, the
/// final line ending being optional.
#[verifier::external_body]
fn split_lines(s: &str) -> (r: Vec<String>)
    ensures
        strings_view(r@) == lines_of(s@),
{
    s.lines().map(String::from).collect()
}

/// The viewer: a document shown in a window of `height` lines, with the
/// state that key events change.
pub struct App {
    pub file: Option<String>,
    pub lines: Vec<String>,
    pub theme: Theme,
    pub height: usize,
    pub state: ViewState,
}

impl App {
    /// The first visible line keeps the window within the document.
    pub open spec fn wf(&self) -> bool {
        self.state.row <= max_offset(self.lines@.len() as int, self.height as int)
    }

    pub open spec fn total(&self) -> int {
        self.lines@.len() as int
    }

    /// The same document, file, theme and window as `other`.
    pub open spec fn same_frame(&self, other: &App) -> bool {
        &&& self.file == other.file
        &&& self.lines@ == other.lines@
        &&& self.theme == other.theme
        &&& self.height == other.height
    }

    /// A viewer over the lines of `contents`, at the first line, in Normal
    /// mode.
    pub fn new(contents: &str, file: Option<String>, theme: Theme, height: usize) -> (r: App)
        ensures
            r.wf(),
            strings_view(r.lines@) == lines_of(contents@),
            r.file == file,
            r.theme == theme,
            r.height == height,
            r.state == (ViewState { row: 0, mode: Mode::Normal, move_speed: 1, exited: false }),
    {
        App {
            file,
            lines: split_lines(contents),
            theme,
            height,
            state: ViewState { row: 0, mode: Mode::Normal, move_speed: 1, exited: false },
        }
    }

    /// Marks the viewer as quit.
    pub fn exit(&mut self)
        ensures
            final(self).same_frame(old(self)),
            final(self).state == (ViewState { exited: true, ..old(self).state }),
    {
        self.state = ViewState { exited: true, ..self.state };
    }

    /// Applies one key press.
    pub fn handle_key_event(&mut self, ev: KeyEvent)
        requires
            old(self).wf(),
        ensures
            final(self).wf(),
            final(self).same_frame(old(self)),
            final(self).state == key_step(old(self).state, ev, old(self).total(), old(self).height as int),
    {
        self.state = transition(self.state, ev, self.lines.len(), self.height);
    }

    /// Applies one event: a press goes to `handle_key_event`, a release or
    /// repeat is ignored.
    pub fn handle_event(&mut self, ev: KeyEvent)
        requires
            old(self).wf(),
        ensures
            final(self).wf(),
            final(self).same_frame(old(self)),
            final(self).state == event_step(old(self).state, ev, old(self).total(), old(self).height as int),
    {
        if ev.press {
            self.handle_key_event(ev);
        }
    }

    /// Runs the events in order until the viewer quits; returns how many
    /// were used.
    pub fn run(&mut self, events: &Vec<KeyEvent>) -> (n: usize)
        requires
            old(self).wf(),
        ensures
            final(self).wf(),
            final(self).same_frame(old(self)),
            final(self).state == run_events(old(self).state, events@, old(self).total(), old(self).height as int),
            n == events_used(old(self).state, events@, old(self).total(), old(self).height as int),
    {
        let ghost s0 = self.state;
        let ghost total = self.total();
        let ghost height = self.height as int;
        let mut i: usize = 0;
        assert(events@.subrange(0, events@.len() as int) =~= events@);
        while i < events.len() && !self.state.exited
            invariant
                self.wf(),
                self.same_frame(old(self)),
                total == self.total(),
                height == self.height as int,
                i <= events@.len(),
                run_events(self.state, events@.subrange(i as int, events@.len() as int), total, height)
                    == run_events(s0, events@, total, height),
                i + events_used(self.state, events@.subrange(i as int, events@.len() as int), total, height)
                    == events_used(s0, events@, total, height),
            decreases events@.len() - i,
        {
            let ghost rest = events@.subrange(i as int, events@.len() as int);
            assert(rest.drop_first() =~= events@.subrange(i + 1, events@.len() as int));
            assert(rest[0] == events@[i as int]);
            self.handle_event(events[i]);
            i = i + 1;
        }
        i
    }

    /// Resizes the window to `height` lines, pulling the offset back into
    /// bounds.
    pub fn set_height(&mut self, height: usize)
        ensures
            final(self).wf(),
            final(self).file == old(self).file,
            final(self).lines@ == old(self).lines@,
            final(self).theme == old(self).theme,
            final(self).height == height,
            final(self).state == (ViewState {
                row: if old(self).state.row <= max_offset(old(self).total(), height as int) {
                    old(self).state.row
                } else {
                    max_offset(old(self).total(), height as int) as usize
                },
                ..old(self).state
            }),
    {
        let m = crate::viewport::max_down(self.lines.len(), height);
        let row = if self.state.row <= m {
            self.state.row
        } else {
            m
        };
        self.height = height;
        self.state = ViewState { row, ..self.state };
    }

    /// The lines `start..end` that the window shows.
    pub open spec fn window(&self) -> (int, int) {
        let row = self.state.row as int;
        let total = self.total();
        (
            if row <= total { row } else { total },
            if row + self.height <= total { row + self.height } else { total },
        )
    }

    /// The highlighted lines that the window shows, top to bottom, each
    /// numbered from 1.
    pub fn visible_lines(&self) -> (r: Vec<LineRecord>)
        ensures
            r@.len() == self.window().1 - self.window().0,
            forall|k: int| #![trigger r@[k]] 0 <= k < r@.len() ==> {
                &&& r@[k].line_number == self.window().0 + k + 1
                &&& spans_view(r@[k].spans@) == line_spans(self.lines@[self.window().0 + k]@)
            },
    {
        let (start, end) = visible_range(self.state.row, self.height, self.lines.len());
        let mut r: Vec<LineRecord> = Vec::new();
        let mut i: usize = start;
        while i < end
            invariant
                start <= i <= end <= self.lines@.len(),
                (start as int, end as int) == self.window(),
                r@.len() == i - start,
                forall|k: int| #![trigger r@[k]] 0 <= k < r@.len() ==> {
                    &&& r@[k].line_number == start + k + 1
                    &&& spans_view(r@[k].spans@) == line_spans(self.lines@[start + k]@)
                },
            decreases end - i,
        {
            r.push(highlight_line(self.lines[i].as_str(), i + 1));
            i = i + 1;
        }
        r
    }

    /// The width of the line-number gutter: the digits of the line count.
    pub fn gutter_width(&self) -> (r: usize)
        ensures
            r == num_digits(self.lines@.len()),
    {
        gutter_width(self.lines.len())
    }

    /// The name shown in the title bar: the file, or a placeholder.
    pub fn title_name(&self) -> (r: String)
        ensures
            r@ == match self.file {
                Some(f) => f@,
                None => "<NEW FILE>"@,
            },
    {
        match &self.file {
            Some(f) => f.clone(),
            None => "<NEW FILE>".to_owned(),
        }
    }

    pub fn total_lines(&self) -> (r: usize)
        ensures
            r == self.lines@.len(),
    {
        self.lines.len()
    }

    pub fn row(&self) -> (r: usize)
        ensures
            r == self.state.row,
    {
        self.state.row
    }

    pub fn mode(&self) -> (r: Mode)
        ensures
            r == self.state.mode,
    {
        self.state.mode
    }

    pub fn is_exited(&self) -> (r: bool)
        ensures
            r == self.state.exited,
    {
        self.state.exited
    }

    pub fn theme(&self) -> (r: Theme)
        ensures
            r == self.theme,
    {
        self.theme
    }
}

} // verus!
