//! The screens of the application, the state they share, and the engine
//! that routes input events through the stack of screens.

use crate::canvas::{
    Canvas, CanvasView, Frame, FrameSize, Token, TokenPosition, TokenStyle, TokenView, saturate,
};
use crate::event::{Event, KeyCode, KeyEvent, KeyEventKind, control_held};
use crate::git::{
    FileMatches, GrepOptions, GrepOptionsView, MatchLine, MatchedColumn, SearchResult,
    command_line, first_index,
};
use crate::text::{
    chars_of, decimal, is_control, is_control_code, push_decimal, push_repeated,
    push_right_justified, repeated, right_justified, span_of, span_string,
};
use vstd::prelude::*;
use vstd::string::StringExecFns;

verus! {

/// A token of plain style, as a mathematical value.
pub open spec fn plain(text: Seq<char>) -> TokenView {
    TokenView { text, style: TokenStyle::Plain }
}

/// What stands before the text of a found line: two spaces, then the
/// line number between square brackets, right-justified to `width`.
pub open spec fn line_label(number: usize, width: usize) -> Seq<char> {
    "  ["@ + right_justified(decimal(number as nat), width as nat) + "]"@
}

/// What stands behind the path of a file: how many lines of it are shown and
/// how many matched spans they hold.
pub open spec fn file_summary(lines: nat, hits: nat) -> Seq<char> {
    " ("@ + decimal(lines) + " lines, "@ + decimal(hits) + " hits)"@
}

/// The token that overlays one matched span of a line: the characters of the
/// span, in reverse style.
pub open spec fn span_token(text: Seq<char>, span: MatchedColumn) -> TokenView {
    TokenView {
        text: span_of(text, span.column_offset as nat, span.text_chars as nat),
        style: TokenStyle::Reverse,
    }
}

/// Where a matched span of a line is overlaid, given where the text of the
/// line starts: on the same row, as many columns to the right as the span
/// is characters into the line.
pub open spec fn span_position(base: TokenPosition, span: MatchedColumn) -> TokenPosition {
    TokenPosition { row: base.row, col: saturate(base.col + span.column_offset) }
}

/// The canvas after the first `upto` of the matched spans of a line were
/// overlaid on the text of the line, which starts at `base`.
pub open spec fn overlay_spans(
    canvas: CanvasView,
    base: TokenPosition,
    text: Seq<char>,
    spans: Seq<MatchedColumn>,
    upto: int,
) -> CanvasView
    decreases upto,
{
    if upto <= 0 {
        canvas
    } else {
        overlay_spans(canvas, base, text, spans, upto - 1).draw_at(
            span_position(base, spans[upto - 1]),
            span_token(text, spans[upto - 1]),
        )
    }
}

/// The canvas after one found line was drawn at the cursor: its label,
/// its text, each matched span overlaid on the text in reverse style, and a
/// newline.
pub open spec fn render_line(
    canvas: CanvasView,
    line: MatchLine,
    spans: Seq<MatchedColumn>,
    width: usize,
) -> CanvasView {
    let labelled = canvas.draw(plain(line_label(line.number, width)));
    overlay_spans(
        labelled.draw(plain(line.text@)),
        labelled.cursor,
        line.text@,
        spans,
        spans.len() as int,
    ).newline()
}

/// The canvas after the first `upto` of the found lines of the file at
/// `file` were drawn.
pub open spec fn render_lines_upto(
    canvas: CanvasView,
    result: SearchResult,
    file: Seq<char>,
    lines: Seq<MatchLine>,
    upto: int,
) -> CanvasView
    decreases upto,
{
    if upto <= 0 {
        canvas
    } else {
        render_line(
            render_lines_upto(canvas, result, file, lines, upto - 1),
            lines[upto - 1],
            result.highlight.spec_columns(file, lines[upto - 1].number),
            result.max_line_width,
        )
    }
}

/// The canvas after one file of the result was drawn: its path underlined,
/// its summary, then the lines found in it.
pub open spec fn render_file(canvas: CanvasView, result: SearchResult, entry: FileMatches) -> CanvasView {
    let headed = canvas.draw(TokenView { text: entry.file@, style: TokenStyle::Underlined }).drawln(
        plain(file_summary(entry.lines@.len(), result.highlight.spec_hits(entry.file@))),
    );
    render_lines_upto(headed, result, entry.file@, entry.lines@, entry.lines@.len() as int)
}

/// The canvas after the first `upto` files of the result were drawn.
pub open spec fn render_files_upto(canvas: CanvasView, result: SearchResult, upto: int) -> CanvasView
    decreases upto,
{
    if upto <= 0 {
        canvas
    } else {
        render_file(render_files_upto(canvas, result, upto - 1), result, result.files[upto - 1])
    }
}

/// The canvas after the whole result was drawn, file by file.
pub open spec fn render_tree(canvas: CanvasView, result: SearchResult) -> CanvasView {
    render_files_upto(canvas, result, result.files@.len() as int)
}

/// The line number that a cursor has selected: a positive number.
#[derive(Clone, Copy, Debug)]
pub struct LineNumber {
    value: usize,
}

impl View for LineNumber {
    type V = usize;

    closed spec fn view(&self) -> usize {
        self.value
    }
}

impl LineNumber {
    #[verifier::type_invariant]
    spec fn positive(self) -> bool {
        self.value > 0
    }

    /// The line number `value`, or `None` where `value` is zero.
    pub fn new(value: usize) -> (number: Option<LineNumber>)
        ensures
            value == 0 <==> number is None,
            number is Some ==> number->0@ == value,
    {
        if value == 0 {
            None
        } else {
            Some(LineNumber { value })
        }
    }

    /// The number, which is positive.
    pub fn get(&self) -> (value: usize)
        ensures
            value == self@,
            value > 0,
    {
        proof {
            use_type_invariant(self);
        }
        self.value
    }
}

/// What the main view has selected: a file of the result and a line of it.
/// Both may be missing. The selection does not change what is drawn.
#[derive(Debug)]
pub struct Cursor {
    pub file: Option<String>,
    pub line_number: Option<LineNumber>,
}

impl Default for Cursor {
    fn default() -> (cursor: Cursor)
        ensures
            cursor.file is None,
            cursor.line_number is None,
    {
        Cursor { file: None, line_number: None }
    }
}

/// The view of a search result as a list of files with their lines.
#[derive(Debug)]
pub struct Tree {}

impl Default for Tree {
    fn default() -> (tree: Tree)
        ensures
            tree == (Tree {  }),
    {
        Tree {  }
    }
}

impl Tree {
    /// Draws the result at the cursor of the canvas, file by file: the
    /// underlined path, the summary, then the lines found in it.
    pub fn render(&self, canvas: &mut Canvas, cursor: &Cursor, result: &SearchResult)
        ensures
            final(canvas)@ == render_tree(old(canvas)@, *result),
    {
        let mut i: usize = 0;
        while i < result.files.len()
            invariant
                i <= result.files.len(),
                canvas@ == render_files_upto(old(canvas)@, *result, i as int),
            decreases result.files.len() - i,
        {
            let entry = &result.files[i];
            let hits = result.highlight.hits(entry.file.as_str());
            canvas.draw(Token::with_style(entry.file.as_str(), TokenStyle::Underlined));
            let mut summary = String::from_str(" (");
            push_decimal(&mut summary, entry.lines.len() as u128);
            summary.append(" lines, ");
            push_decimal(&mut summary, hits);
            summary.append(" hits)");
            canvas.drawln(Token::new(summary.as_str()));
            self.render_lines(canvas, cursor, result, entry.file.as_str(), entry.lines.as_slice());
            i += 1;
        }
    }

    /// Draws the found lines of the file at `file` at the cursor of the
    /// canvas, one row each: the label with the line number, the text, and
    /// over the text each matched span in reverse style.
    pub fn render_lines(
        &self,
        canvas: &mut Canvas,
        _cursor: &Cursor,
        result: &SearchResult,
        file: &str,
        lines: &[MatchLine],
    )
        ensures
            final(canvas)@ == render_lines_upto(
                old(canvas)@,
                *result,
                file@,
                lines@,
                lines@.len() as int,
            ),
    {
        let entry = result.highlight.file(file);
        let mut i: usize = 0;
        while i < lines.len()
            invariant
                i <= lines.len(),
                entry is Some <==> first_index(result.highlight.paths(), file@, 0)
                    < result.highlight.lines.len(),
                entry is Some ==> *entry->0 == result.highlight.lines[first_index(
                    result.highlight.paths(),
                    file@,
                    0,
                )],
                canvas@ == render_lines_upto(old(canvas)@, *result, file@, lines@, i as int),
            decreases lines.len() - i,
        {
            let line = &lines[i];
            let matched = match entry {
                Some(of_file) => of_file.line(line.number),
                None => None,
            };
            let mut label = String::from_str("  [");
            push_right_justified(&mut label, line.number as u128, result.max_line_width);
            label.append("]");
            canvas.draw(Token::new(label.as_str()));
            let base = canvas.cursor();
            canvas.draw(Token::new(line.text.as_str()));
            let ghost spans = result.highlight.spec_columns(file@, line.number);
            let ghost drawn = canvas@;
            match matched {
                Some(of_line) => {
                    let chars = chars_of(line.text.as_str());
                    let mut k: usize = 0;
                    while k < of_line.columns.len()
                        invariant
                            k <= of_line.columns.len(),
                            of_line.columns@ == spans,
                            chars@ == line.text@,
                            canvas@ == overlay_spans(drawn, base, line.text@, spans, k as int),
                        decreases of_line.columns.len() - k,
                    {
                        let span = of_line.columns[k];
                        let text = span_string(&chars, span.column_offset, span.text_chars);
                        canvas.draw_at(
                            TokenPosition {
                                row: base.row,
                                col: base.col.saturating_add(span.column_offset),
                            },
                            Token::with_style(text.as_str(), TokenStyle::Reverse),
                        );
                        k += 1;
                    }
                },
                None => {},
            }
            canvas.newline();
            i += 1;
        }
    }
}

/// The main view: the command line of the search, a rule, and the result.
#[derive(Debug)]
pub struct MainWidget {
    pub tree: Tree,
    pub cursor: Cursor,
}

/// The prompt in which the pattern of the search is typed.
#[derive(Debug)]
pub struct SearchPatternInputWidget {}

/// One screen of the stack: any of the kinds of widget.
#[derive(Debug)]
pub enum Screen {
    Main(MainWidget),
    PatternInput(SearchPatternInputWidget),
}

/// The mathematical value of an [`AppState`].
pub ghost struct AppStateView {
    pub grep: GrepOptionsView,
    pub new_widget: Option<Screen>,
    pub dirty: bool,
    pub search_result: SearchResult,
    pub search_requested: bool,
}

/// The state that every screen can read and change while it draws or handles
/// a key.
#[derive(Debug)]
pub struct AppState {
    /// The options of the search.
    pub grep: GrepOptions,
    /// The screen that is to be put on top of the stack, if any.
    pub new_widget: Option<Screen>,
    /// Whether what is shown is out of date.
    pub dirty: bool,
    /// What the latest search handed back.
    pub search_result: SearchResult,
    /// Whether a search with the current options is due.
    pub search_requested: bool,
}

impl View for AppState {
    type V = AppStateView;

    open spec fn view(&self) -> AppStateView {
        AppStateView {
            grep: self.grep@,
            new_widget: self.new_widget,
            dirty: self.dirty,
            search_result: self.search_result,
            search_requested: self.search_requested,
        }
    }
}

impl AppStateView {
    /// The state with a search requested and marked as out of date.
    pub open spec fn regrep(self) -> AppStateView {
        AppStateView { search_requested: true, dirty: true, ..self }
    }

    /// The state after a search handed back `result`: the result is stored,
    /// no search is due any more, and what is shown is out of date.
    pub open spec fn with_result(self, result: SearchResult) -> AppStateView {
        AppStateView { search_result: result, search_requested: false, dirty: true, ..self }
    }
}

impl Default for AppState {
    fn default() -> (state: AppState)
        ensures
            state@.grep == GrepOptionsView::initial(),
            state.new_widget is None,
            !state.dirty,
            !state.search_requested,
            state.search_result.files@.len() == 0,
            state.search_result.highlight.lines@.len() == 0,
            state.search_result.max_line_width == 0,
    {
        AppState {
            grep: GrepOptions::default(),
            new_widget: None,
            dirty: false,
            search_result: SearchResult::default(),
            search_requested: false,
        }
    }
}

impl AppState {
    /// Asks for a search with the current options and marks what is shown as
    /// out of date. The search itself is run by whoever drives the engine,
    /// who hands its result to [`App::finish_search`].
    pub fn regrep(&mut self)
        ensures
            final(self)@ == old(self)@.regrep(),
    {
        self.search_requested = true;
        self.dirty = true;
    }
}

/// The other value of a context count that a toggle switches to: three
/// lines where it was off, off where it was on.
pub open spec fn toggled_context(lines: usize) -> usize {
    if lines == 0 {
        3
    } else {
        0
    }
}

/// A screen of the stack. Every kind of screen draws itself and a legend and
/// handles the keys that reach it.
pub trait Widget {
    /// The canvas after the screen drew itself on it.
    spec fn rendered(&self, state: AppStateView, canvas: CanvasView) -> CanvasView;

    /// The canvas after the screen drew its legend on it.
    spec fn legend_rendered(&self, canvas: CanvasView) -> CanvasView;

    /// The shared state after the screen handled a press of `code`, and
    /// whether the screen stays active.
    spec fn key_handled(&self, state: AppStateView, code: KeyCode) -> (AppStateView, bool);

    /// Draws the screen at the cursor of the canvas.
    fn render(&self, state: &AppState, canvas: &mut Canvas)
        ensures
            final(canvas)@ == self.rendered(state@, old(canvas)@),
    ;

    /// Draws the legend of the screen. Only the top screen is asked to.
    fn render_legend(&self, canvas: &mut Canvas)
        ensures
            final(canvas)@ == self.legend_rendered(old(canvas)@),
    ;

    /// Handles a key press. Returns `true` where the screen stays active and
    /// `false` where it is finished and must leave the stack.
    fn handle_key_event(&mut self, state: &mut AppState, event: KeyEvent) -> (active: bool)
        ensures
            (final(state)@, active) == old(self).key_handled(old(state)@, event.code),
    ;
}

impl Widget for MainWidget {
    /// The command line of the search, a rule as wide as the canvas, then
    /// the result.
    open spec fn rendered(&self, state: AppStateView, canvas: CanvasView) -> CanvasView {
        render_tree(
            canvas.drawln(plain(command_line(state.grep))).drawln(
                plain(repeated('-', canvas.size.cols as nat)),
            ),
            state.search_result,
        )
    }

    open spec fn legend_rendered(&self, canvas: CanvasView) -> CanvasView {
        canvas
    }

    /// `/` asks for the pattern prompt; `a` and `b` toggle the lines shown
    /// after and before a match, `i` toggles whether case is ignored, and
    /// each of the three asks for a new search. The main view stays active
    /// whatever the key.
    open spec fn key_handled(&self, state: AppStateView, code: KeyCode) -> (AppStateView, bool) {
        let next = if code == KeyCode::Char('/') {
            AppStateView {
                new_widget: Some(Screen::PatternInput(SearchPatternInputWidget {  })),
                ..state
            }
        } else if code == KeyCode::Char('a') {
            AppStateView {
                grep: GrepOptionsView {
                    after_context: toggled_context(state.grep.after_context),
                    ..state.grep
                },
                ..state
            }.regrep()
        } else if code == KeyCode::Char('b') {
            AppStateView {
                grep: GrepOptionsView {
                    before_context: toggled_context(state.grep.before_context),
                    ..state.grep
                },
                ..state
            }.regrep()
        } else if code == KeyCode::Char('i') {
            AppStateView {
                grep: GrepOptionsView { ignore_case: !state.grep.ignore_case, ..state.grep },
                ..state
            }.regrep()
        } else {
            state
        };
        (next, true)
    }

    fn render(&self, state: &AppState, canvas: &mut Canvas)
        ensures
            final(canvas)@ == self.rendered(state@, old(canvas)@),
    {
        let command = state.grep.command_string();
        canvas.drawln(Token::new(command.as_str()));
        let mut rule = String::new();
        push_repeated(&mut rule, '-', canvas.frame_size().cols);
        assert(rule@ =~= repeated('-', canvas@.size.cols as nat));
        canvas.drawln(Token::new(rule.as_str()));
        self.tree.render(canvas, &self.cursor, &state.search_result);
    }

    fn render_legend(&self, _canvas: &mut Canvas)
        ensures
            final(_canvas)@ == self.legend_rendered(old(_canvas)@),
    {
    }

    fn handle_key_event(&mut self, state: &mut AppState, event: KeyEvent) -> (active: bool)
        ensures
            (final(state)@, active) == old(self).key_handled(old(state)@, event.code),
            active,
            *final(self) == *old(self),
    {
        match event.code {
            KeyCode::Char(c) => {
                if c == '/' {
                    state.new_widget = Some(Screen::PatternInput(SearchPatternInputWidget {  }));
                } else if c == 'a' {
                    if state.grep.after_context == 0 {
                        state.grep.after_context = 3;
                    } else {
                        state.grep.after_context = 0;
                    }
                    state.regrep();
                } else if c == 'b' {
                    if state.grep.before_context == 0 {
                        state.grep.before_context = 3;
                    } else {
                        state.grep.before_context = 0;
                    }
                    state.regrep();
                } else if c == 'i' {
                    state.grep.ignore_case = !state.grep.ignore_case;
                    state.regrep();
                }
            },
            _ => {},
        }
        true
    }
}

impl Widget for SearchPatternInputWidget {
    /// The label of the prompt.
    open spec fn rendered(&self, state: AppStateView, canvas: CanvasView) -> CanvasView {
        canvas.drawln(plain("Grep: "@))
    }

    open spec fn legend_rendered(&self, canvas: CanvasView) -> CanvasView {
        canvas
    }

    /// Enter asks for a new search and finishes the prompt. A character
    /// that is no control code is put at the end of the pattern, Backspace
    /// takes the last character of the pattern away, and both mark what is
    /// shown as out of date. Any other key changes nothing.
    open spec fn key_handled(&self, state: AppStateView, code: KeyCode) -> (AppStateView, bool) {
        match code {
            KeyCode::Enter => (state.regrep(), false),
            KeyCode::Char(c) => if is_control_code(c) {
                (state, true)
            } else {
                (
                    AppStateView {
                        grep: GrepOptionsView { pattern: state.grep.pattern.push(c), ..state.grep },
                        dirty: true,
                        ..state
                    },
                    true,
                )
            },
            KeyCode::Backspace => (
                AppStateView {
                    grep: GrepOptionsView {
                        pattern: if state.grep.pattern.len() > 0 {
                            state.grep.pattern.drop_last()
                        } else {
                            state.grep.pattern
                        },
                        ..state.grep
                    },
                    dirty: true,
                    ..state
                },
                true,
            ),
            _ => (state, true),
        }
    }

    fn render(&self, _state: &AppState, canvas: &mut Canvas)
        ensures
            final(canvas)@ == self.rendered(_state@, old(canvas)@),
    {
        canvas.drawln(Token::new("Grep: "));
    }

    fn render_legend(&self, _canvas: &mut Canvas)
        ensures
            final(_canvas)@ == self.legend_rendered(old(_canvas)@),
    {
    }

    fn handle_key_event(&mut self, state: &mut AppState, event: KeyEvent) -> (active: bool)
        ensures
            (final(state)@, active) == old(self).key_handled(old(state)@, event.code),
            *final(self) == *old(self),
    {
        match event.code {
            KeyCode::Enter => {
                state.regrep();
                return false;
            },
            KeyCode::Char(c) => {
                if !is_control(c) {
                    state.grep.pattern.push(c);
                    state.dirty = true;
                }
            },
            KeyCode::Backspace => {
                state.grep.pattern.pop();
                state.dirty = true;
            },
            _ => {},
        }
        true
    }
}

impl Widget for Screen {
    open spec fn rendered(&self, state: AppStateView, canvas: CanvasView) -> CanvasView {
        match self {
            Screen::Main(widget) => widget.rendered(state, canvas),
            Screen::PatternInput(widget) => widget.rendered(state, canvas),
        }
    }

    open spec fn legend_rendered(&self, canvas: CanvasView) -> CanvasView {
        match self {
            Screen::Main(widget) => widget.legend_rendered(canvas),
            Screen::PatternInput(widget) => widget.legend_rendered(canvas),
        }
    }

    open spec fn key_handled(&self, state: AppStateView, code: KeyCode) -> (AppStateView, bool) {
        match self {
            Screen::Main(widget) => widget.key_handled(state, code),
            Screen::PatternInput(widget) => widget.key_handled(state, code),
        }
    }

    fn render(&self, state: &AppState, canvas: &mut Canvas)
        ensures
            final(canvas)@ == self.rendered(state@, old(canvas)@),
    {
        match self {
            Screen::Main(widget) => widget.render(state, canvas),
            Screen::PatternInput(widget) => widget.render(state, canvas),
        }
    }

    fn render_legend(&self, canvas: &mut Canvas)
        ensures
            final(canvas)@ == self.legend_rendered(old(canvas)@),
    {
        match self {
            Screen::Main(widget) => widget.render_legend(canvas),
            Screen::PatternInput(widget) => widget.render_legend(canvas),
        }
    }

    fn handle_key_event(&mut self, state: &mut AppState, event: KeyEvent) -> (active: bool)
        ensures
            (final(state)@, active) == old(self).key_handled(old(state)@, event.code),
            *final(self) == *old(self),
    {
        match self {
            Screen::Main(widget) => widget.handle_key_event(state, event),
            Screen::PatternInput(widget) => widget.handle_key_event(state, event),
        }
    }
}

/// What whoever drives the engine has to do before it waits for the next
/// input event.
#[derive(Clone, Copy, Debug, PartialEq, Eq, Structural)]
pub enum Action {
    /// Nothing.
    Wait,
    /// Run a render pass and show its frame.
    Render,
    /// Run the search with the current options, hand its result to
    /// [`App::finish_search`], and do what that returns.
    Search,
}

/// Whether a key press ends the run whatever the stack holds: `q`, Escape,
/// or `c` with the control key held.
pub open spec fn is_quit_key(event: KeyEvent) -> bool {
    ||| event.code == KeyCode::Char('q')
    ||| event.code == KeyCode::Esc
    ||| (event.code == KeyCode::Char('c') && control_held(event.modifiers))
}

/// The stack and the shared state after the top screen handled a key and
/// left `state` behind: a screen that is not active any more leaves the
/// stack first, then the screen that waits in the state, if any, is put on
/// top. Either change marks what is shown as out of date.
pub open spec fn settled(widgets: Seq<Screen>, state: AppStateView, active: bool) -> (
    Seq<Screen>,
    AppStateView,
) {
    let kept = if active || widgets.len() == 0 {
        widgets
    } else {
        widgets.drop_last()
    };
    let marked = if active {
        state
    } else {
        AppStateView { dirty: true, ..state }
    };
    match marked.new_widget {
        Some(widget) => (
            kept.push(widget),
            AppStateView { new_widget: None, dirty: true, ..marked },
        ),
        None => (kept, marked),
    }
}

/// Settles the stack after the top screen handled a key and said whether it
/// stays active. A screen that is finished leaves the stack first; then the
/// screen that waits in the state, if any, is put on top, so that a finished
/// screen hands over to its successor and never stays beside it. Either
/// change marks what is shown as out of date.
pub fn settle(widgets: &mut Vec<Screen>, state: &mut AppState, active: bool)
    ensures
        (final(widgets)@, final(state)@) == settled(old(widgets)@, old(state)@, active),
{
    if !active {
        widgets.pop();
        state.dirty = true;
    }
    if let Some(widget) = state.new_widget.take() {
        widgets.push(widget);
        state.dirty = true;
    }
}

/// The canvas after the first `upto` screens of the stack, from the bottom,
/// drew themselves on it.
pub open spec fn stack_rendered_upto(
    widgets: Seq<Screen>,
    state: AppStateView,
    canvas: CanvasView,
    upto: int,
) -> CanvasView
    decreases upto,
{
    if upto <= 0 {
        canvas
    } else {
        widgets[upto - 1].rendered(state, stack_rendered_upto(widgets, state, canvas, upto - 1))
    }
}

/// The mathematical value of an [`App`].
pub ghost struct AppView {
    pub exit: bool,
    pub frame_row_start: usize,
    pub state: AppStateView,
    /// The stack of screens, the bottom one first.
    pub widgets: Seq<Screen>,
}

impl AppView {
    /// The stack holds a screen, and its bottom screen is a main view.
    pub open spec fn wf(self) -> bool {
        self.widgets.len() >= 1 && self.widgets[0] is Main
    }

    /// What to do before the next event is waited for: a search where one
    /// is due, else a render pass where what is shown is out of date.
    pub open spec fn pending_action(self) -> Action {
        if self.state.search_requested {
            Action::Search
        } else if self.state.dirty {
            Action::Render
        } else {
            Action::Wait
        }
    }

    /// The engine after a key event. Only a press counts. A quit key ends
    /// the run; any other key goes to the top screen, after which the stack
    /// is settled.
    pub open spec fn key_dispatched(self, event: KeyEvent) -> AppView {
        if event.kind != KeyEventKind::Press {
            self
        } else if is_quit_key(event) {
            AppView { exit: true, ..self }
        } else if self.widgets.len() == 0 {
            self
        } else {
            let handled = self.widgets.last().key_handled(self.state, event.code);
            let next = settled(self.widgets, handled.0, handled.1);
            AppView { widgets: next.0, state: next.1, ..self }
        }
    }

    /// What to do after a key event.
    pub open spec fn key_action(self, event: KeyEvent) -> Action {
        if event.kind != KeyEventKind::Press {
            Action::Wait
        } else {
            self.key_dispatched(event).pending_action()
        }
    }

    /// The engine after an input event: only a key event changes it.
    pub open spec fn event_handled(self, event: Event) -> AppView {
        match event {
            Event::Key(key) => self.key_dispatched(key),
            _ => self,
        }
    }

    /// What to do after an input event: a resize asks for a render pass, a
    /// key event for what the key leaves to do, anything else for nothing.
    pub open spec fn event_action(self, event: Event) -> Action {
        match event {
            Event::Key(key) => self.key_action(key),
            Event::Resize(_, _) => Action::Render,
            _ => Action::Wait,
        }
    }

    /// The canvas at the end of a render pass on an area of the given size:
    /// every screen of the stack has drawn itself on one blank canvas, from
    /// the bottom of the stack to the top, and then the top screen has drawn
    /// its legend.
    pub open spec fn render_pass(self, size: FrameSize) -> CanvasView {
        let drawn = stack_rendered_upto(
            self.widgets,
            self.state,
            CanvasView::blank(self.frame_row_start, size),
            self.widgets.len() as int,
        );
        if self.widgets.len() == 0 {
            drawn
        } else {
            self.widgets.last().legend_rendered(drawn)
        }
    }

    /// The engine after a render pass: what is shown is up to date.
    pub open spec fn shown(self) -> AppView {
        AppView { state: AppStateView { dirty: false, ..self.state }, ..self }
    }
}

/// The dispatch engine: the stack of screens and the state they share.
#[derive(Debug)]
pub struct App {
    exit: bool,
    frame_row_start: usize,
    state: AppState,
    widgets: Vec<Screen>,
}

impl View for App {
    type V = AppView;

    closed spec fn view(&self) -> AppView {
        AppView {
            exit: self.exit,
            frame_row_start: self.frame_row_start,
            state: self.state@,
            widgets: self.widgets@,
        }
    }
}

impl App {
    /// An engine at the start of a run: the default state, and a stack that
    /// holds one main view.
    pub fn new() -> (app: App)
        ensures
            app@.wf(),
            !app@.exit,
            app@.frame_row_start == 0,
            app@.state.grep == GrepOptionsView::initial(),
            app@.state.new_widget is None,
            !app@.state.dirty,
            !app@.state.search_requested,
            app@.state.search_result.files@.len() == 0,
            app@.state.search_result.highlight.lines@.len() == 0,
            app@.state.search_result.max_line_width == 0,
            app@.widgets.len() == 1,
            app@.widgets[0] is Main,
            app@.widgets[0]->Main_0.cursor.file is None,
            app@.widgets[0]->Main_0.cursor.line_number is None,
    {
        let mut widgets: Vec<Screen> = Vec::new();
        widgets.push(Screen::Main(MainWidget { tree: Tree::default(), cursor: Cursor::default() }));
        App { exit: false, frame_row_start: 0, state: AppState::default(), widgets }
    }

    /// Whether a quit key was pressed.
    pub fn should_exit(&self) -> (exit: bool)
        ensures
            exit == self@.exit,
    {
        self.exit
    }

    /// The shared state.
    pub fn state(&self) -> (state: &AppState)
        ensures
            state@ == self@.state,
    {
        &self.state
    }

    /// The stack of screens, the bottom one first.
    pub fn widgets(&self) -> (widgets: &Vec<Screen>)
        ensures
            widgets@ == self@.widgets,
    {
        &self.widgets
    }

    /// What is left to do before the next event is waited for.
    pub fn pending_action(&self) -> (action: Action)
        ensures
            action == self@.pending_action(),
    {
        if self.state.search_requested {
            Action::Search
        } else if self.state.dirty {
            Action::Render
        } else {
            Action::Wait
        }
    }

    /// Handles an input event and says what to do next. Focus, mouse and
    /// paste events change nothing; a resize asks for a render pass.
    pub fn handle_event(&mut self, event: Event) -> (action: Action)
        ensures
            final(self)@ == old(self)@.event_handled(event),
            action == old(self)@.event_action(event),
            old(self)@.wf() ==> final(self)@.wf() && final(self)@.widgets.len() >= 1,
    {
        match event {
            Event::FocusGained => Action::Wait,
            Event::FocusLost => Action::Wait,
            Event::Key(key) => self.handle_key_event(key),
            Event::Mouse => Action::Wait,
            Event::Paste => Action::Wait,
            Event::Resize(_, _) => Action::Render,
        }
    }

    /// Handles a key event and says what to do next. Only a press counts.
    /// A quit key ends the run whatever the stack holds. Any other key goes
    /// to the top screen; a screen that is finished then leaves the stack,
    /// and after that the screen that was asked for, if any, is put on top.
    pub fn handle_key_event(&mut self, event: KeyEvent) -> (action: Action)
        ensures
            final(self)@ == old(self)@.key_dispatched(event),
            action == old(self)@.key_action(event),
            old(self)@.wf() ==> final(self)@.wf() && final(self)@.widgets.len() >= 1,
    {
        if !event.is_press() {
            return Action::Wait;
        }
        let control = event.has_control();
        let quit = match event.code {
            KeyCode::Char(c) => c == 'q' || (c == 'c' && control),
            KeyCode::Esc => true,
            _ => false,
        };
        if quit {
            self.exit = true;
        } else if self.widgets.len() > 0 {
            let top = self.widgets.len() - 1;
            let active = self.widgets[top].handle_key_event(&mut self.state, event);
            assert(self.widgets@ =~= old(self).widgets@);
            settle(&mut self.widgets, &mut self.state, active);
        }
        self.pending_action()
    }

    /// Takes the result of the search that was asked for: the result is
    /// stored, no search is due any more, and a render pass is.
    pub fn finish_search(&mut self, result: SearchResult) -> (action: Action)
        ensures
            final(self)@ == (AppView { state: old(self)@.state.with_result(result), ..old(self)@ }),
            action == Action::Render,
    {
        self.state.search_result = result;
        self.state.search_requested = false;
        self.state.dirty = true;
        Action::Render
    }

    /// Runs a render pass for an area of the given size. Where the area has
    /// no row or no column nothing is drawn and nothing changes. Else every
    /// screen of the stack draws itself on one canvas, from the bottom of
    /// the stack to the top, the top screen draws its legend, the canvas is
    /// sealed into the frame that is returned, and what is shown counts as
    /// up to date.
    pub fn render(&mut self, size: FrameSize) -> (frame: Option<Frame>)
        ensures
            size.is_empty() ==> frame is None && final(self)@ == old(self)@,
            !size.is_empty() ==> frame is Some && frame->0@ == old(self)@.render_pass(size).frame()
                && frame->0@.wf() && final(self)@ == old(self)@.shown(),
    {
        if size.is_empty() {
            return None;
        }
        let mut canvas = Canvas::new(self.frame_row_start, size);
        let mut i: usize = 0;
        while i < self.widgets.len()
            invariant
                i <= self.widgets.len(),
                *self == *old(self),
                canvas@ == stack_rendered_upto(
                    self.widgets@,
                    self.state@,
                    CanvasView::blank(self.frame_row_start, size),
                    i as int,
                ),
            decreases self.widgets.len() - i,
        {
            self.widgets[i].render(&self.state, &mut canvas);
            i += 1;
        }
        if self.widgets.len() > 0 {
            let top = self.widgets.len() - 1;
            self.widgets[top].render_legend(&mut canvas);
        }
        let frame = canvas.into_frame();
        self.state.dirty = false;
        Some(frame)
    }
}

impl AppView {
    /// The engine after the first `upto` of the key events `events`, in
    /// their order.
    pub open spec fn keys_dispatched_upto(self, events: Seq<KeyEvent>, upto: int) -> AppView
        decreases upto,
    {
        if upto <= 0 {
            self
        } else {
            self.keys_dispatched_upto(events, upto - 1).key_dispatched(events[upto - 1])
        }
    }
}

/// A key event leaves the stack with a screen in it, and a main view at its
/// bottom.
pub proof fn law_key_keeps_stack(app: AppView, event: KeyEvent)
    requires
        app.wf(),
    ensures
        app.key_dispatched(event).wf(),
        app.key_dispatched(event).widgets.len() >= 1,
{
}

/// After any sequence of key events the stack holds at least one screen.
pub proof fn law_stack_never_empty(app: AppView, events: Seq<KeyEvent>, upto: int)
    requires
        app.wf(),
    ensures
        app.keys_dispatched_upto(events, upto).wf(),
        app.keys_dispatched_upto(events, upto).widgets.len() >= 1,
    decreases upto,
{
    if upto > 0 {
        law_stack_never_empty(app, events, upto - 1);
        law_key_keeps_stack(app.keys_dispatched_upto(events, upto - 1), events[upto - 1]);
    }
}

/// Where the top screen is finished and has also asked for a successor, the
/// finished screen is gone and the successor stands in its place on top of
/// the stack: the stack is as deep as before, everything below the top is as
/// it was, and no screen waits in the state any more.
pub proof fn law_finished_screen_is_replaced(
    widgets: Seq<Screen>,
    state: AppStateView,
    successor: Screen,
)
    requires
        widgets.len() >= 1,
        state.new_widget == Some(successor),
    ensures
        settled(widgets, state, false).0 == widgets.drop_last().push(successor),
        settled(widgets, state, false).0.len() == widgets.len(),
        settled(widgets, state, false).0.last() == successor,
        forall|i: int|
            0 <= i < widgets.len() - 1 ==> settled(widgets, state, false).0[i] == widgets[i],
        settled(widgets, state, false).1.new_widget is None,
        settled(widgets, state, false).1.dirty,
{
}

/// A key event that changes the options of the search, the pattern, the
/// stack, or asks for a search marks what is shown as out of date. A key
/// event that does not mark it leaves the options, the pattern, the result
/// and the stack as they were.
pub proof fn law_change_marks_dirty(app: AppView, event: KeyEvent)
    requires
        app.wf(),
    ensures
        ({
            let next = app.key_dispatched(event);
            ||| next.state.dirty
            ||| (next.state == app.state && next.widgets == app.widgets)
        }),
{
    let next = app.key_dispatched(event);
    if !next.state.dirty {
        assert(next.widgets =~= app.widgets);
    }
}

/// A result that a search hands back marks what is shown as out of date,
/// and a render pass that follows marks it as up to date, until the next
/// change.
pub proof fn law_render_clears_dirty(app: AppView, result: SearchResult)
    ensures
        app.state.with_result(result).dirty,
        !app.shown().state.dirty,
        app.shown().widgets == app.widgets,
        app.shown().state.grep == app.state.grep,
        app.shown().state.search_result == app.state.search_result,
{
}

} // verus!
