//! The navigation state of a reading session: where the reader is, how
//! fast the words come, and what is shown.

use crate::timing::{calculate_duration, duration_ms};
use crate::types::{
    lemma_views_subrange, views, Section, SectionView, TimedToken, TimedTokenView,
};
use vstd::prelude::*;
use vstd::slice::slice_subrange;

verus! {

/// The reading speed of a new session, in words per minute.
pub const DEFAULT_WPM: u16 = 300;

/// The lowest reading speed.
pub const MIN_WPM: u16 = 100;

/// The highest reading speed.
pub const MAX_WPM: u16 = 800;

/// By how much one step changes the reading speed.
pub const WPM_STEP: u16 = 25;

/// How many words a jump forward or backward passes.
pub const SENTENCE_JUMP: usize = 10;

/// The greatest number of characters of a context line, unless asked
/// otherwise.
pub const DEFAULT_CONTEXT_WIDTH: usize = 80;

/// How long the program waits for the next word where there is none, in
/// milliseconds.
pub const DEFAULT_DELAY_MS: u64 = 200;

/// What the screen shows.
#[derive(Debug, Clone, Copy, PartialEq, Eq, Structural)]
pub enum ViewMode {
    Reading,
    Outline,
}

/// A key as the session understands it.
#[derive(Debug, Clone, Copy, PartialEq, Eq, Structural)]
pub enum Key {
    Char(char),
    Up,
    Down,
    Left,
    Right,
    Enter,
    Esc,
    /// Any other key.
    Other,
}

/// Whether the session goes on after a key.
#[derive(Debug, Clone, Copy, PartialEq, Eq, Structural)]
pub enum Flow {
    Continue,
    Quit,
}

/// What a key asks of the session.
#[derive(Debug, Clone, Copy, PartialEq, Eq, Structural)]
pub enum Action {
    Quit,
    ToggleHelp,
    TogglePause,
    DecreaseWpm,
    IncreaseWpm,
    RewindSentence,
    SkipSentence,
    ToggleOutline,
    OutlineDown,
    OutlineUp,
    JumpToSection,
    Nothing,
}

/// What a key asks in a view. With the control key, `c` quits; `q` quits
/// and `?` shows the help in every view; the other keys depend on the
/// view.
pub open spec fn action_of(mode: ViewMode, key: Key, control: bool) -> Action {
    if control && key == Key::Char('c') {
        Action::Quit
    } else if key == Key::Char('q') {
        Action::Quit
    } else if key == Key::Char('?') {
        Action::ToggleHelp
    } else {
        match mode {
            ViewMode::Reading => match key {
                Key::Char(c) => if c == ' ' {
                    Action::TogglePause
                } else if c == 'j' {
                    Action::DecreaseWpm
                } else if c == 'k' {
                    Action::IncreaseWpm
                } else if c == 'h' {
                    Action::RewindSentence
                } else if c == 'l' {
                    Action::SkipSentence
                } else if c == 'o' {
                    Action::ToggleOutline
                } else {
                    Action::Nothing
                },
                Key::Down => Action::DecreaseWpm,
                Key::Up => Action::IncreaseWpm,
                Key::Left => Action::RewindSentence,
                Key::Right => Action::SkipSentence,
                _ => Action::Nothing,
            },
            ViewMode::Outline => match key {
                Key::Char(c) => if c == 'j' {
                    Action::OutlineDown
                } else if c == 'k' {
                    Action::OutlineUp
                } else if c == 'o' {
                    Action::ToggleOutline
                } else {
                    Action::Nothing
                },
                Key::Down => Action::OutlineDown,
                Key::Up => Action::OutlineUp,
                Key::Enter => Action::JumpToSection,
                Key::Esc => Action::ToggleOutline,
                _ => Action::Nothing,
            },
        }
    }
}

/// A reading session over a token stream and its sections.
pub struct App {
    tokens: Vec<TimedToken>,
    sections: Vec<Section>,
    position: usize,
    wpm: u16,
    paused: bool,
    view_mode: ViewMode,
    outline_selection: usize,
    show_help: bool,
    context_width: usize,
    hint_chars_enabled: bool,
    styling_enabled: bool,
}

/// The mathematical value of an [`App`].
pub struct AppView {
    pub tokens: Seq<TimedTokenView>,
    pub sections: Seq<SectionView>,
    pub position: usize,
    pub wpm: u16,
    pub paused: bool,
    pub view_mode: ViewMode,
    pub outline_selection: usize,
    pub show_help: bool,
    pub context_width: usize,
    pub hint_chars_enabled: bool,
    pub styling_enabled: bool,
}

impl AppView {
    /// The index of the last token, or zero where there is none.
    pub open spec fn last_index(self) -> int {
        if self.tokens.len() > 0 {
            self.tokens.len() - 1
        } else {
            0
        }
    }

    /// This session paused, or going on again.
    pub open spec fn pause_toggled(self) -> AppView {
        AppView { paused: !self.paused, ..self }
    }

    /// This session one step faster, at most at the highest speed.
    pub open spec fn faster(self) -> AppView {
        AppView {
            wpm: if self.wpm + WPM_STEP < MAX_WPM {
                (self.wpm + WPM_STEP) as u16
            } else {
                MAX_WPM
            },
            ..self
        }
    }

    /// This session one step slower, at least at the lowest speed.
    pub open spec fn slower(self) -> AppView {
        AppView {
            wpm: if self.wpm - WPM_STEP > MIN_WPM {
                (self.wpm - WPM_STEP) as u16
            } else {
                MIN_WPM
            },
            ..self
        }
    }

    /// This session at the next token, unless it is at the last.
    pub open spec fn advanced(self) -> AppView {
        AppView {
            position: if self.position < self.last_index() {
                (self.position + 1) as usize
            } else {
                self.position
            },
            ..self
        }
    }

    /// This session ten tokens back, or at the first.
    pub open spec fn rewound(self) -> AppView {
        AppView {
            position: if self.position >= SENTENCE_JUMP {
                (self.position - SENTENCE_JUMP) as usize
            } else {
                0
            },
            ..self
        }
    }

    /// This session ten tokens on, or at the last.
    pub open spec fn skipped(self) -> AppView {
        AppView {
            position: if self.position + SENTENCE_JUMP < self.last_index() {
                (self.position + SENTENCE_JUMP) as usize
            } else {
                self.last_index() as usize
            },
            ..self
        }
    }

    /// This session in the other view.
    pub open spec fn outline_toggled(self) -> AppView {
        AppView {
            view_mode: match self.view_mode {
                ViewMode::Reading => ViewMode::Outline,
                ViewMode::Outline => ViewMode::Reading,
            },
            ..self
        }
    }

    /// This session with the section before the selected one selected.
    pub open spec fn selection_up(self) -> AppView {
        AppView {
            outline_selection: if self.outline_selection > 0 {
                (self.outline_selection - 1) as usize
            } else {
                0
            },
            ..self
        }
    }

    /// This session with the section after the selected one selected, or
    /// the last one.
    pub open spec fn selection_down(self) -> AppView {
        AppView {
            outline_selection: if self.sections.len() == 0 {
                self.outline_selection
            } else if self.outline_selection + 1 < self.sections.len() - 1 {
                (self.outline_selection + 1) as usize
            } else {
                (self.sections.len() - 1) as usize
            },
            ..self
        }
    }

    /// This session at the start of the selected section, reading; as it
    /// is where no section is selected.
    pub open spec fn jumped(self) -> AppView {
        if self.outline_selection < self.sections.len() {
            AppView {
                position: self.sections[self.outline_selection as int].token_start,
                view_mode: ViewMode::Reading,
                ..self
            }
        } else {
            self
        }
    }

    /// This session with the help shown, or hidden again.
    pub open spec fn help_toggled(self) -> AppView {
        AppView { show_help: !self.show_help, ..self }
    }

    /// This session after an action.
    pub open spec fn after(self, action: Action) -> AppView {
        match action {
            Action::Quit | Action::Nothing => self,
            Action::ToggleHelp => self.help_toggled(),
            Action::TogglePause => self.pause_toggled(),
            Action::DecreaseWpm => self.slower(),
            Action::IncreaseWpm => self.faster(),
            Action::RewindSentence => self.rewound(),
            Action::SkipSentence => self.skipped(),
            Action::ToggleOutline => self.outline_toggled(),
            Action::OutlineDown => self.selection_down(),
            Action::OutlineUp => self.selection_up(),
            Action::JumpToSection => self.jumped(),
        }
    }

    /// Whether words come by themselves: the session reads and is not
    /// paused.
    pub open spec fn is_running(self) -> bool {
        !self.paused && self.view_mode == ViewMode::Reading
    }

    /// How long the current word is shown, in milliseconds;
    /// `DEFAULT_DELAY_MS` where there is none.
    pub open spec fn word_delay(self) -> int {
        if self.position < self.tokens.len() {
            duration_ms(self.tokens[self.position as int].token.timing_hint, self.wpm)
        } else {
            DEFAULT_DELAY_MS as int
        }
    }

    /// Whether section `i` is the one that the position lies in: the last
    /// one that starts at or before it.
    pub open spec fn is_current_section(self, i: int) -> bool {
        &&& 0 <= i < self.sections.len()
        &&& self.sections[i].token_start <= self.position
        &&& forall|j: int|
            i < j < self.sections.len() ==> self.position < (#[trigger] self.sections[j]).token_start
    }

    /// The index of the section that the position lies in, if it lies in
    /// one.
    pub open spec fn current_section(self) -> Option<int> {
        section_at(self.sections, self.position)
    }
}

/// The index of the last of the sections that starts at or before
/// `position`.
pub open spec fn section_at(sections: Seq<SectionView>, position: usize) -> Option<int>
    decreases sections.len(),
{
    if sections.len() == 0 {
        None
    } else if sections.last().token_start <= position {
        Some(sections.len() - 1)
    } else {
        section_at(sections.drop_last(), position)
    }
}

/// The section that the position lies in is the last one that starts at
/// or before it; the position lies in none where every section starts
/// after it.
pub proof fn lemma_current_section(app: AppView)
    ensures
        match app.current_section() {
            Some(i) => app.is_current_section(i),
            None => forall|i: int|
                0 <= i < app.sections.len() ==> app.position < (
                #[trigger] app.sections[i]).token_start,
        },
{
    lemma_section_at(app.sections, app.position);
}

proof fn lemma_section_at(sections: Seq<SectionView>, position: usize)
    ensures
        match section_at(sections, position) {
            Some(i) => {
                &&& 0 <= i < sections.len()
                &&& sections[i].token_start <= position
                &&& forall|j: int|
                    i < j < sections.len() ==> position < (#[trigger] sections[j]).token_start
            },
            None => forall|i: int|
                0 <= i < sections.len() ==> position < (#[trigger] sections[i]).token_start,
        },
    decreases sections.len(),
{
    if sections.len() > 0 && sections.last().token_start > position {
        let rest = sections.drop_last();
        lemma_section_at(rest, position);
        match section_at(rest, position) {
            Some(i) => {
                assert forall|j: int| i < j < sections.len() implies position < (
                #[trigger] sections[j]).token_start by {
                    if j < rest.len() {
                        assert(rest[j] == sections[j]);
                    }
                }
            },
            None => {
                assert forall|i: int| 0 <= i < sections.len() implies position < (
                #[trigger] sections[i]).token_start by {
                    if i < rest.len() {
                        assert(rest[i] == sections[i]);
                    }
                }
            },
        }
    }
}

impl View for App {
    type V = AppView;

    closed spec fn view(&self) -> AppView {
        AppView {
            tokens: views(self.tokens@),
            sections: views(self.sections@),
            position: self.position,
            wpm: self.wpm,
            paused: self.paused,
            view_mode: self.view_mode,
            outline_selection: self.outline_selection,
            show_help: self.show_help,
            context_width: self.context_width,
            hint_chars_enabled: self.hint_chars_enabled,
            styling_enabled: self.styling_enabled,
        }
    }
}

impl App {
    #[verifier::type_invariant]
    spec fn speed_in_range(&self) -> bool {
        MIN_WPM <= self.wpm <= MAX_WPM
    }

    /// A session at the first token, at the default speed, reading.
    pub fn new(tokens: Vec<TimedToken>, sections: Vec<Section>) -> (app: Self)
        ensures
            app@ == (AppView {
                tokens: views(tokens@),
                sections: views(sections@),
                position: 0,
                wpm: DEFAULT_WPM,
                paused: false,
                view_mode: ViewMode::Reading,
                outline_selection: 0,
                show_help: false,
                context_width: DEFAULT_CONTEXT_WIDTH,
                hint_chars_enabled: true,
                styling_enabled: true,
            }),
    {
        App::with_options(tokens, sections, DEFAULT_CONTEXT_WIDTH, true, true)
    }

    /// A session like a new one, with the given width of the context lines
    /// and the given choice of gutter and styling.
    pub fn with_options(
        tokens: Vec<TimedToken>,
        sections: Vec<Section>,
        context_width: usize,
        hint_chars_enabled: bool,
        styling_enabled: bool,
    ) -> (app: Self)
        ensures
            app@ == (AppView {
                tokens: views(tokens@),
                sections: views(sections@),
                position: 0,
                wpm: DEFAULT_WPM,
                paused: false,
                view_mode: ViewMode::Reading,
                outline_selection: 0,
                show_help: false,
                context_width,
                hint_chars_enabled,
                styling_enabled,
            }),
    {
        App {
            tokens,
            sections,
            position: 0,
            wpm: 300,
            paused: false,
            view_mode: ViewMode::Reading,
            outline_selection: 0,
            show_help: false,
            context_width,
            hint_chars_enabled,
            styling_enabled,
        }
    }

    /// The index of the current token.
    #[must_use]
    pub fn position(&self) -> (r: usize)
        ensures
            r == self@.position,
    {
        self.position
    }

    /// The reading speed in words per minute.
    #[must_use]
    pub fn wpm(&self) -> (r: u16)
        ensures
            r == self@.wpm,
            MIN_WPM <= r <= MAX_WPM,
    {
        proof {
            use_type_invariant(self);
        }
        self.wpm
    }

    /// Whether reading is paused.
    #[must_use]
    pub fn is_paused(&self) -> (r: bool)
        ensures
            r == self@.paused,
    {
        self.paused
    }

    /// What the screen shows.
    #[must_use]
    pub fn view_mode(&self) -> (r: ViewMode)
        ensures
            r == self@.view_mode,
    {
        self.view_mode
    }

    /// The token at the current position, if there is one.
    #[must_use]
    pub fn current_token(&self) -> (r: Option<&TimedToken>)
        ensures
            match r {
                Some(token) => self@.position < self@.tokens.len() && token@
                    == self@.tokens[self@.position as int],
                None => self@.position >= self@.tokens.len(),
            },
    {
        if self.position < self.tokens.len() {
            Some(&self.tokens[self.position])
        } else {
            None
        }
    }

    /// All the tokens.
    #[must_use]
    pub fn tokens(&self) -> (r: &[TimedToken])
        ensures
            views(r@) == self@.tokens,
            r@.len() == self@.tokens.len(),
    {
        self.tokens.as_slice()
    }

    /// All the sections.
    #[must_use]
    pub fn sections(&self) -> (r: &[Section])
        ensures
            views(r@) == self@.sections,
            r@.len() == self@.sections.len(),
    {
        self.sections.as_slice()
    }

    /// The index of the section selected in the outline.
    #[must_use]
    pub fn outline_selection(&self) -> (r: usize)
        ensures
            r == self@.outline_selection,
    {
        self.outline_selection
    }

    /// The greatest number of characters of a context line.
    #[must_use]
    pub fn context_width(&self) -> (r: usize)
        ensures
            r == self@.context_width,
    {
        self.context_width
    }

    /// Whether the gutter with hint characters is shown.
    #[must_use]
    pub fn hint_chars_enabled(&self) -> (r: bool)
        ensures
            r == self@.hint_chars_enabled,
    {
        self.hint_chars_enabled
    }

    /// Whether bold, italic and code are shown as such.
    #[must_use]
    pub fn styling_enabled(&self) -> (r: bool)
        ensures
            r == self@.styling_enabled,
    {
        self.styling_enabled
    }

    /// Pause, or go on.
    pub fn toggle_pause(&mut self)
        ensures
            final(self)@ == old(self)@.pause_toggled(),
    {
        proof {
            use_type_invariant(&*self);
        }
        self.paused = !self.paused;
    }

    /// Read faster by one step, up to the highest speed.
    pub fn increase_wpm(&mut self)
        ensures
            final(self)@ == old(self)@.faster(),
    {
        proof {
            use_type_invariant(&*self);
        }
        if self.wpm < 775 {
            self.wpm = self.wpm + 25;
        } else {
            self.wpm = 800;
        }
    }

    /// Read slower by one step, down to the lowest speed.
    pub fn decrease_wpm(&mut self)
        ensures
            final(self)@ == old(self)@.slower(),
    {
        proof {
            use_type_invariant(&*self);
        }
        if self.wpm > 125 {
            self.wpm = self.wpm - 25;
        } else {
            self.wpm = 100;
        }
    }

    /// Go to the next token, unless the current one is the last.
    pub fn advance(&mut self)
        ensures
            final(self)@ == old(self)@.advanced(),
    {
        proof {
            use_type_invariant(&*self);
        }
        if self.position < self.tokens.len().saturating_sub(1) {
            self.position = self.position + 1;
        }
    }

    /// Go back by ten tokens, or to the first.
    pub fn rewind_sentence(&mut self)
        ensures
            final(self)@ == old(self)@.rewound(),
    {
        proof {
            use_type_invariant(&*self);
        }
        self.position = self.position.saturating_sub(10);
    }

    /// Go forward by ten tokens, or to the last.
    pub fn skip_sentence(&mut self)
        ensures
            final(self)@ == old(self)@.skipped(),
    {
        proof {
            use_type_invariant(&*self);
        }
        let last = self.tokens.len().saturating_sub(1);
        if self.position < last && last - self.position > 10 {
            self.position = self.position + 10;
        } else {
            self.position = last;
        }
    }

    /// Switch between reading and the outline.
    pub fn toggle_outline(&mut self)
        ensures
            final(self)@ == old(self)@.outline_toggled(),
    {
        proof {
            use_type_invariant(&*self);
        }
        self.view_mode = match self.view_mode {
            ViewMode::Reading => ViewMode::Outline,
            ViewMode::Outline => ViewMode::Reading,
        };
    }

    /// Select the section before the selected one, if there is one.
    pub fn outline_up(&mut self)
        ensures
            final(self)@ == old(self)@.selection_up(),
    {
        proof {
            use_type_invariant(&*self);
        }
        self.outline_selection = self.outline_selection.saturating_sub(1);
    }

    /// Select the section after the selected one, or the last one.
    pub fn outline_down(&mut self)
        ensures
            final(self)@ == old(self)@.selection_down(),
    {
        proof {
            use_type_invariant(&*self);
        }
        let n = self.sections.len();
        if n > 0 {
            if self.outline_selection < n - 1 {
                self.outline_selection = self.outline_selection + 1;
            } else {
                self.outline_selection = n - 1;
            }
        }
    }

    /// Go to the start of the selected section and back to reading, if a
    /// section is selected.
    pub fn jump_to_section(&mut self)
        ensures
            final(self)@ == old(self)@.jumped(),
    {
        proof {
            use_type_invariant(&*self);
        }
        if self.outline_selection < self.sections.len() {
            self.position = self.sections[self.outline_selection].token_start;
            self.view_mode = ViewMode::Reading;
        }
    }

    /// Whether the help is shown.
    #[must_use]
    pub fn show_help(&self) -> (r: bool)
        ensures
            r == self@.show_help,
    {
        self.show_help
    }

    /// Show the help, or hide it.
    pub fn toggle_help(&mut self)
        ensures
            final(self)@ == old(self)@.help_toggled(),
    {
        proof {
            use_type_invariant(&*self);
        }
        self.show_help = !self.show_help;
    }

    /// What a key asks of this session.
    pub fn action_for(&self, key: Key, control: bool) -> (action: Action)
        ensures
            action == action_of(self@.view_mode, key, control),
    {
        let is_char = |c: char| -> (r: bool)
            ensures
                r == (key == Key::Char(c)),
            {
                match key {
                    Key::Char(k) => k == c,
                    _ => false,
                }
            };
        if control && is_char('c') {
            return Action::Quit;
        }
        if is_char('q') {
            return Action::Quit;
        }
        if is_char('?') {
            return Action::ToggleHelp;
        }
        match self.view_mode {
            ViewMode::Reading => match key {
                Key::Char(c) => {
                    if c == ' ' {
                        Action::TogglePause
                    } else if c == 'j' {
                        Action::DecreaseWpm
                    } else if c == 'k' {
                        Action::IncreaseWpm
                    } else if c == 'h' {
                        Action::RewindSentence
                    } else if c == 'l' {
                        Action::SkipSentence
                    } else if c == 'o' {
                        Action::ToggleOutline
                    } else {
                        Action::Nothing
                    }
                },
                Key::Down => Action::DecreaseWpm,
                Key::Up => Action::IncreaseWpm,
                Key::Left => Action::RewindSentence,
                Key::Right => Action::SkipSentence,
                _ => Action::Nothing,
            },
            ViewMode::Outline => match key {
                Key::Char(c) => {
                    if c == 'j' {
                        Action::OutlineDown
                    } else if c == 'k' {
                        Action::OutlineUp
                    } else if c == 'o' {
                        Action::ToggleOutline
                    } else {
                        Action::Nothing
                    }
                },
                Key::Down => Action::OutlineDown,
                Key::Up => Action::OutlineUp,
                Key::Enter => Action::JumpToSection,
                Key::Esc => Action::ToggleOutline,
                _ => Action::Nothing,
            },
        }
    }

    /// Handle a key that was pressed: the session does what the key asks
    /// in its view, and says whether it goes on.
    pub fn handle_key(&mut self, key: Key, control: bool) -> (flow: Flow)
        ensures
            final(self)@ == old(self)@.after(action_of(old(self)@.view_mode, key, control)),
            flow == (if action_of(old(self)@.view_mode, key, control) == Action::Quit {
                Flow::Quit
            } else {
                Flow::Continue
            }),
    {
        match self.action_for(key, control) {
            Action::Quit => {
                return Flow::Quit;
            },
            Action::Nothing => {},
            Action::ToggleHelp => self.toggle_help(),
            Action::TogglePause => self.toggle_pause(),
            Action::DecreaseWpm => self.decrease_wpm(),
            Action::IncreaseWpm => self.increase_wpm(),
            Action::RewindSentence => self.rewind_sentence(),
            Action::SkipSentence => self.skip_sentence(),
            Action::ToggleOutline => self.toggle_outline(),
            Action::OutlineDown => self.outline_down(),
            Action::OutlineUp => self.outline_up(),
            Action::JumpToSection => self.jump_to_section(),
        }
        Flow::Continue
    }

    /// Whether words come by themselves: the session reads and is not
    /// paused.
    #[must_use]
    pub fn is_running(&self) -> (r: bool)
        ensures
            r == self@.is_running(),
    {
        !self.paused && match self.view_mode {
            ViewMode::Reading => true,
            ViewMode::Outline => false,
        }
    }

    /// How long the current word is shown at the current speed, in
    /// milliseconds; `DEFAULT_DELAY_MS` where there is no current word.
    #[must_use]
    pub fn word_delay_ms(&self) -> (ms: u64)
        ensures
            ms == self@.word_delay(),
    {
        proof {
            use_type_invariant(self);
        }
        if self.position < self.tokens.len() {
            calculate_duration(&self.tokens[self.position].token, self.wpm)
        } else {
            200
        }
    }

    /// The title of the section that the position lies in: the last section
    /// that starts at or before it.
    #[must_use]
    pub fn current_section_title(&self) -> (r: Option<&str>)
        ensures
            match r {
                Some(title) => self@.current_section() matches Some(i) && title@
                    == self@.sections[i].title,
                None => self@.current_section() is None,
            },
    {
        let mut i: usize = self.sections.len();
        assert(views(self.sections@).take(i as int) =~= views(self.sections@));
        while i > 0
            invariant
                i <= self.sections.len(),
                section_at(views(self.sections@).take(i as int), self.position) == section_at(
                    views(self.sections@),
                    self.position,
                ),
            decreases i,
        {
            i = i - 1;
            proof {
                assert(views(self.sections@).take(i + 1).drop_last() =~= views(
                    self.sections@,
                ).take(i as int));
                assert(views(self.sections@).take(i + 1).last() == self.sections@[i as int]@);
            }
            if self.position >= self.sections[i].token_start {
                return Some(self.sections[i].title.as_str());
            }
        }
        None
    }

    /// Get tokens around current position for context display: up to
    /// `before` tokens before it, and up to `after` tokens after it.
    #[must_use]
    pub fn context_tokens(&self, before: usize, after: usize) -> (r: (&[TimedToken], &[TimedToken]))
        requires
            self@.position <= self@.tokens.len(),
        ensures
            views(r.0@) == self@.tokens.subrange(
                if self@.position >= before {
                    self@.position - before
                } else {
                    0
                },
                self@.position as int,
            ),
            views(r.1@) == (if self@.position + 1 < self@.tokens.len() {
                self@.tokens.subrange(
                    self@.position + 1,
                    if self@.position + after + 1 < self@.tokens.len() {
                        self@.position + after + 1
                    } else {
                        self@.tokens.len() as int
                    },
                )
            } else {
                Seq::empty()
            }),
    {
        let n = self.tokens.len();
        let start = self.position.saturating_sub(before);
        let all = self.tokens.as_slice();
        let before_slice = slice_subrange(all, start, self.position);
        proof {
            lemma_views_subrange(self.tokens@, start as int, self.position as int);
        }
        let after_slice = if self.position < n && n - self.position > 1 {
            let room = n - self.position - 1;
            let end = if after < room {
                self.position + after + 1
            } else {
                n
            };
            proof {
                lemma_views_subrange(self.tokens@, self.position + 1, end as int);
            }
            slice_subrange(all, self.position + 1, end)
        } else {
            proof {
                lemma_views_subrange(self.tokens@, n as int, n as int);
                assert(self@.tokens.subrange(n as int, n as int) =~= Seq::empty());
            }
            slice_subrange(all, n, n)
        };
        (before_slice, after_slice)
    }
}

} // verus!
