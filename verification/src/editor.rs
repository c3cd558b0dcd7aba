//! The cursor, the window on the document, and what a key does to them.

use crate::config::Config;
use crate::document::{lines, Document};
use crate::row::{DualRow, RowEdit, RowModel};
use crate::row_iterator::{segments, DiffPart, Segment};
use crate::terminal::Size;
use crate::text::{decimal, push_decimal};
use vstd::prelude::*;
use vstd::std_specs::ops::SubSpec;
use vstd::string::{StrSliceExecFns, StringExecFns};

verus! {

/// A place in the document or on the screen: column `x` of line `y`, both
/// counted from zero.
#[derive(Clone, Copy)]
pub struct Position {
    /// The column.
    pub x: usize,
    /// The line.
    pub y: usize,
}

impl Position {
    /// The place at column `x` of line `y`.
    pub fn new(x: usize, y: usize) -> (p: Self)
        ensures
            p.x == x,
            p.y == y,
    {
        Self { x, y }
    }
}

impl Default for Position {
    /// The top left corner.
    fn default() -> (p: Self)
        ensures
            p.x == 0,
            p.y == 0,
    {
        Position { x: 0, y: 0 }
    }
}

impl vstd::std_specs::ops::SubSpecImpl<Position> for Position {
    open spec fn obeys_sub_spec() -> bool {
        true
    }

    open spec fn sub_req(self, rhs: Position) -> bool {
        true
    }

    open spec fn sub_spec(self, rhs: Position) -> Position {
        Position {
            x: if self.x >= rhs.x {
                (self.x - rhs.x) as usize
            } else {
                0
            },
            y: if self.y >= rhs.y {
                (self.y - rhs.y) as usize
            } else {
                0
            },
        }
    }
}

impl core::ops::Sub<Position> for Position {
    type Output = Position;

    /// The place as seen from `rhs`: each coordinate less that of `rhs`, but
    /// not below zero.
    fn sub(self, rhs: Position) -> (out: Position) {
        Position { x: self.x.saturating_sub(rhs.x), y: self.y.saturating_sub(rhs.y) }
    }
}

/// A key, as far as the editor tells keys apart.
#[derive(Debug, Clone, Copy)]
pub enum Key {
    /// The key that erases.
    Backspace,
    /// Left arrow.
    Left,
    /// Right arrow.
    Right,
    /// Up arrow.
    Up,
    /// Down arrow.
    Down,
    /// A character.
    Char(char),
    /// A character with the control key held.
    Ctrl(char),
    /// Any other key.
    Other,
}

/// `value + step`, but `max_value` where the sum would reach or pass it.
pub fn clamp_add(value: usize, step: usize, max_value: usize) -> (sum: usize)
    ensures
        sum == if value + step < max_value {
            value + step
        } else {
            max_value as int
        },
{
    if step < max_value && value < max_value - step {
        value + step
    } else {
        max_value
    }
}

/// Length of the reference of row `row`; 0 where there is no such row.
pub open spec fn row_len_at(rows: Seq<RowModel>, row: int) -> int {
    if 0 <= row < rows.len() {
        rows[row].reference.len() as int
    } else {
        0
    }
}

/// Index of the last row; 0 in a document without rows.
pub open spec fn last_row(rows: Seq<RowModel>) -> int {
    if rows.len() > 0 {
        rows.len() - 1
    } else {
        0
    }
}

/// The cursor stands on a row of the document, or on line 0 of a document
/// without rows, and no further right than the end of that row's reference.
pub open spec fn cursor_in_document(rows: Seq<RowModel>, cursor: Position) -> bool {
    cursor.y <= last_row(rows) && cursor.x <= row_len_at(rows, cursor.y as int)
}

/// One column to the left; from the start of a row to the end of the row
/// above; at the start of the first row, no move.
pub open spec fn move_left(rows: Seq<RowModel>, cursor: Position) -> Position {
    if cursor.x > 0 {
        Position { x: (cursor.x - 1) as usize, y: cursor.y }
    } else if cursor.y > 0 {
        Position { x: row_len_at(rows, cursor.y - 1) as usize, y: (cursor.y - 1) as usize }
    } else {
        cursor
    }
}

/// One column to the right; from the end of a row to the start of the row
/// below; at the end of the last row, no move.
pub open spec fn move_right(rows: Seq<RowModel>, cursor: Position) -> Position {
    if cursor.x < row_len_at(rows, cursor.y as int) {
        Position { x: (cursor.x + 1) as usize, y: cursor.y }
    } else if cursor.y < rows.len() - 1 {
        Position { x: 0, y: (cursor.y + 1) as usize }
    } else {
        cursor
    }
}

/// The column `x`, but no further right than the end of row `y`.
pub open spec fn at_row(rows: Seq<RowModel>, x: usize, y: int) -> Position {
    Position {
        x: if x <= row_len_at(rows, y) {
            x
        } else {
            row_len_at(rows, y) as usize
        },
        y: y as usize,
    }
}

/// One row up, but not above the first; the column stays, but goes no
/// further right than the end of the new row.
pub open spec fn move_up(rows: Seq<RowModel>, cursor: Position) -> Position {
    at_row(
        rows,
        cursor.x,
        if cursor.y > 0 {
            cursor.y - 1
        } else {
            0
        },
    )
}

/// One row down, but not below the last; the column stays, but goes no
/// further right than the end of the new row.
pub open spec fn move_down(rows: Seq<RowModel>, cursor: Position) -> Position {
    at_row(
        rows,
        cursor.x,
        if cursor.y + 1 <= last_row(rows) {
            cursor.y + 1
        } else {
            last_row(rows)
        },
    )
}

/// Where the cursor goes on `key`: an arrow moves it, any other key leaves
/// it where it is.
pub open spec fn moved(rows: Seq<RowModel>, cursor: Position, key: Key) -> Position {
    match key {
        Key::Left => move_left(rows, cursor),
        Key::Right => move_right(rows, cursor),
        Key::Up => move_up(rows, cursor),
        Key::Down => move_down(rows, cursor),
        _ => cursor,
    }
}

/// A move keeps the cursor in the document.
pub proof fn lemma_moved_stays_in_document(rows: Seq<RowModel>, cursor: Position, key: Key)
    requires
        cursor_in_document(rows, cursor),
        rows.len() <= usize::MAX,
        forall|i: int| 0 <= i < rows.len() ==> (#[trigger] rows[i]).reference.len() <= usize::MAX,
    ensures
        cursor_in_document(rows, moved(rows, cursor, key)),
{
}

/// At the start of the first row a move to the left goes nowhere, and at
/// the end of the last row a move to the right goes nowhere.
pub proof fn lemma_moves_stop_at_the_ends(rows: Seq<RowModel>, cursor: Position)
    ensures
        cursor.x == 0 && cursor.y == 0 ==> move_left(rows, cursor) == cursor,
        cursor.y == rows.len() - 1 && cursor.x == row_len_at(rows, cursor.y as int) ==> move_right(
            rows,
            cursor,
        ) == cursor,
{
}

/// Moving right from the end of a row that is not the last leads to the
/// start of the next row, and moving left from there leads back.
pub proof fn lemma_wrap_and_back(rows: Seq<RowModel>, cursor: Position)
    requires
        cursor.y + 1 < rows.len(),
        rows.len() <= usize::MAX,
        rows[cursor.y as int].reference.len() <= usize::MAX,
        cursor.x == row_len_at(rows, cursor.y as int),
    ensures
        move_right(rows, cursor) == (Position { x: 0, y: (cursor.y + 1) as usize }),
        move_left(rows, move_right(rows, cursor)) == cursor,
{
}

/// Where a window of `extent` cells that started at `offset` starts once it
/// has followed the cursor: at the cursor if that stood before the window,
/// just far enough for the cursor to be its last cell if that stood behind
/// it, and where it was otherwise.
pub open spec fn scroll_axis(cursor: usize, offset: usize, extent: usize) -> usize {
    if cursor < offset {
        cursor
    } else if cursor >= offset + extent {
        if cursor - extent + 1 <= usize::MAX {
            (cursor - extent + 1) as usize
        } else {
            usize::MAX
        }
    } else {
        offset
    }
}

/// The window after it has followed the cursor, each axis by itself.
pub open spec fn scrolled(cursor: Position, offset: Position, size: Size) -> Position {
    Position {
        x: scroll_axis(cursor.x, offset.x, size.width),
        y: scroll_axis(cursor.y, offset.y, size.height),
    }
}

/// A window that is not empty holds the cursor once it has followed it, and
/// a window that held the cursor already does not move.
pub proof fn lemma_scroll_axis_follows(cursor: usize, offset: usize, extent: usize)
    ensures
        extent > 0 ==> scroll_axis(cursor, offset, extent) <= cursor < scroll_axis(
            cursor,
            offset,
            extent,
        ) + extent,
        offset <= cursor < offset + extent ==> scroll_axis(cursor, offset, extent) == offset,
        extent > 0 ==> scroll_axis(cursor, scroll_axis(cursor, offset, extent), extent)
            == scroll_axis(cursor, offset, extent),
{
}

/// Whether `c` is a character that is typed into a row: a printable
/// character of ASCII, the space among them.
pub open spec fn typable(c: char) -> bool {
    0x20 <= c as u32 <= 0x7e
}

/// Whether `c` is a character that is typed into a row.
pub fn is_typable(c: char) -> (b: bool)
    ensures
        b == typable(c),
{
    ' ' <= c && c <= '~'
}

/// The rows after the edit `e` of row `y`; unchanged where there is no such
/// row.
pub open spec fn edited(rows: Seq<RowModel>, y: int, e: RowEdit) -> Seq<RowModel> {
    if 0 <= y < rows.len() {
        rows.update(y, rows[y].edit(e))
    } else {
        rows
    }
}

/// The sequence that switches on the colour of a segment: the colour for
/// what matches, the colour for what does not, or the default colour for
/// what was not attempted.
pub open spec fn colour_of(config: Config, part: Segment) -> Seq<char> {
    match part {
        Segment::Match(_) => config.fg_color_match@,
        Segment::Mismatch(_) => config.fg_color_mismatch@,
        Segment::Untouched(_) => config.fg_color_default@,
    }
}

/// The segments in order, each after the sequence that switches on its
/// colour.
pub open spec fn painted(config: Config, parts: Seq<Segment>) -> Seq<char>
    decreases parts.len(),
{
    if parts.len() == 0 {
        Seq::empty()
    } else {
        painted(config, parts.drop_last()) + colour_of(config, parts.last()) + parts.last().text()
    }
}

/// A row in colours: its segments, painted, and the default colour
/// switched on again behind them.
pub open spec fn row_in_colours(config: Config, row: RowModel) -> Seq<char> {
    painted(config, segments(row.reference, row.typed)) + config.fg_color_default@
}

/// `n` spaces.
pub open spec fn spaces(n: nat) -> Seq<char> {
    Seq::new(n, |i: int| ' ')
}

/// What the editor holds, as plain values.
pub struct EditorModel {
    /// The rows of the document.
    pub rows: Seq<RowModel>,
    /// The cursor, as a place in the document.
    pub cursor: Position,
    /// The place in the document that the top left cell of the window shows.
    pub offset: Position,
    /// Whether the key that ends the session was pressed.
    pub should_quit: bool,
    /// The character typed last.
    pub current_char: Option<char>,
}

impl EditorModel {
    /// Whether the cursor stands on a row of the document.
    pub open spec fn on_row(self) -> bool {
        self.cursor.y < self.rows.len()
    }

    /// The editor after `key`, before the window follows the cursor.
    ///
    /// Control and `q` asks to end the session. The erasing key erases on
    /// the cursor's row and then moves the cursor left, whether or not
    /// anything was erased. A typable character is typed on the cursor's row,
    /// and the cursor moves right if the row took it. A line feed at the end
    /// of a row moves the cursor right, to the next row. No other key does
    /// anything: the arrows are not bound, the cursor follows the typing.
    pub open spec fn after_key(self, key: Key) -> EditorModel {
        match key {
            Key::Ctrl(c) => if c == 'q' {
                EditorModel { should_quit: true, ..self }
            } else {
                self
            },
            Key::Backspace => EditorModel {
                rows: edited(self.rows, self.cursor.y as int, RowEdit::Erase),
                cursor: move_left(self.rows, self.cursor),
                ..self
            },
            Key::Char(c) => if typable(c) {
                EditorModel {
                    rows: edited(self.rows, self.cursor.y as int, RowEdit::Type(c)),
                    cursor: if self.on_row() && self.rows[self.cursor.y as int].accepts() {
                        move_right(self.rows, self.cursor)
                    } else {
                        self.cursor
                    },
                    current_char: Some(c),
                    ..self
                }
            } else if c == '\n' && self.on_row() && self.cursor.x == row_len_at(
                self.rows,
                self.cursor.y as int,
            ) {
                EditorModel { cursor: move_right(self.rows, self.cursor), ..self }
            } else {
                self
            },
            _ => self,
        }
    }

    /// What line `line` of the window shows, on a screen `width` columns
    /// wide. A row down to the cursor's shows in colours, all of it; a row
    /// below shows without colours, from the window's first column on, as far
    /// as the screen is wide; and below the document there is a tilde.
    pub open spec fn screen_row(self, config: Config, line: int, width: int) -> Seq<char> {
        let row = line + self.offset.y;
        if row < self.rows.len() {
            if self.cursor.y >= row {
                row_in_colours(config, self.rows[row])
            } else {
                self.rows[row].render(self.offset.x as int, self.offset.x + width)
            }
        } else {
            "~"@
        }
    }

    /// What the status bar says: the character typed last, or the
    /// character zero before any was, then the cursor's column over the
    /// length of its row, and its row over the number of rows.
    pub open spec fn status_text(self) -> Seq<char> {
        let typed = match self.current_char {
            Some(c) => c,
            None => '\0',
        };
        "current char '"@ + seq![typed] + "' at "@ + decimal(self.cursor.x as nat) + "/"@ + decimal(
            row_len_at(self.rows, self.cursor.y as int) as nat,
        ) + ", line "@ + decimal(self.cursor.y as nat) + "/"@ + decimal(self.rows.len())
    }

    /// The status bar on a screen `width` columns wide: its colours, the
    /// text moved to the right edge by spaces, and the default colours
    /// switched on again.
    pub open spec fn status_bar(self, config: Config, width: int) -> Seq<char> {
        config.bg_color_status_bar@ + config.fg_color_status_bar@ + spaces(
            (width - self.status_text().len()) as nat,
        ) + self.status_text() + config.fg_color_default@ + config.bg_color_default@
    }

    /// The editor after `key`, on a screen that shows `size` cells of the
    /// document: what the key does, and then the window follows the cursor.
    pub open spec fn step(self, key: Key, size: Size) -> EditorModel {
        let next = self.after_key(key);
        EditorModel { offset: scrolled(next.cursor, next.offset, size), ..next }
    }
}

/// A document with its cursor and the window that follows it.
pub struct Editor {
    config: Config,
    should_quit: bool,
    document_pos: Position,
    offset_to_document_pos: Position,
    document: Document,
    current_char: Option<char>,
}

impl View for Editor {
    type V = EditorModel;

    closed spec fn view(&self) -> EditorModel {
        EditorModel {
            rows: self.document@,
            cursor: self.document_pos,
            offset: self.offset_to_document_pos,
            should_quit: self.should_quit,
            current_char: self.current_char,
        }
    }
}

impl Editor {
    /// The colours that the editor paints with.
    pub closed spec fn colours(&self) -> Config {
        self.config
    }

    /// The document is well formed and the cursor stands in it.
    pub closed spec fn wf(&self) -> bool {
        self.document.wf() && cursor_in_document(self.document@, self.document_pos)
    }

    /// In an editor that is well formed, every row keeps its invariant and
    /// the cursor stands in the document.
    pub proof fn lemma_wf(&self)
        requires
            self.wf(),
        ensures
            cursor_in_document(self@.rows, self@.cursor),
            self@.rows.len() <= usize::MAX,
            forall|i: int| 0 <= i < self@.rows.len() ==> (#[trigger] self@.rows[i]).inv(),
            forall|i: int|
                0 <= i < self@.rows.len() ==> (#[trigger] self@.rows[i]).reference.len()
                    <= usize::MAX,
    {
        self.document.lemma_rows_inv();
        self.document.lemma_rows_fit();
    }

    /// An editor on `document`, painted with `config`: the cursor and the
    /// window stand at the top left corner.
    pub fn new(document: Document, config: Config) -> (editor: Self)
        requires
            document.wf(),
        ensures
            editor.wf(),
            editor.colours() == config,
            editor@ == (EditorModel {
                rows: document@,
                cursor: Position { x: 0, y: 0 },
                offset: Position { x: 0, y: 0 },
                should_quit: false,
                current_char: None,
            }),
    {
        Editor {
            config,
            should_quit: false,
            document_pos: Position::default(),
            offset_to_document_pos: Position::default(),
            document,
            current_char: None,
        }
    }

    /// An editor on the document of `text`, painted with the default
    /// colours.
    pub fn with_text(text: &str) -> (editor: Self)
        ensures
            editor.wf(),
            editor.colours().is_default(),
            editor@ == (EditorModel {
                rows: lines(text@).map_values(|line: Seq<char>| RowModel::fresh(line)),
                cursor: Position { x: 0, y: 0 },
                offset: Position { x: 0, y: 0 },
                should_quit: false,
                current_char: None,
            }),
    {
        Editor::new(Document::from_text(text), Config::default())
    }

    /// Whether the key that ends the session was pressed.
    pub fn should_quit(&self) -> (b: bool)
        ensures
            b == self@.should_quit,
    {
        self.should_quit
    }

    /// The cursor, as a place in the document.
    pub fn position(&self) -> (p: Position)
        ensures
            p == self@.cursor,
    {
        self.document_pos
    }

    /// The place in the document that the top left cell of the window shows.
    pub fn offset(&self) -> (p: Position)
        ensures
            p == self@.offset,
    {
        self.offset_to_document_pos
    }

    /// The character typed last.
    pub fn current_char(&self) -> (c: Option<char>)
        ensures
            c == self@.current_char,
    {
        self.current_char
    }

    /// The document.
    pub fn document(&self) -> (document: &Document)
        requires
            self.wf(),
        ensures
            document.wf(),
            document@ == self@.rows,
    {
        &self.document
    }

    /// The colours that the editor paints with.
    pub fn config(&self) -> (config: &Config)
        ensures
            *config == self.colours(),
    {
        &self.config
    }

    /// The cursor, as a place on the screen: its place in the document as
    /// seen from the window's top left cell.
    pub fn screen_position(&self) -> (p: Position)
        ensures
            p == self@.cursor.sub_spec(self@.offset),
    {
        self.document_pos - self.offset_to_document_pos
    }

    /// The row in colours: each of its segments after the sequence that
    /// switches on its colour, and the default colour behind them.
    pub fn draw_row_diff(&self, row: &DualRow) -> (line: String)
        ensures
            line@ == row_in_colours(self.colours(), row@),
    {
        let parts = row.diff_parts().to_vec();
        let ghost all = segments(row@.reference, row@.typed);
        let mut colored = String::new();
        let mut i: usize = 0;
        while i < parts.len()
            invariant
                i <= parts@.len(),
                parts@.map_values(|p: DiffPart| p@) == all,
                colored@ == painted(self.config, all.take(i as int)),
            decreases parts@.len() - i,
        {
            match parts[i] {
                DiffPart::Match(s) => {
                    colored.append(self.config.fg_color_match.as_str());
                    colored.append(s);
                },
                DiffPart::Mismatch(s) => {
                    colored.append(self.config.fg_color_mismatch.as_str());
                    colored.append(s);
                },
                DiffPart::Untouched(s) => {
                    colored.append(self.config.fg_color_default.as_str());
                    colored.append(s);
                },
            }
            i += 1;
            proof {
                let now = all.take(i as int);
                assert(now.drop_last() =~= all.take(i - 1));
            }
        }
        assert(all.take(i as int) =~= all);
        colored.append(self.config.fg_color_default.as_str());
        colored
    }

    /// The row without colours, from the window's first column on, as far
    /// as a screen of `width` columns shows it.
    pub fn draw_row(&self, row: &DualRow, width: usize) -> (line: String)
        requires
            row.wf(),
        ensures
            line@ == row@.render(self@.offset.x as int, self@.offset.x + width),
    {
        let start = self.offset_to_document_pos.x;
        let end = start.saturating_add(width);
        proof {
            row.lemma_fits();
        }
        row.render(start, end)
    }

    /// The lines of the window, top to bottom, on a screen that shows
    /// `size` cells of the document.
    pub fn draw_rows(&self, size: Size) -> (screen: Vec<String>)
        requires
            self.wf(),
        ensures
            screen@.len() == size.height,
            forall|line: int|
                0 <= line < size.height ==> (#[trigger] screen@[line])@ == self@.screen_row(
                    self.colours(),
                    line,
                    size.width as int,
                ),
    {
        let mut screen: Vec<String> = Vec::new();
        let mut terminal_row: usize = 0;
        while terminal_row < size.height
            invariant
                self.wf(),
                terminal_row <= size.height,
                screen@.len() == terminal_row,
                forall|line: int|
                    0 <= line < terminal_row ==> (#[trigger] screen@[line])@ == self@.screen_row(
                        self.colours(),
                        line,
                        size.width as int,
                    ),
            decreases size.height - terminal_row,
        {
            let line = match terminal_row.checked_add(self.offset_to_document_pos.y) {
                Some(document_row) => match self.document.row(document_row) {
                    Some(row) => {
                        if self.document_pos.y >= document_row {
                            self.draw_row_diff(row)
                        } else {
                            self.draw_row(row, size.width)
                        }
                    },
                    None => String::from_str("~"),
                },
                None => String::from_str("~"),
            };
            proof {
                self.document.lemma_rows_fit();
            }
            assert(line@ == self@.screen_row(
                self.colours(),
                terminal_row as int,
                size.width as int,
            ));
            screen.push(line);
            terminal_row += 1;
        }
        screen
    }

    /// What the status bar says.
    pub fn status_text(&self) -> (text: String)
        requires
            self.wf(),
        ensures
            text@ == self@.status_text(),
    {
        let Position { x, y } = self.document_pos;
        let typed = match self.current_char {
            Some(c) => c,
            None => '\0',
        };
        let mut text = String::from_str("current char '");
        text.push(typed);
        text.append("' at ");
        push_decimal(&mut text, x);
        text.append("/");
        push_decimal(&mut text, self.document.row_len(y));
        text.append(", line ");
        push_decimal(&mut text, y);
        text.append("/");
        push_decimal(&mut text, self.document.len());
        text
    }

    /// The status bar on a screen `width` columns wide, which must have
    /// room for what the bar says.
    pub fn draw_status_bar(&self, width: usize) -> (bar: String)
        requires
            self.wf(),
            self@.status_text().len() <= width,
        ensures
            bar@ == self@.status_bar(self.colours(), width as int),
    {
        let position = self.status_text();
        let room = width - position.as_str().unicode_len();
        let mut bar = String::new();
        bar.append(self.config.bg_color_status_bar.as_str());
        bar.append(self.config.fg_color_status_bar.as_str());
        let mut i: usize = 0;
        while i < room
            invariant
                i <= room,
                bar@ == self.config.bg_color_status_bar@ + self.config.fg_color_status_bar@
                    + spaces(i as nat),
            decreases room - i,
        {
            bar.push(' ');
            i += 1;
        }
        bar.append(position.as_str());
        bar.append(self.config.fg_color_default.as_str());
        bar.append(self.config.bg_color_default.as_str());
        bar
    }

    /// Moves the cursor as the arrow `key` says; any other key leaves it
    /// where it is.
    pub fn move_cursor(&mut self, key: Key)
        requires
            old(self).wf(),
        ensures
            final(self).wf(),
            final(self).colours() == old(self).colours(),
            final(self)@ == (EditorModel {
                cursor: moved(old(self)@.rows, old(self)@.cursor, key),
                ..old(self)@
            }),
    {
        let Position { x: x_old, y: y_old } = self.document_pos;
        let (mut x_new, mut y_new) = (x_old, y_old);
        proof {
            self.document.lemma_rows_fit();
        }
        let height = self.document.len();
        let x_max = self.document.row_len(y_old);

        match key {
            Key::Up => {
                y_new = y_old.saturating_sub(1);
                x_new = self.document.row_len(y_new).min(x_new);
            },
            Key::Down => {
                y_new = height.saturating_sub(1).min(y_old.saturating_add(1));
                x_new = self.document.row_len(y_new).min(x_new);
            },
            Key::Left => {
                if x_old == 0 && y_old != 0 {
                    y_new = y_old.saturating_sub(1);
                    x_new = self.document.row_len(y_new);
                } else {
                    x_new = x_old.saturating_sub(1);
                }
            },
            Key::Right => {
                if x_old == x_max && y_old != height.saturating_sub(1) {
                    x_new = 0;
                    y_new = y_old + 1;
                } else {
                    x_new = clamp_add(x_old, 1, x_max);
                }
            },
            _ => (),
        };
        self.document_pos = Position::new(x_new, y_new);
    }

    /// Does what `key` asks for, and lets the window follow the cursor on a
    /// screen that shows `size` cells of the document.
    pub fn process_keypress(&mut self, key: Key, size: Size)
        requires
            old(self).wf(),
        ensures
            final(self).wf(),
            final(self).colours() == old(self).colours(),
            final(self)@ == old(self)@.step(key, size),
    {
        let y = self.document_pos.y;
        match key {
            Key::Ctrl(c) => {
                if c == 'q' {
                    self.should_quit = true;
                }
            },
            Key::Backspace => {
                if let Some(row) = self.document.row_mut(y) {
                    row.pop_char();
                }
                self.move_cursor(Key::Left);
            },
            Key::Char(c) => {
                if is_typable(c) {
                    self.current_char = Some(c);
                    let mut accepted = false;
                    if let Some(row) = self.document.row_mut(y) {
                        accepted = row.accepts();
                        row.push_char(c);
                    }
                    if accepted {
                        self.move_cursor(Key::Right);
                    }
                } else if c == '\n' {
                    let at_end = match self.document.row(y) {
                        Some(row) => self.document_pos.x == row.len(),
                        None => false,
                    };
                    if at_end {
                        self.move_cursor(Key::Right);
                    }
                }
            },
            _ => (),
        }
        self.scroll(size);
    }

    /// Lets the window follow the cursor on a screen that shows `size`
    /// cells of the document.
    pub fn scroll(&mut self, size: Size)
        requires
            old(self).wf(),
        ensures
            final(self).wf(),
            final(self).colours() == old(self).colours(),
            final(self)@ == (EditorModel {
                offset: scrolled(old(self)@.cursor, old(self)@.offset, size),
                ..old(self)@
            }),
    {
        let Position { x, y } = self.document_pos;
        let offset = self.offset_to_document_pos;
        self.offset_to_document_pos = Position::new(
            follow(x, offset.x, size.width),
            follow(y, offset.y, size.height),
        );
    }
}

/// Where a window of `extent` cells that started at `offset` starts once it
/// has followed the cursor.
pub fn follow(cursor: usize, offset: usize, extent: usize) -> (start: usize)
    ensures
        start == scroll_axis(cursor, offset, extent),
{
    if cursor < offset {
        cursor
    } else if cursor - offset >= extent {
        (cursor - extent).saturating_add(1)
    } else {
        offset
    }
}

} // verus!
