//! The editing session: what one key press does to the document, the cursor, the scroll
//! offset and the quit confirmation count. Reading keys and drawing are left to the caller.
use crate::document::Document;
use crate::viewport::{move_cursor, moved, scroll, scrolled, Direction, Position};
use vstd::prelude::*;

verus! {

/// How many times quitting with unsaved changes must be asked for before it happens.
pub const QUIT_TIMES: u8 = 3;

/// A key press, as the session sees it.
#[derive(Clone, Copy, Debug, PartialEq, Eq, Structural)]
pub enum Key {
    Char(char),
    Ctrl(char),
    Up,
    Down,
    Left,
    Right,
    Delete,
    Backspace,
    Other,
}

/// What the caller has to do after a key press.
#[derive(Clone, Copy, Debug, PartialEq, Eq, Structural)]
pub struct Reaction {
    /// Save the document.
    pub save: bool,
    /// Warn that there are unsaved changes.
    pub warn_unsaved: bool,
    /// Clear the status message.
    pub clear_status: bool,
}

/// `after` is `before` with `c` inserted at `at`, as `Document::insert` leaves it.
pub open spec fn inserted(before: Document, after: Document, at: Position, c: char) -> bool {
    &&& after.wf()
    &&& after@ == before.after_insert(at.x as int, at.y as int, c)
    &&& after.dirty() == (before.dirty() || before.inserts(at.y as int, c))
    &&& after.file() == before.file()
}

/// `after` is `before` with a delete at `at`, as `Document::delete` leaves it.
pub open spec fn deleted(before: Document, after: Document, at: Position) -> bool {
    &&& after.wf()
    &&& after@ == before.after_delete(at.x as int, at.y as int)
    &&& after.dirty() == (before.dirty() || before.deletes(at.x as int, at.y as int))
    &&& after.file() == before.file()
}

/// The edit and the cursor move that `key` makes, from document `before` and cursor `c0`
/// to document `after` and cursor `c1`.
pub open spec fn edited(
    before: Document,
    after: Document,
    c0: Position,
    c1: Position,
    key: Key,
) -> bool {
    match key {
        Key::Char(c) => inserted(before, after, c0, c) && c1 == moved(c0, Direction::Right, after),
        Key::Delete => deleted(before, after, c0) && c1 == c0,
        Key::Backspace => if c0.x > 0 || c0.y > 0 {
            let p = moved(c0, Direction::Left, before);
            deleted(before, after, p) && c1 == p
        } else {
            after == before && c1 == c0
        },
        Key::Up => after == before && c1 == moved(c0, Direction::Up, before),
        Key::Down => after == before && c1 == moved(c0, Direction::Down, before),
        Key::Left => after == before && c1 == moved(c0, Direction::Left, before),
        Key::Right => after == before && c1 == moved(c0, Direction::Right, before),
        _ => after == before && c1 == c0,
    }
}

/// The state of one editing session.
pub struct Editor {
    should_quit: bool,
    cursor_position: Position,
    document: Document,
    offset: Position,
    quit_times: u8,
}

impl Editor {
    pub closed spec fn quitting(&self) -> bool {
        self.should_quit
    }

    pub closed spec fn cursor(&self) -> Position {
        self.cursor_position
    }

    pub closed spec fn doc(&self) -> Document {
        self.document
    }

    pub closed spec fn scroll_offset(&self) -> Position {
        self.offset
    }

    /// How many more requests to quit with unsaved changes are met with a warning.
    pub closed spec fn quit_count(&self) -> u8 {
        self.quit_times
    }

    /// The document is well formed and the quit count is within its bound.
    pub open spec fn wf(&self) -> bool {
        &&& self.doc().wf()
        &&& self.quit_count() <= QUIT_TIMES
    }

    /// Whether `key` asks to quit while unsaved changes still call for a warning.
    pub open spec fn blocks_quit(&self, key: Key) -> bool {
        key == Key::Ctrl('q') && self.quit_count() > 0 && self.doc().dirty()
    }

    /// A session on `document`, with the cursor and the view at the top left.
    pub fn new(document: Document) -> (r: Editor)
        requires
            document.wf(),
        ensures
            r.wf(),
            r.doc() == document,
            r.cursor() == (Position { x: 0, y: 0 }),
            r.scroll_offset() == (Position { x: 0, y: 0 }),
            r.quit_count() == QUIT_TIMES,
            !r.quitting(),
    {
        Editor {
            should_quit: false,
            cursor_position: Position { x: 0, y: 0 },
            document,
            offset: Position { x: 0, y: 0 },
            quit_times: QUIT_TIMES,
        }
    }

    /// Applies one key press in a `width` by `height` window. A request to quit with
    /// unsaved changes is refused with a warning until it has been made `QUIT_TIMES` times
    /// in a row; any other key edits or moves, scrolls the cursor into view and restores
    /// the count.
    pub fn process_key(&mut self, key: Key, width: usize, height: usize) -> (r: Reaction)
        requires
            old(self).wf(),
        ensures
            final(self).wf(),
            old(self).blocks_quit(key) ==> {
                &&& r == (Reaction { save: false, warn_unsaved: true, clear_status: false })
                &&& final(self).quit_count() == old(self).quit_count() - 1
                &&& final(self).quitting() == old(self).quitting()
                &&& final(self).doc() == old(self).doc()
                &&& final(self).cursor() == old(self).cursor()
                &&& final(self).scroll_offset() == old(self).scroll_offset()
            },
            !old(self).blocks_quit(key) ==> {
                &&& r == (Reaction {
                    save: key == Key::Ctrl('s'),
                    warn_unsaved: false,
                    clear_status: old(self).quit_count() < QUIT_TIMES,
                })
                &&& final(self).quit_count() == QUIT_TIMES
                &&& final(self).quitting() == (old(self).quitting() || key == Key::Ctrl('q'))
                &&& edited(
                    old(self).doc(),
                    final(self).doc(),
                    old(self).cursor(),
                    final(self).cursor(),
                    key,
                )
                &&& final(self).scroll_offset() == scrolled(
                    final(self).cursor(),
                    old(self).scroll_offset(),
                    width as int,
                    height as int,
                )
            },
    {
        let mut save = false;
        if key == Key::Ctrl('q') {
            if self.quit_times > 0 && self.document.is_dirty() {
                self.quit_times = self.quit_times - 1;
                return Reaction { save: false, warn_unsaved: true, clear_status: false };
            }
            self.should_quit = true;
        } else if key == Key::Ctrl('s') {
            save = true;
        } else {
            let cursor = self.cursor_position;
            match key {
                Key::Char(c) => {
                    self.document.insert(&cursor, c);
                    self.cursor_position = move_cursor(cursor, Direction::Right, &self.document);
                },
                Key::Delete => {
                    self.document.delete(&cursor);
                },
                Key::Backspace => {
                    if cursor.x > 0 || cursor.y > 0 {
                        let back = move_cursor(cursor, Direction::Left, &self.document);
                        self.cursor_position = back;
                        self.document.delete(&back);
                    }
                },
                Key::Up => {
                    self.cursor_position = move_cursor(cursor, Direction::Up, &self.document);
                },
                Key::Down => {
                    self.cursor_position = move_cursor(cursor, Direction::Down, &self.document);
                },
                Key::Left => {
                    self.cursor_position = move_cursor(cursor, Direction::Left, &self.document);
                },
                Key::Right => {
                    self.cursor_position = move_cursor(cursor, Direction::Right, &self.document);
                },
                _ => {},
            }
        }
        self.offset = scroll(self.cursor_position, self.offset, width, height);
        let clear = self.quit_times < QUIT_TIMES;
        self.quit_times = QUIT_TIMES;
        Reaction { save, warn_unsaved: false, clear_status: clear }
    }

    /// Whether the session has ended.
    pub fn should_quit(&self) -> (r: bool)
        ensures
            r == self.quitting(),
    {
        self.should_quit
    }

    /// Where the cursor stands in the document.
    pub fn cursor_position(&self) -> (r: Position)
        ensures
            r == self.cursor(),
    {
        self.cursor_position
    }

    /// The top-left document cell of the view.
    pub fn offset(&self) -> (r: Position)
        ensures
            r == self.scroll_offset(),
    {
        self.offset
    }

    /// The document being edited.
    pub fn document(&self) -> (r: &Document)
        ensures
            *r == self.doc(),
    {
        &self.document
    }

    /// Binds the document to the file `name`.
    pub fn set_file_name(&mut self, name: String)
        requires
            old(self).wf(),
        ensures
            final(self).wf(),
            final(self).doc().file() == Some(name@),
            final(self).doc().lines() == old(self).doc().lines(),
            final(self).doc().dirty() == old(self).doc().dirty(),
            final(self).cursor() == old(self).cursor(),
            final(self).scroll_offset() == old(self).scroll_offset(),
            final(self).quit_count() == old(self).quit_count(),
            final(self).quitting() == old(self).quitting(),
    {
        self.document.set_file_name(name);
    }

    /// Records that the document was written out.
    pub fn mark_saved(&mut self)
        requires
            old(self).wf(),
        ensures
            final(self).wf(),
            !final(self).doc().dirty(),
            final(self).doc().lines() == old(self).doc().lines(),
            final(self).doc().file() == old(self).doc().file(),
            final(self).cursor() == old(self).cursor(),
            final(self).scroll_offset() == old(self).scroll_offset(),
            final(self).quit_count() == old(self).quit_count(),
            final(self).quitting() == old(self).quitting(),
    {
        self.document.mark_saved();
    }
}

} // verus!
