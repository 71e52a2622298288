//! The line buffer: an ordered list of lines, the file it came from, and whether it has
//! changed since it was last saved.
use crate::row::{lemma_split_then_append, Row};
use crate::text::{chars_of, push_char, string_of};
use crate::viewport::Position;
use vstd::prelude::*;

verus! {

/// The pieces of `s` between newline characters: always one more than there are newlines.
pub open spec fn pieces(s: Seq<char>) -> Seq<Seq<char>>
    decreases s.len(),
{
    if s.len() == 0 {
        seq![Seq::empty()]
    } else {
        let p = pieces(s.drop_last());
        if s.last() == '\n' {
            p.push(Seq::empty())
        } else {
            p.update(p.len() - 1, p.last().push(s.last()))
        }
    }
}

/// A line without the carriage return that ended it, if any.
pub open spec fn strip_cr(l: Seq<char>) -> Seq<char> {
    if l.len() > 0 && l.last() == '\r' {
        l.drop_last()
    } else {
        l
    }
}

/// The lines of a text: split at `\n` or `\r\n`; a final line ending adds no empty line.
pub open spec fn lines_of(s: Seq<char>) -> Seq<Seq<char>> {
    let p = pieces(s);
    let ended = p.drop_last().map_values(|l: Seq<char>| strip_cr(l));
    if p.last().len() == 0 {
        ended
    } else {
        ended.push(p.last())
    }
}

/// The texts of a sequence of lines.
pub open spec fn texts(rows: Seq<Row>) -> Seq<Seq<char>> {
    rows.map_values(|r: Row| r@)
}

/// Each line followed by a newline, all in order.
pub open spec fn saved_form(lines: Seq<Seq<char>>) -> Seq<char> {
    lines.map_values(|l: Seq<char>| l.push('\n')).flatten()
}

/// The lines of a text being edited, the file it is bound to, and whether it has changed
/// since it was last saved.
pub struct Document {
    rows: Vec<Row>,
    pub file_name: Option<String>,
    dirty: bool,
}

impl View for Document {
    type V = Seq<Seq<char>>;

    open spec fn view(&self) -> Seq<Seq<char>> {
        texts(self.lines())
    }
}

impl Document {
    /// The lines, in order.
    pub closed spec fn lines(&self) -> Seq<Row> {
        self.rows@
    }

    /// Whether there are changes not yet saved.
    pub closed spec fn dirty(&self) -> bool {
        self.dirty
    }

    /// The name of the file bound to the document, if any.
    pub closed spec fn file(&self) -> Option<Seq<char>> {
        match self.file_name {
            Some(n) => Some(n@),
            None => None,
        }
    }

    /// Every line's cluster count agrees with its text.
    pub open spec fn wf(&self) -> bool {
        forall|i: int| 0 <= i < self.lines().len() ==> #[trigger] self.lines()[i].wf()
    }

    /// The number of lines.
    pub open spec fn height(&self) -> int {
        self.lines().len() as int
    }

    /// The length of line `y`, or 0 past the last line.
    pub open spec fn row_length(&self, y: int) -> int {
        if 0 <= y < self.height() {
            self.lines()[y].length()
        } else {
            0
        }
    }

    /// The text after a newline at `(x, y)`: line `y` split in two at `x`; nothing
    /// happens from the line past the end on.
    pub open spec fn after_newline(&self, x: int, y: int) -> Seq<Seq<char>> {
        if y >= self.height() {
            self@
        } else {
            self@.update(y, self.lines()[y].head(x)).insert(y + 1, self.lines()[y].tail(x))
        }
    }

    /// Whether inserting `c` at line `y` changes the text.
    pub open spec fn inserts(&self, y: int, c: char) -> bool {
        y < self.height() || (y == self.height() && c != '\n')
    }

    /// The text after inserting `c` at `(x, y)`.
    pub open spec fn after_insert(&self, x: int, y: int, c: char) -> Seq<Seq<char>> {
        if y > self.height() {
            self@
        } else if c == '\n' {
            self.after_newline(x, y)
        } else if y == self.height() {
            self@.push(seq![c])
        } else {
            self@.update(y, self.lines()[y].after_insert(x, c))
        }
    }

    /// Whether a delete at `(x, y)` joins the next line onto line `y`.
    pub open spec fn merges(&self, x: int, y: int) -> bool {
        0 <= y && y + 1 < self.height() && x == self.lines()[y].length()
    }

    /// Whether a delete at `(x, y)` changes the text.
    pub open spec fn deletes(&self, x: int, y: int) -> bool {
        y < self.height() && (self.merges(x, y) || x < self.lines()[y].length())
    }

    /// The text after a delete at `(x, y)`.
    pub open spec fn after_delete(&self, x: int, y: int) -> Seq<Seq<char>> {
        if y >= self.height() {
            self@
        } else if self.merges(x, y) {
            self@.update(y, self@[y] + self@[y + 1]).remove(y + 1)
        } else {
            self@.update(y, self.lines()[y].after_delete(x))
        }
    }

    /// Builds the document of a file's text: one line per line of `content`, clean.
    pub fn open(file_name: &str, content: &str) -> (r: Document)
        ensures
            r.wf(),
            r@ == lines_of(content@),
            !r.dirty(),
            r.file() == Some(file_name@),
    {
        let chars = chars_of(content);
        let ghost s = content@;
        let mut rows: Vec<Row> = Vec::new();
        let mut cur: Vec<char> = Vec::new();
        let mut i: usize = 0;
        proof {
            assert(s.subrange(0, 0) =~= Seq::<char>::empty());
        }
        while i < chars.len()
            invariant
                i <= chars.len(),
                chars@ == s,
                pieces(s.subrange(0, i as int)).len() >= 1,
                texts(rows@) == pieces(s.subrange(0, i as int)).drop_last().map_values(
                    |l: Seq<char>| strip_cr(l),
                ),
                cur@ == pieces(s.subrange(0, i as int)).last(),
                forall|k: int| 0 <= k < rows@.len() ==> #[trigger] rows@[k].wf(),
            decreases chars.len() - i,
        {
            let ghost prev = pieces(s.subrange(0, i as int));
            let ghost old_rows = rows@;
            let ch = chars[i];
            assert(s.subrange(0, i + 1).drop_last() =~= s.subrange(0, i as int));
            if ch == '\n' {
                let keep = if cur.len() > 0 && cur[cur.len() - 1] == '\r' {
                    cur.len() - 1
                } else {
                    cur.len()
                };
                let line = string_of(&cur, keep);
                assert(line@ =~= strip_cr(prev.last()));
                rows.push(Row::from(line.as_str()));
                cur = Vec::new();
                proof {
                    let next = pieces(s.subrange(0, i + 1));
                    assert(next == prev.push(Seq::empty()));
                    assert(next.drop_last() =~= prev);
                    assert(prev =~= prev.drop_last().push(prev.last()));
                    assert(texts(rows@) =~= texts(old_rows).push(strip_cr(prev.last())));
                    assert(prev.map_values(|l: Seq<char>| strip_cr(l)) =~= prev.drop_last().map_values(
                        |l: Seq<char>| strip_cr(l),
                    ).push(strip_cr(prev.last())));
                    assert(cur@ =~= next.last());
                }
            } else {
                cur.push(ch);
                proof {
                    let next = pieces(s.subrange(0, i + 1));
                    assert(next == prev.update(prev.len() - 1, prev.last().push(ch)));
                    assert(next.drop_last() =~= prev.drop_last());
                }
            }
            i += 1;
        }
        assert(s.subrange(0, i as int) =~= s);
        if cur.len() > 0 {
            let line = string_of(&cur, cur.len());
            assert(line@ =~= cur@);
            rows.push(Row::from(line.as_str()));
        }
        Document { rows, file_name: Some(String::from_str(file_name)), dirty: false }
    }

    /// Inserts `c` at `at`; a newline splits the line there. Nothing happens past the line
    /// after the last one.
    pub fn insert(&mut self, at: &Position, c: char)
        requires
            old(self).wf(),
        ensures
            final(self).wf(),
            final(self)@ == old(self).after_insert(at.x as int, at.y as int, c),
            final(self).dirty() == (old(self).dirty() || old(self).inserts(at.y as int, c)),
            final(self).file() == old(self).file(),
    {
        if at.y > self.rows.len() {
            return ;
        }
        assert(forall|i: int| 0 <= i < old(self).height() ==> self.lines()[i] == old(self).lines()[i]);
        if c == '\n' {
            if at.y < self.rows.len() {
                self.dirty = true;
            }
            assert(self.lines() == old(self).lines());
            self.insert_newline(at);
            return ;
        }
        self.dirty = true;
        if at.y == self.rows.len() {
            let mut row = Row::default();
            row.insert(0, c);
            assert(row@ =~= seq![c]);
            self.rows.push(row);
            assert(self@ =~= old(self)@.push(seq![c]));
            assert(forall|i: int| 0 <= i < old(self).height() ==> self.lines()[i] == old(self).lines()[i]);
        } else {
            let ghost y = at.y as int;
            assert(self.lines()[y].wf());
            let mut row = self.rows.remove(at.y);
            row.insert(at.x, c);
            self.rows.insert(at.y, row);
            assert(self@ =~= old(self)@.update(y, old(self).lines()[y].after_insert(at.x as int, c)));
        }
    }

    /// Splits line `at.y` at column `at.x`, the second part becoming the next line.
    /// Nothing happens from the line past the end on.
    pub fn insert_newline(&mut self, at: &Position)
        requires
            old(self).wf(),
        ensures
            final(self).wf(),
            final(self)@ == old(self).after_newline(at.x as int, at.y as int),
            final(self).dirty() == old(self).dirty(),
            final(self).file() == old(self).file(),
    {
        if at.y >= self.rows.len() {
            return ;
        }
        let ghost y = at.y as int;
        assert(self.lines()[y].wf());
        let mut row = self.rows.remove(at.y);
        let new_row = row.split(at.x);
        self.rows.insert(at.y, row);
        self.rows.insert(at.y + 1, new_row);
        assert(self@ =~= old(self)@.update(y, old(self).lines()[y].head(at.x as int)).insert(
            y + 1,
            old(self).lines()[y].tail(at.x as int),
        ));
    }

    /// Deletes the cluster at `at`; at the end of a line that has a next line, joins that
    /// line onto it. Nothing happens past the last line or past the end of a last line.
    pub fn delete(&mut self, at: &Position)
        requires
            old(self).wf(),
        ensures
            final(self).wf(),
            final(self)@ == old(self).after_delete(at.x as int, at.y as int),
            final(self).dirty() == (old(self).dirty() || old(self).deletes(
                at.x as int,
                at.y as int,
            )),
            final(self).file() == old(self).file(),
    {
        let len = self.rows.len();
        if at.y >= len {
            return ;
        }
        let ghost y = at.y as int;
        assert(self.lines()[y].wf());
        let mut row = self.rows.remove(at.y);
        if at.x == row.len() && at.y + 1 < len {
            let next_row = self.rows.remove(at.y);
            row.append(&next_row);
            self.rows.insert(at.y, row);
            self.dirty = true;
            assert(self@ =~= old(self)@.update(y, old(self)@[y] + old(self)@[y + 1]).remove(y + 1));
        } else {
            if at.x < row.len() {
                self.dirty = true;
            }
            row.delete(at.x);
            self.rows.insert(at.y, row);
            assert(self@ =~= old(self)@.update(y, old(self).lines()[y].after_delete(at.x as int)));
        }
    }

    /// The text to write out: every line followed by a newline.
    pub fn contents(&self) -> (r: String)
        ensures
            r@ == saved_form(self@),
    {
        let mut r = String::new();
        let mut i: usize = 0;
        while i < self.rows.len()
            invariant
                i <= self.rows.len(),
                r@ == saved_form(self@.subrange(0, i as int)),
            decreases self.rows.len() - i,
        {
            proof {
                let f = |l: Seq<char>| l.push('\n');
                let done = self@.subrange(0, i as int).map_values(f);
                assert(self@.subrange(0, i + 1).map_values(f) =~= done.push(f(self@[i as int])));
                done.lemma_flatten_push(f(self@[i as int]));
            }
            r.append(self.rows[i].as_str());
            push_char(&mut r, '\n');
            i += 1;
        }
        assert(self@.subrange(0, i as int) =~= self@);
        r
    }

    /// What a save writes, or nothing where no file is bound to the document.
    pub fn save_contents(&self) -> (r: Option<String>)
        ensures
            r is None <==> self.file() is None,
            r matches Some(t) ==> t@ == saved_form(self@),
    {
        if self.file_name.is_some() {
            Some(self.contents())
        } else {
            None
        }
    }

    /// Records that the contents were written out.
    pub fn mark_saved(&mut self)
        ensures
            !final(self).dirty(),
            final(self).lines() == old(self).lines(),
            final(self).file() == old(self).file(),
    {
        self.dirty = false;
    }

    /// Binds the document to the file `name`.
    pub fn set_file_name(&mut self, name: String)
        ensures
            final(self).file() == Some(name@),
            final(self).lines() == old(self).lines(),
            final(self).dirty() == old(self).dirty(),
    {
        self.file_name = Some(name);
    }

    /// Line `index`, if there is one.
    pub fn row(&self, index: usize) -> (r: Option<&Row>)
        ensures
            index < self.height() ==> r == Some(&self.lines()[index as int]),
            index >= self.height() ==> r is None,
    {
        if index < self.rows.len() {
            Some(&self.rows[index])
        } else {
            None
        }
    }

    /// Whether the document has no lines.
    pub fn is_empty(&self) -> (r: bool)
        ensures
            r == (self.height() == 0),
    {
        self.rows.len() == 0
    }

    /// The number of lines.
    pub fn len(&self) -> (r: usize)
        ensures
            r == self.height(),
    {
        self.rows.len()
    }

    /// Whether there are changes not yet saved.
    pub fn is_dirty(&self) -> (r: bool)
        ensures
            r == self.dirty(),
    {
        self.dirty
    }
}

/// A newline inserted inside a line, followed by a delete at the end of the first part,
/// which joins the second part back on, gives the document's text back.
pub proof fn lemma_newline_then_merge(before: Document, after: Document, x: int, y: int)
    requires
        before.wf(),
        after.wf(),
        0 <= y < before.height(),
        0 <= x <= before.lines()[y].length(),
        after@ == before.after_newline(x, y),
    ensures
        after.height() == before.height() + 1,
        after.merges(after.lines()[y].length(), y),
        after.after_delete(after.lines()[y].length(), y) == before@,
        after.lines()[y].length() == x ==> after.after_delete(x, y) == before@,
{
    let line = before.lines()[y];
    lemma_split_then_append(line, x);
    assert(after.height() == after@.len());
    assert(after@[y] == after.lines()[y]@);
    assert(after@[y + 1] == after.lines()[y + 1]@);
    assert(after@.update(y, after@[y] + after@[y + 1]).remove(y + 1) =~= before@);
}

impl Default for Document {
    fn default() -> (r: Document)
        ensures
            r.wf(),
            r.height() == 0,
            r.file() is None,
            !r.dirty(),
    {
        Document { rows: Vec::new(), file_name: None, dirty: false }
    }
}

} // verus!
