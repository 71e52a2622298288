//! One line of text, addressed by extended grapheme clusters.
use crate::text::{graphemes, graphemes_of, join, lemma_flatten_split, push_char, views};
use vstd::prelude::*;
use vstd::utf8::encode_utf8;

verus! {

/// What a cluster renders as: a tab becomes two spaces, anything else stands as it is.
pub open spec fn expand_tab(g: Seq<char>) -> Seq<char> {
    if g == seq!['\t'] {
        seq![' ', ' ']
    } else {
        g
    }
}

/// `at`, pulled down to `len` where it lies beyond.
pub open spec fn clamp(at: int, len: int) -> int {
    if at < len {
        at
    } else {
        len
    }
}

/// A line of text with its cluster count kept beside it.
#[derive(Debug)]
pub struct Row {
    text: String,
    len: usize,
}

impl View for Row {
    type V = Seq<char>;

    closed spec fn view(&self) -> Seq<char> {
        self.text@
    }
}

impl Row {
    /// The stored cluster count agrees with the text.
    pub closed spec fn wf(&self) -> bool {
        &&& self.len == graphemes_of(self.text@).len()
        &&& graphemes_of(self.text@).flatten() == self.text@
        &&& forall|i: int|
            0 <= i < graphemes_of(self.text@).len() ==> #[trigger] graphemes_of(self.text@)[i].len()
                > 0
    }

    /// The line's grapheme clusters.
    pub open spec fn clusters(&self) -> Seq<Seq<char>> {
        graphemes_of(self@)
    }

    /// The number of clusters: the line's length.
    pub open spec fn length(&self) -> int {
        self.clusters().len() as int
    }

    /// The text of clusters `[from, to)`.
    pub open spec fn span(&self, from: int, to: int) -> Seq<char> {
        self.clusters().subrange(from, to).flatten()
    }

    /// The text after inserting `c` at cluster `at`; at or past the end, `c` is appended.
    pub open spec fn after_insert(&self, at: int, c: char) -> Seq<char> {
        if at >= self.length() {
            self@.push(c)
        } else {
            self.span(0, at) + seq![c] + self.span(at, self.length())
        }
    }

    /// The text after removing cluster `at`; unchanged at or past the end.
    pub open spec fn after_delete(&self, at: int) -> Seq<char> {
        if at >= self.length() {
            self@
        } else {
            self.span(0, at) + self.span(at + 1, self.length())
        }
    }

    /// The clusters before `at`.
    pub open spec fn head(&self, at: int) -> Seq<char> {
        self.span(0, clamp(at, self.length()))
    }

    /// The clusters from `at` on.
    pub open spec fn tail(&self, at: int) -> Seq<char> {
        self.span(clamp(at, self.length()), self.length())
    }

    /// The window `[start, end)` clamped to the line: `end` to the length, `start` to `end`.
    pub open spec fn window(&self, start: int, end: int) -> (int, int) {
        let e = clamp(end, self.length());
        (clamp(start, e), e)
    }

    /// The clusters of the window `[start, end)`, each with its tab expanded.
    pub open spec fn rendered(&self, start: int, end: int) -> Seq<char> {
        let (s, e) = self.window(start, end);
        self.clusters().subrange(s, e).map_values(|g: Seq<char>| expand_tab(g)).flatten()
    }

    /// Builds a line from its text.
    pub fn from(slice: &str) -> (r: Row)
        ensures
            r.wf(),
            r@ == slice@,
    {
        let mut row = Row { text: String::from_str(slice), len: 0 };
        row.update_len();
        row
    }

    /// Renders clusters `[start, end)` of the line, clamped to it, tabs as two spaces.
    pub fn render(&self, start: usize, end: usize) -> (r: String)
        requires
            self.wf(),
        ensures
            r@ == self.rendered(start as int, end as int),
            start >= self.length() ==> r@.len() == 0,
    {
        let gs = graphemes(self.text.as_str());
        let end = if end < self.len {
            end
        } else {
            self.len
        };
        let start = if start < end {
            start
        } else {
            end
        };
        let tab = String::from_str("\t");
        proof {
            reveal_strlit("\t");
        }
        let ghost cl = self.clusters();
        let mut result = String::new();
        let mut i = start;
        while i < end
            invariant
                start <= i <= end <= gs.len(),
                cl == views(gs@),
                tab@ == seq!['\t'],
                result@ == cl.subrange(start as int, i as int).map_values(|g: Seq<char>| expand_tab(g)).flatten(),
            decreases end - i,
        {
            proof {
                let done = cl.subrange(start as int, i as int).map_values(|g: Seq<char>| expand_tab(g));
                assert(cl.subrange(start as int, i + 1).map_values(|g: Seq<char>| expand_tab(g)) =~= done.push(
                    expand_tab(cl[i as int]),
                ));
                done.lemma_flatten_push(expand_tab(cl[i as int]));
            }
            if gs[i].eq(&tab) {
                proof {
                    reveal_strlit("  ");
                }
                result.append("  ");
            } else {
                result.append(gs[i].as_str());
            }
            i += 1;
        }
        proof {
            if start >= self.length() {
                assert(cl.subrange(start as int, end as int).map_values(|g: Seq<char>| expand_tab(g)) =~= Seq::empty());
            }
        }
        result
    }

    /// Inserts `c` at cluster `at`, or at the end where `at` is past it.
    pub fn insert(&mut self, at: usize, c: char)
        requires
            old(self).wf(),
        ensures
            final(self).wf(),
            final(self)@ == old(self).after_insert(at as int, c),
    {
        if at >= self.len() {
            push_char(&mut self.text, c);
        } else {
            let gs = graphemes(self.text.as_str());
            let mut result = join(&gs, 0, at);
            push_char(&mut result, c);
            let remainder = join(&gs, at, gs.len());
            result.append(remainder.as_str());
            self.text = result;
        }
        self.update_len();
    }

    /// Removes cluster `at`; nothing happens where `at` is past the end.
    pub fn delete(&mut self, at: usize)
        requires
            old(self).wf(),
        ensures
            final(self).wf(),
            final(self)@ == old(self).after_delete(at as int),
            at < old(self).length() ==> final(self)@.len() < old(self)@.len(),
    {
        if at >= self.len() {
            return ;
        }
        let gs = graphemes(self.text.as_str());
        proof {
            let cl = views(gs@);
            lemma_flatten_split(cl, at as int);
            assert(cl.subrange(at as int, cl.len() as int).drop_first() =~= cl.subrange(
                at + 1,
                cl.len() as int,
            ));
            assert(cl.subrange(at as int, cl.len() as int).first() == cl[at as int]);
        }
        let mut result = join(&gs, 0, at);
        let remainder = join(&gs, at + 1, gs.len());
        result.append(remainder.as_str());
        self.text = result;
        self.update_len();
    }

    /// Appends the text of `new` to this line.
    pub fn append(&mut self, new: &Row)
        ensures
            final(self).wf(),
            final(self)@ == old(self)@ + new@,
    {
        self.text.append(new.text.as_str());
        self.update_len();
    }

    /// Keeps the clusters before `at` and returns the rest as a new line.
    pub fn split(&mut self, at: usize) -> (r: Row)
        requires
            old(self).wf(),
        ensures
            final(self).wf(),
            r.wf(),
            final(self)@ == old(self).head(at as int),
            r@ == old(self).tail(at as int),
    {
        let gs = graphemes(self.text.as_str());
        let cut = if at < gs.len() {
            at
        } else {
            gs.len()
        };
        let start = join(&gs, 0, cut);
        let remainder = join(&gs, cut, gs.len());
        self.text = start;
        self.update_len();
        Row::from(remainder.as_str())
    }

    /// The number of clusters.
    pub fn len(&self) -> (r: usize)
        requires
            self.wf(),
        ensures
            r == self.length(),
    {
        self.len
    }

    /// Whether the line has no clusters.
    pub fn is_empty(&self) -> (r: bool)
        requires
            self.wf(),
        ensures
            r == (self.length() == 0),
            r == (self@.len() == 0),
    {
        proof {
            lemma_clusters_spell_text(*self);
        }
        self.len == 0
    }

    /// Counts the clusters of the text again.
    pub fn update_len(&mut self)
        ensures
            final(self).wf(),
            final(self)@ == old(self)@,
    {
        self.len = graphemes(self.text.as_str()).len();
    }

    /// The line's text.
    pub(crate) fn as_str(&self) -> (r: &str)
        ensures
            r@ == self@,
    {
        self.text.as_str()
    }

    /// The line's text in UTF-8.
    pub fn as_bytes(&self) -> (r: &[u8])
        ensures
            r@ == encode_utf8(self@),
    {
        self.text.as_str().as_bytes()
    }
}

/// A well-formed line's clusters are non-empty and together spell its text.
pub proof fn lemma_clusters_spell_text(line: Row)
    requires
        line.wf(),
    ensures
        line.clusters().flatten() == line@,
        forall|i: int| 0 <= i < line.length() ==> #[trigger] line.clusters()[i].len() > 0,
        line.length() == 0 <==> line@.len() == 0,
{
    let cl = line.clusters();
    if cl.len() > 0 {
        assert(cl.flatten() == cl.first() + cl.drop_first().flatten());
        assert(cl[0].len() > 0);
    }
}

/// Inserting a character and then deleting at the same position gives the line back,
/// wherever the inserted character stands as a cluster of its own in the new text.
pub proof fn lemma_insert_then_delete(line: Row, inserted: Row, at: int, c: char)
    requires
        line.wf(),
        0 <= at <= line.length(),
        inserted@ == line.after_insert(at, c),
        inserted.clusters() == line.clusters().insert(at, seq![c]),
    ensures
        inserted.after_delete(at) == line@,
{
    let cl = line.clusters();
    let cl2 = inserted.clusters();
    assert(cl2.subrange(0, at) =~= cl.subrange(0, at));
    assert(cl2.subrange(at + 1, cl2.len() as int) =~= cl.subrange(at, cl.len() as int));
    lemma_flatten_split(cl, at);
}

/// Splitting a line and appending the second part to the first gives the line back.
pub proof fn lemma_split_then_append(line: Row, at: int)
    requires
        line.wf(),
        0 <= at <= line.length(),
    ensures
        line.head(at) + line.tail(at) == line@,
{
    lemma_flatten_split(line.clusters(), at);
}

/// A rendered window covers at most the line's clusters, and nothing from a start at or
/// past the end.
pub proof fn lemma_render_window(line: Row, start: int, end: int)
    requires
        0 <= start,
        0 <= end,
    ensures
        0 <= line.window(start, end).0 <= line.window(start, end).1 <= line.length(),
        line.window(start, end).1 - line.window(start, end).0 <= line.length(),
        start >= line.length() ==> line.rendered(start, end) == Seq::<char>::empty(),
{
    let (s, e) = line.window(start, end);
    if start >= line.length() {
        assert(line.clusters().subrange(s, e).map_values(|g: Seq<char>| expand_tab(g))
            =~= Seq::empty());
    }
}

impl Default for Row {
    fn default() -> (r: Row)
        ensures
            r.wf(),
            r@ == Seq::<char>::empty(),
            r.length() == 0,
    {
        let text = String::new();
        let len = graphemes(text.as_str()).len();
        Row { text, len }
    }
}

} // verus!
