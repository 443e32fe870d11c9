use crate::editor::Position;
use crate::row::deleted;
use crate::row::grapheme_find;
use crate::row::grapheme_len;
use crate::row::head;
use crate::row::inserted;
use crate::row::tail;
use crate::row::texts;
use crate::row::push_char;
use crate::row::Row;
use vstd::prelude::*;

verus! {

/// The lines after typing `c` at column `x` of line `y`: a newline splits the
/// line (or adds an empty one past the end); another character goes into the
/// line (or starts a new one past the end).
pub open spec fn doc_inserted(lines: Seq<Seq<char>>, x: int, y: int, c: char) -> Seq<Seq<char>> {
    if c == '\n' {
        if y == lines.len() {
            lines.push(Seq::empty())
        } else {
            lines.update(y, head(lines[y], x)).insert(y + 1, tail(lines[y], x))
        }
    } else if y == lines.len() {
        lines.push(seq![c])
    } else {
        lines.update(y, inserted(lines[y], x, c))
    }
}

/// The lines after deleting at column `x` of line `y`: at the end of a line
/// that has a successor, the two lines merge; otherwise the cluster goes.
pub open spec fn doc_deleted(lines: Seq<Seq<char>>, x: int, y: int) -> Seq<Seq<char>> {
    if y >= lines.len() {
        lines
    } else if x == grapheme_len(lines[y]) && y + 1 < lines.len() {
        lines.update(y, lines[y] + lines[y + 1]).remove(y + 1)
    } else {
        lines.update(y, deleted(lines[y], x))
    }
}

/// The line index reached `j` lines after `start`, wrapping past the end.
pub open spec fn wrapped(start: int, j: int, n: int) -> int {
    if start + j < n {
        start + j
    } else {
        start + j - n
    }
}

/// The first match (column, line) among the lines visited from the `j`-th step on.
pub open spec fn find_rows(lines: Seq<Seq<char>>, q: Seq<char>, start: int, j: int) -> Option<(int, int)>
    decreases lines.len() - j,
{
    if j < 0 || j >= lines.len() {
        None
    } else {
        let y = wrapped(start, j, lines.len() as int);
        match grapheme_find(lines[y], q) {
            Some(x) => Some((x, y)),
            None => find_rows(lines, q, start, j + 1),
        }
    }
}

/// Line where a search from line `y` starts: `y` itself, or the first line
/// when `y` is past the end.
pub open spec fn search_start(lines: Seq<Seq<char>>, y: int) -> int {
    if y < lines.len() {
        y
    } else {
        0
    }
}

/// Where a search for `q` from line `y` lands: the first line, going down
/// from `y` and wrapping to the top, on which `q` is found.
pub open spec fn doc_find(lines: Seq<Seq<char>>, q: Seq<char>, y: int) -> Option<(int, int)> {
    find_rows(lines, q, search_start(lines, y), 0)
}

proof fn lemma_found_at(lines: Seq<Seq<char>>, q: Seq<char>, start: int, j: int, jy: int)
    requires
        0 <= j <= jy < lines.len(),
        0 <= start < lines.len(),
        grapheme_find(lines[wrapped(start, jy, lines.len() as int)], q) is Some,
        forall|i: int|
            j <= i < jy ==> grapheme_find(#[trigger] lines[wrapped(start, i, lines.len() as int)], q) is None,
    ensures
        find_rows(lines, q, start, j) == Some(
            (
                grapheme_find(lines[wrapped(start, jy, lines.len() as int)], q)->0,
                wrapped(start, jy, lines.len() as int),
            ),
        ),
    decreases jy - j,
{
    if j < jy {
        assert(grapheme_find(lines[wrapped(start, j, lines.len() as int)], q) is None);
        lemma_found_at(lines, q, start, j + 1, jy);
    }
}

/// A search from line `y` finds a match on an earlier line `k` when that is the
/// only line the query is found on: the search wraps around to the top.
pub proof fn lemma_search_wraps(lines: Seq<Seq<char>>, q: Seq<char>, y: int, k: int)
    requires
        0 <= k < y < lines.len(),
        grapheme_find(lines[k], q) is Some,
        forall|i: int| 0 <= i < lines.len() && i != k ==> grapheme_find(#[trigger] lines[i], q) is None,
    ensures
        doc_find(lines, q, y) == Some((grapheme_find(lines[k], q)->0, k)),
{
    let n = lines.len() as int;
    let jy = k + n - y;
    assert(wrapped(y, jy, n) == k);
    assert forall|i: int| 0 <= i < jy implies grapheme_find(#[trigger] lines[wrapped(y, i, n)], q) is None by {
        assert(wrapped(y, i, n) != k);
    }
    lemma_found_at(lines, q, y, 0, jy);
}

/// An ordered list of rows, with the file it came from and whether it has
/// changed since it was loaded or saved.
pub struct Document {
    rows: Vec<Row>,
    name: Option<String>,
    dirty: bool,
}

impl View for Document {
    type V = Seq<Seq<char>>;

    closed spec fn view(&self) -> Seq<Seq<char>> {
        self.rows@.map_values(|r: Row| r@)
    }
}

impl Document {
    /// Whether the document changed since it was loaded or saved.
    pub closed spec fn modified(&self) -> bool {
        self.dirty
    }

    /// The name of the file the document belongs to.
    pub closed spec fn file_name(&self) -> Option<String> {
        self.name
    }

    pub fn name(&self) -> (r: &Option<String>)
        ensures
            *r == self.file_name(),
    {
        &self.name
    }

    pub fn new() -> (d: Document)
        ensures
            d@ == Seq::<Seq<char>>::empty(),
            !d.modified(),
            d.file_name() is None,
    {
        let d = Document { rows: Vec::new(), name: None, dirty: false };
        assert(d@ =~= Seq::<Seq<char>>::empty());
        d
    }

    /// A document holding the given lines, unmodified.
    pub fn from_lines(name: Option<String>, lines: &Vec<String>) -> (d: Document)
        ensures
            d@ == texts(lines@),
            !d.modified(),
            d.file_name() == name,
    {
        let mut rows: Vec<Row> = Vec::new();
        let mut i: usize = 0;
        while i < lines.len()
            invariant
                i <= lines@.len(),
                rows@.map_values(|r: Row| r@) =~= texts(lines@.subrange(0, i as int)),
            decreases lines@.len() - i,
        {
            let r = Row::from(lines[i].as_str());
            let ghost prev = rows@;
            rows.push(r);
            assert(rows@.map_values(|r: Row| r@) =~= prev.map_values(|r: Row| r@).push(
                lines@[i as int]@,
            ));
            assert(texts(lines@.subrange(0, i + 1)) =~= texts(lines@.subrange(0, i as int)).push(
                lines@[i as int]@,
            ));
            i += 1;
        }
        assert(lines@.subrange(0, lines@.len() as int) =~= lines@);
        Document { rows, name, dirty: false }
    }

    pub fn row(&self, index: usize) -> (r: Option<&Row>)
        ensures
            index < self@.len() ==> r is Some && r->0@ == self@[index as int],
            index >= self@.len() ==> r is None,
    {
        if index < self.rows.len() {
            Some(&self.rows[index])
        } else {
            None
        }
    }

    pub fn is_empty(&self) -> (r: bool)
        ensures
            r == (self@.len() == 0),
    {
        self.rows.len() == 0
    }

    pub fn len(&self) -> (r: usize)
        ensures
            r == self@.len(),
    {
        self.rows.len()
    }

    pub fn is_dirty(&self) -> (r: bool)
        ensures
            r == self.modified(),
    {
        self.dirty
    }

    /// Records that the lines were written out.
    pub fn mark_saved(&mut self)
        ensures
            final(self)@ == old(self)@,
            !final(self).modified(),
            final(self).file_name() == old(self).file_name(),
    {
        self.dirty = false;
    }

    pub fn insert(&mut self, at: &Position, c: char)
        requires
            at.y <= old(self)@.len(),
        ensures
            final(self)@ == doc_inserted(old(self)@, at.x as int, at.y as int, c),
            final(self).modified(),
            final(self).file_name() == old(self).file_name(),
    {
        let ghost lines = self@;
        if c == '\n' {
            if at.y == self.rows.len() {
                self.rows.push(Row::from_string(String::new()));
                assert(self@ =~= lines.push(Seq::empty()));
            } else {
                let mut row = self.rows.remove(at.y);
                let rest = row.split(at.x);
                self.rows.insert(at.y, row);
                self.rows.insert(at.y + 1, rest);
                assert(self@ =~= lines.update(at.y as int, head(lines[at.y as int], at.x as int)).insert(
                    at.y + 1,
                    tail(lines[at.y as int], at.x as int),
                ));
            }
        } else if at.y == self.rows.len() {
            let mut text = String::new();
            push_char(&mut text, c);
            assert(text@ =~= seq![c]);
            self.rows.push(Row::from_string(text));
            assert(self@ =~= lines.push(seq![c]));
        } else {
            let mut row = self.rows.remove(at.y);
            row.insert(at.x, c);
            self.rows.insert(at.y, row);
            assert(self@ =~= lines.update(at.y as int, inserted(lines[at.y as int], at.x as int, c)));
        }
        self.dirty = true;
    }
    pub fn delete(&mut self, at: &Position)
        ensures
            final(self)@ == doc_deleted(old(self)@, at.x as int, at.y as int),
            final(self).modified() == (at.y < old(self)@.len() || old(self).modified()),
            final(self).file_name() == old(self).file_name(),
    {
        let ghost lines = self@;
        let len = self.rows.len();
        if at.y >= len {
            return;
        }
        self.dirty = true;
        assert(self.rows@[at.y as int]@ == lines[at.y as int]);
        if at.x == self.rows[at.y].len() && at.y + 1 < len {
            assert(self.rows@[at.y + 1]@ == lines[at.y + 1]);
            let next = self.rows.remove(at.y + 1);
            let mut row = self.rows.remove(at.y);
            row.append(&next);
            self.rows.insert(at.y, row);
            assert(self@ =~= lines.update(at.y as int, lines[at.y as int] + lines[at.y + 1]).remove(
                at.y + 1,
            ));
        } else {
            let mut row = self.rows.remove(at.y);
            row.delete(at.x);
            self.rows.insert(at.y, row);
            assert(self@ =~= lines.update(at.y as int, deleted(lines[at.y as int], at.x as int)));
        }
    }

    /// Searches for `query` line by line from the line of `at`, wrapping to the top.
    pub fn find(&self, query: &str, at: &Position) -> (r: Option<Position>)
        ensures
            r is Some <==> doc_find(self@, query@, at.y as int) is Some,
            r is Some ==> doc_find(self@, query@, at.y as int)->0 == (r->0.x as int, r->0.y as int),
    {
        let n = self.rows.len();
        let start = if at.y < n {
            at.y
        } else {
            0
        };
        let mut j: usize = 0;
        while j < n
            invariant
                n == self@.len(),
                start == search_start(self@, at.y as int),
                n > 0 ==> start < n,
                j <= n,
                find_rows(self@, query@, start as int, 0) == find_rows(self@, query@, start as int, j as int),
            decreases n - j,
        {
            let y = if j < n - start {
                start + j
            } else {
                j - (n - start)
            };
            assert(y == wrapped(start as int, j as int, n as int));
            assert(self.rows@[y as int]@ == self@[y as int]);
            if let Some(x) = self.rows[y].find(query) {
                return Some(Position { x, y });
            }
            j += 1;
        }
        None
    }
}

} // verus!
