use unicode_segmentation::UnicodeSegmentation;
use vstd::prelude::*;
use vstd::string::StringExecFns;
use vstd::string::StrSliceExecFns;

verus! {

/// The extended grapheme clusters of a text, in order.
pub uninterp spec fn graphemes_of(s: Seq<char>) -> Seq<Seq<char>>;

/// The texts of a list of strings.
pub open spec fn texts(v: Seq<String>) -> Seq<Seq<char>> {
    v.map_values(|x: String| x@)
}

/// The concatenation of a sequence of pieces, left to right.
pub open spec fn joined(gs: Seq<Seq<char>>) -> Seq<char>
    decreases gs.len(),
{
    if gs.len() == 0 {
        Seq::empty()
    } else {
        joined(gs.drop_last()) + gs.last()
    }
}

/// A text is well segmented when its clusters are non-empty and spell it out.
pub open spec fn segmented(s: Seq<char>) -> bool {
    &&& joined(graphemes_of(s)) == s
    &&& forall|i: int| 0 <= i < graphemes_of(s).len() ==> #[trigger] graphemes_of(s)[i].len() > 0
}

/// Number of grapheme clusters of a text.
pub open spec fn grapheme_len(s: Seq<char>) -> nat {
    graphemes_of(s).len()
}

/// `at` limited to `n`.
pub open spec fn clamp(at: int, n: int) -> int {
    if at < n {
        at
    } else {
        n
    }
}

/// The clusters' text with `c` put before the cluster at `at`, or at the end
/// when `at` is past it.
pub open spec fn inserted_in(gs: Seq<Seq<char>>, at: int, c: char) -> Seq<char> {
    let a = clamp(at, gs.len() as int);
    joined(gs.subrange(0, a)) + seq![c] + joined(gs.subrange(a, gs.len() as int))
}

/// The text with `c` put before the cluster at `at`, or at the end when `at` is past it.
pub open spec fn inserted(s: Seq<char>, at: int, c: char) -> Seq<char> {
    inserted_in(graphemes_of(s), at, c)
}

/// The clusters' text without the cluster at `at`.
pub open spec fn deleted_in(gs: Seq<Seq<char>>, at: int) -> Seq<char> {
    if at >= gs.len() {
        joined(gs)
    } else {
        joined(gs.subrange(0, at)) + joined(gs.subrange(at + 1, gs.len() as int))
    }
}

/// The text without the cluster at `at`; unchanged when `at` is past the end.
pub open spec fn deleted(s: Seq<char>, at: int) -> Seq<char> {
    if at >= grapheme_len(s) {
        s
    } else {
        deleted_in(graphemes_of(s), at)
    }
}

/// The text of the clusters before `at`.
pub open spec fn head_in(gs: Seq<Seq<char>>, at: int) -> Seq<char> {
    joined(gs.subrange(0, clamp(at, gs.len() as int)))
}

/// The text of the clusters from `at` on.
pub open spec fn tail_in(gs: Seq<Seq<char>>, at: int) -> Seq<char> {
    joined(gs.subrange(clamp(at, gs.len() as int), gs.len() as int))
}

/// The clusters before `at`.
pub open spec fn head(s: Seq<char>, at: int) -> Seq<char> {
    head_in(graphemes_of(s), at)
}

/// The clusters from `at` on.
pub open spec fn tail(s: Seq<char>, at: int) -> Seq<char> {
    tail_in(graphemes_of(s), at)
}

/// How a cluster is shown: a tab as one space, anything else as it is.
pub open spec fn shown(g: Seq<char>) -> Seq<char> {
    if g == seq!['\t'] {
        seq![' ']
    } else {
        g
    }
}

/// The clusters in `[start, end)`, clamped to the list, as shown.
pub open spec fn rendered_in(gs: Seq<Seq<char>>, start: int, end: int) -> Seq<char> {
    let e = clamp(end, gs.len() as int);
    let b = clamp(start, e);
    joined(gs.subrange(b, e).map_values(|g: Seq<char>| shown(g)))
}

/// The clusters of a text in `[start, end)`, clamped to the text, as shown.
pub open spec fn rendered(s: Seq<char>, start: int, end: int) -> Seq<char> {
    rendered_in(graphemes_of(s), start, end)
}

/// `q` occurs in `s` at character position `p`.
pub open spec fn match_at(s: Seq<char>, q: Seq<char>, p: int) -> bool {
    0 <= p && p + q.len() <= s.len() && s.subrange(p, p + q.len()) == q
}

/// `p` is the first position where `q` occurs in `s`.
pub open spec fn first_match_at(s: Seq<char>, q: Seq<char>, p: int) -> bool {
    match_at(s, q, p) && forall|i: int| 0 <= i < p ==> !#[trigger] match_at(s, q, i)
}

/// Character position where the cluster at `k` starts.
pub open spec fn offset_of(gs: Seq<Seq<char>>, k: int) -> int {
    joined(gs.subrange(0, k)).len() as int
}

/// The first cluster index, from `k` on, at which the first occurrence of `q` starts.
pub open spec fn find_from(s: Seq<char>, gs: Seq<Seq<char>>, q: Seq<char>, k: int) -> Option<int>
    decreases gs.len() - k,
{
    if k < 0 || k >= gs.len() {
        None
    } else if first_match_at(s, q, offset_of(gs, k)) {
        Some(k)
    } else {
        find_from(s, gs, q, k + 1)
    }
}

/// Where a search for `q` lands in a text: the cluster at which the first
/// occurrence of `q` starts, if it starts on a cluster.
pub open spec fn grapheme_find(s: Seq<char>, q: Seq<char>) -> Option<int> {
    find_from(s, graphemes_of(s), q, 0)
}

/// Relies on `UnicodeSegmentation::graphemes(s, true)`: it yields the extended
/// grapheme clusters of `s` as consecutive non-empty slices that together cover `s`.
#[verifier::external_body]
fn split_graphemes(s: &str) -> (r: Vec<String>)
    ensures
        texts(r@) == graphemes_of(s@),
        joined(texts(r@)) == s@,
        forall|i: int| 0 <= i < r@.len() ==> (#[trigger] r@[i])@.len() > 0,
{
    s.graphemes(true).map(String::from).collect()
}

/// Relies on `String::push`: the character is added at the end.
#[verifier::external_body]
pub(crate) fn push_char(s: &mut String, c: char)
    ensures
        final(s)@ == old(s)@.push(c),
{
    s.push(c);
}

/// The characters of a text.
fn chars_of(s: &str) -> (r: Vec<char>)
    ensures
        r@ == s@,
{
    let n = s.unicode_len();
    let mut r: Vec<char> = Vec::new();
    let mut i: usize = 0;
    while i < n
        invariant
            n == s@.len(),
            i <= n,
            r@ == s@.subrange(0, i as int),
        decreases n - i,
    {
        r.push(s.get_char(i));
        i += 1;
    }
    assert(r@ =~= s@);
    r
}

/// Whether `q` occurs in `s` at `p`.
fn matches_at(s: &Vec<char>, q: &Vec<char>, p: usize) -> (r: bool)
    requires
        p + q@.len() <= s@.len(),
    ensures
        r == match_at(s@, q@, p as int),
{
    let sl = s.len();
    let mut j: usize = 0;
    while j < q.len()
        invariant
            sl == s@.len(),
            p + q@.len() <= s@.len(),
            j <= q@.len(),
            forall|t: int| 0 <= t < j ==> s@[p + t] == q@[t],
        decreases q@.len() - j,
    {
        if s[p + j] != q[j] {
            assert(s@.subrange(p as int, p + q@.len())[j as int] != q@[j as int]);
            return false;
        }
        j += 1;
    }
    assert(s@.subrange(p as int, p + q@.len()) =~= q@);
    true
}

/// The first position where `q` occurs in `s`.
fn first_match(s: &Vec<char>, q: &Vec<char>) -> (r: Option<usize>)
    ensures
        match r {
            Some(p) => first_match_at(s@, q@, p as int),
            None => forall|p: int| !#[trigger] match_at(s@, q@, p),
        },
{
    if q.len() > s.len() {
        return None;
    }
    let last = s.len() - q.len();
    let mut p: usize = 0;
    loop
        invariant
            p <= last,
            last == s@.len() - q@.len(),
            forall|i: int| 0 <= i < p ==> !#[trigger] match_at(s@, q@, i),
        ensures
            forall|i: int| 0 <= i <= last ==> !#[trigger] match_at(s@, q@, i),
        decreases last - p,
    {
        if matches_at(s, q, p) {
            return Some(p);
        }
        if p == last {
            break;
        }
        p += 1;
    }
    assert forall|i: int| !#[trigger] match_at(s@, q@, i) by {
        if i > last {
            assert(i + q@.len() > s@.len());
        }
    }
    None
}

pub proof fn lemma_joined_push(gs: Seq<Seq<char>>, g: Seq<char>)
    ensures
        joined(gs.push(g)) == joined(gs) + g,
{
    assert(gs.push(g).drop_last() =~= gs);
}

pub proof fn lemma_joined_concat(a: Seq<Seq<char>>, b: Seq<Seq<char>>)
    ensures
        joined(a + b) == joined(a) + joined(b),
    decreases b.len(),
{
    if b.len() == 0 {
        assert(a + b =~= a);
        assert(joined(a) + joined(b) =~= joined(a));
    } else {
        lemma_joined_concat(a, b.drop_last());
        assert((a + b).drop_last() =~= a + b.drop_last());
        assert(joined(a) + joined(b.drop_last()) + b.last() =~= joined(a) + (joined(
            b.drop_last(),
        ) + b.last()));
    }
}

/// Extending a range of clusters by one adds that cluster's text.
pub proof fn lemma_joined_extend(gs: Seq<Seq<char>>, a: int, k: int)
    requires
        0 <= a <= k < gs.len(),
    ensures
        joined(gs.subrange(a, k + 1)) == joined(gs.subrange(a, k)) + gs[k],
{
    assert(gs.subrange(a, k + 1) =~= gs.subrange(a, k).push(gs[k]));
    lemma_joined_push(gs.subrange(a, k), gs[k]);
}

/// Splitting the clusters at any index splits the text there.
pub proof fn lemma_joined_split(gs: Seq<Seq<char>>, a: int)
    requires
        0 <= a <= gs.len(),
    ensures
        joined(gs.subrange(0, a)) + joined(gs.subrange(a, gs.len() as int)) == joined(gs),
{
    assert(gs =~= gs.subrange(0, a) + gs.subrange(a, gs.len() as int));
    lemma_joined_concat(gs.subrange(0, a), gs.subrange(a, gs.len() as int));
}

/// The clusters in `[start, end)`, clamped to the list, with each tab shown as one space.
pub fn render_clusters(gs: &Vec<String>, start: usize, end: usize) -> (r: String)
    ensures
        r@ == rendered_in(texts(gs@), start as int, end as int),
{
    let ghost g = texts(gs@);
    let end = if end < gs.len() {
        end
    } else {
        gs.len()
    };
    let start = if start < end {
        start
    } else {
        end
    };
    let mut result = String::new();
    let mut idx: usize = start;
    while idx < end
        invariant
            g == texts(gs@),
            start <= idx <= end <= gs@.len(),
            result@ == joined(g.subrange(start as int, idx as int).map_values(|x: Seq<char>| shown(x))),
        decreases end - idx,
    {
        let piece = gs[idx].as_str();
        assert(piece@ == g[idx as int]);
        proof {
            assert(g.subrange(start as int, idx + 1).map_values(|x: Seq<char>| shown(x)) =~= g.subrange(
                start as int,
                idx as int,
            ).map_values(|x: Seq<char>| shown(x)).push(shown(g[idx as int])));
            lemma_joined_push(
                g.subrange(start as int, idx as int).map_values(|x: Seq<char>| shown(x)),
                shown(g[idx as int]),
            );
        }
        if piece.unicode_len() == 1 && piece.get_char(0) == '\t' {
            assert(piece@ =~= seq!['\t']);
            push_char(&mut result, ' ');
            assert(seq![' '] =~= Seq::<char>::empty().push(' '));
            assert(result@ =~= joined(
                g.subrange(start as int, idx as int).map_values(|x: Seq<char>| shown(x)),
            ) + seq![' ']);
        } else {
            assert(piece@ != seq!['\t']) by {
                if piece@ == seq!['\t'] {
                    assert(piece@.len() == 1);
                    assert(piece@[0] == '\t');
                }
            }
            result.append(piece);
        }
        idx += 1;
    }
    result
}

/// The clusters' text with `c` put before the cluster at `at`, or at the end.
pub fn insert_into_clusters(gs: &Vec<String>, at: usize, c: char) -> (r: String)
    ensures
        r@ == inserted_in(texts(gs@), at as int, c),
{
    let ghost g = texts(gs@);
    let n = gs.len();
    let mut result = String::new();
    let mut idx: usize = 0;
    while idx < n
        invariant
            g == texts(gs@),
            n == gs@.len(),
            idx <= n,
            idx <= at ==> result@ == joined(g.subrange(0, idx as int)),
            idx > at ==> result@ == joined(g.subrange(0, at as int)) + seq![c] + joined(
                g.subrange(at as int, idx as int),
            ),
        decreases n - idx,
    {
        let piece = gs[idx].as_str();
        assert(piece@ == g[idx as int]);
        proof {
            lemma_joined_extend(g, 0, idx as int);
            if idx > at {
                lemma_joined_extend(g, at as int, idx as int);
            }
            if idx == at {
                lemma_joined_extend(g, idx as int, idx as int);
                assert(g.subrange(idx as int, idx as int) =~= Seq::<Seq<char>>::empty());
            }
        }
        if idx == at {
            push_char(&mut result, c);
        }
        result.append(piece);
        proof {
            if idx >= at {
                assert(result@ =~= joined(g.subrange(0, at as int)) + seq![c] + joined(
                    g.subrange(at as int, idx + 1),
                ));
            }
        }
        idx += 1;
    }
    if at >= n {
        push_char(&mut result, c);
        assert(g.subrange(n as int, n as int) =~= Seq::<Seq<char>>::empty());
        assert(result@ =~= joined(g.subrange(0, n as int)) + seq![c] + joined(
            g.subrange(n as int, n as int),
        ));
    }
    result
}

/// The clusters' text without the cluster at `at`.
pub fn delete_from_clusters(gs: &Vec<String>, at: usize) -> (r: String)
    ensures
        r@ == deleted_in(texts(gs@), at as int),
{
    let ghost g = texts(gs@);
    let n = gs.len();
    let mut result = String::new();
    let mut idx: usize = 0;
    while idx < n
        invariant
            g == texts(gs@),
            n == gs@.len(),
            idx <= n,
            idx <= at ==> result@ == joined(g.subrange(0, idx as int)),
            idx > at ==> result@ == joined(g.subrange(0, at as int)) + joined(
                g.subrange(at + 1, idx as int),
            ),
        decreases n - idx,
    {
        let piece = gs[idx].as_str();
        assert(piece@ == g[idx as int]);
        if idx != at {
            proof {
                lemma_joined_extend(g, 0, idx as int);
                if idx > at {
                    lemma_joined_extend(g, at + 1, idx as int);
                }
            }
            result.append(piece);
            proof {
                if idx > at {
                    assert(result@ =~= joined(g.subrange(0, at as int)) + joined(
                        g.subrange(at + 1, idx + 1),
                    ));
                }
            }
        } else {
            assert(g.subrange(at + 1, at + 1) =~= Seq::<Seq<char>>::empty());
            assert(result@ =~= joined(g.subrange(0, at as int)) + joined(
                g.subrange(at + 1, at + 1),
            ));
        }
        idx += 1;
    }
    assert(g.subrange(0, n as int) =~= g);
    result
}

/// The text of the clusters before `at`, and of those from `at` on.
pub fn split_clusters(gs: &Vec<String>, at: usize) -> (r: (String, String))
    ensures
        r.0@ == head_in(texts(gs@), at as int),
        r.1@ == tail_in(texts(gs@), at as int),
{
    let ghost g = texts(gs@);
    let n = gs.len();
    let mut row = String::new();
    let mut splitted_row = String::new();
    let mut idx: usize = 0;
    while idx < n
        invariant
            g == texts(gs@),
            n == gs@.len(),
            idx <= n,
            row@ == joined(g.subrange(0, clamp(idx as int, at as int))),
            splitted_row@ == joined(g.subrange(clamp(idx as int, at as int), idx as int)),
        decreases n - idx,
    {
        let piece = gs[idx].as_str();
        assert(piece@ == g[idx as int]);
        if idx < at {
            proof {
                lemma_joined_extend(g, 0, idx as int);
                assert(g.subrange(idx + 1, idx + 1) =~= Seq::<Seq<char>>::empty());
            }
            row.append(piece);
        } else {
            proof {
                lemma_joined_extend(g, at as int, idx as int);
            }
            splitted_row.append(piece);
        }
        idx += 1;
    }
    (row, splitted_row)
}

/// The index of the cluster at which the first occurrence of `query` in `text`
/// starts, if it starts on a cluster; `gs` are the clusters that spell `text`.
pub fn find_in_clusters(text: &str, gs: &Vec<String>, query: &str) -> (r: Option<usize>)
    requires
        joined(texts(gs@)) == text@,
    ensures
        r is Some <==> find_from(text@, texts(gs@), query@, 0) is Some,
        r is Some ==> find_from(text@, texts(gs@), query@, 0)->0 == r->0 as int,
{
    let s = chars_of(text);
    let q = chars_of(query);
    let found = first_match(&s, &q);
    let sl = s.len();
    let ghost g = texts(gs@);
    let n = gs.len();
    let mut off: usize = 0;
    let mut k: usize = 0;
    while k < n
        invariant
            g == texts(gs@),
            joined(g) == s@,
            sl == s@.len(),
            s@ == text@,
            q@ == query@,
            n == gs@.len(),
            k <= n,
            off == offset_of(g, k as int),
            find_from(s@, g, q@, 0) == find_from(s@, g, q@, k as int),
            match found {
                Some(p) => first_match_at(s@, q@, p as int),
                None => forall|p: int| !#[trigger] match_at(s@, q@, p),
            },
        decreases n - k,
    {
        let ghost hit = first_match_at(s@, q@, off as int);
        proof {
            if let Some(p) = found {
                if hit {
                    if (off as int) < p {
                        assert(!match_at(s@, q@, off as int));
                    } else if p < (off as int) {
                        assert(!match_at(s@, q@, p as int));
                    }
                }
            }
        }
        if let Some(p) = found {
            if p == off {
                assert(find_from(s@, g, q@, k as int) == Some(k as int));
                return Some(k);
            }
        }
        let w = gs[k].as_str().unicode_len();
        proof {
            lemma_joined_extend(g, 0, k as int);
            lemma_joined_split(g, k + 1);
            assert(g.subrange(0, n as int) =~= g);
        }
        off = off + w;
        k += 1;
    }
    None
}

/// Inserting a character at a cluster index `i` (at most the length) and then
/// deleting the cluster at `i` gives back the text, whenever the character
/// stands as a cluster of its own in the text after the insertion.
pub proof fn lemma_insert_then_delete(s: Seq<char>, i: int, c: char)
    requires
        segmented(s),
        0 <= i <= grapheme_len(s),
        graphemes_of(inserted(s, i, c)) == graphemes_of(s).insert(i, seq![c]),
    ensures
        deleted(inserted(s, i, c), i) == s,
{
    let gs = graphemes_of(s);
    let n = gs.len() as int;
    let gt = gs.insert(i, seq![c]);
    assert(gt.subrange(0, i) =~= gs.subrange(0, i));
    assert(gt.subrange(i + 1, n + 1) =~= gs.subrange(i, n));
    lemma_joined_split(gs, i);
}

/// Splitting a text at any cluster index and appending the tail to the head
/// gives back the text.
pub proof fn lemma_split_then_append(s: Seq<char>, at: int)
    requires
        segmented(s),
        0 <= at,
    ensures
        head(s, at) + tail(s, at) == s,
{
    lemma_joined_split(graphemes_of(s), clamp(at, grapheme_len(s) as int));
}

/// Rendering a whole text keeps every cluster, in order, and shows each tab
/// as one space.
pub proof fn lemma_render_whole(s: Seq<char>)
    ensures
        rendered(s, 0, grapheme_len(s) as int) == joined(
            graphemes_of(s).map_values(|g: Seq<char>| shown(g)),
        ),
{
    assert(graphemes_of(s).subrange(0, grapheme_len(s) as int) =~= graphemes_of(s));
}

/// One line of text, indexed by grapheme cluster.
pub struct Row {
    string: String,
    len: usize,
}

impl View for Row {
    type V = Seq<char>;

    closed spec fn view(&self) -> Seq<char> {
        self.string@
    }
}

impl Row {
    #[verifier::type_invariant]
    closed spec fn inv(&self) -> bool {
        &&& self.len == grapheme_len(self.string@)
        &&& segmented(self.string@)
    }

    /// Takes ownership of a text and counts its clusters.
    pub(crate) fn from_string(string: String) -> (r: Row)
        ensures
            r@ == string@,
    {
        let gs = split_graphemes(string.as_str());
        Row { string, len: gs.len() }
    }

    pub fn from(slice: &str) -> (r: Row)
        ensures
            r@ == slice@,
    {
        Row::from_string(String::from_str(slice))
    }

    pub fn len(&self) -> (r: usize)
        ensures
            r == grapheme_len(self@),
    {
        proof {
            use_type_invariant(self);
        }
        self.len
    }

    pub fn is_empty(&self) -> (r: bool)
        ensures
            r == (grapheme_len(self@) == 0),
    {
        proof {
            use_type_invariant(self);
        }
        self.len == 0
    }

    pub fn render(&self, start: usize, end: usize) -> (r: String)
        ensures
            r@ == rendered(self@, start as int, end as int),
    {
        let gs = split_graphemes(self.string.as_str());
        render_clusters(&gs, start, end)
    }

    pub fn insert(&mut self, at: usize, c: char)
        ensures
            final(self)@ == inserted(old(self)@, at as int, c),
    {
        let gs = split_graphemes(self.string.as_str());
        *self = Row::from_string(insert_into_clusters(&gs, at, c));
    }

    pub fn delete(&mut self, at: usize)
        ensures
            final(self)@ == deleted(old(self)@, at as int),
    {
        proof {
            use_type_invariant(&*self);
        }
        if at >= self.len {
            return;
        }
        let gs = split_graphemes(self.string.as_str());
        *self = Row::from_string(delete_from_clusters(&gs, at));
    }

    pub fn append(&mut self, new: &Row)
        ensures
            final(self)@ == old(self)@ + new@,
    {
        let mut string = self.string.clone();
        string.append(new.string.as_str());
        *self = Row::from_string(string);
    }

    pub fn split(&mut self, at: usize) -> (r: Row)
        ensures
            final(self)@ == head(old(self)@, at as int),
            r@ == tail(old(self)@, at as int),
    {
        let gs = split_graphemes(self.string.as_str());
        let (row, splitted_row) = split_clusters(&gs, at);
        *self = Row::from_string(row);
        Row::from_string(splitted_row)
    }

    pub fn find(&self, query: &str) -> (r: Option<usize>)
        ensures
            r is Some <==> grapheme_find(self@, query@) is Some,
            r is Some ==> grapheme_find(self@, query@)->0 == r->0 as int,
    {
        let gs = split_graphemes(self.string.as_str());
        find_in_clusters(self.string.as_str(), &gs, query)
    }

    pub fn as_bytes(&self) -> (r: &[u8])
        ensures
            r@ == vstd::utf8::encode_utf8(self@),
    {
        self.string.as_str().as_bytes()
    }
}

} // verus!
