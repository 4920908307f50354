use vstd::prelude::*;

verus! {

/// The mathematical value of a text block: one line, or a stack of lines.
pub enum DocView {
    Line(Seq<char>),
    Lines(Seq<Seq<char>>),
}

/// The character views of a vector of strings.
pub open spec fn lines_view(v: Seq<String>) -> Seq<Seq<char>> {
    v.map_values(|s: String| s@)
}

/// The block seen as a stack of lines.
pub open spec fn lines_of(d: DocView) -> Seq<Seq<char>> {
    match d {
        DocView::Line(l) => seq![l],
        DocView::Lines(ls) => ls,
    }
}

/// Lines joined by line breaks.
pub open spec fn joined(ls: Seq<Seq<char>>) -> Seq<char>
    decreases ls.len(),
{
    if ls.len() == 0 {
        Seq::empty()
    } else if ls.len() == 1 {
        ls[0]
    } else {
        joined(ls.drop_last()) + seq!['\n'] + ls.last()
    }
}

/// The text of a block.
pub open spec fn text_of(d: DocView) -> Seq<char> {
    match d {
        DocView::Line(l) => l,
        DocView::Lines(ls) => joined(ls),
    }
}

/// The pieces of `s` between line feeds (one more than there are line feeds).
pub open spec fn pieces(s: Seq<char>) -> Seq<Seq<char>>
    decreases s.len(),
{
    if s.len() == 0 {
        seq![Seq::empty()]
    } else {
        let p = pieces(s.drop_last());
        if s.last() == '\n' {
            p.push(Seq::empty())
        } else {
            p.update(p.len() - 1, p.last().push(s.last()))
        }
    }
}

/// A line that ended in `"\r\n"` loses its carriage return.
pub open spec fn strip_cr(l: Seq<char>) -> Seq<char> {
    if l.len() > 0 && l.last() == '\r' {
        l.drop_last()
    } else {
        l
    }
}

/// The lines of `s`: split at line feeds, a carriage return before a line
/// feed dropped, and no empty line after a final line feed.
pub open spec fn split_lines(s: Seq<char>) -> Seq<Seq<char>> {
    let p = pieces(s);
    let body = p.drop_last().map_values(|l: Seq<char>| strip_cr(l));
    if p.last().len() == 0 {
        body
    } else {
        body.push(p.last())
    }
}

/// A string as a block: one line when it holds no line feed, else its lines.
pub open spec fn from_string_spec(s: Seq<char>) -> DocView {
    if pieces(s).len() == 1 {
        DocView::Line(s)
    } else {
        DocView::Lines(split_lines(s))
    }
}

/// `n` copies of one character.
pub open spec fn run_of(c: char, n: nat) -> Seq<char> {
    Seq::new(n, |_i: int| c)
}

/// Every line of a block with `p` in front.
pub open spec fn prefix_lines(d: DocView, p: Seq<char>) -> DocView {
    match d {
        DocView::Line(l) => DocView::Line(p + l),
        DocView::Lines(ls) => DocView::Lines(ls.map_values(|l: Seq<char>| p + l)),
    }
}

/// A block indented by `n` levels, one tab each.
pub open spec fn indent_spec(d: DocView, n: nat) -> DocView {
    if n == 0 {
        d
    } else {
        prefix_lines(d, run_of('\t', n))
    }
}

/// Vertical concatenation.
pub open spec fn merge_spec(a: DocView, b: DocView) -> DocView {
    DocView::Lines(lines_of(a) + lines_of(b))
}

/// Two lines side by side, one space between them.
pub open spec fn join2(l: Seq<char>, r: Seq<char>) -> Seq<char> {
    l + seq![' '] + r
}

/// Each line attached to the right of `w` spaces.
pub open spec fn padded(rs: Seq<Seq<char>>, w: nat) -> Seq<Seq<char>> {
    rs.map_values(|r: Seq<char>| join2(run_of(' ', w), r))
}

/// The first `n` lines of `ls` each joined with the line of `rs` at the same place.
pub open spec fn paired(ls: Seq<Seq<char>>, rs: Seq<Seq<char>>, n: nat) -> Seq<Seq<char>> {
    Seq::new(n, |i: int| join2(ls[i], rs[i]))
}

/// The length of the longest line; zero for no lines.
pub open spec fn max_width(ls: Seq<Seq<char>>) -> nat
    decreases ls.len(),
{
    if ls.len() == 0 {
        0
    } else {
        let m = max_width(ls.drop_last());
        if ls.last().len() > m {
            ls.last().len()
        } else {
            m
        }
    }
}

/// Horizontal concatenation of two blocks, aligned as the lines of a value
/// and of the comment on its right.
pub open spec fn attach_spec(a: DocView, b: DocView) -> DocView {
    match (a, b) {
        (DocView::Line(l), DocView::Line(r)) => DocView::Line(join2(l, r)),
        (DocView::Line(l), DocView::Lines(rs)) => if rs.len() == 0 {
            DocView::Line(l)
        } else if rs.len() == 1 {
            DocView::Line(join2(l, rs[0]))
        } else {
            DocView::Lines(seq![join2(l, rs[0])] + padded(rs.skip(1), l.len()))
        },
        (DocView::Lines(ls), DocView::Line(r)) => if ls.len() == 0 {
            DocView::Line(r)
        } else if ls.len() == 1 {
            DocView::Line(join2(ls[0], r))
        } else {
            DocView::Lines(seq![join2(ls[0], r)] + ls.skip(1))
        },
        (DocView::Lines(ls), DocView::Lines(rs)) => if ls.len() == 0 && rs.len() == 0 {
            DocView::Line(Seq::empty())
        } else if ls.len() == 0 {
            DocView::Lines(rs)
        } else if rs.len() == 0 {
            DocView::Lines(ls)
        } else if ls.len() == 1 && rs.len() == 1 {
            DocView::Line(join2(ls[0], rs[0]))
        } else if ls.len() >= rs.len() {
            DocView::Lines(paired(ls, rs, rs.len()) + ls.skip(rs.len() as int))
        } else {
            DocView::Lines(paired(ls, rs, ls.len()) + padded(rs.skip(ls.len() as int), max_width(ls)))
        },
    }
}

/// A line without a line feed.
pub open spec fn no_break(l: Seq<char>) -> bool {
    forall|i: int| 0 <= i < l.len() ==> l[i] != '\n'
}

/// A well-formed block: none of its lines holds a line feed.
pub open spec fn well_formed(d: DocView) -> bool {
    forall|k: int| 0 <= k < lines_of(d).len() ==> no_break(#[trigger] lines_of(d)[k])
}

/// Two lines without a line feed make one without a line feed.
pub proof fn lemma_concat_no_break(a: Seq<char>, b: Seq<char>)
    requires
        no_break(a),
        no_break(b),
    ensures
        no_break(a + b),
{
    assert forall|i: int| 0 <= i < (a + b).len() implies (a + b)[i] != '\n' by {
        if i >= a.len() {
            assert((a + b)[i] == b[i - a.len()]);
        }
    }
}

/// Two lines without a line feed stay so side by side.
pub proof fn lemma_join2_no_break(l: Seq<char>, r: Seq<char>)
    requires
        no_break(l),
        no_break(r),
    ensures
        no_break(join2(l, r)),
{
    lemma_concat_no_break(l, seq![' ']);
    lemma_concat_no_break(l + seq![' '], r);
}

/// Every string has at least one piece.
pub proof fn lemma_pieces_nonempty(s: Seq<char>)
    ensures
        pieces(s).len() >= 1,
    decreases s.len(),
{
    if s.len() > 0 {
        lemma_pieces_nonempty(s.drop_last());
    }
}

/// No piece holds a line feed.
pub proof fn lemma_pieces_no_break(s: Seq<char>)
    ensures
        forall|k: int| 0 <= k < pieces(s).len() ==> no_break(#[trigger] pieces(s)[k]),
    decreases s.len(),
{
    if s.len() > 0 {
        lemma_pieces_no_break(s.drop_last());
        lemma_pieces_nonempty(s.drop_last());
        let p = pieces(s.drop_last());
        if s.last() != '\n' {
            lemma_concat_no_break(p.last(), seq![s.last()]);
            assert(p.last().push(s.last()) =~= p.last() + seq![s.last()]);
        }
    }
}

/// A string that is one piece holds no line feed.
pub proof fn lemma_one_piece(s: Seq<char>)
    requires
        pieces(s).len() == 1,
    ensures
        pieces(s) == seq![s],
        no_break(s),
    decreases s.len(),
{
    if s.len() > 0 {
        lemma_pieces_nonempty(s.drop_last());
        lemma_one_piece(s.drop_last());
        assert(s.drop_last().push(s.last()) =~= s);
        assert(pieces(s) =~= seq![s]);
    } else {
        assert(s =~= Seq::<char>::empty());
    }
    lemma_pieces_no_break(s);
}

/// A block made from a string is well-formed.
pub proof fn lemma_from_string_well_formed(s: Seq<char>)
    ensures
        well_formed(from_string_spec(s)),
{
    lemma_pieces_nonempty(s);
    lemma_pieces_no_break(s);
    if pieces(s).len() == 1 {
        lemma_one_piece(s);
    } else {
        let p = pieces(s);
        let ls = split_lines(s);
        assert forall|k: int| 0 <= k < ls.len() implies no_break(#[trigger] ls[k]) by {
            if k < p.len() - 1 {
                assert(no_break(p[k]));
                assert(ls[k] == strip_cr(p[k]));
            } else {
                assert(ls[k] == p.last());
                assert(no_break(p[p.len() - 1]));
            }
        }
    }
}

/// Vertical concatenation keeps blocks well-formed.
pub proof fn lemma_merge_well_formed(a: DocView, b: DocView)
    requires
        well_formed(a),
        well_formed(b),
    ensures
        well_formed(merge_spec(a, b)),
{
    let m = lines_of(merge_spec(a, b));
    assert forall|k: int| 0 <= k < m.len() implies no_break(#[trigger] m[k]) by {
        if k < lines_of(a).len() {
            assert(m[k] == lines_of(a)[k]);
        } else {
            assert(m[k] == lines_of(b)[k - lines_of(a).len()]);
        }
    }
}

/// A prefix without a line feed keeps blocks well-formed.
pub proof fn lemma_prefix_well_formed(d: DocView, p: Seq<char>)
    requires
        well_formed(d),
        no_break(p),
    ensures
        well_formed(prefix_lines(d, p)),
{
    let m = lines_of(prefix_lines(d, p));
    assert forall|k: int| 0 <= k < m.len() implies no_break(#[trigger] m[k]) by {
        assert(m[k] == p + lines_of(d)[k]);
        lemma_concat_no_break(p, lines_of(d)[k]);
    }
}

/// Attaching keeps blocks well-formed.
pub proof fn lemma_attach_well_formed(a: DocView, b: DocView)
    requires
        well_formed(a),
        well_formed(b),
    ensures
        well_formed(attach_spec(a, b)),
{
    let ls = lines_of(a);
    let rs = lines_of(b);
    let m = lines_of(attach_spec(a, b));
    assert forall|w: nat, r: Seq<char>| no_break(r) implies #[trigger] no_break(join2(run_of(' ', w), r)) by {
        lemma_join2_no_break(run_of(' ', w), r);
    }
    assert forall|i: int, j: int| 0 <= i < ls.len() && 0 <= j < rs.len() implies no_break(#[trigger] join2(ls[i], rs[j])) by {
        lemma_join2_no_break(ls[i], rs[j]);
    }
    assert forall|k: int| 0 <= k < m.len() implies no_break(#[trigger] m[k]) by {
        let n = if ls.len() < rs.len() { ls.len() } else { rs.len() };
        match (a, b) {
            (DocView::Line(l), DocView::Lines(_)) => {
                if rs.len() >= 2 && k > 0 {
                    assert(m[k] == join2(run_of(' ', l.len()), rs[k]));
                }
            },
            (DocView::Lines(_), DocView::Line(_)) => {
                if ls.len() >= 2 && k > 0 {
                    assert(m[k] == ls[k]);
                }
            },
            (DocView::Lines(_), DocView::Lines(_)) => {
                if ls.len() > 0 && rs.len() > 0 && !(ls.len() == 1 && rs.len() == 1) {
                    if k < n {
                        assert(m[k] == join2(ls[k], rs[k]));
                    } else if ls.len() >= rs.len() {
                        assert(m[k] == ls[k]);
                    } else {
                        assert(m[k] == join2(run_of(' ', max_width(ls)), rs[k]));
                    }
                } else if ls.len() == 0 && rs.len() > 0 {
                    assert(m[k] == rs[k]);
                } else if rs.len() == 0 && ls.len() > 0 {
                    assert(m[k] == ls[k]);
                }
            },
            _ => {},
        }
    }
}

/// The views of a vector grow with it.
pub proof fn lemma_lines_view_push(v: Seq<String>, x: String)
    ensures
        lines_view(v.push(x)) == lines_view(v).push(x@),
{
    assert(lines_view(v.push(x)) =~= lines_view(v).push(x@));
}

/// A text block: one line, or a stack of lines.
pub enum DocStr {
    Line(String),
    MultiLine(Vec<String>),
}

impl View for DocStr {
    type V = DocView;

    open spec fn view(&self) -> DocView {
        match self {
            DocStr::Line(l) => DocView::Line(l@),
            DocStr::MultiLine(ls) => DocView::Lines(lines_view(ls@)),
        }
    }
}

impl DocStr {
    /// A block from a string: one line when it holds no line feed, else the
    /// stack of its lines.
    pub fn line(line: &str) -> (r: Self)
        ensures
            r@ == from_string_spec(line@),
            well_formed(r@),
    {
        proof {
            lemma_from_string_well_formed(line@);
        }
        let n = line.unicode_len();
        let ghost s = line@;
        let mut done: Vec<String> = Vec::new();
        let mut start: usize = 0;
        let mut i: usize = 0;
        while i < n
            invariant
                n == s.len(),
                s == line@,
                start <= i <= n,
                pieces(s.take(i as int)).len() == done@.len() + 1,
                pieces(s.take(i as int)).last() == s.subrange(start as int, i as int),
                forall|k: int|
                    0 <= k < done@.len() ==> done@[k]@ == strip_cr(#[trigger] pieces(s.take(i as int))[k]),
            decreases n - i,
        {
            let ghost p = pieces(s.take(i as int));
            assert(s.take(i + 1).drop_last() =~= s.take(i as int));
            assert(s.take(i + 1).last() == s[i as int]);
            let c = line.get_char(i);
            if c == '\n' {
                let end = if i > start && line.get_char(i - 1) == '\r' {
                    i - 1
                } else {
                    i
                };
                let piece = line.substring_char(start, end);
                assert(piece@ =~= strip_cr(p.last()));
                done.push(String::from_str(piece));
                start = i + 1;
                assert(pieces(s.take(i + 1)) == p.push(Seq::empty()));
                assert(s.subrange(start as int, i + 1) =~= Seq::<char>::empty());
            } else {
                assert(s.subrange(start as int, i + 1) =~= p.last().push(c));
            }
            i = i + 1;
        }
        assert(s.take(n as int) =~= s);
        if done.len() == 0 {
            DocStr::Line(String::from_str(line))
        } else {
            let last = line.substring_char(start, n);
            if last.unicode_len() > 0 {
                done.push(String::from_str(last));
            }
            assert(lines_view(done@) =~= split_lines(s));
            DocStr::MultiLine(done)
        }
    }

    /// A stack of the given lines.
    pub fn multiline(lines: Vec<&str>) -> (r: Self)
        ensures
            r@ == DocView::Lines(lines@.map_values(|l: &str| l@)),
    {
        let mut out: Vec<String> = Vec::new();
        let mut i: usize = 0;
        while i < lines.len()
            invariant
                i <= lines@.len(),
                lines_view(out@) =~= lines@.take(i as int).map_values(|l: &str| l@),
            decreases lines@.len() - i,
        {
            let ghost prev = out@;
            out.push(String::from_str(lines[i]));
            proof {
                lemma_lines_view_push(prev, out@.last());
                assert(lines@.take(i + 1).drop_last() =~= lines@.take(i as int));
            }
            i = i + 1;
            assert(lines_view(out@) =~= lines@.take(i as int).map_values(|l: &str| l@));
        }
        assert(lines@.take(i as int) =~= lines@);
        DocStr::MultiLine(out)
    }

    /// A stack of the given owned lines.
    pub fn multiline_iter(lines: Vec<String>) -> (r: Self)
        ensures
            r@ == DocView::Lines(lines_view(lines@)),
    {
        DocStr::MultiLine(lines)
    }

    /// One empty line.
    pub fn empty() -> (r: Self)
        ensures
            r@ == DocView::Line(Seq::empty()),
            well_formed(r@),
    {
        DocStr::Line(String::new())
    }

    /// A stack of `amount` empty lines.
    pub fn empty_lines(amount: usize) -> (r: Self)
        ensures
            r@ == DocView::Lines(Seq::new(amount as nat, |_i: int| Seq::<char>::empty())),
            well_formed(r@),
    {
        let mut out: Vec<String> = Vec::new();
        let mut i: usize = 0;
        while i < amount
            invariant
                i <= amount,
                lines_view(out@) =~= Seq::new(i as nat, |_k: int| Seq::<char>::empty()),
            decreases amount - i,
        {
            let ghost prev = out@;
            out.push(String::new());
            proof {
                lemma_lines_view_push(prev, out@.last());
            }
            i = i + 1;
            assert(lines_view(out@) =~= Seq::new(i as nat, |_k: int| Seq::<char>::empty()));
        }
        DocStr::MultiLine(out)
    }

    /// Applies `f` to every line, keeping the shape of the block.
    pub fn map<F: Fn(String) -> String>(self, f: F) -> (r: Self)
        requires
            forall|s: String| #[trigger] f.requires((s,)),
        ensures
            match (self, r) {
                (DocStr::Line(a), DocStr::Line(b)) => f.ensures((a,), b),
                (DocStr::MultiLine(a), DocStr::MultiLine(b)) => a@.len() == b@.len() && forall|i: int|
                    0 <= i < a@.len() ==> f.ensures((a@[i],), #[trigger] b@[i]),
                _ => false,
            },
    {
        match self {
            DocStr::Line(line) => DocStr::Line(f(line)),
            DocStr::MultiLine(lines) => {
                let mut out: Vec<String> = Vec::new();
                let mut i: usize = 0;
                while i < lines.len()
                    invariant
                        i <= lines@.len(),
                        out@.len() == i,
                        forall|s: String| #[trigger] f.requires((s,)),
                        forall|k: int| 0 <= k < i ==> f.ensures((lines@[k],), #[trigger] out@[k]),
                    decreases lines@.len() - i,
                {
                    let mapped = f(lines[i].clone());
                    out.push(mapped);
                    i = i + 1;
                }
                DocStr::MultiLine(out)
            },
        }
    }

    /// Every line indented by `tabs` tab characters; unchanged for zero.
    pub fn tabbed(self, tabs: usize) -> (r: Self)
        ensures
            r@ == indent_spec(self@, tabs as nat),
            well_formed(self@) ==> well_formed(r@),
    {
        if tabs == 0 {
            self
        } else {
            proof {
                reveal_strlit("\t");
            }
            let prefix = repeated("\t", tabs);
            assert(no_break(prefix@));
            self.prefixed(prefix.as_str())
        }
    }

    /// Every line with `p` in front, keeping the shape of the block.
    pub fn prefixed(self, p: &str) -> (r: Self)
        ensures
            r@ == prefix_lines(self@, p@),
            well_formed(self@) && no_break(p@) ==> well_formed(r@),
    {
        proof {
            if well_formed(self@) && no_break(p@) {
                lemma_prefix_well_formed(self@, p@);
            }
        }
        match self {
            DocStr::Line(line) => {
                let mut t = String::from_str(p);
                t.append(line.as_str());
                DocStr::Line(t)
            },
            DocStr::MultiLine(lines) => {
                let mut out: Vec<String> = Vec::new();
                let mut i: usize = 0;
                while i < lines.len()
                    invariant
                        i <= lines@.len(),
                        lines_view(out@) =~= lines_view(lines@).take(i as int).map_values(
                            |l: Seq<char>| p@ + l,
                        ),
                    decreases lines@.len() - i,
                {
                    let mut t = String::from_str(p);
                    t.append(lines[i].as_str());
                    let ghost prev = out@;
                    out.push(t);
                    proof {
                        lemma_lines_view_push(prev, out@.last());
                        assert(lines_view(lines@).take(i + 1).drop_last() =~= lines_view(lines@).take(i as int));
                    }
                    i = i + 1;
                    assert(lines_view(out@) =~= lines_view(lines@).take(i as int).map_values(
                        |l: Seq<char>| p@ + l,
                    ));
                }
                assert(lines_view(lines@).take(i as int) =~= lines_view(lines@));
                DocStr::MultiLine(out)
            },
        }
    }

    /// The block as a stack of lines.
    pub fn into_lines(self) -> (r: Vec<String>)
        ensures
            lines_view(r@) == lines_of(self@),
    {
        match self {
            DocStr::Line(line) => {
                let v = vec![line];
                assert(lines_view(v@) =~= lines_of(self@));
                v
            },
            DocStr::MultiLine(lines) => lines,
        }
    }

    /// Vertical concatenation: the lines of `self`, then those of `other`.
    pub fn merge(self, other: DocStr) -> (r: Self)
        ensures
            r@ == merge_spec(self@, other@),
            well_formed(self@) && well_formed(other@) ==> well_formed(r@),
    {
        proof {
            if well_formed(self@) && well_formed(other@) {
                lemma_merge_well_formed(self@, other@);
            }
        }
        let mut lines = self.into_lines();
        let mut rest = other.into_lines();
        lines.append(&mut rest);
        assert(lines_view(lines@) =~= lines_of(self@) + lines_of(other@));
        DocStr::MultiLine(lines)
    }

    /// Horizontal concatenation: `right` goes to the right of `self`, line by
    /// line, and lines that only one side has are aligned as a trailing
    /// comment would be.
    pub fn attach_right(self, right: DocStr) -> (r: Self)
        ensures
            r@ == attach_spec(self@, right@),
            well_formed(self@) && well_formed(right@) ==> well_formed(r@),
    {
        proof {
            if well_formed(self@) && well_formed(right@) {
                lemma_attach_well_formed(self@, right@);
            }
        }
        match (self, right) {
            (DocStr::Line(line), DocStr::Line(rline)) => DocStr::Line(
                join_space(line.as_str(), rline.as_str()),
            ),
            (DocStr::Line(line), DocStr::MultiLine(rlines)) => {
                if rlines.len() == 0 {
                    DocStr::Line(line)
                } else if rlines.len() == 1 {
                    DocStr::Line(join_space(line.as_str(), rlines[0].as_str()))
                } else {
                    let mut out: Vec<String> = Vec::new();
                    out.push(join_space(line.as_str(), rlines[0].as_str()));
                    assert(lines_view(out@) =~= seq![join2(line@, rlines@[0]@)]);
                    let width = line.as_str().unicode_len();
                    push_padded(&mut out, &rlines, 1, width);
                    DocStr::MultiLine(out)
                }
            },
            (DocStr::MultiLine(lines), DocStr::Line(rline)) => {
                if lines.len() == 0 {
                    DocStr::Line(rline)
                } else if lines.len() == 1 {
                    DocStr::Line(join_space(lines[0].as_str(), rline.as_str()))
                } else {
                    let mut out: Vec<String> = Vec::new();
                    out.push(join_space(lines[0].as_str(), rline.as_str()));
                    assert(lines_view(out@) =~= seq![join2(lines@[0]@, rline@)]);
                    push_tail(&mut out, &lines, 1);
                    DocStr::MultiLine(out)
                }
            },
            (DocStr::MultiLine(lines), DocStr::MultiLine(rlines)) => {
                let n = lines.len();
                let m = rlines.len();
                if n == 0 && m == 0 {
                    DocStr::empty()
                } else if n == 0 {
                    DocStr::MultiLine(rlines)
                } else if m == 0 {
                    DocStr::MultiLine(lines)
                } else if n == 1 && m == 1 {
                    DocStr::Line(join_space(lines[0].as_str(), rlines[0].as_str()))
                } else if n >= m {
                    let mut out: Vec<String> = Vec::new();
                    assert(lines_view(out@) =~= Seq::empty());
                    push_pairs(&mut out, &lines, &rlines, m);
                    push_tail(&mut out, &lines, m);
                    DocStr::MultiLine(out)
                } else {
                    let mut out: Vec<String> = Vec::new();
                    assert(lines_view(out@) =~= Seq::empty());
                    push_pairs(&mut out, &lines, &rlines, n);
                    let width = widest(&lines);
                    push_padded(&mut out, &rlines, n, width);
                    DocStr::MultiLine(out)
                }
            },
        }
    }

    /// The text of the block, lines joined by line breaks.
    pub fn to_string(&self) -> (r: String)
        ensures
            r@ == text_of(self@),
    {
        match self {
            DocStr::Line(line) => line.clone(),
            DocStr::MultiLine(lines) => {
                let ghost ls = lines_view(lines@);
                let mut out = String::new();
                let mut i: usize = 0;
                while i < lines.len()
                    invariant
                        i <= lines@.len(),
                        ls == lines_view(lines@),
                        out@ == joined(ls.take(i as int)),
                    decreases lines@.len() - i,
                {
                    proof {
                        reveal_strlit("\n");
                    }
                    assert(ls.take(i + 1).drop_last() =~= ls.take(i as int));
                    if i > 0 {
                        out.append("\n");
                    } else {
                        assert(joined(ls.take(1)) == ls[0]);
                    }
                    out.append(lines[i].as_str());
                    i = i + 1;
                }
                assert(ls.take(i as int) =~= ls);
                out
            },
        }
    }
}

/// `l` and `r` side by side, one space between them.
fn join_space(l: &str, r: &str) -> (s: String)
    ensures
        s@ == join2(l@, r@),
{
    proof {
        reveal_strlit(" ");
    }
    let mut s = String::from_str(l);
    s.append(" ");
    s.append(r);
    s
}

/// Appends the lines of `src` from index `from` on.
fn push_tail(out: &mut Vec<String>, src: &Vec<String>, from: usize)
    requires
        from <= src@.len(),
    ensures
        lines_view(final(out)@) == lines_view(old(out)@) + lines_view(src@).skip(from as int),
{
    let ghost start = lines_view(out@);
    let mut i: usize = from;
    while i < src.len()
        invariant
            from <= i <= src@.len(),
            lines_view(out@) == start + lines_view(src@).subrange(from as int, i as int),
        decreases src@.len() - i,
    {
        let ghost prev = out@;
        out.push(src[i].clone());
        proof {
            lemma_lines_view_push(prev, src@[i as int]);
            assert(lines_view(src@).subrange(from as int, i + 1) =~= lines_view(src@).subrange(
                from as int,
                i as int,
            ).push(src@[i as int]@));
        }
        i = i + 1;
    }
    assert(lines_view(src@).subrange(from as int, i as int) =~= lines_view(src@).skip(from as int));
}

/// Appends the lines of `src` from index `from` on, each attached to the
/// right of `width` spaces.
fn push_padded(out: &mut Vec<String>, src: &Vec<String>, from: usize, width: usize)
    requires
        from <= src@.len(),
    ensures
        lines_view(final(out)@) == lines_view(old(out)@) + padded(
            lines_view(src@).skip(from as int),
            width as nat,
        ),
{
    proof {
        reveal_strlit(" ");
    }
    let pad = repeated(" ", width);
    let ghost start = lines_view(out@);
    let mut i: usize = from;
    while i < src.len()
        invariant
            from <= i <= src@.len(),
            pad@ == run_of(' ', width as nat),
            lines_view(out@) == start + padded(
                lines_view(src@).subrange(from as int, i as int),
                width as nat,
            ),
        decreases src@.len() - i,
    {
        let ghost prev = out@;
        out.push(join_space(pad.as_str(), src[i].as_str()));
        proof {
            lemma_lines_view_push(prev, out@.last());
            assert(padded(lines_view(src@).subrange(from as int, i + 1), width as nat) =~= padded(
                lines_view(src@).subrange(from as int, i as int),
                width as nat,
            ).push(join2(pad@, src@[i as int]@)));
        }
        i = i + 1;
    }
    assert(lines_view(src@).subrange(from as int, i as int) =~= lines_view(src@).skip(from as int));
}

/// Appends the first `n` lines of `ls`, each joined with the line of `rs` at
/// the same place.
fn push_pairs(out: &mut Vec<String>, ls: &Vec<String>, rs: &Vec<String>, n: usize)
    requires
        n <= ls@.len(),
        n <= rs@.len(),
    ensures
        lines_view(final(out)@) == lines_view(old(out)@) + paired(
            lines_view(ls@),
            lines_view(rs@),
            n as nat,
        ),
{
    let ghost start = lines_view(out@);
    let mut i: usize = 0;
    while i < n
        invariant
            i <= n <= ls@.len(),
            n <= rs@.len(),
            lines_view(out@) == start + paired(lines_view(ls@), lines_view(rs@), i as nat),
        decreases n - i,
    {
        let ghost prev = out@;
        out.push(join_space(ls[i].as_str(), rs[i].as_str()));
        proof {
            lemma_lines_view_push(prev, out@.last());
            assert(paired(lines_view(ls@), lines_view(rs@), (i + 1) as nat) =~= paired(
                lines_view(ls@),
                lines_view(rs@),
                i as nat,
            ).push(join2(ls@[i as int]@, rs@[i as int]@)));
        }
        i = i + 1;
    }
}

/// The length of the longest line.
fn widest(ls: &Vec<String>) -> (w: usize)
    ensures
        w == max_width(lines_view(ls@)),
{
    let mut w: usize = 0;
    let mut i: usize = 0;
    while i < ls.len()
        invariant
            i <= ls@.len(),
            w == max_width(lines_view(ls@).take(i as int)),
        decreases ls@.len() - i,
    {
        let len = ls[i].as_str().unicode_len();
        assert(lines_view(ls@).take(i + 1).drop_last() =~= lines_view(ls@).take(i as int));
        if len > w {
            w = len;
        }
        i = i + 1;
    }
    assert(lines_view(ls@).take(i as int) =~= lines_view(ls@));
    w
}

/// A one-character `unit` repeated `n` times.
fn repeated(unit: &str, n: usize) -> (r: String)
    requires
        unit@.len() == 1,
    ensures
        r@ == run_of(unit@[0], n as nat),
{
    let mut out = String::new();
    let mut i: usize = 0;
    while i < n
        invariant
            i <= n,
            unit@.len() == 1,
            out@ == run_of(unit@[0], i as nat),
        decreases n - i,
    {
        out.append(unit);
        i = i + 1;
        assert(out@ =~= run_of(unit@[0], i as nat));
    }
    out
}


/// A string without a line feed is one piece.
pub proof fn lemma_pieces_single(s: Seq<char>)
    requires
        no_break(s),
    ensures
        pieces(s) == seq![s],
    decreases s.len(),
{
    if s.len() > 0 {
        lemma_pieces_single(s.drop_last());
        assert(s.drop_last().push(s.last()) =~= s);
        assert(pieces(s) =~= seq![s]);
    } else {
        assert(s =~= Seq::<char>::empty());
    }
}

/// A string without a line break comes back unchanged from a block made of it.
pub proof fn lemma_from_string_round_trip(s: Seq<char>)
    requires
        no_break(s),
    ensures
        from_string_spec(s) == DocView::Line(s),
        text_of(from_string_spec(s)) == s,
{
    lemma_pieces_single(s);
}

/// Merging a block made from a string with zero empty lines leaves its lines
/// as they were; only the representation becomes a stack.
pub proof fn lemma_merge_no_lines(s: Seq<char>)
    ensures
        lines_of(merge_spec(from_string_spec(s), DocView::Lines(Seq::new(0, |_i: int| Seq::<char>::empty()))))
            == lines_of(from_string_spec(s)),
{
    assert(lines_of(from_string_spec(s)) + Seq::new(0, |_i: int| Seq::<char>::empty()) =~= lines_of(
        from_string_spec(s),
    ));
}

/// Indenting by `m` levels and then by `n` levels is indenting by `m + n`.
pub proof fn lemma_indent_indent(d: DocView, m: nat, n: nat)
    ensures
        indent_spec(indent_spec(d, m), n) == indent_spec(d, m + n),
{
    if m > 0 && n > 0 {
        let t = run_of('\t', (m + n) as nat);
        assert(run_of('\t', n) + run_of('\t', m) =~= t);
        match d {
            DocView::Line(l) => {
                assert(run_of('\t', n) + (run_of('\t', m) + l) =~= t + l);
            },
            DocView::Lines(ls) => {
                let once = ls.map_values(|l: Seq<char>| run_of('\t', m) + l);
                assert forall|i: int| 0 <= i < ls.len() implies run_of('\t', n) + once[i] == t + ls[i] by {
                    assert(run_of('\t', n) + (run_of('\t', m) + ls[i]) =~= t + ls[i]);
                }
                assert(once.map_values(|l: Seq<char>| run_of('\t', n) + l) =~= ls.map_values(
                    |l: Seq<char>| t + l,
                ));
            },
        }
    }
}

/// When both blocks have a line, the first line of their attachment is their
/// first lines side by side.
pub proof fn lemma_attach_first_line(a: DocView, b: DocView)
    requires
        lines_of(a).len() > 0,
        lines_of(b).len() > 0,
    ensures
        lines_of(attach_spec(a, b)).len() > 0,
        lines_of(attach_spec(a, b))[0] == join2(lines_of(a)[0], lines_of(b)[0]),
{
}

/// Attaching is not commutative: two blocks whose first lines begin with
/// different characters give different results in the two orders.
pub proof fn lemma_attach_right_not_commutative(a: DocView, b: DocView)
    requires
        lines_of(a).len() > 0,
        lines_of(b).len() > 0,
        lines_of(a)[0].len() > 0,
        lines_of(b)[0].len() > 0,
        lines_of(a)[0][0] != lines_of(b)[0][0],
    ensures
        attach_spec(a, b) != attach_spec(b, a),
{
    lemma_attach_first_line(a, b);
    lemma_attach_first_line(b, a);
    assert(lines_of(attach_spec(a, b))[0][0] == lines_of(a)[0][0]);
    assert(lines_of(attach_spec(b, a))[0][0] == lines_of(b)[0][0]);
}

} // verus!
