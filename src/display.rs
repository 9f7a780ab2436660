use vstd::prelude::*;
use crate::tui_typing_state::{copy_range, opt_chars, Progress, TuiTypingState};

verus! {

/// The style a piece of displayed text is drawn with.
#[derive(Clone, Copy, Debug, PartialEq, Eq, Structural)]
pub enum StyleTag {
    Typed,
    Mistyped,
    Current,
    Untyped,
    Plain,
}

/// A run of text drawn in one style.
#[derive(Clone, Debug)]
pub struct Segment {
    pub text: Vec<char>,
    pub style: StyleTag,
}

impl View for Segment {
    type V = (Seq<char>, StyleTag);

    open spec fn view(&self) -> (Seq<char>, StyleTag) {
        (self.text@, self.style)
    }
}

/// One row of the display, left to right.
#[derive(Clone, Debug)]
pub struct DisplayLine {
    pub segments: Vec<Segment>,
}

impl View for DisplayLine {
    type V = Seq<(Seq<char>, StyleTag)>;

    open spec fn view(&self) -> Seq<(Seq<char>, StyleTag)> {
        self.segments@.map_values(|s: Segment| s@)
    }
}

/// The rows of a display, as values.
pub open spec fn lines_view(v: Seq<DisplayLine>) -> Seq<Seq<(Seq<char>, StyleTag)>> {
    v.map_values(|l: DisplayLine| l@)
}

/// The pieces of `s` between line feeds; there is always at least one.
pub open spec fn split_lines(s: Seq<char>) -> Seq<Seq<char>>
    decreases s.len(),
{
    if s.len() == 0 {
        seq![Seq::empty()]
    } else {
        let rest = split_lines(s.drop_last());
        if s.last() == '\n' {
            rest.push(Seq::empty())
        } else {
            rest.update(rest.len() - 1, rest.last().push(s.last()))
        }
    }
}

/// Each piece as a row of its own, in one style.
pub open spec fn single_lines(pieces: Seq<Seq<char>>, style: StyleTag) -> Seq<
    Seq<(Seq<char>, StyleTag)>,
> {
    pieces.map_values(|t: Seq<char>| seq![(t, style)])
}

/// The row where typed text, wrong keys, the expected character and
/// untyped text meet; two rows when the wrong keys or the expected character
/// are a lone line feed, so that the highlighted break still ends the row.
pub open spec fn junction(tail: Seq<char>, mis: Seq<char>, cur: Seq<char>, head: Seq<char>) -> Seq<
    Seq<(Seq<char>, StyleTag)>,
> {
    let t = (tail, StyleTag::Typed);
    let m = (mis, StyleTag::Mistyped);
    let c = (cur, StyleTag::Current);
    let h = (head, StyleTag::Untyped);
    if mis == seq!['\n'] || cur == seq!['\n'] {
        seq![seq![t, m, c], seq![h]]
    } else {
        seq![seq![t, m, c, h]]
    }
}

/// The rows that show a session: the finished lines of the typed text, each
/// a row of its own, then the junction, then the remaining lines of the
/// untyped text, each a row of its own.
pub open spec fn render(p: Progress) -> Seq<Seq<(Seq<char>, StyleTag)>> {
    let t = split_lines(p.typed);
    let u = split_lines(p.untyped);
    single_lines(t.drop_last(), StyleTag::Typed) + junction(
        t.last(),
        p.mistyped,
        opt_chars(p.current),
        u[0],
    ) + single_lines(u.drop_first(), StyleTag::Untyped)
}

/// Splitting always yields at least one piece.
pub proof fn lemma_split_nonempty(s: Seq<char>)
    ensures
        split_lines(s).len() >= 1,
    decreases s.len(),
{
    if s.len() > 0 {
        lemma_split_nonempty(s.drop_last());
    }
}

/// A text without line feeds is a single piece.
pub proof fn lemma_split_no_newline(s: Seq<char>)
    requires
        forall|i: int| 0 <= i < s.len() ==> s[i] != '\n',
    ensures
        split_lines(s) == seq![s],
    decreases s.len(),
{
    if s.len() > 0 {
        lemma_split_no_newline(s.drop_last());
        assert(s[s.len() - 1] != '\n');
        assert(s.drop_last().push(s.last()) =~= s);
        assert(split_lines(s) =~= seq![s]);
    } else {
        assert(s =~= Seq::<char>::empty());
    }
}

/// Splitting at a line feed splits the pieces there.
pub proof fn lemma_split_concat(a: Seq<char>, b: Seq<char>)
    ensures
        split_lines(a + seq!['\n'] + b) == split_lines(a) + split_lines(b),
    decreases b.len(),
{
    let s = a + seq!['\n'] + b;
    lemma_split_nonempty(a);
    lemma_split_nonempty(b);
    if b.len() == 0 {
        assert(s.drop_last() =~= a);
        assert(split_lines(b) =~= seq![Seq::<char>::empty()]);
        assert(split_lines(s) =~= split_lines(a) + split_lines(b));
    } else {
        let b0 = b.drop_last();
        lemma_split_concat(a, b0);
        lemma_split_nonempty(b0);
        assert(s.drop_last() =~= a + seq!['\n'] + b0);
        assert(b.last() == s.last());
        assert(split_lines(s) =~= split_lines(a) + split_lines(b));
    }
}

/// Splitting a text that grew by one character.
proof fn lemma_split_push(s: Seq<char>, c: char)
    ensures
        split_lines(s.push(c)) == (if c == '\n' {
            split_lines(s).push(Seq::empty())
        } else {
            split_lines(s).update(split_lines(s).len() - 1, split_lines(s).last().push(c))
        }),
{
    assert(s.push(c).drop_last() =~= s);
}

/// Appends to `out` each finished line of `src[lo..hi]` as a row of its own,
/// and returns the unfinished last piece.
fn push_lines(out: &mut Vec<DisplayLine>, src: &Vec<char>, lo: usize, hi: usize, style: StyleTag) -> (
    open: Vec<char>)
    requires
        lo <= hi <= src@.len(),
    ensures
        lines_view(final(out)@) == lines_view(old(out)@) + single_lines(
            split_lines(src@.subrange(lo as int, hi as int)).drop_last(),
            style,
        ),
        open@ == split_lines(src@.subrange(lo as int, hi as int)).last(),
{
    let mut cur: Vec<char> = Vec::new();
    let mut i: usize = lo;
    proof {
        assert(src@.subrange(lo as int, lo as int) =~= Seq::<char>::empty());
        assert(lines_view(out@) =~= lines_view(old(out)@) + single_lines(
            split_lines(Seq::<char>::empty()).drop_last(),
            style,
        ));
    }
    while i < hi
        invariant
            lo <= i <= hi <= src@.len(),
            lines_view(out@) == lines_view(old(out)@) + single_lines(
                split_lines(src@.subrange(lo as int, i as int)).drop_last(),
                style,
            ),
            cur@ == split_lines(src@.subrange(lo as int, i as int)).last(),
        decreases hi - i,
    {
        let c = src[i];
        let ghost sub = src@.subrange(lo as int, i as int);
        let ghost prev = lines_view(out@);
        proof {
            assert(src@.subrange(lo as int, i + 1) =~= sub.push(c));
            lemma_split_push(sub, c);
            lemma_split_nonempty(sub);
        }
        if c == '\n' {
            let seg = Segment { text: cur, style };
            let mut segments: Vec<Segment> = Vec::new();
            segments.push(seg);
            let line = DisplayLine { segments };
            assert(line@ =~= seq![(seg.text@, style)]);
            out.push(line);
            cur = Vec::new();
            proof {
                let sp = split_lines(sub);
                assert(split_lines(sub.push(c)).drop_last() =~= sp);
                assert(sp =~= sp.drop_last().push(sp.last()));
                assert(single_lines(sp, style) =~= single_lines(sp.drop_last(), style).push(
                    seq![(sp.last(), style)],
                ));
                assert(lines_view(out@) =~= prev.push(line@));
                assert(lines_view(out@) =~= lines_view(old(out)@) + single_lines(
                    split_lines(sub.push(c)).drop_last(),
                    style,
                ));
                assert(cur@ =~= split_lines(sub.push(c)).last());
            }
        } else {
            cur.push(c);
            proof {
                let sp = split_lines(sub);
                assert(split_lines(sub.push(c)).drop_last() =~= sp.drop_last());
            }
        }
        i = i + 1;
    }
    cur
}

/// The first index in `lo..hi` that holds a line feed, or `hi` when none does.
fn line_end(src: &Vec<char>, lo: usize, hi: usize) -> (k: usize)
    requires
        lo <= hi <= src@.len(),
    ensures
        lo <= k <= hi,
        forall|j: int| lo <= j < k ==> src@[j] != '\n',
        k < hi ==> src@[k as int] == '\n',
{
    let mut k: usize = lo;
    while k < hi
        invariant
            lo <= k <= hi <= src@.len(),
            forall|j: int| lo <= j < k ==> src@[j] != '\n',
        decreases hi - k,
    {
        if src[k] == '\n' {
            return k;
        }
        k = k + 1;
    }
    k
}

/// A row holding one segment.
fn single_row(text: Vec<char>, style: StyleTag) -> (line: DisplayLine)
    ensures
        line@ == seq![(text@, style)],
{
    let mut segments: Vec<Segment> = Vec::new();
    segments.push(Segment { text, style });
    let line = DisplayLine { segments };
    assert(line@ =~= seq![(text@, style)]);
    line
}

/// Appends the junction rows built from the four parts.
fn push_junction(
    out: &mut Vec<DisplayLine>,
    tail: Vec<char>,
    mis: Vec<char>,
    cur: Vec<char>,
    head: Vec<char>,
)
    ensures
        lines_view(final(out)@) == lines_view(old(out)@) + junction(tail@, mis@, cur@, head@),
{
    let ghost j = junction(tail@, mis@, cur@, head@);
    let breaks = (mis.len() == 1 && mis[0] == '\n') || (cur.len() == 1 && cur[0] == '\n');
    proof {
        if mis@ == seq!['\n'] {
            assert(mis@[0] == '\n');
        }
        if mis@.len() == 1 && mis@[0] == '\n' {
            assert(mis@ =~= seq!['\n']);
        }
        if cur@ == seq!['\n'] {
            assert(cur@[0] == '\n');
        }
        if cur@.len() == 1 && cur@[0] == '\n' {
            assert(cur@ =~= seq!['\n']);
        }
    }
    let ghost tv = (tail@, StyleTag::Typed);
    let ghost mv = (mis@, StyleTag::Mistyped);
    let ghost cv = (cur@, StyleTag::Current);
    let ghost hv = (head@, StyleTag::Untyped);
    let mut first: Vec<Segment> = Vec::new();
    first.push(Segment { text: tail, style: StyleTag::Typed });
    first.push(Segment { text: mis, style: StyleTag::Mistyped });
    first.push(Segment { text: cur, style: StyleTag::Current });
    let ghost prev = lines_view(out@);
    if breaks {
        let l1 = DisplayLine { segments: first };
        assert(l1@ =~= seq![tv, mv, cv]);
        out.push(l1);
        let l2 = single_row(head, StyleTag::Untyped);
        out.push(l2);
        assert(lines_view(out@) =~= prev + j);
    } else {
        first.push(Segment { text: head, style: StyleTag::Untyped });
        let l1 = DisplayLine { segments: first };
        assert(l1@ =~= seq![tv, mv, cv, hv]);
        out.push(l1);
        assert(lines_view(out@) =~= prev + j);
    }
}

/// Appends each line of `src[lo..hi]` as a row of its own.
fn push_all_lines(out: &mut Vec<DisplayLine>, src: &Vec<char>, lo: usize, hi: usize, style: StyleTag)
    requires
        lo <= hi <= src@.len(),
    ensures
        lines_view(final(out)@) == lines_view(old(out)@) + single_lines(
            split_lines(src@.subrange(lo as int, hi as int)),
            style,
        ),
{
    let ghost sr = split_lines(src@.subrange(lo as int, hi as int));
    let last = push_lines(out, src, lo, hi, style);
    let l = single_row(last, style);
    let ghost before = lines_view(out@);
    out.push(l);
    proof {
        lemma_split_nonempty(src@.subrange(lo as int, hi as int));
        assert(sr =~= sr.drop_last().push(sr.last()));
        assert(single_lines(sr, style) =~= single_lines(sr.drop_last(), style).push(
            seq![(sr.last(), style)],
        ));
        assert(lines_view(out@) =~= before.push(l@));
    }
}

impl TuiTypingState {
    /// The rows that show the session, recomputed from the whole state.
    pub fn display_lines(&self) -> (r: Vec<DisplayLine>)
        requires
            self.wf(),
        ensures
            lines_view(r@) == render(self@),
    {
        let ghost p = self@;
        proof {
            self.lemma_layout();
        }
        let src = self.reference();
        let pos = self.position();
        let n = src.len();
        let ghost t = p.typed;
        let ghost u = p.untyped;
        assert(src@.subrange(0, pos as int) =~= t);
        let mut out: Vec<DisplayLine> = Vec::new();
        let tail = push_lines(&mut out, src, 0, pos, StyleTag::Typed);
        let m = self.mistyped();
        let mis = copy_range(m, 0, m.len());
        assert(mis@ =~= p.mistyped);
        let mut cur: Vec<char> = Vec::new();
        match self.current() {
            Some(c) => cur.push(c),
            None => {},
        }
        assert(cur@ =~= opt_chars(p.current));
        let ustart = if pos < n {
            pos + 1
        } else {
            n
        };
        assert(src@.subrange(ustart as int, n as int) =~= u);
        let k = line_end(src, ustart, n);
        let head = copy_range(src, ustart, k);
        let ghost hd = head@;
        proof {
            lemma_split_no_newline(hd);
            if k < n {
                let rest = src@.subrange(k + 1, n as int);
                assert(u =~= hd + seq!['\n'] + rest);
                lemma_split_concat(hd, rest);
                assert(split_lines(u).drop_first() =~= split_lines(rest));
            } else {
                assert(hd =~= u);
                assert(split_lines(u).drop_first() =~= Seq::<Seq<char>>::empty());
            }
        }
        push_junction(&mut out, tail, mis, cur, head);
        if k < n {
            push_all_lines(&mut out, src, k + 1, n, StyleTag::Untyped);
        }
        assert(lines_view(out@) =~= render(p));
        out
    }
}

} // verus!
