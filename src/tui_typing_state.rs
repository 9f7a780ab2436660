use vstd::prelude::*;

verus! {

/// The mathematical picture of a practice session: the reference text and its
/// four-way partition, plus the trail of wrong keystrokes.
pub struct Progress {
    pub reference: Seq<char>,
    pub typed: Seq<char>,
    pub mistyped: Seq<char>,
    pub current: Option<char>,
    pub untyped: Seq<char>,
}

/// The characters an optional character contributes to a text.
pub open spec fn opt_chars(c: Option<char>) -> Seq<char> {
    match c {
        Some(ch) => seq![ch],
        None => Seq::empty(),
    }
}

/// The session right after it was opened on `reference`.
pub open spec fn initial(reference: Seq<char>) -> Progress {
    Progress {
        reference,
        typed: Seq::empty(),
        mistyped: Seq::empty(),
        current: if reference.len() > 0 { Some(reference[0]) } else { None },
        untyped: if reference.len() > 0 { reference.drop_first() } else { Seq::empty() },
    }
}

/// What one keystroke does to the session.
pub open spec fn step(p: Progress, key: char) -> Progress {
    match p.current {
        None => p,
        Some(c) => if key == c {
            Progress {
                reference: p.reference,
                typed: p.typed.push(c),
                mistyped: Seq::empty(),
                current: if p.untyped.len() > 0 { Some(p.untyped[0]) } else { None },
                untyped: if p.untyped.len() > 0 { p.untyped.drop_first() } else { Seq::empty() },
            }
        } else {
            Progress { mistyped: p.mistyped.push(key), ..p }
        },
    }
}

/// The session after the keystrokes `keys`, in order.
pub open spec fn run(p: Progress, keys: Seq<char>) -> Progress
    decreases keys.len(),
{
    if keys.len() == 0 {
        p
    } else {
        step(run(p, keys.drop_last()), keys.last())
    }
}

/// The partition covers the reference text exactly, and every wrong keystroke
/// differs from the character that was expected when it was entered.
pub open spec fn consistent(p: Progress) -> bool {
    &&& p.typed + opt_chars(p.current) + p.untyped == p.reference
    &&& p.current is None ==> p.untyped.len() == 0 && p.mistyped.len() == 0
    &&& forall|i: int| 0 <= i < p.mistyped.len() ==> Some(#[trigger] p.mistyped[i]) != p.current
}

/// A copy of `src[lo..hi]`.
pub(crate) fn copy_range(src: &Vec<char>, lo: usize, hi: usize) -> (r: Vec<char>)
    requires
        lo <= hi <= src@.len(),
    ensures
        r@ == src@.subrange(lo as int, hi as int),
{
    let mut r: Vec<char> = Vec::new();
    let mut i: usize = lo;
    while i < hi
        invariant
            lo <= i <= hi <= src@.len(),
            r@ == src@.subrange(lo as int, i as int),
        decreases hi - i,
    {
        r.push(src[i]);
        i = i + 1;
        assert(r@ =~= src@.subrange(lo as int, i as int));
    }
    r
}

/// Returned when a session is opened on an empty text: there is nothing to type.
#[derive(Clone, Copy, Debug, PartialEq, Eq, Structural)]
pub struct EmptyInputError;

/// A typing-practice session over a fixed reference text.
///
/// The text is held whole; `pos` is the index of the next expected character,
/// so the characters before it are typed and those after it untyped.
#[derive(Clone, Debug)]
pub struct TuiTypingState {
    reference: Vec<char>,
    pos: usize,
    mistyped: Vec<char>,
}

impl View for TuiTypingState {
    type V = Progress;

    closed spec fn view(&self) -> Progress {
        let r = self.reference@;
        let n = self.pos as int;
        Progress {
            reference: r,
            typed: r.take(n),
            mistyped: self.mistyped@,
            current: if n < r.len() { Some(r[n]) } else { None },
            untyped: if n < r.len() { r.skip(n + 1) } else { Seq::empty() },
        }
    }
}

impl TuiTypingState {
    /// The session is in a state that `new` and `update_state` can reach.
    pub closed spec fn wf(&self) -> bool {
        &&& self.reference@.len() > 0
        &&& self.pos <= self.reference@.len()
        &&& consistent(self@)
    }

    /// Opens a session on `text`; fails when `text` has no character.
    pub fn new(text: &str) -> (r: Result<TuiTypingState, EmptyInputError>)
        ensures
            text@.len() == 0 <==> r is Err,
            r is Ok ==> r->Ok_0.wf() && r->Ok_0@ == initial(text@),
    {
        let n = text.unicode_len();
        if n == 0 {
            return Err(EmptyInputError);
        }
        let mut reference: Vec<char> = Vec::new();
        let mut i: usize = 0;
        while i < n
            invariant
                n == text@.len(),
                i <= n,
                reference@ == text@.take(i as int),
            decreases n - i,
        {
            let c = text.get_char(i);
            reference.push(c);
            i = i + 1;
            assert(reference@ =~= text@.take(i as int));
        }
        assert(reference@ =~= text@);
        let s = TuiTypingState { reference, pos: 0, mistyped: Vec::new() };
        assert(s@.typed =~= Seq::<char>::empty());
        assert(s@.typed + opt_chars(s@.current) + s@.untyped =~= s@.reference);
        assert(s@.untyped =~= text@.drop_first());
        Ok(s)
    }

    /// Feeds one keystroke: a match moves the position on and clears the
    /// trail of wrong keys; a miss adds the key to that trail; once the text
    /// is typed, nothing changes.
    pub fn update_state(&mut self, input: char)
        requires
            old(self).wf(),
        ensures
            final(self).wf(),
            final(self)@ == step(old(self)@, input),
            old(self)@.current == Some(input) ==> final(self)@.mistyped.len() == 0,
            old(self)@.current is None ==> final(self)@ == old(self)@,
            final(self)@.typed.len() >= old(self)@.typed.len(),
    {
        let ghost p = self@;
        if self.pos < self.reference.len() {
            if self.reference[self.pos] == input {
                self.pos = self.pos + 1;
                self.mistyped = Vec::new();
                proof {
                    let q = self@;
                    let s = step(p, input);
                    assert(q.typed =~= s.typed);
                    assert(q.mistyped =~= s.mistyped);
                    if q.current is Some {
                        assert(q.untyped =~= s.untyped);
                    } else {
                        assert(s.untyped =~= q.untyped);
                    }
                    assert(q.typed + opt_chars(q.current) + q.untyped =~= q.reference);
                }
            } else {
                self.mistyped.push(input);
                assert(self@.mistyped =~= p.mistyped.push(input));
                assert(self@ == step(p, input));
            }
        }
    }

    /// The whole reference text.
    pub fn reference(&self) -> (r: &Vec<char>)
        ensures
            r@ == self@.reference,
    {
        &self.reference
    }

    /// The number of characters typed so far; also the index of the expected one.
    pub fn position(&self) -> (r: usize)
        requires
            self.wf(),
        ensures
            r == self@.typed.len(),
    {
        self.pos
    }

    /// Where the parts of a live session lie in the reference text.
    pub proof fn lemma_layout(&self)
        requires
            self.wf(),
        ensures
            self@.typed == self@.reference.take(self@.typed.len() as int),
            self@.typed.len() <= self@.reference.len(),
            self@.current is Some ==> self@.typed.len() < self@.reference.len()
                && self@.current == Some(self@.reference[self@.typed.len() as int])
                && self@.untyped == self@.reference.skip(self@.typed.len() as int + 1),
            self@.current is None ==> self@.typed.len() == self@.reference.len()
                && self@.untyped.len() == 0,
    {
    }

    /// The characters typed correctly so far.
    pub fn typed(&self) -> (r: Vec<char>)
        requires
            self.wf(),
        ensures
            r@ == self@.typed,
    {
        copy_range(&self.reference, 0, self.pos)
    }

    /// The characters after the expected one.
    pub fn untyped(&self) -> (r: Vec<char>)
        requires
            self.wf(),
        ensures
            r@ == self@.untyped,
    {
        let n = self.reference.len();
        if self.pos < n {
            copy_range(&self.reference, self.pos + 1, n)
        } else {
            Vec::new()
        }
    }

    /// The wrong keys entered since the last correct one.
    pub fn mistyped(&self) -> (r: &Vec<char>)
        ensures
            r@ == self@.mistyped,
    {
        &self.mistyped
    }

    /// The character expected next, if any is left.
    pub fn current(&self) -> (r: Option<char>)
        ensures
            r == self@.current,
    {
        if self.pos < self.reference.len() {
            Some(self.reference[self.pos])
        } else {
            None
        }
    }

    /// Whether every character of the text has been typed.
    pub fn is_complete(&self) -> (r: bool)
        requires
            self.wf(),
        ensures
            r == (self@.current is None),
    {
        self.pos >= self.reference.len()
    }
}

/// A live session holds `typed ++ current ++ untyped == reference`.
pub proof fn lemma_partition(s: &TuiTypingState)
    requires
        s.wf(),
    ensures
        s@.typed + opt_chars(s@.current) + s@.untyped == s@.reference,
{
}

} // verus!
