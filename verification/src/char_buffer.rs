//! The pending logical line: a byte buffer edited in place by the keystrokes
//! that the recorder interprets.

use vstd::prelude::*;

verus! {

/// The byte that separates words on the pending line.
pub const SPACE: u8 = 0x20;

/// Number of space bytes at the end of `s`.
pub open spec fn trailing_spaces(s: Seq<u8>) -> nat
    decreases s.len(),
{
    if s.len() > 0 && s.last() == SPACE {
        1 + trailing_spaces(s.drop_last())
    } else {
        0
    }
}

/// Start of the run of non-space bytes that ends just before `end`.
pub open spec fn run_start(s: Seq<u8>, end: int) -> int
    decreases end,
{
    if 0 < end <= s.len() && s[end - 1] != SPACE {
        run_start(s, end - 1)
    } else {
        end
    }
}

/// Index one past the last word of `s`: what is left once the trailing spaces
/// are taken off.
pub open spec fn word_end(s: Seq<u8>) -> int {
    s.len() - trailing_spaces(s)
}

/// Index at which the last word of `s` starts.
pub open spec fn word_start(s: Seq<u8>) -> int {
    run_start(s, word_end(s))
}

/// The last word of `s`, if `s` holds anything but spaces.
pub open spec fn last_word(s: Seq<u8>) -> Option<Seq<u8>> {
    if word_end(s) == 0 {
        None
    } else {
        Some(s.subrange(word_start(s), word_end(s)))
    }
}

/// `n` space bytes.
pub open spec fn spaces(n: nat) -> Seq<u8> {
    Seq::new(n, |i: int| SPACE)
}

/// True when no byte of `s` is a space.
pub open spec fn no_space(s: Seq<u8>) -> bool {
    forall|i: int| 0 <= i < s.len() ==> s[i] != SPACE
}

/// True when every byte of `s` is a space.
pub open spec fn only_spaces(s: Seq<u8>) -> bool {
    forall|i: int| 0 <= i < s.len() ==> s[i] == SPACE
}

/// `s` splits into `rest`, then the word `word`, then `n` spaces, where the
/// word is a maximal run of non-space bytes.
pub open spec fn splits_at_last_word(s: Seq<u8>, rest: Seq<u8>, word: Seq<u8>, n: nat) -> bool {
    &&& s == rest + word + spaces(n)
    &&& word.len() > 0
    &&& no_space(word)
    &&& (rest.len() > 0 ==> rest.last() == SPACE)
}

/// The trailing spaces of `s` are spaces, and the byte before them is not.
pub proof fn lemma_trailing_spaces(s: Seq<u8>)
    ensures
        trailing_spaces(s) <= s.len(),
        forall|i: int| word_end(s) <= i < s.len() ==> s[i] == SPACE,
        word_end(s) > 0 ==> s[word_end(s) - 1] != SPACE,
        word_end(s) == 0 <==> only_spaces(s),
    decreases s.len(),
{
    if s.len() > 0 && s.last() == SPACE {
        let t = s.drop_last();
        lemma_trailing_spaces(t);
        assert(word_end(s) == word_end(t));
        assert forall|i: int| word_end(s) <= i < s.len() implies s[i] == SPACE by {
            if i < t.len() {
                assert(s[i] == t[i]);
            }
        }
        if word_end(s) > 0 {
            assert(s[word_end(s) - 1] == t[word_end(t) - 1]);
        }
        if word_end(s) == 0 {
            assert forall|i: int| 0 <= i < s.len() implies s[i] == SPACE by {}
        }
        if only_spaces(s) {
            assert forall|i: int| 0 <= i < t.len() implies t[i] == SPACE by {
                assert(t[i] == s[i]);
            }
        }
    } else if s.len() > 0 {
        assert(s[s.len() - 1] != SPACE);
    }
}

/// The run that ends at `end` holds no space, and a space stands before it
/// unless it starts the sequence.
pub proof fn lemma_run_start(s: Seq<u8>, end: int)
    requires
        0 <= end <= s.len(),
    ensures
        0 <= run_start(s, end) <= end,
        forall|i: int| run_start(s, end) <= i < end ==> s[i] != SPACE,
        run_start(s, end) > 0 ==> s[run_start(s, end) - 1] == SPACE,
    decreases end,
{
    if 0 < end && s[end - 1] != SPACE {
        lemma_run_start(s, end - 1);
    }
}

/// When `s` holds a word, it splits at that word: the bytes before it, the
/// word itself, and the spaces that trail it.
pub proof fn lemma_last_word_splits(s: Seq<u8>)
    requires
        last_word(s) is Some,
    ensures
        splits_at_last_word(
            s,
            s.subrange(0, word_start(s)),
            last_word(s).unwrap(),
            trailing_spaces(s),
        ),
{
    lemma_trailing_spaces(s);
    lemma_run_start(s, word_end(s));
    let rest = s.subrange(0, word_start(s));
    let word = s.subrange(word_start(s), word_end(s));
    assert(s =~= rest + word + spaces(trailing_spaces(s)));
}

/// A sequence splits at its last word in one way only: any split into a
/// prefix, a maximal non-space run and trailing spaces is the one that
/// `last_word` and `trailing_spaces` name.
pub proof fn lemma_split_is_unique(s: Seq<u8>, rest: Seq<u8>, word: Seq<u8>, n: nat)
    requires
        splits_at_last_word(s, rest, word, n),
    ensures
        trailing_spaces(s) == n,
        last_word(s) == Some(word),
        rest == s.subrange(0, word_start(s)),
    decreases n,
{
    let body = rest + word;
    if n > 0 {
        let t = s.drop_last();
        assert(s.last() == spaces(n)[n - 1]);
        assert(t =~= rest + word + spaces((n - 1) as nat));
        lemma_split_is_unique(t, rest, word, (n - 1) as nat);
        lemma_trailing_spaces(t);
        lemma_run_start(t, word_end(t));
        assert(word_end(t) == word_end(s));
        assert(word_start(t) == word_start(s)) by {
            lemma_run_start_prefix(s, t, word_end(s));
        }
        assert(t.subrange(word_start(t), word_end(t)) =~= s.subrange(word_start(s), word_end(s)));
        assert(t.subrange(0, word_start(t)) =~= s.subrange(0, word_start(s)));
    } else {
        assert(s =~= body);
        assert(s.last() == word.last());
        assert(trailing_spaces(s) == 0);
        lemma_run_covers_word(s, rest, word, s.len() as int);
        assert(s.subrange(rest.len() as int, s.len() as int) =~= word);
        assert(s.subrange(0, rest.len() as int) =~= rest);
    }
}

/// `run_start` reads only the bytes before `end`.
proof fn lemma_run_start_prefix(s: Seq<u8>, t: Seq<u8>, end: int)
    requires
        0 <= end <= t.len() <= s.len(),
        forall|i: int| 0 <= i < end ==> s[i] == t[i],
    ensures
        run_start(s, end) == run_start(t, end),
    decreases end,
{
    if 0 < end && s[end - 1] != SPACE {
        lemma_run_start_prefix(s, t, end - 1);
    }
}

/// Walking back from inside a word that follows `rest` stops where `rest` ends.
proof fn lemma_run_covers_word(s: Seq<u8>, rest: Seq<u8>, word: Seq<u8>, end: int)
    requires
        s == rest + word,
        no_space(word),
        rest.len() > 0 ==> rest.last() == SPACE,
        rest.len() <= end <= s.len(),
    ensures
        run_start(s, end) == rest.len(),
    decreases end,
{
    if end > rest.len() {
        assert(s[end - 1] == word[end - 1 - rest.len()]);
        lemma_run_covers_word(s, rest, word, end - 1);
    } else if end > 0 {
        assert(s[end - 1] == rest.last());
    }
}

/// The line being edited, as the bytes typed so far.
pub struct CharBuffer {
    buf: Vec<u8>,
}

impl View for CharBuffer {
    type V = Seq<u8>;

    closed spec fn view(&self) -> Seq<u8> {
        self.buf@
    }
}

impl CharBuffer {
    /// An empty buffer.
    pub fn new() -> (r: Self)
        ensures
            r@ == Seq::<u8>::empty(),
    {
        CharBuffer { buf: Vec::new() }
    }

    /// A buffer that holds the bytes of `buf`.
    pub fn from_vec(buf: Vec<u8>) -> (r: Self)
        ensures
            r@ == buf@,
    {
        CharBuffer { buf }
    }

    /// Removes the last byte and returns it; `None` on an empty buffer.
    pub fn pop_char(&mut self) -> (r: Option<u8>)
        ensures
            old(self)@.len() == 0 ==> r is None && final(self)@ == old(self)@,
            old(self)@.len() > 0 ==> r == Some(old(self)@.last()) && final(self)@ == old(
                self,
            )@.drop_last(),
    {
        self.buf.pop()
    }

    /// Appends `c`.
    pub fn push_char(&mut self, c: u8)
        ensures
            final(self)@ == old(self)@.push(c),
    {
        self.buf.push(c);
    }

    /// Empties the buffer.
    pub fn clear(&mut self)
        ensures
            final(self)@ == Seq::<u8>::empty(),
    {
        self.buf.clear();
    }

    /// Number of spaces at the end of the buffer.
    pub fn count_trailing_spaces(&self) -> (n: usize)
        ensures
            n == trailing_spaces(self@),
    {
        let len = self.buf.len();
        let mut n: usize = 0;
        assert(self.buf@.subrange(0, len as int) =~= self.buf@);
        while n < len && self.buf[len - 1 - n] == SPACE
            invariant
                len == self.buf@.len(),
                n <= len,
                trailing_spaces(self.buf@) == n + trailing_spaces(
                    self.buf@.subrange(0, len - n),
                ),
            decreases len - n,
        {
            proof {
                let s = self.buf@.subrange(0, len - n);
                assert(s.last() == self.buf@[len - 1 - n]);
                assert(s.drop_last() =~= self.buf@.subrange(0, len - n - 1));
            }
            n += 1;
        }
        proof {
            let s = self.buf@.subrange(0, len - n);
            if n < len {
                assert(s.last() == self.buf@[len - 1 - n]);
            }
            assert(self.buf@.subrange(0, len as int) =~= self.buf@);
        }
        n
    }

    /// The last word of the buffer, which stays as it is: the last maximal run
    /// of non-space bytes. `None` when the buffer is empty or holds only
    /// spaces.
    pub fn peek_word(&self) -> (r: Option<&[u8]>)
        ensures
            r is Some <==> last_word(self@) is Some,
            r is Some ==> r.unwrap()@ == last_word(self@).unwrap(),
            r is None <==> only_spaces(self@),
    {
        let trailing = self.count_trailing_spaces();
        proof {
            lemma_trailing_spaces(self@);
        }
        if self.buf.len() <= trailing {
            return None;
        }
        let end = self.buf.len() - trailing;
        let mut start = end;
        while start > 0 && self.buf[start - 1] != SPACE
            invariant
                0 <= start <= end <= self.buf@.len(),
                run_start(self.buf@, end as int) == run_start(self.buf@, start as int),
            decreases start,
        {
            start -= 1;
        }
        Some(vstd::slice::slice_subrange(self.buf.as_slice(), start, end))
    }

    /// Removes the last word together with the spaces that trail it, and
    /// returns the word. On a buffer that is empty or holds only spaces
    /// nothing changes and the result is `None`.
    pub fn pop_word(&mut self) -> (r: Option<Vec<u8>>)
        ensures
            r is None <==> only_spaces(old(self)@),
            r is None <==> last_word(old(self)@) is None,
            r is None ==> final(self)@ == old(self)@,
            r is Some ==> Some(r.unwrap()@) == last_word(old(self)@),
            r is Some ==> final(self)@ == old(self)@.subrange(0, word_start(old(self)@)),
            r is Some ==> splits_at_last_word(
                old(self)@,
                final(self)@,
                r.unwrap()@,
                trailing_spaces(old(self)@),
            ),
    {
        let word = match self.peek_word() {
            Some(w) => vstd::slice::slice_to_vec(w),
            None => {
                return None;
            },
        };
        let trailing = self.count_trailing_spaces();
        proof {
            lemma_last_word_splits(self@);
            lemma_trailing_spaces(self@);
            lemma_run_start(self@, word_end(self@));
        }
        let new_len = self.buf.len() - word.len() - trailing;
        self.buf.truncate(new_len);
        Some(word)
    }

    /// The last byte of the buffer, which stays as it is.
    pub fn peek_char(&self) -> (r: Option<&u8>)
        ensures
            self@.len() == 0 ==> r is None,
            self@.len() > 0 ==> r == Some(&self@.last()),
    {
        self.buf.as_slice().last()
    }

    /// The bytes of the buffer.
    pub fn get_buf(&self) -> (r: &[u8])
        ensures
            r@ == self@,
    {
        self.buf.as_slice()
    }
}

impl Default for CharBuffer {
    fn default() -> (r: Self)
        ensures
            r@ == Seq::<u8>::empty(),
    {
        CharBuffer::new()
    }
}

} // verus!
