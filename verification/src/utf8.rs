use vstd::prelude::*;

verus! {

/// How many bytes a UTF-8 encoded character occupies, judged from its first
/// byte; 0 marks a byte that can lead no character.
pub open spec fn char_len(b0: u8) -> int {
    if b0 < 0x80 {
        1
    } else if 0xC2 <= b0 && b0 <= 0xDF {
        2
    } else if 0xE0 <= b0 && b0 <= 0xEF {
        3
    } else if 0xF0 <= b0 && b0 <= 0xF4 {
        4
    } else {
        0
    }
}

/// Whether `b` may stand at position `i >= 1` of a character led by `b0`.
/// The first continuation byte of some leaders is restricted so that every
/// scalar value has exactly one encoding and surrogates are excluded.
pub open spec fn cont_ok(b0: u8, i: int, b: u8) -> bool {
    if i == 1 {
        if b0 == 0xE0 {
            0xA0 <= b && b <= 0xBF
        } else if b0 == 0xED {
            0x80 <= b && b <= 0x9F
        } else if b0 == 0xF0 {
            0x90 <= b && b <= 0xBF
        } else if b0 == 0xF4 {
            0x80 <= b && b <= 0x8F
        } else {
            0x80 <= b && b <= 0xBF
        }
    } else {
        0x80 <= b && b <= 0xBF
    }
}

/// `s` is exactly one validly encoded character.
pub open spec fn char_ok(s: Seq<u8>) -> bool {
    s.len() >= 1 && char_len(s[0]) == s.len() && (forall|i: int|
        1 <= i < s.len() ==> cont_ok(s[0], i, #[trigger] s[i]))
}

/// `s` is a non-empty strict prefix of one validly encoded character.
pub open spec fn char_prefix(s: Seq<u8>) -> bool {
    s.len() >= 1 && char_len(s[0]) > s.len() && (forall|i: int|
        1 <= i < s.len() ==> cont_ok(s[0], i, #[trigger] s[i]))
}

/// `s` is a sequence of validly encoded characters.
pub open spec fn is_utf8(s: Seq<u8>) -> bool
    decreases s.len(),
{
    if s.len() == 0 {
        true
    } else {
        let n = char_len(s[0]);
        &&& n >= 1
        &&& s.len() >= n
        &&& char_ok(s.subrange(0, n))
        &&& is_utf8(s.skip(n))
    }
}

/// `s` is a prefix of some sequence of validly encoded characters: complete
/// characters followed by at most one partial one.
pub open spec fn is_utf8_prefix(s: Seq<u8>) -> bool
    decreases s.len(),
{
    if s.len() == 0 {
        true
    } else {
        let n = char_len(s[0]);
        &&& n >= 1
        &&& if s.len() >= n {
            char_ok(s.subrange(0, n)) && is_utf8_prefix(s.skip(n))
        } else {
            char_prefix(s)
        }
    }
}

/// A complete sequence is in particular a prefix.
pub proof fn lemma_utf8_is_prefix(s: Seq<u8>)
    requires
        is_utf8(s),
    ensures
        is_utf8_prefix(s),
    decreases s.len(),
{
    if s.len() > 0 {
        let n = char_len(s[0]);
        lemma_utf8_is_prefix(s.skip(n));
    }
}

/// Whatever holds bytes enough for a prefix also does for every shorter
/// front of it.
pub proof fn lemma_utf8_prefix_mono(s: Seq<u8>, t: Seq<u8>)
    requires
        is_utf8_prefix(s + t),
    ensures
        is_utf8_prefix(s),
    decreases s.len(),
{
    if s.len() > 0 {
        let u = s + t;
        assert(u[0] == s[0]);
        let n = char_len(s[0]);
        if s.len() >= n {
            assert(u.len() >= n);
            assert(u.subrange(0, n) =~= s.subrange(0, n));
            assert(u.skip(n) =~= s.skip(n) + t);
            lemma_utf8_prefix_mono(s.skip(n), t);
        } else {
            if u.len() >= n {
                assert(char_ok(u.subrange(0, n)));
                assert forall|i: int| 1 <= i < s.len() implies cont_ok(s[0], i, s[i]) by {
                    assert(u.subrange(0, n)[i] == s[i]);
                    assert(cont_ok(u.subrange(0, n)[0], i, u.subrange(0, n)[i]));
                }
                assert(char_prefix(s));
            } else {
                assert(char_prefix(u));
                assert forall|i: int| 1 <= i < s.len() implies cont_ok(s[0], i, s[i]) by {
                    assert(u[i] == s[i]);
                }
                assert(char_prefix(s));
            }
        }
    }
}

/// Complete characters in front change nothing about what may follow.
pub proof fn lemma_utf8_shift_prefix(a: Seq<u8>, t: Seq<u8>)
    requires
        is_utf8(a),
    ensures
        is_utf8_prefix(a + t) == is_utf8_prefix(t),
    decreases a.len(),
{
    if a.len() == 0 {
        assert(a + t =~= t);
    } else {
        let n = char_len(a[0]);
        let u = a + t;
        assert(u[0] == a[0]);
        assert(u.len() >= n);
        assert(u.subrange(0, n) =~= a.subrange(0, n));
        assert(u.skip(n) =~= a.skip(n) + t);
        lemma_utf8_shift_prefix(a.skip(n), t);
        assert(char_ok(a.subrange(0, n)));
    }
}

/// Complete characters in front change nothing about completeness either.
pub proof fn lemma_utf8_shift(a: Seq<u8>, t: Seq<u8>)
    requires
        is_utf8(a),
    ensures
        is_utf8(a + t) == is_utf8(t),
    decreases a.len(),
{
    if a.len() == 0 {
        assert(a + t =~= t);
    } else {
        let n = char_len(a[0]);
        let u = a + t;
        assert(u[0] == a[0]);
        assert(u.len() >= n);
        assert(u.subrange(0, n) =~= a.subrange(0, n));
        assert(u.skip(n) =~= a.skip(n) + t);
        lemma_utf8_shift(a.skip(n), t);
        assert(char_ok(a.subrange(0, n)));
    }
}

/// Appending one complete character to a valid sequence keeps it valid.
pub proof fn lemma_utf8_append_char(a: Seq<u8>, c: Seq<u8>)
    requires
        is_utf8(a),
        char_ok(c),
    ensures
        is_utf8(a + c),
{
    lemma_utf8_shift(a, c);
    assert(c.subrange(0, char_len(c[0])) =~= c);
    assert(c.skip(char_len(c[0])) =~= Seq::<u8>::empty());
    assert(is_utf8(Seq::<u8>::empty()));
    assert(is_utf8(c));
}

/// A strict prefix of one character is a valid prefix on its own.
pub proof fn lemma_char_prefix_is_prefix(p: Seq<u8>)
    requires
        char_prefix(p),
    ensures
        is_utf8_prefix(p),
{
}

/// A strict prefix of one character is not a complete sequence.
pub proof fn lemma_char_prefix_not_complete(p: Seq<u8>)
    requires
        char_prefix(p),
    ensures
        !is_utf8(p),
{
}

/// Incremental UTF-8 validation: bytes are pushed in arrival order and the
/// validator answers, for every front of the stream, whether it can still
/// grow into valid UTF-8.
pub struct Utf8Validator {
    partial: Vec<u8>,
    fed: Ghost<Seq<u8>>,
}

impl Utf8Validator {
    /// The bytes accepted so far.
    pub closed spec fn fed(self) -> Seq<u8> {
        self.fed@
    }

    /// The bytes of the character still incomplete at the stream's end.
    pub closed spec fn pending(self) -> Seq<u8> {
        self.partial@
    }

    pub closed spec fn done(self) -> Seq<u8> {
        self.fed@.take(self.fed@.len() - self.partial@.len())
    }

    pub closed spec fn wf(self) -> bool {
        &&& self.partial@.len() <= self.fed@.len()
        &&& self.fed@.skip(self.fed@.len() - self.partial@.len()) == self.partial@
        &&& is_utf8(self.done())
        &&& self.partial@.len() == 0 || char_prefix(self.partial@)
        &&& self.partial@.len() < 4
    }

    /// Everything accepted so far can still grow into valid UTF-8.
    pub proof fn lemma_fed_prefix(self)
        requires
            self.wf(),
        ensures
            is_utf8_prefix(self.fed()),
    {
        assert(self.fed@ =~= self.done() + self.partial@);
        if self.partial@.len() == 0 {
            assert(self.fed@ =~= self.done());
            lemma_utf8_is_prefix(self.done());
        } else {
            lemma_utf8_shift_prefix(self.done(), self.partial@);
            lemma_char_prefix_is_prefix(self.partial@);
        }
    }

    /// The accepted bytes are complete UTF-8 exactly when no character is
    /// pending.
    pub proof fn lemma_fed_complete(self)
        requires
            self.wf(),
        ensures
            is_utf8(self.fed()) == (self.pending().len() == 0),
    {
        assert(self.fed@ =~= self.done() + self.partial@);
        if self.partial@.len() == 0 {
            assert(self.fed@ =~= self.done());
        } else {
            lemma_utf8_shift(self.done(), self.partial@);
            lemma_char_prefix_not_complete(self.partial@);
        }
    }

    pub fn new() -> (r: Utf8Validator)
        ensures
            r.wf(),
            r.fed() == Seq::<u8>::empty(),
            r.pending() == Seq::<u8>::empty(),
    {
        let r = Utf8Validator { partial: Vec::new(), fed: Ghost(Seq::empty()) };
        proof {
            assert(r.done() =~= Seq::<u8>::empty());
            assert(r.fed@.skip(0) =~= r.partial@);
        }
        r
    }

    /// Accept one byte, or reject it because no continuation of the stream
    /// is valid UTF-8 any more.  A rejected byte leaves the state unchanged.
    pub fn push(&mut self, b: u8) -> (ok: bool)
        requires
            old(self).wf(),
        ensures
            final(self).wf(),
            ok == is_utf8_prefix(old(self).fed() + seq![b]),
            ok ==> final(self).fed() == old(self).fed() + seq![b],
            !ok ==> *final(self) == *old(self),
    {
        let ghost oldfed = self.fed@;
        let ghost d = self.done();
        proof {
            assert(oldfed =~= d + self.partial@);
        }
        if self.partial.len() == 0 {
            proof {
                assert(oldfed =~= d);
                lemma_utf8_shift_prefix(d, seq![b]);
            }
            let l = char_len_exec(b);
            if l == 0 {
                proof {
                    assert(!is_utf8_prefix(seq![b]));
                }
                return false;
            }
            if l == 1 {
                proof {
                    assert(char_ok(seq![b]));
                    lemma_utf8_append_char(d, seq![b]);
                }
                self.fed = Ghost(oldfed + seq![b]);
                proof {
                    assert(self.fed@.skip(self.fed@.len() - self.partial@.len()) =~= self.partial@);
                    assert(self.done() =~= oldfed + seq![b]);
                    assert(is_utf8_prefix(seq![b])) by {
                        assert(seq![b].subrange(0, 1) =~= seq![b]);
                        assert(seq![b].skip(1) =~= Seq::<u8>::empty());
                        assert(is_utf8_prefix(Seq::<u8>::empty()));
                    }
                }
                return true;
            }
            self.partial.push(b);
            self.fed = Ghost(oldfed + seq![b]);
            proof {
                assert(char_prefix(seq![b]));
                assert(self.partial@ =~= seq![b]);
                assert(self.fed@.skip(self.fed@.len() - self.partial@.len()) =~= self.partial@);
                assert(self.done() =~= d);
                lemma_char_prefix_is_prefix(seq![b]);
            }
            return true;
        }
        let b0 = self.partial[0];
        let i = self.partial.len();
        let n: usize = char_len_exec(b0) as usize;
        let ghost p = self.partial@;
        proof {
            assert(char_prefix(p));
            assert(n == char_len(p[0]));
            assert(i < n);
            lemma_utf8_shift_prefix(d, p + seq![b]);
            assert(oldfed + seq![b] =~= d + (p + seq![b]));
        }
        if !cont_ok_exec(b0, i, b) {
            proof {
                let q = p + seq![b];
                assert(q[0] == p[0]);
                assert(q.len() == i + 1);
                assert(q[i as int] == b);
                if is_utf8_prefix(q) {
                    if q.len() >= n {
                        assert(q.len() == n);
                        assert(q.subrange(0, n as int) =~= q);
                        assert(char_ok(q));
                        assert(cont_ok(q[0], i as int, q[i as int]));
                        assert(false);
                    } else {
                        assert(char_prefix(q));
                        assert(cont_ok(q[0], i as int, q[i as int]));
                        assert(false);
                    }
                }
            }
            return false;
        }
        if i + 1 == n {
            let ghost c = p + seq![b];
            self.partial.clear();
            self.fed = Ghost(oldfed + seq![b]);
            proof {
                assert(c[0] == p[0]);
                assert forall|k: int| 1 <= k < c.len() implies cont_ok(c[0], k, #[trigger] c[k]) by {
                    if k < p.len() {
                        assert(c[k] == p[k]);
                    } else {
                        assert(c[k] == b);
                    }
                }
                assert(char_ok(c));
                lemma_utf8_append_char(d, c);
                assert(self.fed@.skip(self.fed@.len() - 0) =~= self.partial@);
                assert(self.done() =~= d + c);
                lemma_utf8_is_prefix(d + c);
                assert(is_utf8_prefix(oldfed + seq![b]));
            }
            return true;
        }
        self.partial.push(b);
        self.fed = Ghost(oldfed + seq![b]);
        proof {
            let q = p + seq![b];
            assert(self.partial@ =~= q);
            assert(q[0] == p[0]);
            assert forall|k: int| 1 <= k < q.len() implies cont_ok(q[0], k, #[trigger] q[k]) by {
                if k < p.len() {
                    assert(q[k] == p[k]);
                } else {
                    assert(q[k] == b);
                }
            }
            assert(char_prefix(q));
            assert(self.fed@.skip(self.fed@.len() - self.partial@.len()) =~= self.partial@);
            assert(self.done() =~= d);
            lemma_char_prefix_is_prefix(q);
            assert(is_utf8_prefix(oldfed + seq![b]));
        }
        true
    }

    /// Accept a run of bytes.  `true` means every byte was accepted and the
    /// whole stream so far can still grow into valid UTF-8; `false` means
    /// the stream went irrecoverably invalid at some byte of `input`, where
    /// the validator stops.
    pub fn feed(&mut self, input: &Vec<u8>) -> (ok: bool)
        requires
            old(self).wf(),
        ensures
            final(self).wf(),
            ok == is_utf8_prefix(old(self).fed() + input@),
            ok ==> final(self).fed() == old(self).fed() + input@,
    {
        let ghost orig = self.fed@;
        let mut i: usize = 0;
        while i < input.len()
            invariant
                old(self).wf(),
                self.wf(),
                i <= input@.len(),
                orig == old(self).fed@,
                self.fed@ == orig + input@.subrange(0, i as int),
            decreases input@.len() - i,
        {
            let ghost before = self.fed@;
            let ok = self.push(input[i]);
            if !ok {
                proof {
                    assert(!is_utf8_prefix(before + seq![input@[i as int]]));
                    assert(orig + input@ =~= (before + seq![input@[i as int]]) + input@.skip(
                        i + 1,
                    ));
                    if is_utf8_prefix(orig + input@) {
                        lemma_utf8_prefix_mono(
                            before + seq![input@[i as int]],
                            input@.skip(i + 1),
                        );
                    }
                }
                return false;
            }
            proof {
                assert(before + seq![input@[i as int]] =~= orig + input@.subrange(0, i + 1));
            }
            i += 1;
        }
        proof {
            assert(input@.subrange(0, input@.len() as int) =~= input@);
            self.lemma_fed_prefix();
        }
        true
    }

    /// Whether the stream ends on a character boundary.
    pub fn is_complete(&self) -> (r: bool)
        requires
            self.wf(),
        ensures
            r == is_utf8(self.fed()),
    {
        proof {
            self.lemma_fed_complete();
        }
        self.partial.len() == 0
    }
}

/// How many bytes a character led by `b` occupies; 0 for an impossible
/// leader.
pub fn char_len_exec(b: u8) -> (r: u8)
    ensures
        r as int == char_len(b),
{
    if b < 0x80 {
        1
    } else if 0xC2 <= b && b <= 0xDF {
        2
    } else if 0xE0 <= b && b <= 0xEF {
        3
    } else if 0xF0 <= b && b <= 0xF4 {
        4
    } else {
        0
    }
}

/// Whether `b` may stand at position `i` of a character led by `b0`.
pub fn cont_ok_exec(b0: u8, i: usize, b: u8) -> (r: bool)
    ensures
        r == cont_ok(b0, i as int, b),
{
    if i == 1 {
        if b0 == 0xE0 {
            0xA0 <= b && b <= 0xBF
        } else if b0 == 0xED {
            0x80 <= b && b <= 0x9F
        } else if b0 == 0xF0 {
            0x90 <= b && b <= 0xBF
        } else if b0 == 0xF4 {
            0x80 <= b && b <= 0x8F
        } else {
            0x80 <= b && b <= 0xBF
        }
    } else {
        0x80 <= b && b <= 0xBF
    }
}

/// Whether `v` is valid UTF-8 in its entirety.
pub fn is_utf8_exec(v: &Vec<u8>) -> (r: bool)
    ensures
        r == is_utf8(v@),
{
    let mut val = Utf8Validator::new();
    let ok = val.feed(v);
    proof {
        assert(Seq::<u8>::empty() + v@ =~= v@);
        if !ok {
            if is_utf8(v@) {
                lemma_utf8_is_prefix(v@);
            }
        }
    }
    if !ok {
        return false;
    }
    val.is_complete()
}

} // verus!
