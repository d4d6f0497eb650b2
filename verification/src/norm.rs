//! String normalization for comparison: lowercase every character, drop
//! everything that is neither alphanumeric nor whitespace, and collapse
//! whitespace runs into single spaces.
//!
//! The normal form is characterized by [`norm_seq`], and [`normalize_string`]
//! proves both that it computes that form and that the form is a fixed point,
//! so normalization is idempotent.

use vstd::prelude::*;

verus! {

/// The Unicode lowercase mapping of one character, as computed by
/// `char::to_lowercase`.
pub uninterp spec fn lower_char(c: char) -> Seq<char>;

/// Whether `char::is_alphanumeric` holds of the character.
pub uninterp spec fn is_alnum(c: char) -> bool;

/// The characters with the Unicode `White_Space` property, which is what
/// `char::is_whitespace` tests.
pub open spec fn is_space_char(c: char) -> bool {
    let u = c as u32;
    u == 0x20 || (0x09 <= u && u <= 0x0D) || u == 0x85 || u == 0xA0 || u == 0x1680 || (0x2000 <= u
        && u <= 0x200A) || u == 0x2028 || u == 0x2029 || u == 0x202F || u == 0x205F || u == 0x3000
}

/// Whitespace test, decided directly against the `White_Space` table.
pub fn char_is_space(c: char) -> (r: bool)
    ensures
        r == is_space_char(c),
{
    let u: u32 = c as u32;
    u == 0x20 || (0x09 <= u && u <= 0x0D) || u == 0x85 || u == 0xA0 || u == 0x1680 || (0x2000 <= u
        && u <= 0x200A) || u == 0x2028 || u == 0x2029 || u == 0x202F || u == 0x205F || u == 0x3000
}

/// The ASCII lowercase counterpart of an ASCII uppercase letter.
pub open spec fn ascii_lower(c: char) -> char {
    (((c as u32) + 32) as u8) as char
}

/// Relies on `char::to_lowercase`: it yields the Unicode lowercase mapping
/// of the character, at least one character long. Lowercase mappings are
/// final: each character they yield is its own lowercase mapping. On ASCII
/// the mapping takes `A`..`Z` to `a`..`z` and leaves everything else alone.
#[verifier::external_body]
fn char_lower(c: char) -> (r: Vec<char>)
    ensures
        r@ == lower_char(c),
        r@.len() >= 1,
        forall|i: int| 0 <= i < r@.len() ==> lower_char(#[trigger] r@[i]) == seq![r@[i]],
        ('A' <= c && c <= 'Z') ==> r@ == seq![ascii_lower(c)],
        ((c as u32) < 0x80 && !('A' <= c && c <= 'Z')) ==> r@ == seq![c],
{
    c.to_lowercase().collect()
}

/// Relies on `char::is_alphanumeric`: true exactly for Unicode alphabetic
/// and numeric characters; on ASCII these are the letters and digits.
#[verifier::external_body]
pub(crate) fn char_is_alnum(c: char) -> (r: bool)
    ensures
        r == is_alnum(c),
        (c as u32) < 0x80 ==> r == (('a' <= c && c <= 'z') || ('A' <= c && c <= 'Z') || ('0' <= c
            && c <= '9')),
{
    c.is_alphanumeric()
}

/// What lowering does to one character: whitespace is its own lowercase
/// form, everything else goes through the Unicode mapping.
pub open spec fn lower_unit(c: char) -> Seq<char> {
    if is_space_char(c) {
        seq![c]
    } else {
        lower_char(c)
    }
}

/// The lowercased form of a character sequence.
pub open spec fn lower_seq(s: Seq<char>) -> Seq<char>
    decreases s.len(),
{
    if s.len() == 0 {
        Seq::empty()
    } else {
        lower_seq(s.drop_last()) + lower_unit(s.last())
    }
}

/// Characters that survive normalization: alphanumeric or whitespace.
pub open spec fn keep_char(c: char) -> bool {
    is_alnum(c) || is_space_char(c)
}

/// The subsequence of characters that survive normalization.
pub open spec fn filter_kept(s: Seq<char>) -> Seq<char>
    decreases s.len(),
{
    if s.len() == 0 {
        Seq::empty()
    } else if keep_char(s.last()) {
        filter_kept(s.drop_last()).push(s.last())
    } else {
        filter_kept(s.drop_last())
    }
}

/// Splits `s` at whitespace runs; `cur` is the word read so far.
pub open spec fn words_rec(s: Seq<char>, cur: Seq<char>) -> Seq<Seq<char>>
    decreases s.len(),
{
    if s.len() == 0 {
        if cur.len() == 0 {
            Seq::empty()
        } else {
            seq![cur]
        }
    } else if is_space_char(s.first()) {
        if cur.len() == 0 {
            words_rec(s.drop_first(), Seq::empty())
        } else {
            seq![cur] + words_rec(s.drop_first(), Seq::empty())
        }
    } else {
        words_rec(s.drop_first(), cur.push(s.first()))
    }
}

/// The maximal whitespace-free nonempty words of `s`, in order.
pub open spec fn words_of(s: Seq<char>) -> Seq<Seq<char>> {
    words_rec(s, Seq::empty())
}

/// The words joined with single spaces.
pub open spec fn join_sp(ws: Seq<Seq<char>>) -> Seq<char>
    decreases ws.len(),
{
    if ws.len() == 0 {
        Seq::empty()
    } else if ws.len() == 1 {
        ws.first()
    } else {
        ws.first() + seq![' '] + join_sp(ws.drop_first())
    }
}

/// The normal form of a string: lowercase, keep only alphanumeric and
/// whitespace characters, split on whitespace runs, rejoin with single
/// spaces.
pub open spec fn norm_seq(s: Seq<char>) -> Seq<char> {
    join_sp(words_of(filter_kept(lower_seq(s))))
}

/// A word is well formed when it is nonempty and free of whitespace.
pub open spec fn wf_word(w: Seq<char>) -> bool {
    w.len() > 0 && forall|j: int| 0 <= j < w.len() ==> !is_space_char(#[trigger] w[j])
}

/// Every word of the sequence is well formed.
pub open spec fn wf_words(ws: Seq<Seq<char>>) -> bool {
    forall|i: int| 0 <= i < ws.len() ==> wf_word(#[trigger] ws[i])
}

/// A character that can appear in a normal form: it survives the filter,
/// and lowering leaves it alone.
pub open spec fn norm_char(c: char) -> bool {
    keep_char(c) && (is_space_char(c) || lower_char(c) == seq![c])
}

/// Every character of the sequence can appear in a normal form.
pub open spec fn norm_chars(t: Seq<char>) -> bool {
    forall|k: int| 0 <= k < t.len() ==> norm_char(#[trigger] t[k])
}

/// Appending one more word to a nonempty list inserts one space.
proof fn lemma_join_sp_push(ws: Seq<Seq<char>>, w: Seq<char>)
    ensures
        join_sp(ws.push(w)) == if ws.len() == 0 {
            w
        } else {
            join_sp(ws) + seq![' '] + w
        },
    decreases ws.len(),
{
    if ws.len() == 0 {
        assert(ws.push(w).len() == 1);
        assert(ws.push(w).first() == w);
    } else if ws.len() == 1 {
        assert(ws.push(w).len() == 2);
        assert(ws.push(w).first() == ws.first());
        assert(ws.push(w).drop_first() =~= seq![w]);
        assert(join_sp(seq![w]) == w);
        assert(join_sp(ws) == ws.first());
    } else {
        assert(ws.push(w).first() == ws.first());
        assert(ws.push(w).drop_first() =~= ws.drop_first().push(w));
        lemma_join_sp_push(ws.drop_first(), w);
        assert(join_sp(ws.drop_first().push(w)) == join_sp(ws.drop_first()) + seq![' '] + w);
        assert(join_sp(ws) == ws.first() + seq![' '] + join_sp(ws.drop_first()));
        assert(ws.first() + seq![' '] + (join_sp(ws.drop_first()) + seq![' '] + w) =~= (ws.first()
            + seq![' '] + join_sp(ws.drop_first())) + seq![' '] + w);
    }
}

/// Lowering fixes a sequence whose characters are already in normal form.
proof fn lemma_lower_seq_fixed(t: Seq<char>)
    requires
        norm_chars(t),
    ensures
        lower_seq(t) == t,
    decreases t.len(),
{
    if t.len() > 0 {
        assert(norm_char(t.last()));
        assert(norm_chars(t.drop_last()));
        lemma_lower_seq_fixed(t.drop_last());
        assert(lower_unit(t.last()) == seq![t.last()]);
        assert(t.drop_last() + seq![t.last()] =~= t);
    } else {
        assert(lower_seq(t) =~= t);
    }
}

/// Filtering fixes a sequence whose characters all survive the filter.
proof fn lemma_filter_kept_fixed(t: Seq<char>)
    requires
        norm_chars(t),
    ensures
        filter_kept(t) == t,
    decreases t.len(),
{
    if t.len() > 0 {
        assert(norm_char(t.last()));
        assert(norm_chars(t.drop_last()));
        lemma_filter_kept_fixed(t.drop_last());
        assert(t.drop_last().push(t.last()) =~= t);
    } else {
        assert(filter_kept(t) =~= t);
    }
}

/// Reading a whitespace-free prefix just moves it into the current word.
proof fn lemma_words_rec_word(w: Seq<char>, s: Seq<char>, cur: Seq<char>)
    requires
        forall|j: int| 0 <= j < w.len() ==> !is_space_char(#[trigger] w[j]),
    ensures
        words_rec(w + s, cur) == words_rec(s, cur + w),
    decreases w.len(),
{
    if w.len() == 0 {
        assert(w + s =~= s);
        assert(cur + w =~= cur);
    } else {
        assert((w + s).len() > 0);
        assert((w + s).first() == w.first());
        assert(!is_space_char(w.first()));
        assert((w + s).drop_first() =~= w.drop_first() + s);
        assert(forall|j: int|
            0 <= j < w.drop_first().len() ==> !is_space_char(#[trigger] w.drop_first()[j]));
        lemma_words_rec_word(w.drop_first(), s, cur.push(w.first()));
        assert(cur.push(w.first()) + w.drop_first() =~= cur + w);
    }
}

/// Splitting the single-space join of well-formed words recovers the words.
proof fn lemma_words_of_join(ws: Seq<Seq<char>>)
    requires
        wf_words(ws),
    ensures
        words_of(join_sp(ws)) == ws,
    decreases ws.len(),
{
    if ws.len() == 0 {
        assert(words_of(join_sp(ws)) =~= ws);
    } else if ws.len() == 1 {
        let w = ws.first();
        assert(wf_word(w));
        assert(join_sp(ws) == w);
        assert(w + Seq::<char>::empty() =~= w);
        lemma_words_rec_word(w, Seq::empty(), Seq::empty());
        assert(words_rec(w, Seq::empty()) == words_rec(
            Seq::<char>::empty(),
            Seq::<char>::empty() + w,
        ));
        assert((Seq::<char>::empty() + w).len() > 0);
        assert(words_of(w) =~= seq![Seq::<char>::empty() + w]);
        assert(Seq::<char>::empty() + w =~= w);
        assert(ws =~= seq![w]);
    } else {
        let w = ws.first();
        let rest = ws.drop_first();
        assert(wf_word(w));
        assert(wf_words(rest));
        let tail = seq![' '] + join_sp(rest);
        assert(join_sp(ws) == w + seq![' '] + join_sp(rest));
        assert(w + seq![' '] + join_sp(rest) =~= w + tail);
        lemma_words_rec_word(w, tail, Seq::empty());
        assert(words_rec(w + tail, Seq::empty()) == words_rec(tail, Seq::<char>::empty() + w));
        let cur = Seq::<char>::empty() + w;
        assert(cur =~= w);
        assert(tail.first() == ' ');
        assert(is_space_char(' '));
        assert(cur.len() > 0);
        assert(words_rec(tail, cur) == seq![cur] + words_rec(tail.drop_first(), Seq::empty()));
        assert(tail.drop_first() =~= join_sp(rest));
        lemma_words_of_join(rest);
        assert(seq![cur] + rest =~= ws);
    }
}

/// Collects the characters of a string into a vector.
pub fn str_to_chars(s: &str) -> (v: Vec<char>)
    ensures
        v@ == s@,
{
    let n = s.unicode_len();
    let mut v: Vec<char> = Vec::new();
    let mut i: usize = 0;
    while i < n
        invariant
            i <= n,
            n == s@.len(),
            v@ == s@.take(i as int),
        decreases n - i,
    {
        let c = s.get_char(i);
        v.push(c);
        proof {
            assert(s@.take(i + 1 as int) =~= s@.take(i as int).push(s@[i as int]));
        }
        i += 1;
    }
    proof {
        assert(s@.take(n as int) =~= s@);
    }
    v
}

/// Relies on `String`'s `FromIterator` implementation: collecting
/// characters yields the string of exactly those characters.
#[verifier::external_body]
pub fn chars_to_string(v: &Vec<char>) -> (s: String)
    ensures
        s@ == v@,
{
    v.iter().collect()
}

impl crate::entry::Entry {
    /// The normalized title, for comparison; absent when the entry has no
    /// title.
    pub fn normalized_title(&self) -> (r: Option<String>)
        ensures
            (match r {
                Some(t) => self@.title is Some && t@ == norm_seq(self@.title->0),
                None => self@.title is None,
            }),
    {
        match &self.title {
            Some(t) => Some(normalize_string(t.as_str())),
            None => None,
        }
    }

    /// The normalized author names, for comparison, in order.
    pub fn normalized_authors(&self) -> (r: Vec<String>)
        ensures
            r@.len() == self@.authors.len(),
            forall|i: int|
                0 <= i < r@.len() ==> r.deep_view()[i] == norm_seq(#[trigger] self@.authors[i]),
    {
        let mut out: Vec<String> = Vec::new();
        let n = self.authors.len();
        let mut i: usize = 0;
        proof {
            assert(self@.authors.len() == self.authors@.len());
        }
        while i < n
            invariant
                i <= n,
                n == self.authors@.len(),
                out@.len() == i,
                forall|k: int|
                    0 <= k < i ==> out.deep_view()[k] == norm_seq(
                        #[trigger] self.authors.deep_view()[k],
                    ),
            decreases n - i,
        {
            let s = normalize_string(self.authors[i].as_str());
            let ghost prev = out.deep_view();
            out.push(s);
            proof {
                assert(out.deep_view() =~= prev.push(norm_seq(self.authors.deep_view()[i as int])));
            }
            i += 1;
        }
        out
    }
}

/// Collapses whitespace: splits the string at whitespace runs and rejoins
/// the words with single spaces.
pub fn collapse_ws(s: &str) -> (r: String)
    ensures
        r@ == join_sp(words_of(s@)),
{
    let kept = str_to_chars(s);
    let kn = kept.len();
    let mut out: Vec<char> = Vec::new();
    let mut cur_len: usize = 0;
    let ghost mut done: Seq<Seq<char>> = Seq::empty();
    let ghost mut cur: Seq<char> = Seq::empty();
    let mut j: usize = 0;
    proof {
        assert(kept@.skip(0) =~= kept@);
        assert(done + words_rec(kept@, cur) =~= words_rec(kept@, cur));
    }
    while j < kn
        invariant
            j <= kn,
            kn == kept@.len(),
            kept@ == s@,
            words_of(kept@) == done + words_rec(kept@.skip(j as int), cur),
            cur_len == cur.len(),
            cur_len <= j,
            out@ == (if cur.len() == 0 {
                join_sp(done)
            } else if done.len() == 0 {
                cur
            } else {
                join_sp(done) + seq![' '] + cur
            }),
            out@.len() > 0 <==> (done.len() > 0 || cur.len() > 0),
            wf_words(done),
            forall|p: int| 0 <= p < cur.len() ==> !is_space_char(#[trigger] cur[p]),
        decreases kn - j,
    {
        let c = kept[j];
        proof {
            let rem = kept@.skip(j as int);
            assert(rem.len() > 0);
            assert(rem.first() == c);
            assert(rem.drop_first() =~= kept@.skip(j + 1 as int));
        }
        if char_is_space(c) {
            proof {
                if cur.len() > 0 {
                    assert(words_rec(kept@.skip(j as int), cur) == seq![cur] + words_rec(
                        kept@.skip(j + 1 as int),
                        Seq::empty(),
                    ));
                    assert(done + (seq![cur] + words_rec(kept@.skip(j + 1 as int), Seq::empty()))
                        =~= done.push(cur) + words_rec(kept@.skip(j + 1 as int), Seq::empty()));
                    lemma_join_sp_push(done, cur);
                    assert(wf_word(cur));
                    assert(wf_words(done.push(cur)));
                    done = done.push(cur);
                    cur = Seq::empty();
                } else {
                    assert(words_rec(kept@.skip(j as int), cur) == words_rec(
                        kept@.skip(j + 1 as int),
                        Seq::empty(),
                    ));
                    cur = Seq::empty();
                }
            }
            cur_len = 0;
        } else {
            proof {
                assert(words_rec(kept@.skip(j as int), cur) == words_rec(
                    kept@.skip(j + 1 as int),
                    cur.push(c),
                ));
            }
            if cur_len == 0 && out.len() > 0 {
                out.push(' ');
                proof {
                    assert(is_space_char(' '));
                    assert(done.len() > 0);
                    assert(join_sp(done).push(' ') =~= join_sp(done) + seq![' ']);
                }
            }
            out.push(c);
            proof {
                if cur.len() == 0 {
                    if done.len() == 0 {
                        assert(out@ =~= cur.push(c));
                    } else {
                        assert(out@ =~= join_sp(done) + seq![' '] + cur.push(c));
                    }
                } else {
                    if done.len() == 0 {
                        assert(out@ =~= cur.push(c));
                    } else {
                        assert(out@ =~= join_sp(done) + seq![' '] + cur.push(c));
                    }
                }
                cur = cur.push(c);
            }
            cur_len = cur_len + 1;
        }
        j += 1;
    }
    proof {
        assert(kept@.skip(kn as int) =~= Seq::<char>::empty());
        if cur.len() > 0 {
            assert(words_rec(Seq::<char>::empty(), cur) =~= seq![cur]);
            assert(done + seq![cur] =~= done.push(cur));
            lemma_join_sp_push(done, cur);
            done = done.push(cur);
        } else {
            assert(words_rec(Seq::<char>::empty(), cur) =~= Seq::<Seq<char>>::empty());
            assert(done + Seq::<Seq<char>>::empty() =~= done);
        }
        assert(words_of(kept@) == done);
        assert(out@ == join_sp(done));
    }
    chars_to_string(&out)
}

/// Normalizes a string for comparison: lowercase, drop every character that
/// is neither alphanumeric nor whitespace, and rejoin the remaining words
/// with single spaces.
///
/// The second postcondition states that the result is a fixed point of
/// normalization, so `normalize_string` is idempotent.
pub fn normalize_string(s: &str) -> (r: String)
    ensures
        r@ == norm_seq(s@),
        norm_seq(r@) == r@,
{
    let cs = str_to_chars(s);

    // Lowercase; whitespace is already its own lowercase form.
    let mut low: Vec<char> = Vec::new();
    let n = cs.len();
    let mut i: usize = 0;
    while i < n
        invariant
            i <= n,
            n == cs@.len(),
            low@ == lower_seq(cs@.take(i as int)),
            forall|k: int|
                0 <= k < low@.len() ==> is_space_char(#[trigger] low@[k]) || lower_char(low@[k])
                    == seq![low@[k]],
        decreases n - i,
    {
        let c = cs[i];
        proof {
            let t = cs@.take(i + 1 as int);
            assert(t.drop_last() =~= cs@.take(i as int));
            assert(t.last() == c);
        }
        if char_is_space(c) {
            low.push(c);
            proof {
                assert(lower_unit(c) == seq![c]);
                assert(lower_seq(cs@.take(i as int)).push(c) =~= lower_seq(cs@.take(i as int))
                    + seq![c]);
            }
        } else {
            let mut lc = char_lower(c);
            proof {
                assert(lower_unit(c) == lower_char(c));
            }
            low.append(&mut lc);
        }
        i += 1;
    }
    proof {
        assert(cs@.take(n as int) =~= cs@);
    }

    // Keep only alphanumeric and whitespace characters.
    let mut kept: Vec<char> = Vec::new();
    let m = low.len();
    let mut i: usize = 0;
    while i < m
        invariant
            i <= m,
            m == low@.len(),
            kept@ == filter_kept(low@.take(i as int)),
            forall|k: int|
                0 <= k < low@.len() ==> is_space_char(#[trigger] low@[k]) || lower_char(low@[k])
                    == seq![low@[k]],
            norm_chars(kept@),
        decreases m - i,
    {
        let c = low[i];
        proof {
            let t = low@.take(i + 1 as int);
            assert(t.drop_last() =~= low@.take(i as int));
            assert(t.last() == c);
        }
        let al = char_is_alnum(c);
        let sp = char_is_space(c);
        if al || sp {
            kept.push(c);
            proof {
                assert(norm_char(c));
            }
        }
        i += 1;
    }
    proof {
        assert(low@.take(m as int) =~= low@);
    }

    // Split on whitespace runs and rejoin with single spaces.
    let kn = kept.len();
    let mut out: Vec<char> = Vec::new();
    let mut cur_len: usize = 0;
    let ghost mut done: Seq<Seq<char>> = Seq::empty();
    let ghost mut cur: Seq<char> = Seq::empty();
    let mut j: usize = 0;
    proof {
        assert(kept@.skip(0) =~= kept@);
        assert(done + words_rec(kept@, cur) =~= words_rec(kept@, cur));
    }
    while j < kn
        invariant
            j <= kn,
            kn == kept@.len(),
            norm_chars(kept@),
            words_of(kept@) == done + words_rec(kept@.skip(j as int), cur),
            cur_len == cur.len(),
            cur_len <= j,
            out@ == (if cur.len() == 0 {
                join_sp(done)
            } else if done.len() == 0 {
                cur
            } else {
                join_sp(done) + seq![' '] + cur
            }),
            out@.len() > 0 <==> (done.len() > 0 || cur.len() > 0),
            wf_words(done),
            forall|p: int| 0 <= p < cur.len() ==> !is_space_char(#[trigger] cur[p]),
            norm_chars(out@),
        decreases kn - j,
    {
        let c = kept[j];
        proof {
            let rem = kept@.skip(j as int);
            assert(rem.len() > 0);
            assert(rem.first() == c);
            assert(rem.drop_first() =~= kept@.skip(j + 1 as int));
            assert(norm_char(c));
        }
        if char_is_space(c) {
            proof {
                if cur.len() > 0 {
                    assert(words_rec(kept@.skip(j as int), cur) == seq![cur] + words_rec(
                        kept@.skip(j + 1 as int),
                        Seq::empty(),
                    ));
                    assert(done + (seq![cur] + words_rec(kept@.skip(j + 1 as int), Seq::empty()))
                        =~= done.push(cur) + words_rec(kept@.skip(j + 1 as int), Seq::empty()));
                    lemma_join_sp_push(done, cur);
                    assert(wf_word(cur));
                    assert(wf_words(done.push(cur)));
                    done = done.push(cur);
                    cur = Seq::empty();
                } else {
                    assert(words_rec(kept@.skip(j as int), cur) == words_rec(
                        kept@.skip(j + 1 as int),
                        Seq::empty(),
                    ));
                    cur = Seq::empty();
                }
            }
            cur_len = 0;
        } else {
            proof {
                assert(words_rec(kept@.skip(j as int), cur) == words_rec(
                    kept@.skip(j + 1 as int),
                    cur.push(c),
                ));
            }
            if cur_len == 0 && out.len() > 0 {
                out.push(' ');
                proof {
                    assert(is_space_char(' '));
                    assert(keep_char(' '));
                    assert(norm_char(' '));
                    assert(done.len() > 0);
                    assert(join_sp(done).push(' ') =~= join_sp(done) + seq![' ']);
                }
            }
            out.push(c);
            proof {
                if cur.len() == 0 {
                    if done.len() == 0 {
                        assert(out@ =~= cur.push(c));
                    } else {
                        assert(out@ =~= join_sp(done) + seq![' '] + cur.push(c));
                    }
                } else {
                    if done.len() == 0 {
                        assert(out@ =~= cur.push(c));
                    } else {
                        assert(out@ =~= join_sp(done) + seq![' '] + cur.push(c));
                    }
                }
                cur = cur.push(c);
            }
            cur_len = cur_len + 1;
        }
        j += 1;
    }
    proof {
        assert(kept@.skip(kn as int) =~= Seq::<char>::empty());
        if cur.len() > 0 {
            assert(words_rec(Seq::<char>::empty(), cur) =~= seq![cur]);
            assert(done + seq![cur] =~= done.push(cur));
            lemma_join_sp_push(done, cur);
            assert(wf_word(cur));
            assert(wf_words(done.push(cur)));
            done = done.push(cur);
        } else {
            assert(words_rec(Seq::<char>::empty(), cur) =~= Seq::<Seq<char>>::empty());
            assert(done + Seq::<Seq<char>>::empty() =~= done);
        }
        assert(words_of(kept@) == done);
        assert(out@ == join_sp(done));
    }

    let r = chars_to_string(&out);
    proof {
        // The computed form.
        assert(r@ == norm_seq(s@));
        // The form is a fixed point of normalization.
        lemma_lower_seq_fixed(out@);
        lemma_filter_kept_fixed(out@);
        lemma_words_of_join(done);
        assert(norm_seq(r@) == r@);
    }
    r
}

} // verus!
