//! Character- and word-level text operations: ASCII case normalization of
//! lookup keys, and per-word capitalization ("title-casing") of capitals.

use vstd::prelude::*;

verus! {

/// Whitespace for the purpose of splitting a phrase into words: the ASCII
/// blank characters.
pub open spec fn is_space(c: char) -> bool {
    c == ' ' || c == '\t' || c == '\n' || c == '\r'
}

/// The lowercase form of a character: ASCII letters are lowercased, every
/// other character is kept as written.
pub open spec fn lower_char(c: char) -> char {
    match c {
        'A' => 'a',
        'B' => 'b',
        'C' => 'c',
        'D' => 'd',
        'E' => 'e',
        'F' => 'f',
        'G' => 'g',
        'H' => 'h',
        'I' => 'i',
        'J' => 'j',
        'K' => 'k',
        'L' => 'l',
        'M' => 'm',
        'N' => 'n',
        'O' => 'o',
        'P' => 'p',
        'Q' => 'q',
        'R' => 'r',
        'S' => 's',
        'T' => 't',
        'U' => 'u',
        'V' => 'v',
        'W' => 'w',
        'X' => 'x',
        'Y' => 'y',
        'Z' => 'z',
        _ => c,
    }
}

/// The uppercase form of a character: ASCII letters are uppercased, every
/// other character is kept as written.
pub open spec fn upper_char(c: char) -> char {
    match c {
        'a' => 'A',
        'b' => 'B',
        'c' => 'C',
        'd' => 'D',
        'e' => 'E',
        'f' => 'F',
        'g' => 'G',
        'h' => 'H',
        'i' => 'I',
        'j' => 'J',
        'k' => 'K',
        'l' => 'L',
        'm' => 'M',
        'n' => 'N',
        'o' => 'O',
        'p' => 'P',
        'q' => 'Q',
        'r' => 'R',
        's' => 'S',
        't' => 'T',
        'u' => 'U',
        'v' => 'V',
        'w' => 'W',
        'x' => 'X',
        'y' => 'Y',
        'z' => 'Z',
        _ => c,
    }
}

/// A name in its canonical key form: every ASCII letter lowercased.
pub open spec fn lower_seq(s: Seq<char>) -> Seq<char> {
    s.map_values(|c: char| lower_char(c))
}

/// Lowercasing a character twice is the same as lowercasing it once.
pub proof fn lemma_lower_char_idempotent()
    ensures
        forall|c: char| #[trigger] lower_char(lower_char(c)) == lower_char(c),
{
}

/// Lowercasing a name twice is the same as lowercasing it once.
pub proof fn lemma_lower_seq_idempotent(s: Seq<char>)
    ensures
        lower_seq(lower_seq(s)) == lower_seq(s),
{
    lemma_lower_char_idempotent();
    assert(lower_seq(lower_seq(s)) =~= lower_seq(s));
}

/// Length of the leading run of non-space characters of `s`.
pub open spec fn word_len(s: Seq<char>) -> nat
    decreases s.len(),
{
    if s.len() == 0 || is_space(s[0]) {
        0
    } else {
        (word_len(s.drop_first()) + 1) as nat
    }
}

/// A word with its first character uppercased and the rest kept as written.
pub open spec fn cap_word(w: Seq<char>) -> Seq<char> {
    if w.len() == 0 {
        w
    } else {
        seq![upper_char(w[0])] + w.drop_first()
    }
}

/// Two already-formatted fragments joined by a single separating space;
/// an empty side contributes nothing.
pub open spec fn glue(a: Seq<char>, b: Seq<char>) -> Seq<char> {
    if a.len() == 0 {
        b
    } else if b.len() == 0 {
        a
    } else {
        a + seq![' '] + b
    }
}

pub proof fn lemma_word_len_bounds(s: Seq<char>)
    ensures
        word_len(s) <= s.len(),
        s.len() > 0 && !is_space(s[0]) ==> word_len(s) >= 1,
    decreases s.len(),
{
    if s.len() == 0 || is_space(s[0]) {
    } else {
        lemma_word_len_bounds(s.drop_first());
    }
}

/// The title-cased form of a phrase: its whitespace-separated words, each
/// with its first character uppercased and the rest kept as written, joined
/// by single spaces.  Leading, trailing and repeated whitespace collapses.
pub open spec fn title_case(s: Seq<char>) -> Seq<char>
    decreases s.len(),
{
    if s.len() == 0 {
        Seq::empty()
    } else if is_space(s[0]) {
        title_case(s.drop_first())
    } else {
        proof {
            lemma_word_len_bounds(s);
        }
        glue(
            cap_word(s.take(word_len(s) as int)),
            title_case(s.skip(word_len(s) as int)),
        )
    }
}

/// The leading run of non-space characters is exactly the segment before the
/// first space (or the whole of `s` when there is none).
pub proof fn lemma_word_len_is(s: Seq<char>, j: int)
    requires
        0 <= j <= s.len(),
        forall|k: int| 0 <= k < j ==> !is_space(s[k]),
        j == s.len() || is_space(s[j]),
    ensures
        word_len(s) == j,
    decreases j,
{
    if j == 0 {
    } else {
        assert(!is_space(s[0]));
        let t = s.drop_first();
        assert forall|k: int| 0 <= k < j - 1 implies !is_space(t[k]) by {
            assert(t[k] == s[k + 1]);
        }
        if j - 1 < t.len() {
            assert(t[j - 1] == s[j]);
        }
        lemma_word_len_is(t, j - 1);
    }
}

/// Every character within the leading word is a non-space character.
pub proof fn lemma_word_len_chars(s: Seq<char>)
    ensures
        forall|k: int| 0 <= k < word_len(s) ==> !is_space(s[k]),
    decreases s.len(),
{
    if s.len() == 0 || is_space(s[0]) {
    } else {
        let t = s.drop_first();
        lemma_word_len_chars(t);
        lemma_word_len_bounds(s);
        assert forall|k: int| 0 <= k < word_len(s) implies !is_space(s[k]) by {
            if k > 0 {
                assert(s[k] == t[k - 1]);
            }
        }
    }
}

/// Dropping a leading space character does not change the title-cased form.
pub proof fn lemma_title_case_space(s: Seq<char>, i: int)
    requires
        0 <= i < s.len(),
        is_space(s[i]),
    ensures
        title_case(s.skip(i)) == title_case(s.skip(i + 1)),
{
    assert(s.skip(i).drop_first() =~= s.skip(i + 1));
}

/// At a word that runs from `i` up to `j`, the title-cased tail at `i` is the
/// capitalized word glued to the title-cased tail at `j`.
pub proof fn lemma_title_case_word(s: Seq<char>, i: int, j: int)
    requires
        0 <= i < j <= s.len(),
        forall|k: int| i <= k < j ==> !is_space(s[k]),
        j == s.len() || is_space(s[j]),
    ensures
        title_case(s.skip(i)) == glue(cap_word(s.subrange(i, j)), title_case(s.skip(j))),
{
    let t = s.skip(i);
    assert forall|k: int| 0 <= k < j - i implies !is_space(t[k]) by {
        assert(t[k] == s[i + k]);
    }
    if j - i < t.len() {
        assert(t[j - i] == s[j]);
    }
    lemma_word_len_is(t, j - i);
    assert(t.take(j - i) =~= s.subrange(i, j));
    assert(t.skip(j - i) =~= s.skip(j));
}

/// The step a scan makes when it has appended one whole capitalized word:
/// what is still owed at `i` equals the word plus what is owed at `j`.
pub proof fn lemma_glue_word_step(out: Seq<char>, s: Seq<char>, i: int, j: int)
    requires
        0 <= i < j <= s.len(),
        forall|k: int| i <= k < j ==> !is_space(s[k]),
        j == s.len() || is_space(s[j]),
    ensures
        glue(out, title_case(s.skip(i))) == glue(
            glue(out, cap_word(s.subrange(i, j))),
            title_case(s.skip(j)),
        ),
{
    lemma_title_case_word(s, i, j);
    let w = cap_word(s.subrange(i, j));
    let rest = title_case(s.skip(j));
    assert(w.len() >= 1);
    if out.len() == 0 {
    } else if rest.len() == 0 {
    } else {
        assert(out + seq![' '] + (w + seq![' '] + rest) =~= (out + seq![' '] + w) + seq![' ']
            + rest);
    }
}

/// Extending the scanned word by one non-space character appends that
/// character to the capitalized word.
pub proof fn lemma_cap_word_push(s: Seq<char>, i: int, j: int)
    requires
        0 <= i < j < s.len(),
    ensures
        cap_word(s.subrange(i, j + 1)) == cap_word(s.subrange(i, j)).push(s[j]),
{
    let w = s.subrange(i, j);
    assert(s.subrange(i, j + 1) =~= w.push(s[j]));
    assert(w.push(s[j])[0] == w[0]);
    assert(cap_word(w.push(s[j])) =~= cap_word(w).push(s[j]));
}

/// Title-casing a capitalized word glued to an already title-cased rest gives
/// the same phrase back.
proof fn lemma_title_case_glue(cw: Seq<char>, rest: Seq<char>)
    requires
        cw.len() >= 1,
        forall|k: int| 0 <= k < cw.len() ==> !is_space(cw[k]),
        cap_word(cw) == cw,
        title_case(rest) == rest,
    ensures
        title_case(glue(cw, rest)) == glue(cw, rest),
{
    if rest.len() == 0 {
        let t = cw;
        lemma_word_len_is(t, t.len() as int);
        assert(t.take(t.len() as int) =~= t);
        assert(t.skip(t.len() as int) =~= Seq::<char>::empty());
    } else {
        let t = cw + seq![' '] + rest;
        assert(t[0] == cw[0]);
        assert forall|k: int| 0 <= k < cw.len() implies !is_space(t[k]) by {
            assert(t[k] == cw[k]);
        }
        assert(is_space(t[cw.len() as int]));
        lemma_word_len_is(t, cw.len() as int);
        assert(t.take(cw.len() as int) =~= cw);
        assert(t.skip(cw.len() as int) =~= seq![' '] + rest);
        assert(is_space((seq![' '] + rest)[0]));
        assert((seq![' '] + rest).drop_first() =~= rest);
        assert(title_case(t.skip(cw.len() as int)) == rest);
    }
}

/// Title-casing is idempotent: applying the transform to an already
/// title-cased phrase gives it back unchanged.
pub proof fn lemma_title_case_idempotent(s: Seq<char>)
    ensures
        title_case(title_case(s)) == title_case(s),
    decreases s.len(),
{
    if s.len() == 0 {
    } else if is_space(s[0]) {
        lemma_title_case_idempotent(s.drop_first());
    } else {
        lemma_word_len_bounds(s);
        let wl = word_len(s) as int;
        let w = s.take(wl);
        let cw = cap_word(w);
        let rest = title_case(s.skip(wl));
        lemma_title_case_idempotent(s.skip(wl));
        lemma_word_len_chars(s);
        assert forall|k: int| 0 <= k < cw.len() implies !is_space(cw[k]) by {
            if k == 0 {
                assert(cw[0] == upper_char(w[0]));
                assert(!is_space(s[0]));
            } else {
                assert(cw[k] == w[k]);
                assert(w[k] == s[k]);
            }
        }
        assert(cap_word(cw) =~= cw) by {
            assert(cw[0] == upper_char(w[0]));
            assert(upper_char(upper_char(w[0])) == upper_char(w[0]));
        }
        lemma_title_case_glue(cw, rest);
        assert(title_case(s) == glue(cw, rest));
    }
}

/// Relies on `String::push`: appends the single character `c` at the end.
#[verifier::external_body]
fn push_char(s: &mut String, c: char)
    ensures
        final(s)@ == old(s)@.push(c),
{
    s.push(c);
}

fn space_char(c: char) -> (b: bool)
    ensures
        b == is_space(c),
{
    c == ' ' || c == '\t' || c == '\n' || c == '\r'
}

fn lower_char_of(c: char) -> (r: char)
    ensures
        r == lower_char(c),
{
    match c {
        'A' => 'a',
        'B' => 'b',
        'C' => 'c',
        'D' => 'd',
        'E' => 'e',
        'F' => 'f',
        'G' => 'g',
        'H' => 'h',
        'I' => 'i',
        'J' => 'j',
        'K' => 'k',
        'L' => 'l',
        'M' => 'm',
        'N' => 'n',
        'O' => 'o',
        'P' => 'p',
        'Q' => 'q',
        'R' => 'r',
        'S' => 's',
        'T' => 't',
        'U' => 'u',
        'V' => 'v',
        'W' => 'w',
        'X' => 'x',
        'Y' => 'y',
        'Z' => 'z',
        _ => c,
    }
}

fn upper_char_of(c: char) -> (r: char)
    ensures
        r == upper_char(c),
{
    match c {
        'a' => 'A',
        'b' => 'B',
        'c' => 'C',
        'd' => 'D',
        'e' => 'E',
        'f' => 'F',
        'g' => 'G',
        'h' => 'H',
        'i' => 'I',
        'j' => 'J',
        'k' => 'K',
        'l' => 'L',
        'm' => 'M',
        'n' => 'N',
        'o' => 'O',
        'p' => 'P',
        'q' => 'Q',
        'r' => 'R',
        's' => 'S',
        't' => 'T',
        'u' => 'U',
        'v' => 'V',
        'w' => 'W',
        'x' => 'X',
        'y' => 'Y',
        'z' => 'Z',
        _ => c,
    }
}

/// The canonical lookup key for a place name: the name with every ASCII
/// letter lowercased.
pub fn normalize_key(name: &str) -> (r: String)
    ensures
        r@ == lower_seq(name@),
{
    let n = name.unicode_len();
    let mut out = String::new();
    let mut i: usize = 0;
    while i < n
        invariant
            n == name@.len(),
            i <= n,
            out@ == lower_seq(name@.take(i as int)),
        decreases n - i,
    {
        let c = name.get_char(i);
        push_char(&mut out, lower_char_of(c));
        proof {
            assert(name@.take(i + 1) =~= name@.take(i as int).push(name@[i as int]));
            assert(lower_seq(name@.take(i + 1)) =~= lower_seq(name@.take(i as int)).push(
                lower_char(name@[i as int]),
            ));
        }
        i += 1;
    }
    proof {
        assert(name@.take(n as int) =~= name@);
    }
    out
}

/// The title-cased form of a phrase: each whitespace-separated word with its
/// first letter uppercased and the rest kept as written, the words joined by
/// single spaces.
pub fn capitalize_words(phrase: &str) -> (r: String)
    ensures
        r@ == title_case(phrase@),
{
    let n = phrase.unicode_len();
    let mut out = String::new();
    let mut i: usize = 0;
    proof {
        assert(phrase@.skip(0) =~= phrase@);
    }
    while i < n
        invariant
            n == phrase@.len(),
            i <= n,
            title_case(phrase@) == glue(out@, title_case(phrase@.skip(i as int))),
        decreases n - i,
    {
        let c = phrase.get_char(i);
        if space_char(c) {
            proof {
                lemma_title_case_space(phrase@, i as int);
            }
            i += 1;
        } else {
            let ghost prev = out@;
            let start = i;
            if !out.as_str().is_empty() {
                push_char(&mut out, ' ');
            }
            let ghost base = out@;
            push_char(&mut out, upper_char_of(c));
            proof {
                assert(phrase@.subrange(start as int, start + 1) =~= seq![phrase@[start as int]]);
                assert(cap_word(phrase@.subrange(start as int, start + 1)) =~= seq![
                    upper_char(phrase@[start as int]),
                ]);
                assert(out@ =~= base + cap_word(phrase@.subrange(start as int, start + 1)));
            }
            i += 1;
            while i < n && !space_char(phrase.get_char(i))
                invariant
                    n == phrase@.len(),
                    start < i <= n,
                    !is_space(phrase@[start as int]),
                    forall|k: int| start <= k < i ==> !is_space(phrase@[k]),
                    out@ == base + cap_word(phrase@.subrange(start as int, i as int)),
                    title_case(phrase@) == glue(prev, title_case(phrase@.skip(start as int))),
                    prev.len() == 0 ==> base == prev,
                    prev.len() > 0 ==> base == prev + seq![' '],
                decreases n - i,
            {
                push_char(&mut out, phrase.get_char(i));
                proof {
                    lemma_cap_word_push(phrase@, start as int, i as int);
                }
                i += 1;
            }
            proof {
                let w = cap_word(phrase@.subrange(start as int, i as int));
                lemma_glue_word_step(prev, phrase@, start as int, i as int);
                assert(out@ =~= glue(prev, w));
            }
        }
    }
    proof {
        assert(phrase@.skip(n as int) =~= Seq::<char>::empty());
    }
    out
}

} // verus!
