//! Scanning of text: whitespace, separators, words, parentheses.
//!
//! Text is modelled as `Seq<char>`. The executable functions work on slices
//! of characters and are specified against the spec functions of this module.

use vstd::prelude::*;

verus! {

/// Whether `c` has the Unicode property `White_Space`.
pub open spec fn is_whitespace(c: char) -> bool {
    let code = c as u32;
    ||| 0x09 <= code <= 0x0D
    ||| code == 0x20
    ||| code == 0x85
    ||| code == 0xA0
    ||| code == 0x1680
    ||| 0x2000 <= code <= 0x200A
    ||| code == 0x2028
    ||| code == 0x2029
    ||| code == 0x202F
    ||| code == 0x205F
    ||| code == 0x3000
}

/// Number of characters of `s` that stand before the first `c`; `s.len()` where `s` holds no `c`.
pub open spec fn offset_of(s: Seq<char>, c: char) -> nat
    decreases s.len(),
{
    if s.len() == 0 || s[0] == c {
        0
    } else {
        1 + offset_of(s.drop_first(), c)
    }
}

/// What stands before and after the first `c` in `s`, if `s` holds one.
pub open spec fn split_once(s: Seq<char>, c: char) -> Option<(Seq<char>, Seq<char>)> {
    let at = offset_of(s, c) as int;
    if at < s.len() {
        Some((s.take(at), s.skip(at + 1)))
    } else {
        None
    }
}

/// Length of the longest prefix of `s` that holds no whitespace.
pub open spec fn word_len(s: Seq<char>) -> nat
    decreases s.len(),
{
    if s.len() == 0 || is_whitespace(s[0]) {
        0
    } else {
        1 + word_len(s.drop_first())
    }
}

/// The maximal whitespace-free runs of `s`, in the order in which they stand.
pub open spec fn words(s: Seq<char>) -> Seq<Seq<char>>
    decreases s.len(),
{
    if s.len() == 0 {
        Seq::empty()
    } else if is_whitespace(s[0]) {
        words(s.drop_first())
    } else {
        proof {
            lemma_word_len_bounds(s);
        }
        let n = word_len(s) as int;
        seq![s.take(n)] + words(s.skip(n))
    }
}

/// Whether `c` is an opening or a closing parenthesis.
pub open spec fn is_paren(c: char) -> bool {
    c == '(' || c == ')'
}

/// `s` without the parentheses at its start.
pub open spec fn trim_start_parens(s: Seq<char>) -> Seq<char>
    decreases s.len(),
{
    if s.len() > 0 && is_paren(s[0]) {
        trim_start_parens(s.drop_first())
    } else {
        s
    }
}

/// `s` without the parentheses at its end.
pub open spec fn trim_end_parens(s: Seq<char>) -> Seq<char>
    decreases s.len(),
{
    if s.len() > 0 && is_paren(s.last()) {
        trim_end_parens(s.drop_last())
    } else {
        s
    }
}

/// `s` without the parentheses at its start and at its end.
pub open spec fn trim_parens(s: Seq<char>) -> Seq<char> {
    trim_end_parens(trim_start_parens(s))
}

/// Whether `needle` stands in `hay` at position `at`.
pub open spec fn occurs_at(hay: Seq<char>, needle: Seq<char>, at: int) -> bool {
    0 <= at && at + needle.len() <= hay.len() && hay.subrange(at, at + needle.len()) == needle
}

/// Whether `needle` stands somewhere in `hay`.
pub open spec fn contains_text(hay: Seq<char>, needle: Seq<char>) -> bool {
    exists|at: int| occurs_at(hay, needle, at)
}

/// `offset_of` is the position of the first `c`: no `c` stands before it, and
/// one stands at it unless it is the length of `s`.
pub proof fn lemma_offset_of(s: Seq<char>, c: char)
    ensures
        offset_of(s, c) <= s.len(),
        forall|i: int| 0 <= i < offset_of(s, c) ==> #[trigger] s[i] != c,
        offset_of(s, c) < s.len() ==> s[offset_of(s, c) as int] == c,
    decreases s.len(),
{
    if s.len() > 0 && s[0] != c {
        let rest = s.drop_first();
        lemma_offset_of(rest, c);
        assert forall|i: int| 0 <= i < offset_of(s, c) implies #[trigger] s[i] != c by {
            if i > 0 {
                assert(s[i] == rest[i - 1]);
            }
        }
        if offset_of(s, c) < s.len() {
            assert(s[offset_of(s, c) as int] == rest[offset_of(rest, c) as int]);
        }
    }
}

/// A position with no `c` before it, and with `c` at it or at the end of `s`,
/// is `offset_of(s, c)`.
pub proof fn lemma_offset_of_is(s: Seq<char>, c: char, at: int)
    requires
        0 <= at <= s.len(),
        forall|i: int| 0 <= i < at ==> #[trigger] s[i] != c,
        at < s.len() ==> s[at] == c,
    ensures
        offset_of(s, c) == at,
{
    lemma_offset_of(s, c);
    let found = offset_of(s, c) as int;
    if found < at {
        assert(s[found] != c);
    } else if found > at {
        assert(s[at] != c);
    }
}

/// The first whitespace-free run of `s` ends inside `s`, and is not empty
/// where `s` starts with a character that is not whitespace.
pub proof fn lemma_word_len_bounds(s: Seq<char>)
    ensures
        word_len(s) <= s.len(),
        s.len() > 0 && !is_whitespace(s[0]) ==> word_len(s) >= 1,
        forall|i: int| 0 <= i < word_len(s) ==> !is_whitespace(#[trigger] s[i]),
        word_len(s) < s.len() ==> is_whitespace(s[word_len(s) as int]),
    decreases s.len(),
{
    if s.len() > 0 && !is_whitespace(s[0]) {
        let rest = s.drop_first();
        lemma_word_len_bounds(rest);
        assert forall|i: int| 0 <= i < word_len(s) implies !is_whitespace(#[trigger] s[i]) by {
            if i > 0 {
                assert(s[i] == rest[i - 1]);
            }
        }
        if word_len(s) < s.len() {
            assert(s[word_len(s) as int] == rest[word_len(rest) as int]);
        }
    }
}

/// A position with no whitespace before it, and with whitespace at it or at
/// the end of `s`, is `word_len(s)`.
pub proof fn lemma_word_len_is(s: Seq<char>, at: int)
    requires
        0 <= at <= s.len(),
        forall|i: int| 0 <= i < at ==> !is_whitespace(#[trigger] s[i]),
        at < s.len() ==> is_whitespace(s[at]),
    ensures
        word_len(s) == at,
{
    lemma_word_len_bounds(s);
    let found = word_len(s) as int;
    if found < at {
        assert(!is_whitespace(s[found]));
    } else if found > at {
        assert(!is_whitespace(s[at]));
    }
}

/// What `trim_start_parens` leaves is a suffix of `s` that does not start with a parenthesis.
pub proof fn lemma_trim_start_parens(s: Seq<char>)
    ensures
        trim_start_parens(s).len() <= s.len(),
        trim_start_parens(s) == s.skip(s.len() - trim_start_parens(s).len()),
        trim_start_parens(s).len() > 0 ==> !is_paren(trim_start_parens(s)[0]),
        trim_start_parens(trim_start_parens(s)) == trim_start_parens(s),
    decreases s.len(),
{
    if s.len() > 0 && is_paren(s[0]) {
        let rest = s.drop_first();
        lemma_trim_start_parens(rest);
        let kept = trim_start_parens(rest).len();
        assert(rest.skip(rest.len() - kept) =~= s.skip(s.len() - kept));
    } else {
        assert(s.skip(0) =~= s);
    }
}

/// What `trim_end_parens` leaves is a prefix of `s` that does not end with a parenthesis.
pub proof fn lemma_trim_end_parens(s: Seq<char>)
    ensures
        trim_end_parens(s).len() <= s.len(),
        trim_end_parens(s) == s.take(trim_end_parens(s).len() as int),
        trim_end_parens(s).len() > 0 ==> !is_paren(trim_end_parens(s).last()),
        trim_end_parens(trim_end_parens(s)) == trim_end_parens(s),
    decreases s.len(),
{
    if s.len() > 0 && is_paren(s.last()) {
        let rest = s.drop_last();
        lemma_trim_end_parens(rest);
        let kept = trim_end_parens(rest).len() as int;
        assert(rest.take(kept) =~= s.take(kept));
    } else {
        assert(s.take(s.len() as int) =~= s);
    }
}

/// Removing the parentheses at both ends of `s` a second time changes nothing.
pub proof fn lemma_trim_parens_idempotent(s: Seq<char>)
    ensures
        trim_parens(trim_parens(s)) == trim_parens(s),
{
    let inner = trim_start_parens(s);
    lemma_trim_start_parens(s);
    lemma_trim_end_parens(inner);
    let t = trim_parens(s);
    if t.len() > 0 {
        assert(t[0] == inner[0]);
    }
}

/// Whether `s` holds no whitespace.
pub open spec fn no_whitespace(s: Seq<char>) -> bool {
    forall|i: int| 0 <= i < s.len() ==> !is_whitespace(#[trigger] s[i])
}

/// Whether `text` ends inside a word: it is not empty and its last character is no whitespace.
pub open spec fn ends_in_word(text: Seq<char>) -> bool {
    text.len() > 0 && !is_whitespace(text.last())
}

/// A text that holds no whitespace and is not empty is one word.
pub proof fn lemma_words_of_word(word: Seq<char>)
    requires
        word.len() > 0,
        no_whitespace(word),
    ensures
        words(word) == seq![word],
{
    lemma_word_len_is(word, word.len() as int);
    assert(word.take(word.len() as int) =~= word);
    assert(words(word.skip(word.len() as int)) =~= Seq::<Seq<char>>::empty());
    assert(seq![word] + Seq::<Seq<char>>::empty() =~= seq![word]);
}

/// A space behind a text adds no word to it.
pub proof fn lemma_words_space(text: Seq<char>)
    ensures
        words(text + seq![' ']) == words(text),
        !ends_in_word(text + seq![' ']),
    decreases text.len(),
{
    let longer = text + seq![' '];
    if text.len() == 0 {
        assert(longer.drop_first() =~= text);
    } else if is_whitespace(text[0]) {
        assert(longer.drop_first() =~= text.drop_first() + seq![' ']);
        lemma_words_space(text.drop_first());
    } else {
        let n = word_len(text) as int;
        lemma_word_len_bounds(text);
        assert forall|i: int| 0 <= i < n implies !is_whitespace(#[trigger] longer[i]) by {
            assert(longer[i] == text[i]);
        }
        if n < text.len() {
            assert(longer[n] == text[n]);
        }
        lemma_word_len_is(longer, n);
        assert(longer.take(n) =~= text.take(n));
        assert(longer.skip(n) =~= text.skip(n) + seq![' ']);
        lemma_words_space(text.skip(n));
    }
}

/// A run without whitespace, behind a text that does not end inside a word, is a new word.
pub proof fn lemma_words_begin(text: Seq<char>, piece: Seq<char>)
    requires
        !ends_in_word(text),
        piece.len() > 0,
        no_whitespace(piece),
    ensures
        words(text + piece) == words(text).push(piece),
        ends_in_word(text + piece),
    decreases text.len(),
{
    let longer = text + piece;
    assert(longer.last() == piece.last());
    if text.len() == 0 {
        assert(longer =~= piece);
        lemma_words_of_word(piece);
        assert(words(text).push(piece) =~= seq![piece]);
    } else if is_whitespace(text[0]) {
        assert(longer.drop_first() =~= text.drop_first() + piece);
        if text.len() > 1 {
            assert(text.drop_first().last() == text.last());
        }
        lemma_words_begin(text.drop_first(), piece);
    } else {
        let n = word_len(text) as int;
        lemma_word_len_bounds(text);
        assert(n < text.len()) by {
            if n == text.len() {
                assert(!is_whitespace(text[text.len() - 1]));
            }
        }
        assert forall|i: int| 0 <= i < n implies !is_whitespace(#[trigger] longer[i]) by {
            assert(longer[i] == text[i]);
        }
        assert(longer[n] == text[n]);
        lemma_word_len_is(longer, n);
        assert(longer.take(n) =~= text.take(n));
        assert(longer.skip(n) =~= text.skip(n) + piece);
        assert(text.skip(n).last() == text.last());
        lemma_words_begin(text.skip(n), piece);
        assert((seq![text.take(n)] + words(text.skip(n))).push(piece) =~= seq![text.take(n)]
            + words(text.skip(n)).push(piece));
    }
}

/// A run without whitespace, behind a text that ends inside a word, makes that word longer.
pub proof fn lemma_words_extend(text: Seq<char>, piece: Seq<char>)
    requires
        ends_in_word(text),
        no_whitespace(piece),
    ensures
        words(text).len() > 0,
        words(text + piece) == words(text).drop_last().push(words(text).last() + piece),
        ends_in_word(text + piece),
    decreases text.len(),
{
    let longer = text + piece;
    if piece.len() > 0 {
        assert(longer.last() == piece.last());
    } else {
        assert(longer =~= text);
    }
    if is_whitespace(text[0]) {
        assert(text.len() > 1);
        assert(longer.drop_first() =~= text.drop_first() + piece);
        assert(text.drop_first().last() == text.last());
        lemma_words_extend(text.drop_first(), piece);
    } else {
        let n = word_len(text) as int;
        lemma_word_len_bounds(text);
        if n == text.len() {
            assert forall|i: int| 0 <= i < longer.len() implies !is_whitespace(
                #[trigger] longer[i],
            ) by {
                if i < text.len() {
                    assert(longer[i] == text[i]);
                } else {
                    assert(longer[i] == piece[i - text.len()]);
                }
            }
            lemma_words_of_word(longer);
            lemma_words_of_word(text);
            assert(seq![text].drop_last().push(seq![text].last() + piece) =~= seq![longer]);
        } else {
            assert forall|i: int| 0 <= i < n implies !is_whitespace(#[trigger] longer[i]) by {
                assert(longer[i] == text[i]);
            }
            assert(longer[n] == text[n]);
            lemma_word_len_is(longer, n);
            assert(longer.take(n) =~= text.take(n));
            assert(longer.skip(n) =~= text.skip(n) + piece);
            assert(text.skip(n).last() == text.last());
            lemma_words_extend(text.skip(n), piece);
            let first = seq![text.take(n)];
            let rest = words(text.skip(n));
            assert((first + rest).drop_last().push((first + rest).last() + piece) =~= first
                + rest.drop_last().push(rest.last() + piece));
        }
    }
}

/// Whether `c` has the Unicode property `White_Space`.
pub fn whitespace(c: char) -> (yes: bool)
    ensures
        yes == is_whitespace(c),
{
    let code: u32 = c as u32;
    (0x09 <= code && code <= 0x0D) || code == 0x20 || code == 0x85 || code == 0xA0 || code
        == 0x1680 || (0x2000 <= code && code <= 0x200A) || code == 0x2028 || code == 0x2029
        || code == 0x202F || code == 0x205F || code == 0x3000
}

/// The characters of `text`, in order.
pub fn chars_of(text: &str) -> (chars: Vec<char>)
    ensures
        chars@ == text@,
{
    let mut chars: Vec<char> = Vec::new();
    for c in it: text.chars()
        invariant
            it.seq() == text@,
            chars@ == it.seq().take(it.index() as int),
    {
        chars.push(c);
    }
    chars
}

/// Whether two slices hold the same characters.
pub fn same_chars(a: &[char], b: &[char]) -> (same: bool)
    ensures
        same == (a@ == b@),
{
    if a.len() != b.len() {
        return false;
    }
    let mut i: usize = 0;
    while i < a.len()
        invariant
            i <= a.len(),
            a.len() == b.len(),
            forall|j: int| 0 <= j < i ==> a@[j] == b@[j],
        decreases a.len() - i,
    {
        if a[i] != b[i] {
            return false;
        }
        i += 1;
    }
    assert(a@ =~= b@);
    true
}

/// Whether `s` holds exactly the characters of `text`.
pub fn is_text(s: &[char], text: &str) -> (same: bool)
    ensures
        same == (s@ == text@),
{
    let other = chars_of(text);
    same_chars(s, other.as_slice())
}

/// The position of the first `c` in `s`, or the length of `s`.
pub fn find_char(s: &[char], c: char) -> (at: usize)
    ensures
        at == offset_of(s@, c),
        at <= s.len(),
{
    let mut i: usize = 0;
    while i < s.len() && s[i] != c
        invariant
            i <= s.len(),
            forall|j: int| 0 <= j < i ==> #[trigger] s@[j] != c,
        decreases s.len() - i,
    {
        i += 1;
    }
    proof {
        lemma_offset_of_is(s@, c, i as int);
    }
    i
}

/// The part of `s` between the parentheses at its start and at its end.
pub fn strip_parens(s: &[char]) -> (inner: &[char])
    ensures
        inner@ == trim_parens(s@),
{
    let mut from: usize = 0;
    assert(s@.skip(0) =~= s@);
    while from < s.len() && (s[from] == '(' || s[from] == ')')
        invariant
            from <= s.len(),
            trim_start_parens(s@) == trim_start_parens(s@.skip(from as int)),
        decreases s.len() - from,
    {
        assert(s@.skip(from as int).drop_first() =~= s@.skip(from + 1));
        from += 1;
    }
    let mut to: usize = s.len();
    assert(s@.subrange(from as int, to as int) =~= s@.skip(from as int));
    while to > from && (s[to - 1] == '(' || s[to - 1] == ')')
        invariant
            from <= to <= s.len(),
            trim_parens(s@) == trim_end_parens(s@.subrange(from as int, to as int)),
        decreases to,
    {
        assert(s@.subrange(from as int, to as int).drop_last() =~= s@.subrange(
            from as int,
            to - 1,
        ));
        to -= 1;
    }
    vstd::slice::slice_subrange(s, from, to)
}

/// Whether `needle` stands somewhere in `hay`.
pub fn contains(hay: &[char], needle: &[char]) -> (found: bool)
    ensures
        found == contains_text(hay@, needle@),
{
    if needle.len() > hay.len() {
        assert(forall|at: int| !occurs_at(hay@, needle@, at));
        return false;
    }
    let last: usize = hay.len() - needle.len();
    let mut at: usize = 0;
    loop
        invariant
            at <= last,
            last == hay.len() - needle.len(),
            forall|k: int| 0 <= k < at ==> !occurs_at(hay@, needle@, k),
        decreases last - at,
    {
        let part = vstd::slice::slice_subrange(hay, at, at + needle.len());
        if same_chars(part, needle) {
            assert(occurs_at(hay@, needle@, at as int));
            return true;
        }
        if at == last {
            assert(forall|k: int| !occurs_at(hay@, needle@, k));
            return false;
        }
        at += 1;
    }
}

/// Where the whitespace-free runs of `s` start and end, in order.
pub fn word_bounds(s: &[char]) -> (bounds: Vec<(usize, usize)>)
    ensures
        bounds.len() == words(s@).len(),
        forall|k: int|
            0 <= k < bounds.len() ==> {
                &&& (#[trigger] bounds[k]).0 <= bounds[k].1 <= s.len()
                &&& s@.subrange(bounds[k].0 as int, bounds[k].1 as int) == words(s@)[k]
            },
{
    let mut bounds: Vec<(usize, usize)> = Vec::new();
    let ghost mut done: Seq<Seq<char>> = Seq::empty();
    let mut pos: usize = 0;
    assert(s@.skip(0) =~= s@);
    while pos < s.len()
        invariant
            pos <= s.len(),
            words(s@) == done + words(s@.skip(pos as int)),
            bounds.len() == done.len(),
            forall|k: int|
                0 <= k < bounds.len() ==> {
                    &&& (#[trigger] bounds[k]).0 <= bounds[k].1 <= s.len()
                    &&& s@.subrange(bounds[k].0 as int, bounds[k].1 as int) == done[k]
                },
        decreases s.len() - pos,
    {
        let ghost tail = s@.skip(pos as int);
        if whitespace(s[pos]) {
            assert(tail.drop_first() =~= s@.skip(pos + 1));
            pos += 1;
        } else {
            let mut end: usize = pos + 1;
            while end < s.len() && !whitespace(s[end])
                invariant
                    pos < end <= s.len(),
                    forall|j: int| pos <= j < end ==> !is_whitespace(#[trigger] s@[j]),
                decreases s.len() - end,
            {
                end += 1;
            }
            proof {
                let n = end - pos;
                assert forall|i: int| 0 <= i < n implies !is_whitespace(#[trigger] tail[i]) by {
                    assert(tail[i] == s@[pos + i]);
                }
                lemma_word_len_is(tail, n);
                assert(tail.take(n) =~= s@.subrange(pos as int, end as int));
                assert(tail.skip(n) =~= s@.skip(end as int));
                assert(done + (seq![tail.take(n)] + words(tail.skip(n))) =~= done.push(
                    tail.take(n),
                ) + words(tail.skip(n)));
                done = done.push(tail.take(n));
            }
            bounds.push((pos, end));
            pos = end;
        }
    }
    assert(words(s@.skip(pos as int)) =~= Seq::<Seq<char>>::empty());
    assert(done + Seq::<Seq<char>>::empty() =~= done);
    bounds
}

} // verus!
