use vstd::prelude::*;

verus! {

/// Unicode `White_Space`: the characters that `char::is_whitespace` accepts.
pub open spec fn is_space(c: char) -> bool {
    ||| '\u{9}' <= c <= '\u{d}'
    ||| c == ' '
    ||| c == '\u{85}'
    ||| c == '\u{a0}'
    ||| c == '\u{1680}'
    ||| '\u{2000}' <= c <= '\u{200a}'
    ||| c == '\u{2028}'
    ||| c == '\u{2029}'
    ||| c == '\u{202f}'
    ||| c == '\u{205f}'
    ||| c == '\u{3000}'
}

/// Whether `c` is white space, as `char::is_whitespace` decides it.
pub fn is_space_char(c: char) -> (r: bool)
    ensures
        r == is_space(c),
{
    ('\u{9}' <= c && c <= '\u{d}') || c == ' ' || c == '\u{85}' || c == '\u{a0}' || c == '\u{1680}'
        || ('\u{2000}' <= c && c <= '\u{200a}') || c == '\u{2028}' || c == '\u{2029}' || c
        == '\u{202f}' || c == '\u{205f}' || c == '\u{3000}'
}

/// The characters of a string slice, in order.
pub fn chars_of(s: &str) -> (v: Vec<char>)
    ensures
        v@ == s@,
{
    let mut v: Vec<char> = Vec::new();
    for c in it: s.chars()
        invariant
            v@ == it.seq().take(it.index() as int),
            it.seq() == s@,
    {
        v.push(c);
    }
    v
}


/// The views of a sequence of character vectors.
pub open spec fn views(v: Seq<Vec<char>>) -> Seq<Seq<char>> {
    v.map_values(|w: Vec<char>| w@)
}

/// How many characters `s` starts with before its first white space (or its end).
pub open spec fn word_len(s: Seq<char>) -> nat
    decreases s.len(),
{
    if s.len() == 0 || is_space(s[0]) {
        0
    } else {
        1 + word_len(s.drop_first())
    }
}

pub proof fn lemma_word_len_bound(s: Seq<char>)
    ensures
        word_len(s) <= s.len(),
        s.len() > 0 && !is_space(s[0]) ==> word_len(s) >= 1,
    decreases s.len(),
{
    if s.len() > 0 && !is_space(s[0]) {
        lemma_word_len_bound(s.drop_first());
    }
}

/// The words of `s`: its maximal runs of characters that are not white space, in order,
/// as `str::split_whitespace` yields them.
pub open spec fn words(s: Seq<char>) -> Seq<Seq<char>>
    decreases s.len(),
{
    if s.len() == 0 {
        seq![]
    } else if is_space(s[0]) {
        words(s.drop_first())
    } else {
        proof {
            lemma_word_len_bound(s);
        }
        seq![s.take(word_len(s) as int)] + words(s.skip(word_len(s) as int))
    }
}

proof fn lemma_skip_first(s: Seq<char>, i: int)
    requires
        0 <= i < s.len(),
    ensures
        s.skip(i).len() > 0,
        s.skip(i)[0] == s[i],
        s.skip(i).drop_first() == s.skip(i + 1),
{
    assert(s.skip(i).drop_first() =~= s.skip(i + 1));
}

/// Splits `s` into its words.
pub fn split_whitespace(s: &Vec<char>) -> (ws: Vec<Vec<char>>)
    ensures
        views(ws@) == words(s@),
{
    let mut out: Vec<Vec<char>> = Vec::new();
    let mut i: usize = 0;
    assert(s@.skip(0) =~= s@);
    while i < s.len()
        invariant
            i <= s.len(),
            words(s@) == views(out@) + words(s@.skip(i as int)),
        decreases s.len() - i,
    {
        proof {
            lemma_skip_first(s@, i as int);
        }
        if is_space_char(s[i]) {
            i = i + 1;
        } else {
            let start: usize = i;
            let mut w: Vec<char> = Vec::new();
            while i < s.len() && !is_space_char(s[i])
                invariant
                    start <= i <= s.len(),
                    w@ == s@.subrange(start as int, i as int),
                    word_len(s@.skip(start as int)) == (i - start) + word_len(s@.skip(i as int)),
                decreases s.len() - i,
            {
                proof {
                    lemma_skip_first(s@, i as int);
                }
                w.push(s[i]);
                i = i + 1;
                assert(w@ =~= s@.subrange(start as int, i as int));
            }
            proof {
                if i < s.len() {
                    lemma_skip_first(s@, i as int);
                }
                let t = s@.skip(start as int);
                assert(t.take((i - start) as int) =~= w@);
                assert(t.skip((i - start) as int) =~= s@.skip(i as int));
                assert(views(out@.push(w)) =~= views(out@).push(w@));
            }
            out.push(w);
        }
    }
    assert(s@.skip(i as int) =~= Seq::<char>::empty());
    assert(views(out@) =~= views(out@) + Seq::<Seq<char>>::empty());
    out
}


/// The words `ws` written one after another with `sep` between each two of them.
pub open spec fn join(ws: Seq<Seq<char>>, sep: Seq<char>) -> Seq<char>
    decreases ws.len(),
{
    if ws.len() == 0 {
        seq![]
    } else if ws.len() == 1 {
        ws[0]
    } else {
        join(ws.drop_last(), sep) + sep + ws.last()
    }
}

/// Appends the characters of `src` to `out`.
pub fn push_all(out: &mut Vec<char>, src: &Vec<char>)
    ensures
        final(out)@ == old(out)@ + src@,
{
    let ghost start = out@;
    let mut i: usize = 0;
    while i < src.len()
        invariant
            i <= src.len(),
            out@ == start + src@.take(i as int),
        decreases src.len() - i,
    {
        out.push(src[i]);
        i = i + 1;
        assert(out@ =~= start + src@.take(i as int));
    }
    assert(src@.take(i as int) =~= src@);
}

/// The words `ws[start..]` joined by `sep`.
pub fn join_from(ws: &Vec<Vec<char>>, start: usize, sep: &Vec<char>) -> (r: Vec<char>)
    requires
        start <= ws.len(),
    ensures
        r@ == join(views(ws@).skip(start as int), sep@),
{
    let mut r: Vec<char> = Vec::new();
    let mut i: usize = start;
    assert(views(ws@).subrange(start as int, start as int) =~= Seq::<Seq<char>>::empty());
    while i < ws.len()
        invariant
            start <= i <= ws.len(),
            r@ == join(views(ws@).subrange(start as int, i as int), sep@),
        decreases ws.len() - i,
    {
        let ghost prev = views(ws@).subrange(start as int, i as int);
        let ghost next = views(ws@).subrange(start as int, i + 1);
        assert(next.drop_last() =~= prev);
        if i > start {
            push_all(&mut r, sep);
        }
        push_all(&mut r, &ws[i]);
        i = i + 1;
        proof {
            if prev.len() == 0 {
                assert(r@ =~= next[0]);
            }
        }
    }
    assert(views(ws@).subrange(start as int, i as int) =~= views(ws@).skip(start as int));
    r
}

/// `pat` occurs in `s` starting at position `i`.
pub open spec fn occurs_at(s: Seq<char>, pat: Seq<char>, i: int) -> bool {
    &&& 0 <= i
    &&& i + pat.len() <= s.len()
    &&& s.subrange(i, i + pat.len()) == pat
}

/// `pat` occurs somewhere in `s` (the empty pattern occurs in every text).
pub open spec fn contains(s: Seq<char>, pat: Seq<char>) -> bool {
    exists|i: int| occurs_at(s, pat, i)
}

/// Whether `pat` occurs in `s` at position `i`.
pub fn matches_at(s: &Vec<char>, i: usize, pat: &Vec<char>) -> (r: bool)
    ensures
        r == occurs_at(s@, pat@, i as int),
{
    if i > s.len() || pat.len() > s.len() - i {
        return false;
    }
    let mut k: usize = 0;
    while k < pat.len()
        invariant
            k <= pat.len(),
            i + pat.len() <= s.len(),
            forall|j: int| 0 <= j < k ==> s@[i + j] == pat@[j],
        decreases pat.len() - k,
    {
        if s[i + k] != pat[k] {
            assert(s@.subrange(i as int, i + pat.len())[k as int] != pat@[k as int]);
            return false;
        }
        k = k + 1;
    }
    assert(s@.subrange(i as int, i + pat.len()) =~= pat@);
    true
}

/// Whether `pat` occurs anywhere in `s`.
pub fn contains_chars(s: &Vec<char>, pat: &Vec<char>) -> (r: bool)
    ensures
        r == contains(s@, pat@),
{
    if pat.len() > s.len() {
        return false;
    }
    let last: usize = s.len() - pat.len();
    let mut i: usize = 0;
    loop
        invariant
            last == s.len() - pat.len(),
            i <= last,
            forall|j: int| 0 <= j < i ==> !occurs_at(s@, pat@, j),
        ensures
            i == last,
            forall|j: int| 0 <= j <= i ==> !occurs_at(s@, pat@, j),
        decreases last - i,
    {
        if matches_at(s, i, pat) {
            return true;
        }
        if i == last {
            break;
        }
        i = i + 1;
    }
    assert forall|j: int| !occurs_at(s@, pat@, j) by {
        if 0 <= j <= i {
        }
    }
    false
}

/// Whether the two character sequences are equal.
pub fn same_chars(a: &Vec<char>, b: &Vec<char>) -> (r: bool)
    ensures
        r == (a@ == b@),
{
    if a.len() != b.len() {
        return false;
    }
    let r = matches_at(a, 0, b);
    assert(a@.subrange(0, b@.len() as int) =~= a@);
    r
}


/// `s` with every occurrence of `from` replaced by `to`, the occurrences taken from left
/// to right without overlap, as `str::replace` does for a pattern that is not empty.
pub open spec fn replace_all(s: Seq<char>, from: Seq<char>, to: Seq<char>) -> Seq<char>
    decreases s.len(),
{
    if s.len() == 0 {
        seq![]
    } else if 0 < from.len() <= s.len() && s.take(from.len() as int) == from {
        to + replace_all(s.skip(from.len() as int), from, to)
    } else {
        seq![s[0]] + replace_all(s.drop_first(), from, to)
    }
}

/// `s` with every occurrence of the non-empty pattern `from` replaced by `to`.
pub fn replace_chars(s: &Vec<char>, from: &Vec<char>, to: &Vec<char>) -> (r: Vec<char>)
    requires
        from.len() > 0,
    ensures
        r@ == replace_all(s@, from@, to@),
{
    let mut out: Vec<char> = Vec::new();
    let mut i: usize = 0;
    assert(s@.skip(0) =~= s@);
    while i < s.len()
        invariant
            i <= s.len(),
            from.len() > 0,
            replace_all(s@, from@, to@) == out@ + replace_all(s@.skip(i as int), from@, to@),
        decreases s.len() - i,
    {
        let ghost rest = s@.skip(i as int);
        proof {
            lemma_skip_first(s@, i as int);
        }
        if matches_at(s, i, from) {
            assert(rest.take(from.len() as int) =~= s@.subrange(i as int, i + from.len()));
            assert(rest.skip(from.len() as int) =~= s@.skip(i + from.len()));
            push_all(&mut out, to);
            i = i + from.len();
        } else {
            proof {
                if from.len() <= rest.len() {
                    assert(rest.take(from.len() as int) =~= s@.subrange(
                        i as int,
                        i + from.len(),
                    ));
                }
            }
            out.push(s[i]);
            i = i + 1;
        }
    }
    assert(s@.skip(i as int) =~= Seq::<char>::empty());
    out
}

/// Where `from` does not occur in `s`, replacing it leaves `s` as it is.
pub proof fn lemma_replace_absent(s: Seq<char>, from: Seq<char>, to: Seq<char>)
    requires
        !contains(s, from),
    ensures
        replace_all(s, from, to) == s,
    decreases s.len(),
{
    if s.len() > 0 {
        if 0 < from.len() <= s.len() && s.take(from.len() as int) == from {
            assert(s.subrange(0, from.len() as int) =~= s.take(from.len() as int));
            assert(occurs_at(s, from, 0));
        } else {
            let t = s.drop_first();
            assert forall|j: int| !occurs_at(t, from, j) by {
                if occurs_at(t, from, j) {
                    assert(s.subrange(j + 1, j + 1 + from.len()) =~= t.subrange(j, j + from.len()));
                    assert(occurs_at(s, from, j + 1));
                }
            }
            lemma_replace_absent(t, from, to);
            assert(seq![s[0]] + t =~= s);
        }
    }
}

/// Appends `c` to `s` (std's `String::push`).
#[verifier::external_body]
fn push_char(s: &mut String, c: char)
    ensures
        final(s)@ == old(s)@.push(c),
{
    s.push(c);
}

/// The string made of the characters of `v`.
pub fn string_of(v: &Vec<char>) -> (s: String)
    ensures
        s@ == v@,
{
    let mut s = String::new();
    let mut i: usize = 0;
    while i < v.len()
        invariant
            i <= v.len(),
            s@ == v@.take(i as int),
        decreases v.len() - i,
    {
        push_char(&mut s, v[i]);
        i = i + 1;
        assert(s@ =~= v@.take(i as int));
    }
    assert(v@.take(i as int) =~= v@);
    s
}


/// `w` is a word: not empty, with no white space in it.
pub open spec fn is_word(w: Seq<char>) -> bool {
    w.len() > 0 && forall|k: int| 0 <= k < w.len() ==> !is_space(#[trigger] w[k])
}

proof fn lemma_word_len_prefix(s: Seq<char>)
    ensures
        word_len(s) <= s.len(),
        forall|k: int| 0 <= k < word_len(s) ==> !is_space(#[trigger] s[k]),
        word_len(s) < s.len() ==> is_space(s[word_len(s) as int]),
    decreases s.len(),
{
    if s.len() > 0 && !is_space(s[0]) {
        let t = s.drop_first();
        lemma_word_len_prefix(t);
        assert forall|k: int| 0 <= k < word_len(s) implies !is_space(#[trigger] s[k]) by {
            if k > 0 {
                assert(s[k] == t[k - 1]);
            }
        }
    }
}

proof fn lemma_word_len_concat(x: Seq<char>, z: Seq<char>)
    ensures
        word_len(x) < x.len() ==> word_len(x + z) == word_len(x),
        word_len(x) == x.len() ==> word_len(x + z) == x.len() + word_len(z),
    decreases x.len(),
{
    lemma_word_len_bound(x);
    if x.len() == 0 {
        assert(x + z =~= z);
    } else {
        assert((x + z)[0] == x[0]);
        if !is_space(x[0]) {
            assert((x + z).drop_first() =~= x.drop_first() + z);
            lemma_word_len_concat(x.drop_first(), z);
        }
    }
}

proof fn lemma_word_len_of_word(w: Seq<char>)
    requires
        forall|k: int| 0 <= k < w.len() ==> !is_space(#[trigger] w[k]),
    ensures
        word_len(w) == w.len(),
    decreases w.len(),
{
    if w.len() > 0 {
        let t = w.drop_first();
        assert forall|k: int| 0 <= k < t.len() implies !is_space(#[trigger] t[k]) by {
            assert(t[k] == w[k + 1]);
        }
        lemma_word_len_of_word(t);
    }
}

/// The words of a word are that word alone.
pub proof fn lemma_words_of_word(w: Seq<char>)
    requires
        is_word(w),
    ensures
        words(w) == seq![w],
{
    lemma_word_len_of_word(w);
    assert(!is_space(w[0]));
    assert(words(Seq::<char>::empty()) =~= Seq::<Seq<char>>::empty());
    assert(w.take(w.len() as int) =~= w);
    assert(w.skip(w.len() as int) =~= Seq::<char>::empty());
    assert(seq![w] + Seq::<Seq<char>>::empty() =~= seq![w]);
}

/// Every word that `words` yields is a word: not empty, without white space.
pub proof fn lemma_words_are_words(s: Seq<char>)
    ensures
        forall|i: int| 0 <= i < words(s).len() ==> is_word(#[trigger] words(s)[i]),
    decreases s.len(),
{
    if s.len() > 0 {
        if is_space(s[0]) {
            lemma_words_are_words(s.drop_first());
            assert(words(s) == words(s.drop_first()));
        } else {
            lemma_word_len_bound(s);
            lemma_word_len_prefix(s);
            let n = word_len(s) as int;
            let rest = s.skip(n);
            lemma_words_are_words(rest);
            let head = s.take(n);
            assert(is_word(head)) by {
                assert forall|k: int| 0 <= k < head.len() implies !is_space(#[trigger] head[k]) by {
                    assert(head[k] == s[k]);
                }
            }
            assert forall|i: int| 0 <= i < words(s).len() implies is_word(#[trigger] words(s)[i]) by {
                if i > 0 {
                    assert(words(s)[i] == words(rest)[i - 1]);
                }
            }
        }
    }
}

/// A white-space character splits a text: the words of `x`, the space and `y` are the words
/// of `x` followed by those of `y`.
pub proof fn lemma_words_split_at_space(x: Seq<char>, c: char, y: Seq<char>)
    requires
        is_space(c),
    ensures
        words(x + seq![c] + y) == words(x) + words(y),
    decreases x.len(),
{
    let s = x + seq![c] + y;
    if x.len() == 0 {
        assert(s.drop_first() =~= y);
        assert(words(x) + words(y) =~= words(y));
    } else if is_space(x[0]) {
        assert(s.drop_first() =~= x.drop_first() + seq![c] + y);
        lemma_words_split_at_space(x.drop_first(), c, y);
    } else {
        let z = seq![c] + y;
        assert(s =~= x + z);
        lemma_word_len_bound(x);
        lemma_word_len_concat(x, z);
        lemma_word_len_concat(z, Seq::<char>::empty());
        assert(word_len(z) == 0);
        let n = word_len(x) as int;
        assert(word_len(s) == n);
        assert(s.take(n) =~= x.take(n));
        let xr = x.skip(n);
        assert(s.skip(n) =~= xr + seq![c] + y);
        lemma_words_split_at_space(xr, c, y);
        assert(words(x) == seq![x.take(n)] + words(xr));
        assert(words(s) =~= words(x) + words(y));
    }
}

/// Words written out with single spaces between them split back into the same words.
pub proof fn lemma_words_of_spaced_join(ws: Seq<Seq<char>>)
    requires
        forall|i: int| 0 <= i < ws.len() ==> is_word(#[trigger] ws[i]),
    ensures
        words(join(ws, seq![' '])) == ws,
    decreases ws.len(),
{
    if ws.len() == 1 {
        lemma_words_of_word(ws[0]);
        assert(seq![ws[0]] =~= ws);
    } else if ws.len() > 1 {
        let init = ws.drop_last();
        assert forall|i: int| 0 <= i < init.len() implies is_word(#[trigger] init[i]) by {
            assert(init[i] == ws[i]);
        }
        lemma_words_of_spaced_join(init);
        lemma_words_of_word(ws.last());
        lemma_words_split_at_space(join(init, seq![' ']), ' ', ws.last());
        assert(init + seq![ws.last()] =~= ws);
    } else {
        assert(ws =~= Seq::<Seq<char>>::empty());
    }
}

/// Words joined by a separator without white space have no white space in them.
pub proof fn lemma_join_has_no_space(ws: Seq<Seq<char>>, sep: Seq<char>)
    requires
        forall|i: int| 0 <= i < ws.len() ==> is_word(#[trigger] ws[i]),
        forall|k: int| 0 <= k < sep.len() ==> !is_space(#[trigger] sep[k]),
    ensures
        forall|k: int| 0 <= k < join(ws, sep).len() ==> !is_space(#[trigger] join(ws, sep)[k]),
    decreases ws.len(),
{
    if ws.len() == 1 {
        assert(is_word(ws[0]));
    } else if ws.len() > 1 {
        let init = ws.drop_last();
        assert forall|i: int| 0 <= i < init.len() implies is_word(#[trigger] init[i]) by {
            assert(init[i] == ws[i]);
        }
        lemma_join_has_no_space(init, sep);
        let a = join(init, sep);
        let l = ws.last();
        assert(is_word(ws[ws.len() - 1]));
        let j = join(ws, sep);
        assert(j == a + sep + l);
        assert forall|k: int| 0 <= k < j.len() implies !is_space(#[trigger] j[k]) by {
            if k < a.len() {
                assert(j[k] == a[k]);
            } else if k < a.len() + sep.len() {
                assert(j[k] == sep[k - a.len()]);
            } else {
                assert(j[k] == l[k - a.len() - sep.len()]);
            }
        }
    }
}

/// A text without any words has none: the empty text, and a lone white-space character.
pub proof fn lemma_words_of_blank(c: char)
    requires
        is_space(c),
    ensures
        words(Seq::<char>::empty()) == Seq::<Seq<char>>::empty(),
        words(seq![c]) == Seq::<Seq<char>>::empty(),
{
    assert(seq![c][0] == c);
    assert(seq![c].drop_first() =~= Seq::<char>::empty());
    assert(words(seq![c]) == words(seq![c].drop_first()));
}

/// A character that the pattern does not hold splits the replacement: what stands before it
/// and what stands after it are replaced separately.
pub proof fn lemma_replace_splits_at(
    x: Seq<char>,
    c: char,
    y: Seq<char>,
    from: Seq<char>,
    to: Seq<char>,
)
    requires
        forall|k: int| 0 <= k < from.len() ==> from[k] != c,
    ensures
        replace_all(x + seq![c] + y, from, to) == replace_all(x, from, to) + seq![c]
            + replace_all(y, from, to),
    decreases x.len(),
{
    let z = seq![c] + y;
    let s = x + seq![c] + y;
    let n = from.len() as int;
    assert(s =~= x + z);
    if x.len() == 0 {
        assert(s =~= z);
        if 0 < n <= z.len() && z.take(n) == from {
            assert(z.take(n)[0] == c);
        }
        assert(z.drop_first() =~= y);
        assert(replace_all(x, from, to) =~= Seq::<char>::empty());
        assert(replace_all(s, from, to) =~= replace_all(x, from, to) + seq![c] + replace_all(
            y,
            from,
            to,
        ));
    } else if 0 < n <= s.len() && s.take(n) == from {
        if n <= x.len() {
            assert(x.take(n) =~= s.take(n));
            assert(s.skip(n) =~= x.skip(n) + seq![c] + y);
            lemma_replace_splits_at(x.skip(n), c, y, from, to);
            assert(replace_all(s, from, to) =~= replace_all(x, from, to) + seq![c] + replace_all(
                y,
                from,
                to,
            ));
        } else {
            assert(s.take(n)[x.len() as int] == c);
        }
    } else {
        if 0 < n <= x.len() && x.take(n) == from {
            assert(s.take(n) =~= x.take(n));
        }
        assert(s[0] == x[0]);
        assert(s.drop_first() =~= x.drop_first() + seq![c] + y);
        lemma_replace_splits_at(x.drop_first(), c, y, from, to);
        assert(replace_all(s, from, to) =~= replace_all(x, from, to) + seq![c] + replace_all(
            y,
            from,
            to,
        ));
    }
}

/// A text that is the pattern itself is replaced as a whole.
pub proof fn lemma_replace_whole(from: Seq<char>, to: Seq<char>)
    requires
        from.len() > 0,
    ensures
        replace_all(from, from, to) == to,
{
    assert(from.take(from.len() as int) =~= from);
    assert(from.skip(from.len() as int) =~= Seq::<char>::empty());
    assert(replace_all(Seq::<char>::empty(), from, to) =~= Seq::<char>::empty());
    assert(replace_all(from, from, to) == to + replace_all(from.skip(from.len() as int), from, to));
    assert(to + Seq::<char>::empty() =~= to);
}

/// A pattern whose first character does not occur in a text does not occur in it.
pub proof fn lemma_absent_without_first_char(s: Seq<char>, pat: Seq<char>)
    requires
        pat.len() > 0,
        forall|i: int| 0 <= i < s.len() ==> s[i] != pat[0],
    ensures
        !contains(s, pat),
{
    assert forall|i: int| !occurs_at(s, pat, i) by {
        if occurs_at(s, pat, i) {
            assert(s.subrange(i, i + pat.len())[0] == s[i]);
        }
    }
}

/// A pattern longer than a text does not occur in it.
pub proof fn lemma_absent_when_longer(s: Seq<char>, pat: Seq<char>)
    requires
        pat.len() > s.len(),
    ensures
        !contains(s, pat),
{
}

/// A text contains a pattern exactly when the pattern stands at some position of it.
pub proof fn lemma_contains_means_occurs_somewhere(s: Seq<char>, pat: Seq<char>, i: int)
    ensures
        0 <= i && i + pat.len() <= s.len() && s.subrange(i, i + pat.len()) == pat ==> contains(
            s,
            pat,
        ),
        contains(s, pat) ==> exists|j: int|
            0 <= j && j + pat.len() <= s.len() && #[trigger] s.subrange(j, j + pat.len()) == pat,
{
    if 0 <= i && i + pat.len() <= s.len() && s.subrange(i, i + pat.len()) == pat {
        assert(occurs_at(s, pat, i));
    }
    if contains(s, pat) {
        let j = choose|j: int| occurs_at(s, pat, j);
        assert(s.subrange(j, j + pat.len()) == pat);
    }
}

} // verus!
