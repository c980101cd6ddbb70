//! Character-level text utilities used by the scorers and caches.
use vstd::prelude::*;

verus! {

/// Unicode `White_Space`, the property that `char::is_whitespace` tests.
pub open spec fn is_ws(c: char) -> bool {
    ||| c == ' '
    ||| c == '\t'
    ||| c == '\n'
    ||| c == '\x0B'
    ||| c == '\x0C'
    ||| c == '\r'
    ||| c == '\u{85}'
    ||| c == '\u{A0}'
    ||| c == '\u{1680}'
    ||| ('\u{2000}' <= c && c <= '\u{200A}')
    ||| c == '\u{2028}'
    ||| c == '\u{2029}'
    ||| c == '\u{202F}'
    ||| c == '\u{205F}'
    ||| c == '\u{3000}'
}

/// Executable `is_ws`.
pub fn char_is_ws(c: char) -> (r: bool)
    ensures
        r == is_ws(c),
{
    c == ' ' || c == '\t' || c == '\n' || c == '\x0B' || c == '\x0C' || c == '\r' || c == '\u{85}'
        || c == '\u{A0}' || c == '\u{1680}' || ('\u{2000}' <= c && c <= '\u{200A}') || c
        == '\u{2028}' || c == '\u{2029}' || c == '\u{202F}' || c == '\u{205F}' || c == '\u{3000}'
}

/// The characters of a string slice, in order.
pub fn chars_of(s: &str) -> (v: Vec<char>)
    ensures
        v@ == s@,
{
    let mut v: Vec<char> = Vec::new();
    for c in it: s.chars()
        invariant
            v@ == it.seq().take(it.index() as int),
            it.seq() == s@,
    {
        v.push(c);
    }
    v
}

/// How many whitespace-separated words `s` holds, as `split_whitespace().count()` counts:
/// each word is a maximal run of characters that are not whitespace.
pub open spec fn word_count(s: Seq<char>) -> nat
    decreases s.len(),
{
    if s.len() == 0 {
        0
    } else {
        word_count(s.drop_last()) + if !is_ws(s.last()) && (s.len() == 1 || is_ws(s[s.len() - 2])) {
            1nat
        } else {
            0nat
        }
    }
}

/// A word followed by a whitespace character: the whitespace adds no word.
proof fn lemma_word_count_push_ws(s: Seq<char>, c: char)
    requires
        is_ws(c),
    ensures
        word_count(s.push(c)) == word_count(s),
{
    assert(s.push(c).drop_last() =~= s);
}

/// Text joined around a whitespace character has the words of both sides.
pub proof fn law_word_count_adds_across_whitespace(a: Seq<char>, c: char, b: Seq<char>)
    requires
        is_ws(c),
    ensures
        word_count(a + seq![c] + b) == word_count(a) + word_count(b),
    decreases b.len(),
{
    let ac = a + seq![c];
    if b.len() == 0 {
        assert(a + seq![c] + b =~= a.push(c));
        lemma_word_count_push_ws(a, c);
    } else {
        let bp = b.drop_last();
        law_word_count_adds_across_whitespace(a, c, bp);
        let j = ac + b;
        assert(j.drop_last() =~= ac + bp);
        assert(j.last() == b.last());
        assert(j.len() >= 2);
        if bp.len() == 0 {
            assert(j[j.len() - 2] == c);
        } else {
            assert(j[j.len() - 2] == bp.last());
            assert(b[b.len() - 2] == bp.last());
        }
        assert(a + seq![c] + b =~= j);
    }
}

/// A run of characters none of which is whitespace is one word.
pub proof fn law_a_run_of_letters_is_one_word(w: Seq<char>)
    requires
        w.len() > 0,
        forall|i: int| 0 <= i < w.len() ==> !is_ws(#[trigger] w[i]),
    ensures
        word_count(w) == 1,
    decreases w.len(),
{
    assert(!is_ws(w[w.len() - 1]));
    if w.len() == 1 {
        assert(word_count(w.drop_last()) == 0);
    } else {
        let p = w.drop_last();
        assert forall|i: int| 0 <= i < p.len() implies !is_ws(#[trigger] p[i]) by {
            assert(p[i] == w[i]);
        }
        law_a_run_of_letters_is_one_word(p);
        assert(!is_ws(w[w.len() - 2]));
    }
}

/// Whitespace alone holds no word.
pub proof fn law_whitespace_has_no_word(s: Seq<char>)
    requires
        forall|i: int| 0 <= i < s.len() ==> is_ws(#[trigger] s[i]),
    ensures
        word_count(s) == 0,
    decreases s.len(),
{
    if s.len() > 0 {
        let p = s.drop_last();
        assert forall|i: int| 0 <= i < p.len() implies is_ws(#[trigger] p[i]) by {
            assert(p[i] == s[i]);
        }
        law_whitespace_has_no_word(p);
        assert(is_ws(s[s.len() - 1]));
    }
}

/// Number of whitespace-separated words in `s`.
pub fn count_words(s: &Vec<char>) -> (n: usize)
    ensures
        n == word_count(s@),
{
    let mut n: usize = 0;
    let mut i: usize = 0;
    while i < s.len()
        invariant
            i <= s.len(),
            n == word_count(s@.take(i as int)),
            n <= i,
        decreases s.len() - i,
    {
        assert(s@.take(i + 1).drop_last() =~= s@.take(i as int));
        if !char_is_ws(s[i]) && (i == 0 || char_is_ws(s[i - 1])) {
            n = n + 1;
        }
        i = i + 1;
    }
    assert(s@.take(s.len() as int) =~= s@);
    n
}

/// Non-overlapping occurrences of `pat` in `s`, found from left to right as
/// `str::matches` finds them.
pub open spec fn occurrences(s: Seq<char>, pat: Seq<char>) -> nat
    decreases s.len(),
{
    if pat.len() == 0 || s.len() < pat.len() {
        0
    } else if s.take(pat.len() as int) == pat {
        1 + occurrences(s.skip(pat.len() as int), pat)
    } else {
        occurrences(s.skip(1), pat)
    }
}

/// Each occurrence of `pat` at the front counts once, and the count goes on after it.
pub proof fn law_occurrence_at_front_counts_once(pat: Seq<char>, s: Seq<char>)
    requires
        pat.len() > 0,
    ensures
        occurrences(pat + s, pat) == 1 + occurrences(s, pat),
{
    assert((pat + s).take(pat.len() as int) =~= pat);
    assert((pat + s).skip(pat.len() as int) =~= s);
}

/// Text that does not start with `pat` has the occurrences of its rest after the first
/// character, and text shorter than `pat` has none.
pub proof fn law_occurrences_skip_a_mismatch(pat: Seq<char>, s: Seq<char>)
    requires
        pat.len() > 0,
    ensures
        s.len() < pat.len() ==> occurrences(s, pat) == 0,
        s.len() >= pat.len() && s.take(pat.len() as int) != pat ==> occurrences(s, pat)
            == occurrences(s.skip(1), pat),
{
}

/// The occurrences of a single character are the positions that hold it.
pub proof fn law_char_occurrences_are_its_positions(s: Seq<char>, c: char)
    ensures
        occurrences(s, seq![c]) == s.filter(|x: char| x == c).len(),
    decreases s.len(),
{
    let pred = |x: char| x == c;
    if s.len() == 0 {
        reveal(Seq::filter);
    } else {
        let head = seq![s[0]];
        let tail = s.skip(1);
        law_char_occurrences_are_its_positions(tail, c);
        assert(s =~= head + tail);
        Seq::filter_distributes_over_add(head, tail, pred);
        reveal_with_fuel(Seq::filter, 2);
        assert(head.drop_last() =~= Seq::<char>::empty());
        assert(s.take(1) =~= head);
        if s[0] == c {
            assert(head.filter(pred) =~= seq![s[0]]);
            assert(s.take(1) == seq![c]);
        } else {
            assert(head.filter(pred) =~= Seq::<char>::empty());
            assert(s.take(1) != seq![c]) by {
                assert(s.take(1)[0] != seq![c][0]);
            }
        }
    }
}

/// Whether `pat` occurs in `s` at position `at`.
pub fn matches_at(s: &Vec<char>, pat: &Vec<char>, at: usize) -> (r: bool)
    requires
        at + pat.len() <= s.len(),
    ensures
        r == (s@.skip(at as int).take(pat.len() as int) == pat@),
{
    let mut j: usize = 0;
    while j < pat.len()
        invariant
            j <= pat.len(),
            at + pat.len() <= s.len(),
            forall|k: int| 0 <= k < j ==> s@[at + k] == pat@[k],
        decreases pat.len() - j,
    {
        if s[at + j] != pat[j] {
            assert(s@.skip(at as int).take(pat.len() as int)[j as int] != pat@[j as int]);
            return false;
        }
        j = j + 1;
    }
    assert(s@.skip(at as int).take(pat.len() as int) =~= pat@);
    true
}

/// Number of non-overlapping occurrences of a non-empty `pat` in `s`.
pub fn count_occurrences(s: &Vec<char>, pat: &Vec<char>) -> (n: usize)
    requires
        pat.len() > 0,
    ensures
        n == occurrences(s@, pat@),
{
    let mut n: usize = 0;
    let mut i: usize = 0;
    assert(s@.skip(0) =~= s@);
    while pat.len() <= s.len() - i
        invariant
            i <= s.len(),
            pat.len() > 0,
            n + occurrences(s@.skip(i as int), pat@) == occurrences(s@, pat@),
            n <= i,
        decreases s.len() - i,
    {
        let ghost rest = s@.skip(i as int);
        if matches_at(s, pat, i) {
            assert(rest.skip(pat.len() as int) =~= s@.skip(i + pat.len()));
            n = n + 1;
            i = i + pat.len();
        } else {
            assert(rest.skip(1) =~= s@.skip(i + 1));
            i = i + 1;
        }
    }
    n
}

/// The decimal digit `d`.
pub open spec fn digit_text(d: nat) -> Seq<char> {
    if d == 0 {
        "0"@
    } else if d == 1 {
        "1"@
    } else if d == 2 {
        "2"@
    } else if d == 3 {
        "3"@
    } else if d == 4 {
        "4"@
    } else if d == 5 {
        "5"@
    } else if d == 6 {
        "6"@
    } else if d == 7 {
        "7"@
    } else if d == 8 {
        "8"@
    } else {
        "9"@
    }
}

/// The decimal numeral of `n`, without leading zeros.
pub open spec fn decimal(n: nat) -> Seq<char>
    decreases n,
{
    if n < 10 {
        digit_text(n)
    } else {
        decimal(n / 10) + digit_text(n % 10)
    }
}

fn digit_str(d: u64) -> (r: &'static str)
    requires
        d < 10,
    ensures
        r@ == digit_text(d as nat),
{
    match d {
        0 => "0",
        1 => "1",
        2 => "2",
        3 => "3",
        4 => "4",
        5 => "5",
        6 => "6",
        7 => "7",
        8 => "8",
        _ => "9",
    }
}

/// The decimal numeral of `n`, as `to_string` writes it.
pub fn decimal_string(n: u64) -> (r: String)
    ensures
        r@ == decimal(n as nat),
    decreases n,
{
    if n < 10 {
        String::from_str(digit_str(n))
    } else {
        let mut r = decimal_string(n / 10);
        r.append(digit_str(n % 10));
        r
    }
}

/// The whitespace-separated words of `s`, in order, as `split_whitespace` yields them.
pub open spec fn words(s: Seq<char>) -> Seq<Seq<char>>
    decreases s.len(),
{
    if s.len() == 0 {
        Seq::empty()
    } else {
        let w = words(s.drop_last());
        let c = s.last();
        if is_ws(c) {
            w
        } else if s.len() == 1 || is_ws(s[s.len() - 2]) {
            w.push(seq![c])
        } else {
            w.update(w.len() - 1, w.last().push(c))
        }
    }
}

/// A word always follows a non-whitespace character: at the end of `s` there is a last word
/// to extend exactly when the last character is not whitespace.
proof fn lemma_words_nonempty(s: Seq<char>)
    ensures
        s.len() > 0 && !is_ws(s.last()) ==> words(s).len() > 0,
    decreases s.len(),
{
    if s.len() > 0 {
        lemma_words_nonempty(s.drop_last());
    }
}

/// `word_count` counts the words `split_whitespace` yields.
pub proof fn law_word_count_counts_words(s: Seq<char>)
    ensures
        word_count(s) == words(s).len(),
    decreases s.len(),
{
    if s.len() > 0 {
        law_word_count_counts_words(s.drop_last());
        lemma_words_nonempty(s.drop_last());
        if s.len() > 1 {
            assert(s.drop_last().last() == s[s.len() - 2]);
        }
    }
}

/// The whitespace-separated words of `s`.
pub fn split_words(s: &Vec<char>) -> (r: Vec<Vec<char>>)
    ensures
        r@.len() == words(s@).len(),
        forall|i: int| 0 <= i < r@.len() ==> #[trigger] r@[i]@ == words(s@)[i],
{
    let mut r: Vec<Vec<char>> = Vec::new();
    let mut i: usize = 0;
    while i < s.len()
        invariant
            i <= s.len(),
            r@.len() == words(s@.take(i as int)).len(),
            forall|j: int| 0 <= j < r@.len() ==> #[trigger] r@[j]@ == words(s@.take(i as int))[j],
        decreases s.len() - i,
    {
        let ghost pre = s@.take(i as int);
        let ghost next = s@.take(i + 1);
        assert(next.drop_last() =~= pre);
        proof {
            lemma_words_nonempty(pre);
        }
        let c = s[i];
        if char_is_ws(c) {
        } else if i == 0 || char_is_ws(s[i - 1]) {
            let mut w: Vec<char> = Vec::new();
            w.push(c);
            r.push(w);
            assert(w@ =~= seq![c]);
        } else {
            let mut w = r.pop().unwrap();
            w.push(c);
            r.push(w);
            assert(r@.len() == words(next).len());
        }
        i = i + 1;
    }
    assert(s@.take(s.len() as int) =~= s@);
    r
}

/// Whether two character sequences are equal.
pub fn chars_equal(a: &Vec<char>, b: &Vec<char>) -> (r: bool)
    ensures
        r == (a@ == b@),
{
    if a.len() != b.len() {
        return false;
    }
    for i in 0..a.len()
        invariant
            a@.len() == b@.len(),
            forall|j: int| 0 <= j < i ==> a@[j] == b@[j],
    {
        if a[i] != b[i] {
            return false;
        }
    }
    assert(a@ =~= b@);
    true
}

/// The lowercase hexadecimal digit of `d`.
pub open spec fn hex_digit_text(d: nat) -> Seq<char> {
    if d < 10 {
        digit_text(d)
    } else if d == 10 {
        "a"@
    } else if d == 11 {
        "b"@
    } else if d == 12 {
        "c"@
    } else if d == 13 {
        "d"@
    } else if d == 14 {
        "e"@
    } else {
        "f"@
    }
}

/// Bytes as lowercase hexadecimal, two digits each.
pub open spec fn hex_lower(b: Seq<u8>) -> Seq<char>
    decreases b.len(),
{
    if b.len() == 0 {
        Seq::empty()
    } else {
        hex_lower(b.drop_last()) + hex_digit_text((b.last() / 16) as nat) + hex_digit_text(
            (b.last() % 16) as nat,
        )
    }
}

/// Whether `c` is a lowercase hexadecimal digit.
pub open spec fn is_hex_lower_digit(c: char) -> bool {
    ('0' <= c && c <= '9') || ('a' <= c && c <= 'f')
}

/// Each hexadecimal digit is written as one lowercase character.
pub proof fn lemma_hex_digit(d: nat)
    requires
        d < 16,
    ensures
        hex_digit_text(d).len() == 1,
        is_hex_lower_digit(hex_digit_text(d)[0]),
{
    reveal_strlit("0");
    reveal_strlit("1");
    reveal_strlit("2");
    reveal_strlit("3");
    reveal_strlit("4");
    reveal_strlit("5");
    reveal_strlit("6");
    reveal_strlit("7");
    reveal_strlit("8");
    reveal_strlit("9");
    reveal_strlit("a");
    reveal_strlit("b");
    reveal_strlit("c");
    reveal_strlit("d");
    reveal_strlit("e");
    reveal_strlit("f");
}

/// Bytes in hexadecimal take two lowercase hexadecimal digits each.
pub proof fn lemma_hex_lower_shape(b: Seq<u8>)
    ensures
        hex_lower(b).len() == 2 * b.len(),
        forall|i: int| 0 <= i < hex_lower(b).len() ==> is_hex_lower_digit(#[trigger] hex_lower(b)[i]),
    decreases b.len(),
{
    if b.len() > 0 {
        let p = b.drop_last();
        lemma_hex_lower_shape(p);
        let hi = (b.last() / 16) as nat;
        let lo = (b.last() % 16) as nat;
        lemma_hex_digit(hi);
        lemma_hex_digit(lo);
        let h = hex_lower(b);
        assert(h == hex_lower(p) + hex_digit_text(hi) + hex_digit_text(lo));
        assert forall|i: int| 0 <= i < h.len() implies is_hex_lower_digit(#[trigger] h[i]) by {
            if i < hex_lower(p).len() {
                assert(h[i] == hex_lower(p)[i]);
            } else if i == hex_lower(p).len() {
                assert(h[i] == hex_digit_text(hi)[0]);
            } else {
                assert(h[i] == hex_digit_text(lo)[0]);
            }
        }
    }
}

fn hex_digit_str(d: u8) -> (r: &'static str)
    requires
        d < 16,
    ensures
        r@ == hex_digit_text(d as nat),
{
    match d {
        10 => "a",
        11 => "b",
        12 => "c",
        13 => "d",
        14 => "e",
        15 => "f",
        _ => digit_str(d as u64),
    }
}

/// Bytes as lowercase hexadecimal, as `format!("{:x}", ..)` writes a digest.
pub fn to_hex_lower(b: &Vec<u8>) -> (r: String)
    ensures
        r@ == hex_lower(b@),
{
    let mut r = String::new();
    for i in 0..b.len()
        invariant
            r@ == hex_lower(b@.take(i as int)),
    {
        assert(b@.take(i + 1).drop_last() =~= b@.take(i as int));
        r.append(hex_digit_str(b[i] / 16));
        r.append(hex_digit_str(b[i] % 16));
    }
    assert(b@.take(b.len() as int) =~= b@);
    r
}

} // verus!
