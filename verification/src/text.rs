//! Character-level text handling shared by the command parser, the
//! process records and the request bridge: whitespace, word splitting,
//! trimming, ASCII case folding, and decimal numbers.
use vstd::prelude::*;

verus! {

/// Unicode `White_Space`: the characters that `char::is_whitespace` accepts.
pub open spec fn is_ws(c: char) -> bool {
    ||| c == '\t'
    ||| c == '\n'
    ||| c == '\x0B'
    ||| c == '\x0C'
    ||| c == '\r'
    ||| c == ' '
    ||| c == '\u{85}'
    ||| c == '\u{A0}'
    ||| c == '\u{1680}'
    ||| ('\u{2000}' <= c && c <= '\u{200A}')
    ||| c == '\u{2028}'
    ||| c == '\u{2029}'
    ||| c == '\u{202F}'
    ||| c == '\u{205F}'
    ||| c == '\u{3000}'
}

/// Whether `c` is a whitespace character.
pub fn is_whitespace(c: char) -> (r: bool)
    ensures
        r == is_ws(c),
{
    c == '\t' || c == '\n' || c == '\x0B' || c == '\x0C' || c == '\r' || c == ' ' || c
        == '\u{85}' || c == '\u{A0}' || c == '\u{1680}' || ('\u{2000}' <= c && c <= '\u{200A}')
        || c == '\u{2028}' || c == '\u{2029}' || c == '\u{202F}' || c == '\u{205F}' || c
        == '\u{3000}'
}

/// The views of a sequence of strings.
pub open spec fn views(v: Seq<String>) -> Seq<Seq<char>> {
    v.map_values(|s: String| s@)
}

/// Left-to-right reading of `s` into words: the words already closed, and
/// the run of non-whitespace characters at the end of `s` (possibly empty).
pub open spec fn word_scan(s: Seq<char>) -> (Seq<Seq<char>>, Seq<char>)
    decreases s.len(),
{
    if s.len() == 0 {
        (seq![], seq![])
    } else {
        let (done, cur) = word_scan(s.drop_last());
        let c = s.last();
        if is_ws(c) {
            if cur.len() == 0 {
                (done, cur)
            } else {
                (done.push(cur), seq![])
            }
        } else {
            (done, cur.push(c))
        }
    }
}

/// The words of `s`, as `str::split_whitespace` yields them: the maximal
/// runs of non-whitespace characters, in order.
pub open spec fn words(s: Seq<char>) -> Seq<Seq<char>> {
    let (done, cur) = word_scan(s);
    if cur.len() == 0 {
        done
    } else {
        done.push(cur)
    }
}

/// A word: a non-empty run without whitespace.
pub open spec fn is_word(w: Seq<char>) -> bool {
    w.len() > 0 && forall|i: int| 0 <= i < w.len() ==> !is_ws(#[trigger] w[i])
}

/// Words joined by single spaces.
pub open spec fn join_words(ws: Seq<Seq<char>>) -> Seq<char>
    decreases ws.len(),
{
    if ws.len() == 0 {
        seq![]
    } else if ws.len() == 1 {
        ws[0]
    } else {
        join_words(ws.drop_last()) + seq![' '] + ws.last()
    }
}

/// The word at position `i`, or the empty word when there are fewer words.
pub open spec fn word_at(ws: Seq<Seq<char>>, i: int) -> Seq<char> {
    if 0 <= i < ws.len() {
        ws[i]
    } else {
        seq![]
    }
}

/// The words after the first `n`.
pub open spec fn words_after(ws: Seq<Seq<char>>, n: int) -> Seq<Seq<char>> {
    if n <= ws.len() {
        ws.skip(n)
    } else {
        seq![]
    }
}

/// Appends one character (std's `String::push`).
#[verifier::external_body]
pub(crate) fn push_char(s: &mut String, c: char)
    ensures
        final(s)@ == old(s)@.push(c),
{
    s.push(c);
}

/// Splits `s` into its words, as `str::split_whitespace` does.
pub fn split_words(s: &str) -> (ws: Vec<String>)
    ensures
        views(ws@) == words(s@),
{
    broadcast use vstd::string::group_string_axioms;

    let mut done: Vec<String> = Vec::new();
    let mut cur = String::new();
    for c in it: s.chars()
        invariant
            it.seq() == s@,
            (views(done@), cur@) == word_scan(s@.take(it.index() as int)),
    {
        let ghost i = it.index() as int;
        proof {
            assert(s@.take(i + 1).drop_last() == s@.take(i));
            assert(s@.take(i + 1).last() == c);
        }
        if is_whitespace(c) {
            if !cur.as_str().is_empty() {
                let ghost before = done@;
                let w = cur;
                done.push(w);
                cur = String::new();
                proof {
                    assert(views(done@) =~= views(before).push(w@));
                }
            }
        } else {
            push_char(&mut cur, c);
        }
    }
    proof {
        assert(s@.take(s@.len() as int) == s@);
    }
    if !cur.as_str().is_empty() {
        let ghost before = done@;
        done.push(cur);
        proof {
            assert(views(done@) =~= views(before).push(cur@));
        }
    }
    done
}

} // verus!

verus! {

/// Everything `word_scan` has closed is a word, and the open run holds no
/// whitespace.
proof fn lemma_scan_words(s: Seq<char>)
    ensures
        forall|i: int| 0 <= i < word_scan(s).0.len() ==> is_word(#[trigger] word_scan(s).0[i]),
        forall|i: int| 0 <= i < word_scan(s).1.len() ==> !is_ws(#[trigger] word_scan(s).1[i]),
    decreases s.len(),
{
    if s.len() > 0 {
        lemma_scan_words(s.drop_last());
        let (done, cur) = word_scan(s.drop_last());
        let c = s.last();
        if !is_ws(c) {
            assert forall|i: int| 0 <= i < cur.push(c).len() implies !is_ws(
                #[trigger] cur.push(c)[i],
            ) by {
                if i < cur.len() {
                    assert(cur.push(c)[i] == cur[i]);
                }
            }
        }
    }
}

/// Splitting yields words only: each is non-empty and holds no whitespace.
pub proof fn lemma_words_are_words(s: Seq<char>)
    ensures
        forall|i: int| 0 <= i < words(s).len() ==> is_word(#[trigger] words(s)[i]),
{
    lemma_scan_words(s);
    let (done, cur) = word_scan(s);
    if cur.len() > 0 {
        assert forall|i: int| 0 <= i < words(s).len() implies is_word(#[trigger] words(s)[i]) by {
            if i < done.len() {
                assert(words(s)[i] == done[i]);
            } else {
                assert(words(s)[i] == cur);
            }
        }
    }
}

/// Reading a word after a point where no run is open leaves that word open.
proof fn lemma_scan_append_word(s: Seq<char>, w: Seq<char>)
    requires
        word_scan(s).1.len() == 0,
        forall|i: int| 0 <= i < w.len() ==> !is_ws(#[trigger] w[i]),
    ensures
        word_scan(s + w) == (word_scan(s).0, w),
    decreases w.len(),
{
    if w.len() == 0 {
        assert(s + w =~= s);
    } else {
        let w0 = w.drop_last();
        assert forall|i: int| 0 <= i < w0.len() implies !is_ws(#[trigger] w0[i]) by {
            assert(w0[i] == w[i]);
        }
        lemma_scan_append_word(s, w0);
        assert((s + w).drop_last() =~= s + w0);
        assert((s + w).last() == w.last());
        assert(w0.push(w.last()) =~= w);
    }
}

/// A space closes whatever run is open.
proof fn lemma_scan_space(s: Seq<char>)
    ensures
        word_scan(s + seq![' ']) == (words(s), Seq::<char>::empty()),
{
    let t = s + seq![' '];
    assert(t.drop_last() =~= s);
    assert(t.last() == ' ');
}

/// Joining words with single spaces and splitting again gives back the
/// same words.
pub proof fn lemma_split_join(ws: Seq<Seq<char>>)
    requires
        forall|i: int| 0 <= i < ws.len() ==> is_word(#[trigger] ws[i]),
    ensures
        words(join_words(ws)) == ws,
    decreases ws.len(),
{
    if ws.len() == 0 {
        assert(words(join_words(ws)) =~= ws);
    } else if ws.len() == 1 {
        let w = ws[0];
        assert(is_word(w));
        lemma_scan_append_word(Seq::<char>::empty(), w);
        assert(Seq::<char>::empty() + w =~= w);
        assert(words(w) =~= ws);
    } else {
        let front = ws.drop_last();
        let w = ws.last();
        assert forall|i: int| 0 <= i < front.len() implies is_word(#[trigger] front[i]) by {
            assert(front[i] == ws[i]);
        }
        assert(is_word(ws[ws.len() - 1]));
        lemma_split_join(front);
        let head = join_words(front) + seq![' '];
        lemma_scan_space(join_words(front));
        lemma_scan_append_word(head, w);
        assert(join_words(ws) == head + w);
        assert(front.push(w) =~= ws);
    }
}

} // verus!

verus! {

/// The character of a decimal digit.
pub open spec fn digit_char(d: nat) -> char {
    ((48 + d) as u32) as char
}

/// The decimal representation of `n`, as `Display` writes it for integers.
pub open spec fn decimal(n: nat) -> Seq<char>
    decreases n,
{
    if n < 10 {
        seq![digit_char(n)]
    } else {
        decimal(n / 10).push(digit_char(n % 10))
    }
}

/// Appends the decimal representation of `n` to `s`.
pub(crate) fn push_decimal(s: &mut String, n: u64)
    ensures
        final(s)@ == old(s)@ + decimal(n as nat),
    decreases n,
{
    if n >= 10 {
        push_decimal(s, n / 10);
    }
    let d: u8 = (n % 10) as u8;
    push_char(s, (48u8 + d) as char);
    assert(s@ =~= old(s)@ + decimal(n as nat));
}

/// The decimal representation of `n`.
pub fn decimal_string(n: u64) -> (s: String)
    ensures
        s@ == decimal(n as nat),
{
    let mut s = String::new();
    push_decimal(&mut s, n);
    proof {
        assert(s@ =~= decimal(n as nat));
    }
    s
}

/// Appends `t` to `s`.
pub(crate) fn push_str(s: &mut String, t: &str)
    ensures
        final(s)@ == old(s)@ + t@,
{
    s.append(t);
}

} // verus!

verus! {

/// `s` without its leading whitespace.
pub open spec fn trim_start(s: Seq<char>) -> Seq<char>
    decreases s.len(),
{
    if s.len() > 0 && is_ws(s[0]) {
        trim_start(s.drop_first())
    } else {
        s
    }
}

/// `s` without its trailing whitespace.
pub open spec fn trim_end(s: Seq<char>) -> Seq<char>
    decreases s.len(),
{
    if s.len() > 0 && is_ws(s.last()) {
        trim_end(s.drop_last())
    } else {
        s
    }
}

/// `s` without leading and trailing whitespace, as `str::trim` gives it.
pub open spec fn trim(s: Seq<char>) -> Seq<char> {
    trim_end(trim_start(s))
}

/// The characters of `s`.
pub(crate) fn chars_of(s: &str) -> (v: Vec<char>)
    ensures
        v@ == s@,
{
    broadcast use vstd::string::group_string_axioms;

    let mut v: Vec<char> = Vec::new();
    for c in it: s.chars()
        invariant
            v@ == it.seq().take(it.index() as int),
            it.seq() == s@,
    {
        v.push(c);
    }
    v
}

/// The bounds `(a, b)` of the trimmed part of `v`: `v[a..b]` is `trim(v)`.
pub(crate) fn trim_bounds(v: &Vec<char>) -> (r: (usize, usize))
    ensures
        r.0 <= r.1 <= v@.len(),
        v@.subrange(r.0 as int, r.1 as int) == trim(v@),
{
    let n = v.len();
    let mut a: usize = 0;
    assert(v@.subrange(0, n as int) =~= v@);
    while a < n && is_whitespace(v[a])
        invariant
            a <= n == v@.len(),
            trim_start(v@) == trim_start(v@.subrange(a as int, n as int)),
        decreases n - a,
    {
        assert(v@.subrange(a as int, n as int).drop_first() =~= v@.subrange(a + 1, n as int));
        a = a + 1;
    }
    assert(trim_start(v@) == v@.subrange(a as int, n as int));
    let mut b: usize = n;
    while b > a && is_whitespace(v[b - 1])
        invariant
            a <= b <= n == v@.len(),
            trim(v@) == trim_end(v@.subrange(a as int, b as int)),
        decreases b,
    {
        assert(v@.subrange(a as int, b as int).drop_last() =~= v@.subrange(a as int, b - 1));
        b = b - 1;
    }
    (a, b)
}

/// The characters `v[a..b]` as a string.
pub(crate) fn string_of(v: &Vec<char>, a: usize, b: usize) -> (s: String)
    requires
        a <= b <= v@.len(),
    ensures
        s@ == v@.subrange(a as int, b as int),
{
    let mut s = String::new();
    let mut i = a;
    while i < b
        invariant
            a <= i <= b <= v@.len(),
            s@ == v@.subrange(a as int, i as int),
        decreases b - i,
    {
        push_char(&mut s, v[i]);
        assert(s@ =~= v@.subrange(a as int, i + 1));
        i = i + 1;
    }
    s
}

/// Whether `c` is an ASCII digit.
pub open spec fn is_digit(c: char) -> bool {
    '0' <= c && c <= '9'
}

/// The value of a run of decimal digits.
pub open spec fn digits_value(s: Seq<char>) -> nat
    decreases s.len(),
{
    if s.len() == 0 {
        0
    } else {
        digits_value(s.drop_last()) * 10 + ((s.last() as u32) - 48) as nat
    }
}

/// The digits part of a number: `s` without one leading `+`.
pub open spec fn unsigned_body(s: Seq<char>) -> Seq<char> {
    if s.len() > 0 && s[0] == '+' {
        s.drop_first()
    } else {
        s
    }
}

/// `s` read as an unsigned 64-bit number, as `str::parse::<u64>` reads it:
/// an optional `+`, then one or more decimal digits whose value fits.
pub open spec fn parse_u64_spec(s: Seq<char>) -> Option<u64> {
    let body = unsigned_body(s);
    if body.len() > 0 && (forall|i: int| 0 <= i < body.len() ==> is_digit(#[trigger] body[i]))
        && digits_value(body) <= u64::MAX {
        Some(digits_value(body) as u64)
    } else {
        None
    }
}

/// A run of digits is worth at least as much as any of its prefixes.
proof fn lemma_digits_value_prefix(s: Seq<char>, k: int)
    requires
        0 <= k <= s.len(),
        forall|i: int| 0 <= i < s.len() ==> is_digit(#[trigger] s[i]),
    ensures
        digits_value(s.take(k)) <= digits_value(s),
    decreases s.len(),
{
    if k < s.len() {
        let t = s.drop_last();
        assert forall|i: int| 0 <= i < t.len() implies is_digit(#[trigger] t[i]) by {
            assert(t[i] == s[i]);
        }
        lemma_digits_value_prefix(t, k);
        assert(t.take(k) =~= s.take(k));
    } else {
        assert(s.take(k) =~= s);
    }
}

/// Reads `v[a..b]` as an unsigned 64-bit number.
pub(crate) fn parse_u64_in(v: &Vec<char>, a: usize, b: usize) -> (r: Option<u64>)
    requires
        a <= b <= v@.len(),
    ensures
        r == parse_u64_spec(v@.subrange(a as int, b as int)),
{
    let ghost s = v@.subrange(a as int, b as int);
    let mut start = a;
    if a < b && v[a] == '+' {
        start = a + 1;
    }
    let ghost body = v@.subrange(start as int, b as int);
    assert(body == unsigned_body(s)) by {
        if a < b && v@[a as int] == '+' {
            assert(s.drop_first() =~= body);
        } else {
            assert(s =~= body);
        }
    }
    if start == b {
        return None;
    }
    let mut value: u64 = 0;
    let mut i = start;
    while i < b
        invariant
            start <= i <= b <= v@.len(),
            start < b,
            s == v@.subrange(a as int, b as int),
            body == v@.subrange(start as int, b as int),
            body == unsigned_body(s),
            forall|j: int| 0 <= j < i - start ==> is_digit(#[trigger] body[j]),
            value as nat == digits_value(body.take(i - start)),
        decreases b - i,
    {
        let c = v[i];
        if !('0' <= c && c <= '9') {
            assert(!is_digit(body[i - start]));
            return None;
        }
        let d: u64 = ((c as u32) - 48) as u64;
        assert(body.take(i - start + 1).drop_last() =~= body.take(i - start));
        assert(body.take(i - start + 1).last() == c);
        match value.checked_mul(10) {
            Some(m) => match m.checked_add(d) {
                Some(nv) => {
                    value = nv;
                },
                None => {
                    proof {
                        if forall|j: int| 0 <= j < body.len() ==> is_digit(#[trigger] body[j]) {
                            lemma_digits_value_prefix(body, i - start + 1);
                        }
                    }
                    return None;
                },
            },
            None => {
                proof {
                    if forall|j: int| 0 <= j < body.len() ==> is_digit(#[trigger] body[j]) {
                        lemma_digits_value_prefix(body, i - start + 1);
                    }
                }
                return None;
            },
        }
        i = i + 1;
    }
    assert(body.take(b - start) =~= body);
    Some(value)
}

/// Reads `s` as an unsigned 64-bit number, as `str::parse::<u64>` does.
pub fn parse_u64(s: &str) -> (r: Option<u64>)
    ensures
        r == parse_u64_spec(s@),
{
    let v = chars_of(s);
    let r = parse_u64_in(&v, 0, v.len());
    assert(v@.subrange(0, v@.len() as int) =~= s@);
    r
}

} // verus!

verus! {

/// A decimal representation consists of digits only and reads back as the
/// number it represents.
pub proof fn lemma_decimal_reads_back(n: nat)
    ensures
        decimal(n).len() > 0,
        forall|i: int| 0 <= i < decimal(n).len() ==> is_digit(#[trigger] decimal(n)[i]),
        digits_value(decimal(n)) == n,
    decreases n,
{
    let d = (n % 10) as nat;
    assert(digit_char(d) as u32 == 48 + d);
    assert(((digit_char(d) as u32) - 48) as nat == d);
    if n < 10 {
        assert(decimal(n).drop_last() =~= Seq::<char>::empty());
        assert(decimal(n).last() == digit_char(d));
        assert(digits_value(decimal(n)) == digits_value(Seq::<char>::empty()) * 10 + d);
    } else {
        lemma_decimal_reads_back(n / 10);
        let s = decimal(n);
        assert(s.drop_last() =~= decimal(n / 10));
        assert(s.last() == digit_char(d));
        assert((n / 10) * 10 + n % 10 == n) by (nonlinear_arith);
        assert(digits_value(s) == digits_value(decimal(n / 10)) * 10 + d);
        assert forall|i: int| 0 <= i < s.len() implies is_digit(#[trigger] s[i]) by {
            if i < s.len() - 1 {
                assert(s[i] == decimal(n / 10)[i]);
            }
        }
    }
}

/// A number written in decimal parses back to itself.
pub proof fn lemma_parse_decimal(n: u64)
    ensures
        parse_u64_spec(decimal(n as nat)) == Some(n),
{
    lemma_decimal_reads_back(n as nat);
    let s = decimal(n as nat);
    assert(is_digit(s[0]));
    assert(unsigned_body(s) == s);
}

} // verus!

verus! {

/// Reading `s + t` where no run is open at the end of `s` reads `t` on its
/// own after the words of `s`.
proof fn lemma_scan_concat(s: Seq<char>, t: Seq<char>)
    requires
        word_scan(s).1.len() == 0,
    ensures
        word_scan(s + t) == (word_scan(s).0 + word_scan(t).0, word_scan(t).1),
    decreases t.len(),
{
    if t.len() == 0 {
        assert(s + t =~= s);
        assert(word_scan(s).0 + word_scan(t).0 =~= word_scan(s).0);
    } else {
        let t0 = t.drop_last();
        lemma_scan_concat(s, t0);
        assert((s + t).drop_last() =~= s + t0);
        assert((s + t).last() == t.last());
        let (d, cur) = word_scan(t0);
        let a = word_scan(s).0;
        assert((a + d).push(cur) =~= a + d.push(cur));
    }
}

/// The words of `s`, a whitespace character and `t` are the words of `s`
/// followed by the words of `t`.
pub proof fn lemma_words_concat(s: Seq<char>, c: char, t: Seq<char>)
    requires
        is_ws(c),
    ensures
        words(s + seq![c] + t) == words(s) + words(t),
{
    let u = s + seq![c];
    assert(u.drop_last() =~= s);
    assert(u.last() == c);
    assert(word_scan(u).0 == words(s));
    lemma_scan_concat(u, t);
    assert(s + seq![c] + t =~= u + t);
}

/// A whitespace character at the end adds no word.
pub proof fn lemma_words_trailing_ws(s: Seq<char>, c: char)
    requires
        is_ws(c),
    ensures
        words(s + seq![c]) == words(s),
{
    let u = s + seq![c];
    assert(u.drop_last() =~= s);
    assert(u.last() == c);
}

/// A decimal representation is a word.
pub proof fn lemma_decimal_is_word(n: nat)
    ensures
        is_word(decimal(n)),
{
    lemma_decimal_reads_back(n);
    assert forall|i: int| 0 <= i < decimal(n).len() implies !is_ws(#[trigger] decimal(n)[i]) by {
        assert(is_digit(decimal(n)[i]));
    }
}

} // verus!

verus! {

/// Whether `t` ends with `s`.
pub open spec fn has_suffix(t: Seq<char>, s: Seq<char>) -> bool {
    t.len() >= s.len() && t.skip(t.len() - s.len()) == s
}

/// `t` without its last `s.len()` characters.
pub open spec fn drop_suffix(t: Seq<char>, s: Seq<char>) -> Seq<char> {
    t.take(t.len() - s.len())
}

} // verus!
