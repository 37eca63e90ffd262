//! Strings as sequences of characters: the small vocabulary of text
//! operations that the rest of the crate is written in.

use vstd::prelude::*;
use vstd::string::StringExecFns;
use vstd::utf8;

verus! {

/// `String::push` appends one character to the end of the string.
pub assume_specification[ String::push ](s: &mut String, c: char)
    ensures
        final(s)@ == old(s)@.push(c),
;

/// The message of the error with which `std::str::from_utf8` refuses `bytes`.
pub uninterp spec fn utf8_error_text(bytes: Seq<u8>) -> Seq<char>;

/// `std::str::from_utf8` accepts exactly the valid UTF-8 sequences, and gives
/// the characters that they encode. The message of its error is a function of
/// the bytes; what it reads is not stated.
#[verifier::external_body]
pub(crate) fn from_utf8(bytes: &[u8]) -> (r: Result<String, String>)
    ensures
        match r {
            Ok(s) => utf8::valid_utf8(bytes@) && s@ == utf8::decode_utf8(bytes@),
            Err(message) => !utf8::valid_utf8(bytes@) && message@ == utf8_error_text(bytes@),
        },
{
    match std::str::from_utf8(bytes) {
        Ok(s) => Ok(s.to_owned()),
        Err(e) => Err(e.to_string()),
    }
}

/// The text that `String::from_utf8_lossy` makes of `bytes`.
pub uninterp spec fn lossy_text(bytes: Seq<u8>) -> Seq<char>;

/// `String::from_utf8_lossy` decodes valid UTF-8 unchanged. Of other bytes the
/// text is named only: each ill-formed stretch becomes U+FFFD.
#[verifier::external_body]
pub(crate) fn from_utf8_lossy(bytes: &[u8]) -> (r: String)
    ensures
        r@ == lossy_text(bytes@),
        utf8::valid_utf8(bytes@) ==> r@ == utf8::decode_utf8(bytes@),
{
    String::from_utf8_lossy(bytes).into_owned()
}

/// The text that bytes hold. Valid UTF-8 holds the characters that it encodes; of
/// other bytes the text is what [`from_utf8_lossy`] makes of them.
pub open spec fn text_in(bytes: Seq<u8>) -> Seq<char> {
    if utf8::valid_utf8(bytes) {
        utf8::decode_utf8(bytes)
    } else {
        lossy_text(bytes)
    }
}

/// What is sent as text is read as that text.
pub proof fn sent_text_is_read(s: Seq<char>)
    ensures
        text_in(utf8::encode_utf8(s)) == s,
{
    utf8::encode_utf8_valid_utf8(s);
    utf8::encode_utf8_decode_utf8(s);
}

/// The text that the `Debug` format gives for a string.
pub uninterp spec fn quoted_text(s: Seq<char>) -> Seq<char>;

/// `format!("{:?}", s)` puts a string in double quotes and escapes what needs
/// escaping. The result is a function of the characters of the string; how
/// each of them is escaped is not stated.
#[verifier::external_body]
pub(crate) fn quoted(s: &str) -> (r: String)
    ensures
        r@ == quoted_text(s@),
{
    format!("{:?}", s)
}

/// The number of leading elements of `s` that differ from `sep`: the
/// position of the first `sep`, or the length of `s` when there is none.
pub open spec fn run_before<T>(s: Seq<T>, sep: T) -> nat
    decreases s.len(),
{
    if s.len() == 0 || s[0] == sep {
        0
    } else {
        1 + run_before(s.drop_first(), sep)
    }
}

/// The pieces of `s` between the occurrences of `sep`. There is always one
/// more piece than there are separators.
pub open spec fn pieces<T>(s: Seq<T>, sep: T) -> Seq<Seq<T>>
    decreases s.len(),
{
    let n = run_before(s, sep);
    if n >= s.len() {
        seq![s]
    } else {
        seq![s.take(n as int)] + pieces(s.skip(n as int + 1), sep)
    }
}

/// What stands before the first `sep` and what stands after it.
pub open spec fn cut<T>(s: Seq<T>, sep: T) -> Option<(Seq<T>, Seq<T>)> {
    let n = run_before(s, sep);
    if n >= s.len() {
        None
    } else {
        Some((s.take(n as int), s.skip(n as int + 1)))
    }
}

/// Where [`run_before`] stops.
pub proof fn run_before_stops<T>(s: Seq<T>, sep: T)
    ensures
        run_before(s, sep) <= s.len(),
        forall|i: int| 0 <= i < run_before(s, sep) ==> s[i] != sep,
        run_before(s, sep) < s.len() ==> s[run_before(s, sep) as int] == sep,
    decreases s.len(),
{
    if s.len() > 0 && s[0] != sep {
        let rest = s.drop_first();
        run_before_stops(rest, sep);
        assert forall|i: int| 0 <= i < run_before(s, sep) implies s[i] != sep by {
            if i > 0 {
                assert(s[i] == rest[i - 1]);
            }
        }
    }
}

/// [`run_before`] is the only position with its two properties.
pub proof fn run_before_is<T>(s: Seq<T>, sep: T, n: nat)
    requires
        n <= s.len(),
        forall|i: int| 0 <= i < n ==> s[i] != sep,
        n < s.len() ==> s[n as int] == sep,
    ensures
        run_before(s, sep) == n,
    decreases s.len(),
{
    if n > 0 {
        let rest = s.drop_first();
        assert(s[0] != sep);
        assert forall|i: int| 0 <= i < n - 1 implies rest[i] != sep by {
            assert(rest[i] == s[i + 1]);
        }
        run_before_is(rest, sep, (n - 1) as nat);
    }
}

/// There is always a piece.
pub proof fn there_is_a_piece<T>(s: Seq<T>, sep: T)
    ensures
        pieces(s, sep).len() > 0,
{
}

/// A text is cut at the first separator.
pub proof fn cut_at_the_first<T>(before: Seq<T>, sep: T, after: Seq<T>)
    requires
        !before.contains(sep),
    ensures
        cut(before.push(sep) + after, sep) == Some((before, after)),
{
    let s = before.push(sep) + after;
    let n = before.len();
    assert forall|i: int| 0 <= i < n implies s[i] != sep by {
        assert(before.contains(before[i]));
    }
    run_before_is(s, sep, n);
    assert(s.take(n as int) =~= before);
    assert(s.skip(n as int + 1) =~= after);
}

/// The characters of `s`, in order.
pub fn chars_of(s: &str) -> (v: Vec<char>)
    ensures
        v@ == s@,
{
    let mut v: Vec<char> = Vec::new();
    for c in it: s.chars()
        invariant
            v@ == it.seq().take(it.index()),
            it.seq() == s@,
    {
        v.push(c);
    }
    v
}

/// The string made of `v[from]` up to, but not including, `v[to]`.
pub fn string_between(v: &[char], from: usize, to: usize) -> (s: String)
    requires
        from <= to <= v@.len(),
    ensures
        s@ == v@.subrange(from as int, to as int),
{
    let mut s = String::new();
    for i in from..to
        invariant
            from <= i <= to <= v@.len(),
            s@ == v@.subrange(from as int, i as int),
    {
        s.push(v[i]);
    }
    s
}

/// Whether there is no text.
pub fn is_empty(s: &str) -> (r: bool)
    ensures
        r == (s@.len() == 0),
{
    s.unicode_len() == 0
}

/// Whether two strings hold the same characters.
pub fn same(a: &str, b: &str) -> (r: bool)
    ensures
        r == (a@ == b@),
{
    a.to_owned() == b.to_owned()
}

/// The position of the first `sep` at or after `from`, or the length of `v`.
pub fn find(v: &[char], from: usize, sep: char) -> (n: usize)
    requires
        from <= v@.len(),
    ensures
        from <= n <= v@.len(),
        n == from + run_before(v@.skip(from as int), sep),
{
    let mut n = from;
    while n < v.len() && v[n] != sep
        invariant
            from <= n <= v@.len(),
            forall|i: int| from <= i < n ==> v@[i] != sep,
        decreases v@.len() - n,
    {
        n = n + 1;
    }
    proof {
        let rest = v@.skip(from as int);
        assert forall|i: int| 0 <= i < n - from implies rest[i] != sep by {
            assert(rest[i] == v@[i + from]);
        }
        run_before_is(rest, sep, (n - from) as nat);
    }
    n
}

/// What stands before the first `sep` of `s` and what stands after it.
pub fn split_once(s: &str, sep: char) -> (r: Option<(String, String)>)
    ensures
        match r {
            Some(halves) => cut(s@, sep) == Some((halves.0@, halves.1@)),
            None => cut(s@, sep) is None,
        },
{
    let v = chars_of(s);
    let n: usize = find(&v, 0, sep);
    proof {
        assert(v@.skip(0) == v@);
        run_before_stops(v@, sep);
    }
    if n >= v.len() {
        None
    } else {
        let head = string_between(&v, 0, n);
        let tail = string_between(&v, n + 1, v.len());
        assert(head@ == v@.take(n as int));
        assert(tail@ == v@.skip(n as int + 1));
        Some((head, tail))
    }
}

/// The decimal digit of `d`, for `d` below ten.
pub open spec fn digit(d: nat) -> char {
    (48 + d) as char
}

/// `n` in decimal, without leading zeros.
pub open spec fn decimal(n: nat) -> Seq<char>
    decreases n,
{
    if n < 10 {
        seq![digit(n)]
    } else {
        decimal(n / 10).push(digit(n % 10))
    }
}

/// `n` in decimal, with a minus sign in front when it is negative.
pub open spec fn decimal_int(n: int) -> Seq<char> {
    if n < 0 {
        seq!['-'] + decimal((-n) as nat)
    } else {
        decimal(n as nat)
    }
}

/// Appends `n` in decimal.
pub fn push_decimal(out: &mut String, n: u64)
    ensures
        final(out)@ == old(out)@ + decimal(n as nat),
    decreases n,
{
    let low: u8 = (n % 10) as u8;
    if n >= 10 {
        push_decimal(out, n / 10);
    }
    let c: char = (48 + low) as char;
    out.push(c);
}

/// `n` in decimal.
pub fn decimal_string(n: u64) -> (s: String)
    ensures
        s@ == decimal(n as nat),
{
    let mut s = String::new();
    push_decimal(&mut s, n);
    s
}

/// `n` in decimal, with its sign when it is negative.
pub fn decimal_int_string(n: i32) -> (s: String)
    ensures
        s@ == decimal_int(n as int),
{
    let mut s = String::new();
    if n < 0 {
        s.push('-');
        push_decimal(&mut s, (-(n as i64)) as u64);
    } else {
        push_decimal(&mut s, n as u64);
    }
    s
}

/// `s` right-aligned in a column of `width` characters.
pub open spec fn right_aligned(s: Seq<char>, width: nat) -> Seq<char> {
    if s.len() < width {
        Seq::new((width - s.len()) as nat, |i: int| ' ') + s
    } else {
        s
    }
}

/// Appends `s`, right-aligned in a column of `width` characters.
pub fn push_right_aligned(out: &mut String, s: &str, width: usize)
    ensures
        final(out)@ == old(out)@ + right_aligned(s@, width as nat),
{
    let n: usize = chars_of(s).len();
    let mut i: usize = n;
    while i < width
        invariant
            n == s@.len(),
            n <= i,
            i <= width || i == n,
            out@ == old(out)@ + Seq::new((i - n) as nat, |k: int| ' '),
        decreases width - i,
    {
        out.push(' ');
        i = i + 1;
        assert(out@ == old(out)@ + Seq::new((i - n) as nat, |k: int| ' '));
    }
    out.append(s);
    assert(out@ == old(out)@ + right_aligned(s@, width as nat));
}

/// Whether `c` has the Unicode property `White_Space`.
pub open spec fn white_space(c: char) -> bool {
    ||| '\u{9}' <= c <= '\u{d}'
    ||| c == ' '
    ||| c == '\u{85}'
    ||| c == '\u{a0}'
    ||| c == '\u{1680}'
    ||| '\u{2000}' <= c <= '\u{200a}'
    ||| c == '\u{2028}'
    ||| c == '\u{2029}'
    ||| c == '\u{202f}'
    ||| c == '\u{205f}'
    ||| c == '\u{3000}'
}

/// Whether `c` has the Unicode property `White_Space`.
pub fn is_white_space(c: char) -> (r: bool)
    ensures
        r == white_space(c),
{
    ('\u{9}' <= c && c <= '\u{d}') || c == ' ' || c == '\u{85}' || c == '\u{a0}' || c == '\u{1680}'
        || ('\u{2000}' <= c && c <= '\u{200a}') || c == '\u{2028}' || c == '\u{2029}'
        || c == '\u{202f}' || c == '\u{205f}' || c == '\u{3000}'
}

/// `s` without the white space at its start.
pub open spec fn trim_start(s: Seq<char>) -> Seq<char>
    decreases s.len(),
{
    if s.len() > 0 && white_space(s[0]) {
        trim_start(s.drop_first())
    } else {
        s
    }
}

/// `s` without the white space at its end.
pub open spec fn trim_end(s: Seq<char>) -> Seq<char>
    decreases s.len(),
{
    if s.len() > 0 && white_space(s.last()) {
        trim_end(s.drop_last())
    } else {
        s
    }
}

/// `s` without the white space around it.
pub open spec fn trimmed(s: Seq<char>) -> Seq<char> {
    trim_end(trim_start(s))
}

/// The length of the word that `s` starts with.
pub open spec fn word_len(s: Seq<char>) -> nat
    decreases s.len(),
{
    if s.len() == 0 || white_space(s[0]) {
        0
    } else {
        1 + word_len(s.drop_first())
    }
}

/// The maximal runs of characters of `s` that are not white space.
pub open spec fn words(s: Seq<char>) -> Seq<Seq<char>>
    decreases s.len(),
{
    let t = trim_start(s);
    let n = word_len(t);
    if t.len() == 0 {
        Seq::empty()
    } else {
        proof {
            trim_start_stops(s);
            word_len_stops(t);
        }
        seq![t.take(n as int)] + words(t.skip(n as int))
    }
}

/// What [`trim_start`] leaves starts with no white space.
pub proof fn trim_start_stops(s: Seq<char>)
    ensures
        trim_start(s).len() <= s.len(),
        trim_start(s).len() > 0 ==> !white_space(trim_start(s)[0]),
    decreases s.len(),
{
    if s.len() > 0 && white_space(s[0]) {
        trim_start_stops(s.drop_first());
    }
}

/// Where [`word_len`] stops.
pub proof fn word_len_stops(s: Seq<char>)
    ensures
        word_len(s) <= s.len(),
        s.len() > 0 && !white_space(s[0]) ==> word_len(s) > 0,
        forall|i: int| 0 <= i < word_len(s) ==> !white_space(s[i]),
        word_len(s) < s.len() ==> white_space(s[word_len(s) as int]),
    decreases s.len(),
{
    if s.len() > 0 && !white_space(s[0]) {
        let rest = s.drop_first();
        word_len_stops(rest);
        assert forall|i: int| 0 <= i < word_len(s) implies !white_space(s[i]) by {
            if i > 0 {
                assert(s[i] == rest[i - 1]);
            }
        }
    }
}

/// [`word_len`] is the only position with its two properties.
proof fn word_len_is(s: Seq<char>, n: nat)
    requires
        n <= s.len(),
        forall|i: int| 0 <= i < n ==> !white_space(s[i]),
        n < s.len() ==> white_space(s[n as int]),
    ensures
        word_len(s) == n,
    decreases s.len(),
{
    if n > 0 {
        let rest = s.drop_first();
        assert(!white_space(s[0]));
        assert forall|i: int| 0 <= i < n - 1 implies !white_space(rest[i]) by {
            assert(rest[i] == s[i + 1]);
        }
        word_len_is(rest, (n - 1) as nat);
    }
}

/// Dropping white space from the front step by step.
proof fn trim_start_skips(s: Seq<char>, n: int)
    requires
        0 <= n <= s.len(),
        forall|i: int| 0 <= i < n ==> white_space(s[i]),
    ensures
        trim_start(s) == trim_start(s.skip(n)),
    decreases n,
{
    if n == 0 {
        assert(s.skip(0) == s);
    } else {
        let rest = s.drop_first();
        assert forall|i: int| 0 <= i < n - 1 implies white_space(rest[i]) by {
            assert(rest[i] == s[i + 1]);
        }
        trim_start_skips(rest, n - 1);
        assert(rest.skip(n - 1) == s.skip(n));
        assert(white_space(s[0]));
    }
}

/// Dropping white space from the back step by step.
proof fn trim_end_drops(s: Seq<char>, n: int)
    requires
        0 <= n <= s.len(),
        forall|i: int| n <= i < s.len() ==> white_space(s[i]),
    ensures
        trim_end(s) == trim_end(s.take(n)),
    decreases s.len(),
{
    if n == s.len() {
        assert(s.take(n) == s);
    } else {
        let rest = s.drop_last();
        trim_end_drops(rest, n);
        assert(rest.take(n) == s.take(n));
        assert(white_space(s.last()));
    }
}

/// `s` without the white space around it.
pub fn trim(s: &str) -> (r: String)
    ensures
        r@ == trimmed(s@),
{
    let v = chars_of(s);
    let mut from: usize = 0;
    while from < v.len() && is_white_space(v[from])
        invariant
            from <= v@.len(),
            forall|i: int| 0 <= i < from ==> white_space(v@[i]),
        decreases v@.len() - from,
    {
        from = from + 1;
    }
    let mut to: usize = v.len();
    while to > from && is_white_space(v[to - 1])
        invariant
            from <= to <= v@.len(),
            forall|i: int| to <= i < v@.len() ==> white_space(v@[i]),
        decreases to,
    {
        to = to - 1;
    }
    proof {
        trim_start_skips(v@, from as int);
        let tail = v@.skip(from as int);
        assert(from < v@.len() ==> tail[0] == v@[from as int]);
        assert(trim_start(v@) == tail);
        assert forall|i: int| to - from <= i < tail.len() implies white_space(tail[i]) by {
            assert(tail[i] == v@[i + from]);
        }
        trim_end_drops(tail, to - from);
        let kept = tail.take(to - from);
        assert(kept == v@.subrange(from as int, to as int));
        assert(to > from ==> kept.last() == v@[to - 1]);
        assert(trim_end(kept) == kept);
    }
    string_between(&v, from, to)
}

/// The views of a list of strings.
pub open spec fn views(v: Seq<String>) -> Seq<Seq<char>> {
    v.map_values(|s: String| s@)
}

/// The maximal runs of characters of `s` that are not white space.
pub fn split_whitespace(s: &str) -> (r: Vec<String>)
    ensures
        views(r@) == words(s@),
{
    let v = chars_of(s);
    let mut r: Vec<String> = Vec::new();
    let mut i: usize = 0;
    assert(v@.skip(0) == v@);
    assert(views(r@) + words(v@) == words(v@));
    loop
        invariant
            i <= v@.len(),
            views(r@) + words(v@.skip(i as int)) == words(v@),
        ensures
            views(r@) == words(v@),
        decreases v@.len() - i,
    {
        let ghost rest = v@.skip(i as int);
        let mut from: usize = i;
        while from < v.len() && is_white_space(v[from])
            invariant
                i <= from <= v@.len(),
                rest == v@.skip(i as int),
                forall|k: int| 0 <= k < from - i ==> white_space(rest[k]),
            decreases v@.len() - from,
        {
            from = from + 1;
        }
        proof {
            trim_start_skips(rest, from - i);
            assert(rest.skip(from - i) == v@.skip(from as int));
        }
        let ghost t = v@.skip(from as int);
        assert(from < v@.len() ==> t[0] == v@[from as int]);
        assert(trim_start(rest) == t);
        if from >= v.len() {
            assert(words(rest) == Seq::<Seq<char>>::empty());
            break;
        }
        let mut to: usize = from;
        while to < v.len() && !is_white_space(v[to])
            invariant
                from <= to <= v@.len(),
                t == v@.skip(from as int),
                forall|k: int| 0 <= k < to - from ==> !white_space(t[k]),
            decreases v@.len() - to,
        {
            to = to + 1;
        }
        let word = string_between(&v, from, to);
        proof {
            assert(to < v@.len() ==> t[to - from] == v@[to as int]);
            word_len_is(t, (to - from) as nat);
            word_len_stops(t);
            assert(t.take(to - from) == word@);
            assert(t.skip(to - from) == v@.skip(to as int));
            assert(words(rest) == seq![word@] + words(v@.skip(to as int)));
            assert(views(r@.push(word)) == views(r@).push(word@));
            assert(views(r@).push(word@) + words(v@.skip(to as int)) == views(r@) + (seq![word@] + words(
                v@.skip(to as int),
            )));
        }
        r.push(word);
        i = to;
    }
    r
}

/// The pieces of `s` between the occurrences of `sep`.
pub fn split(s: &str, sep: char) -> (r: Vec<String>)
    ensures
        views(r@) == pieces(s@, sep),
{
    let v = chars_of(s);
    let mut r: Vec<String> = Vec::new();
    let mut i: usize = 0;
    assert(v@.skip(0) == v@);
    assert(views(r@) + pieces(v@, sep) == pieces(v@, sep));
    loop
        invariant_except_break
            i <= v@.len(),
            views(r@) + pieces(v@.skip(i as int), sep) == pieces(v@, sep),
        ensures
            views(r@) == pieces(v@, sep),
        decreases v@.len() - i,
    {
        let ghost rest = v@.skip(i as int);
        let n: usize = find(&v, i, sep);
        let piece = string_between(&v, i, n);
        proof {
            run_before_stops(rest, sep);
            assert(views(r@.push(piece)) == views(r@).push(piece@));
        }
        if n >= v.len() {
            assert(piece@ == rest);
            assert(views(r@).push(piece@) == views(r@) + seq![rest]);
            r.push(piece);
            break;
        }
        proof {
            assert(rest.take(n - i) == piece@);
            assert(rest.skip(n - i + 1) == v@.skip(n as int + 1));
            assert(views(r@).push(piece@) + pieces(v@.skip(n as int + 1), sep) == views(r@) + (
            seq![piece@] + pieces(v@.skip(n as int + 1), sep)));
        }
        r.push(piece);
        i = n + 1;
    }
    r
}

/// `s` with every occurrence of `from` replaced by `to`, found from left to
/// right without overlap.
pub open spec fn replaced(s: Seq<char>, from: Seq<char>, to: Seq<char>) -> Seq<char>
    decreases s.len(),
{
    if from.len() == 0 || s.len() < from.len() {
        s
    } else if s.take(from.len() as int) == from {
        to + replaced(s.skip(from.len() as int), from, to)
    } else {
        seq![s[0]] + replaced(s.drop_first(), from, to)
    }
}

/// Where `from` does not occur, nothing is replaced.
pub proof fn nothing_to_replace(s: Seq<char>, from: Seq<char>, to: Seq<char>)
    requires
        forall|i: int|
            0 <= i <= s.len() - from.len() ==> #[trigger] s.subrange(i, i + from.len()) != from,
    ensures
        replaced(s, from, to) == s,
    decreases s.len(),
{
    if from.len() > 0 && s.len() >= from.len() {
        let start: int = 0;
        assert(s.take(from.len() as int) =~= s.subrange(start, start + from.len()));
        let rest = s.drop_first();
        assert forall|i: int| 0 <= i <= rest.len() - from.len() implies #[trigger] rest.subrange(
            i,
            i + from.len(),
        ) != from by {
            let j = i + 1;
            assert(rest.subrange(i, i + from.len()) =~= s.subrange(j, j + from.len()));
        }
        nothing_to_replace(rest, from, to);
        assert(seq![s[0]] + rest =~= s);
    }
}

/// Whether `pattern` stands in `v` at position `at`.
pub fn stands_at(v: &[char], at: usize, pattern: &[char]) -> (r: bool)
    requires
        at <= v@.len(),
    ensures
        r == (at + pattern@.len() <= v@.len() && v@.subrange(
            at as int,
            at + pattern@.len(),
        ) == pattern@),
{
    let n: usize = v.len();
    if n - at < pattern.len() {
        return false;
    }
    for i in 0..pattern.len()
        invariant
            n == v@.len(),
            at + pattern@.len() <= n,
            forall|k: int| 0 <= k < i ==> v@[at + k] == pattern@[k],
    {
        if v[at + i] != pattern[i] {
            assert(v@.subrange(at as int, at + pattern@.len())[i as int] != pattern@[i as int]);
            return false;
        }
    }
    assert(v@.subrange(at as int, at + pattern@.len()) =~= pattern@);
    true
}

/// Whether `s` begins with `start`.
pub open spec fn begins_with(s: Seq<char>, start: Seq<char>) -> bool {
    start.len() <= s.len() && s.take(start.len() as int) == start
}

/// Whether `s` begins with `start`.
pub fn starts_with(s: &str, start: &str) -> (r: bool)
    ensures
        r == begins_with(s@, start@),
{
    let v = chars_of(s);
    let pattern = chars_of(start);
    assert(start@.len() <= s@.len() ==> s@.subrange(0, start@.len() as int) =~= s@.take(
        start@.len() as int,
    ));
    stands_at(&v, 0, &pattern)
}

/// `s` with every occurrence of `from` replaced by `to`.
pub fn replace(s: &str, from: &str, to: &str) -> (r: String)
    requires
        from@.len() > 0,
    ensures
        r@ == replaced(s@, from@, to@),
{
    let v = chars_of(s);
    let pattern = chars_of(from);
    let mut r = String::new();
    let mut i: usize = 0;
    assert(v@.skip(0) == v@);
    assert(r@ + replaced(v@, from@, to@) == replaced(v@, from@, to@));
    while i < v.len()
        invariant
            i <= v@.len(),
            pattern@ == from@,
            from@.len() > 0,
            r@ + replaced(v@.skip(i as int), from@, to@) == replaced(v@, from@, to@),
        decreases v@.len() - i,
    {
        let ghost rest = v@.skip(i as int);
        let ghost before = r@;
        if stands_at(&v, i, &pattern) {
            r.append(to);
            proof {
                assert(rest.take(from@.len() as int) == v@.subrange(i as int, i + from@.len()));
                assert(rest.skip(from@.len() as int) == v@.skip(i + from@.len()));
                assert(before + (to@ + replaced(v@.skip(i + from@.len()), from@, to@)) == (before
                    + to@) + replaced(v@.skip(i + from@.len()), from@, to@));
            }
            i = i + pattern.len();
        } else {
            r.push(v[i]);
            proof {
                if rest.len() >= from@.len() {
                    assert(rest.take(from@.len() as int) == v@.subrange(i as int, i + from@.len()));
                } else {
                    assert(v@.skip(i as int + 1).len() < from@.len());
                    assert(rest == seq![rest[0]] + v@.skip(i as int + 1));
                }
                assert(rest.drop_first() == v@.skip(i as int + 1));
                assert(before + (seq![rest[0]] + replaced(v@.skip(i as int + 1), from@, to@))
                    == before.push(v@[i as int]) + replaced(v@.skip(i as int + 1), from@, to@));
            }
            i = i + 1;
        }
    }
    assert(v@.skip(i as int) == Seq::<char>::empty());
    r
}

/// The value of the decimal digits `s`, read from the left.
pub open spec fn digits_value(s: Seq<char>) -> nat
    decreases s.len(),
{
    if s.len() == 0 {
        0
    } else {
        digits_value(s.drop_last()) * 10 + (s.last() as nat - 48) as nat
    }
}

/// Whether `s` is one or more decimal digits and nothing else.
pub open spec fn all_digits(s: Seq<char>) -> bool {
    s.len() > 0 && forall|i: int| 0 <= i < s.len() ==> '0' <= #[trigger] s[i] <= '9'
}

/// The number that `s` writes in decimal after an optional plus sign, when it
/// is no larger than `max`.
pub open spec fn parsed_nat(s: Seq<char>, max: nat) -> Option<nat> {
    let digits = if s.len() > 0 && s[0] == '+' {
        s.drop_first()
    } else {
        s
    };
    if all_digits(digits) && digits_value(digits) <= max {
        Some(digits_value(digits))
    } else {
        None
    }
}

/// The number that `s` writes in decimal after an optional sign, when an `i32`
/// can hold it.
pub open spec fn parsed_i32(s: Seq<char>) -> Option<int> {
    if s.len() > 0 && s[0] == '-' {
        let digits = s.drop_first();
        if all_digits(digits) && digits_value(digits) <= 0x8000_0000 {
            Some(-(digits_value(digits) as int))
        } else {
            None
        }
    } else {
        match parsed_nat(s, 0x7fff_ffff) {
            Some(n) => Some(n as int),
            None => None,
        }
    }
}

/// The value of the digits from `from` on, when there are any, nothing else
/// follows and the value is at most `max`.
fn parse_digits(v: &[char], from: usize, max: u64) -> (r: Option<u64>)
    requires
        from <= v@.len(),
        max <= 0xffff_ffff,
    ensures
        ({
            let digits = v@.skip(from as int);
            r == if all_digits(digits) && digits_value(digits) <= max {
                Some(digits_value(digits) as u64)
            } else {
                None
            }
        }),
{
    let ghost digits = v@.skip(from as int);
    if from == v.len() {
        return None;
    }
    let mut value: u64 = 0;
    let mut over: bool = false;
    let mut i: usize = from;
    while i < v.len()
        invariant
            from <= i <= v@.len(),
            digits == v@.skip(from as int),
            max <= 0xffff_ffff,
            forall|k: int| 0 <= k < i - from ==> '0' <= #[trigger] digits[k] <= '9',
            over ==> digits_value(digits.take(i - from)) > max,
            !over ==> value == digits_value(digits.take(i - from)) && value <= max,
        decreases v@.len() - i,
    {
        let c = v[i];
        assert(digits[i - from] == c);
        if c < '0' || c > '9' {
            return None;
        }
        let d: u64 = (c as u32 - 48) as u64;
        proof {
            let longer = digits.take(i - from + 1);
            assert(longer.drop_last() == digits.take(i - from));
            assert(longer.last() == c);
        }
        if !over {
            value = value * 10 + d;
            if value > max {
                over = true;
            }
        }
        i = i + 1;
    }
    assert(digits.take(i - from) == digits);
    if over {
        None
    } else {
        Some(value)
    }
}

/// Reads `s` as a `u32`.
pub fn parse_u32(s: &str) -> (r: Option<u32>)
    ensures
        match r {
            Some(n) => parsed_nat(s@, 0xffff_ffff) == Some(n as nat),
            None => parsed_nat(s@, 0xffff_ffff) is None,
        },
{
    let v = chars_of(s);
    let from: usize = if v.len() > 0 && v[0] == '+' {
        1
    } else {
        0
    };
    assert(v@.skip(0) == v@);
    match parse_digits(&v, from, 0xffff_ffff) {
        Some(n) => Some(n as u32),
        None => None,
    }
}

/// Reads `s` as an `i32`.
pub fn parse_i32(s: &str) -> (r: Option<i32>)
    ensures
        match r {
            Some(n) => parsed_i32(s@) == Some(n as int),
            None => parsed_i32(s@) is None,
        },
{
    let v = chars_of(s);
    if v.len() > 0 && v[0] == '-' {
        return match parse_digits(&v, 1, 0x8000_0000) {
            Some(n) => Some((-(n as i64)) as i32),
            None => None,
        };
    }
    let from: usize = if v.len() > 0 && v[0] == '+' {
        1
    } else {
        0
    };
    assert(v@.skip(0) == v@);
    match parse_digits(&v, from, 0x7fff_ffff) {
        Some(n) => Some(n as i32),
        None => None,
    }
}

/// A number in decimal is digits only, and reads back as the number.
pub proof fn decimal_reads_back(n: nat)
    ensures
        all_digits(decimal(n)),
        digits_value(decimal(n)) == n,
    decreases n,
{
    let s = decimal(n);
    if n < 10 {
        assert(s.drop_last() == Seq::<char>::empty());
        assert(s.last() == digit(n));
        assert(digits_value(s.drop_last()) == 0);
    } else {
        decimal_reads_back(n / 10);
        let shorter = decimal(n / 10);
        assert(s.drop_last() == shorter);
        assert forall|i: int| 0 <= i < s.len() implies '0' <= #[trigger] s[i] <= '9' by {
            if i < shorter.len() {
                assert(s[i] == shorter[i]);
            }
        }
    }
}

/// Different numbers are written differently.
pub proof fn decimal_is_injective(a: nat, b: nat)
    requires
        decimal(a) == decimal(b),
    ensures
        a == b,
{
    decimal_reads_back(a);
    decimal_reads_back(b);
}

/// A number that is written in decimal reads back as itself.
pub proof fn decimal_parses_back(n: nat, max: nat)
    requires
        n <= max,
    ensures
        parsed_nat(decimal(n), max) == Some(n),
{
    decimal_reads_back(n);
    assert('0' <= decimal(n)[0]);
}

/// A signed number that is written in decimal reads back as itself.
pub proof fn decimal_int_parses_back(n: int)
    requires
        i32::MIN <= n <= i32::MAX,
    ensures
        parsed_i32(decimal_int(n)) == Some(n),
{
    if n < 0 {
        let d = decimal((-n) as nat);
        decimal_reads_back((-n) as nat);
        assert(decimal_int(n).drop_first() =~= d);
    } else {
        decimal_parses_back(n as nat, 0x7fff_ffff);
        decimal_reads_back(n as nat);
        assert('0' <= decimal(n as nat)[0]);
    }
}

/// The last digit of a number is what is left of it by ten, and the digits before are
/// those of its tenth. No number but zero starts with a zero.
pub proof fn decimals_are_written_digit_by_digit(n: nat)
    ensures
        n < 10 ==> decimal(n) == seq![(48 + n) as char],
        n >= 10 ==> decimal(n).drop_last() == decimal(n / 10) && decimal(n).last() == (48 + n % 10) as char,
        decimal(n).len() > 0,
        n > 0 ==> decimal(n)[0] != '0',
    decreases n,
{
    if n >= 10 {
        decimals_are_written_digit_by_digit(n / 10);
        assert(decimal(n).drop_last() =~= decimal(n / 10));
    }
}

/// A negative number is a minus sign and its amount; any other is its amount.
pub proof fn signed_decimals_have_a_sign(n: int)
    ensures
        n < 0 ==> decimal_int(n) == seq!['-'] + decimal((-n) as nat),
        n >= 0 ==> decimal_int(n) == decimal(n as nat),
{
}

/// One more digit is worth itself, and ten times the digits before.
pub proof fn digits_have_place_value(s: Seq<char>, c: char)
    requires
        '0' <= c <= '9',
    ensures
        digits_value(Seq::<char>::empty()) == 0,
        digits_value(s.push(c)) == 10 * digits_value(s) + (c as int - 48),
{
    assert(s.push(c).drop_last() =~= s);
}

/// What reads as a number without a minus sign: digits, after at most one plus sign,
/// with a value of at most `max`.
pub proof fn unsigned_numbers_are_digits(s: Seq<char>, max: nat)
    ensures
        s.len() == 0 ==> parsed_nat(s, max) is None,
        s.len() > 0 && '0' <= s[0] <= '9' ==> (parsed_nat(s, max) is Some <==> (forall|i: int|
            0 <= i < s.len() ==> '0' <= #[trigger] s[i] <= '9') && digits_value(s) <= max),
        s.len() > 0 && s[0] == '+' ==> (parsed_nat(s, max) is Some <==> s.len() > 1 && (forall|
            i: int,
        |
            1 <= i < s.len() ==> '0' <= #[trigger] s[i] <= '9') && digits_value(s.skip(1)) <= max),
        s.len() > 0 && s[0] != '+' && !('0' <= s[0] <= '9') ==> parsed_nat(s, max) is None,
        parsed_nat(s, max) matches Some(n) ==> {
            &&& n <= max
            &&& s[0] == '+' ==> n == digits_value(s.skip(1))
            &&& s[0] != '+' ==> n == digits_value(s)
        },
{
    if s.len() > 0 && s[0] == '+' {
        let rest = s.drop_first();
        assert(rest =~= s.skip(1));
        assert(forall|i: int| 0 <= i < rest.len() ==> rest[i] == s[i + 1]);
        assert(forall|i: int| 1 <= i < s.len() ==> s[i] == rest[i - 1]);
    }
}

/// A minus sign makes a number negative; without one it reads as before.
pub proof fn signed_numbers_may_be_negative(s: Seq<char>)
    ensures
        s.len() > 0 && s[0] == '-' ==> (parsed_i32(s) is Some <==> s.len() > 1 && (forall|i: int|
            1 <= i < s.len() ==> '0' <= #[trigger] s[i] <= '9') && digits_value(s.skip(1))
            <= 0x8000_0000),
        s.len() > 0 && s[0] == '-' && parsed_i32(s) is Some ==> parsed_i32(s)->0 == -(digits_value(
            s.skip(1),
        )),
        s.len() == 0 || s[0] != '-' ==> {
            &&& parsed_i32(s) is Some <==> parsed_nat(s, 0x7fff_ffff) is Some
            &&& parsed_i32(s) is Some ==> parsed_i32(s)->0 == parsed_nat(s, 0x7fff_ffff)->0
        },
{
    if s.len() > 0 && s[0] == '-' {
        let rest = s.drop_first();
        assert(rest =~= s.skip(1));
        assert(forall|i: int| 0 <= i < rest.len() ==> rest[i] == s[i + 1]);
        assert(forall|i: int| 1 <= i < s.len() ==> s[i] == rest[i - 1]);
    }
}

/// What is right-aligned stands at the right, with nothing but spaces before it, and
/// fills the column.
pub proof fn right_aligned_text_fills_its_column(s: Seq<char>, width: nat, i: int)
    ensures
        right_aligned(s, width).len() == if s.len() < width {
            width
        } else {
            s.len()
        },
        right_aligned(s, width).skip(right_aligned(s, width).len() - s.len()) == s,
        0 <= i < right_aligned(s, width).len() - s.len() ==> right_aligned(s, width)[i] == ' ',
{
    assert(right_aligned(s, width).skip(right_aligned(s, width).len() - s.len()) =~= s);
}

/// The characters that count as white space, by number.
pub proof fn white_space_by_number(c: char)
    ensures
        white_space(c) <==> {
            let n = c as u32;
            ||| 9 <= n <= 13
            ||| n == 32
            ||| n == 0x85
            ||| n == 0xa0
            ||| n == 0x1680
            ||| 0x2000 <= n <= 0x200a
            ||| n == 0x2028
            ||| n == 0x2029
            ||| n == 0x202f
            ||| n == 0x205f
            ||| n == 0x3000
        },
{
}

/// Trimming takes white space off both ends, and all of it, and nothing else: a text
/// that neither starts nor ends in white space is what is left of it, whatever white
/// space is put around it.
pub proof fn trimming_takes_white_space_off_both_ends(
    before: Seq<char>,
    s: Seq<char>,
    after: Seq<char>,
)
    requires
        forall|i: int| 0 <= i < before.len() ==> white_space(#[trigger] before[i]),
        forall|i: int| 0 <= i < after.len() ==> white_space(#[trigger] after[i]),
        s.len() > 0 ==> !white_space(s[0]) && !white_space(s.last()),
    ensures
        trimmed(before + s + after) == s,
{
    let all = before + s + after;
    let tail = s + after;
    if s.len() > 0 {
        trim_start_skips(all, before.len() as int);
        assert(all.skip(before.len() as int) =~= tail);
        assert(tail[0] == s[0]);
        assert(trim_start(all) == tail);
        trim_end_drops(tail, s.len() as int);
        assert(tail.take(s.len() as int) =~= s);
    } else {
        assert forall|i: int| 0 <= i < all.len() implies white_space(all[i]) by {
            if i < before.len() {
                assert(all[i] == before[i]);
            } else {
                assert(all[i] == after[i - before.len()]);
            }
        }
        trim_start_skips(all, all.len() as int);
        assert(all.skip(all.len() as int) =~= Seq::empty());
        assert(trim_start(Seq::<char>::empty()) =~= Seq::<char>::empty());
        assert(s =~= Seq::empty());
        assert(trim_end(Seq::<char>::empty()) =~= Seq::<char>::empty());
    }
}

/// What [`trimmed`] leaves stands in the text, and neither starts nor ends in white
/// space.
pub proof fn trimmed_text_has_no_white_space_around(s: Seq<char>)
    ensures
        trimmed(s).len() > 0 ==> !white_space(trimmed(s)[0]) && !white_space(trimmed(s).last()),
        exists|i: int, j: int|
            0 <= i <= j <= s.len() && trimmed(s) == #[trigger] s.subrange(i, j),
{
    let t = trim_start(s);
    trim_start_is_a_suffix(s);
    trim_end_is_a_prefix(t);
    trim_start_stops(s);
    let i = s.len() - t.len();
    let j = i + trim_end(t).len();
    assert(t =~= s.skip(i));
    assert(s.subrange(i, j) =~= t.take(trim_end(t).len() as int));
}

/// Trimming the start leaves a suffix.
proof fn trim_start_is_a_suffix(s: Seq<char>)
    ensures
        trim_start(s).len() <= s.len(),
        trim_start(s) == s.skip(s.len() - trim_start(s).len()),
    decreases s.len(),
{
    if s.len() > 0 && white_space(s[0]) {
        let rest = s.drop_first();
        trim_start_is_a_suffix(rest);
        assert(rest.skip(rest.len() - trim_start(rest).len()) =~= s.skip(
            s.len() - trim_start(rest).len(),
        ));
    } else {
        assert(s.skip(0) =~= s);
    }
}

/// Trimming the end leaves a prefix that does not end in white space.
proof fn trim_end_is_a_prefix(s: Seq<char>)
    ensures
        trim_end(s).len() <= s.len(),
        trim_end(s) == s.take(trim_end(s).len() as int),
        trim_end(s).len() > 0 ==> !white_space(trim_end(s).last()),
    decreases s.len(),
{
    if s.len() > 0 && white_space(s.last()) {
        let rest = s.drop_last();
        trim_end_is_a_prefix(rest);
        assert(rest.take(trim_end(rest).len() as int) =~= s.take(trim_end(rest).len() as int));
    } else {
        assert(s.take(s.len() as int) =~= s);
    }
}

/// Words are what stands between white space: a word, white space and a rest are that
/// word and the words of the rest; white space in front does not count.
pub proof fn words_stand_between_white_space(word: Seq<char>, c: char, rest: Seq<char>)
    requires
        forall|i: int| 0 <= i < word.len() ==> !white_space(#[trigger] word[i]),
        white_space(c),
    ensures
        words(Seq::<char>::empty()).len() == 0,
        words(seq![c] + rest) == words(rest),
        word.len() > 0 ==> words(word) == seq![word],
        word.len() > 0 ==> words(word.push(c) + rest) == seq![word] + words(rest),
{
    let spaced = seq![c] + rest;
    assert(spaced.drop_first() =~= rest);
    assert(trim_start(spaced) == trim_start(rest));
    assert(words(spaced) == words(rest));
    assert(words(Seq::<char>::empty()) =~= Seq::empty());
    if word.len() > 0 {
        let n = word.len();
        assert(trim_start(word) == word);
        word_len_is(word, n);
        assert(word.take(n as int) =~= word);
        assert(word.skip(n as int) =~= Seq::empty());
        assert(words(word) =~= seq![word]);
        let s = word.push(c) + rest;
        assert(s[0] == word[0]);
        assert(trim_start(s) == s);
        assert forall|i: int| 0 <= i < n implies !white_space(s[i]) by {
            assert(s[i] == word[i]);
        }
        assert(s[n as int] == c);
        word_len_is(s, n);
        assert(s.take(n as int) =~= word);
        assert(s.skip(n as int) =~= spaced);
    }
}

/// Pieces are what stands between separators: one piece, a separator and a rest are
/// that piece and the pieces of the rest.
pub proof fn pieces_stand_between_separators<T>(piece: Seq<T>, sep: T, rest: Seq<T>)
    requires
        !piece.contains(sep),
    ensures
        pieces(piece, sep) == seq![piece],
        pieces(piece.push(sep) + rest, sep) == seq![piece] + pieces(rest, sep),
{
    let n = piece.len();
    assert forall|i: int| 0 <= i < n implies piece[i] != sep by {
        assert(piece.contains(piece[i]));
    }
    run_before_is(piece, sep, n);
    let s = piece.push(sep) + rest;
    assert forall|i: int| 0 <= i < n implies s[i] != sep by {
        assert(s[i] == piece[i]);
    }
    run_before_is(s, sep, n);
    assert(s.take(n as int) =~= piece);
    assert(s.skip(n as int + 1) =~= rest);
}

/// A text without the separator is not cut.
pub proof fn nothing_to_cut<T>(s: Seq<T>, sep: T)
    ensures
        cut(s, sep) is None <==> !s.contains(sep),
        cut(s, sep) matches Some((before, after)) ==> !before.contains(sep) && s == before.push(sep)
            + after,
{
    run_before_stops(s, sep);
    let n = run_before(s, sep);
    if n < s.len() {
        assert(s.contains(s[n as int]));
        assert(s =~= s.take(n as int).push(sep) + s.skip(n as int + 1));
        if s.take(n as int).contains(sep) {
            let i = choose|i: int| 0 <= i < n && s.take(n as int)[i] == sep;
            assert(s[i] == sep);
        }
    }
}

/// Where a pattern stands, and nowhere before, it gives way to what replaces it, and
/// the rest of the text goes on.
pub proof fn the_first_occurrence_is_replaced(
    before: Seq<char>,
    from: Seq<char>,
    after: Seq<char>,
    to: Seq<char>,
)
    requires
        from.len() > 0,
        forall|i: int|
            0 <= i < before.len() ==> #[trigger] (before + from + after).subrange(
                i,
                i + from.len(),
            ) != from,
    ensures
        replaced(before + from + after, from, to) == before + to + replaced(after, from, to),
    decreases before.len(),
{
    let s = before + from + after;
    if before.len() == 0 {
        assert(s.take(from.len() as int) =~= from);
        assert(s.skip(from.len() as int) =~= after);
        assert(before + to + replaced(after, from, to) =~= to + replaced(after, from, to));
    } else {
        let start: int = 0;
        assert(s.take(from.len() as int) =~= s.subrange(start, start + from.len()));
        let rest = before.drop_first();
        let t = rest + from + after;
        assert(s.drop_first() =~= t);
        assert forall|i: int| 0 <= i < rest.len() implies #[trigger] t.subrange(
            i,
            i + from.len(),
        ) != from by {
            let j = i + 1;
            assert(t.subrange(i, i + from.len()) =~= s.subrange(j, j + from.len()));
        }
        the_first_occurrence_is_replaced(rest, from, after, to);
        assert(seq![s[0]] + (rest + to + replaced(after, from, to)) =~= before + to + replaced(
            after,
            from,
            to,
        ));
    }
}

/// A text begins with what stands in front of it, and with nothing else of that
/// length.
pub proof fn texts_begin_with_their_front(front: Seq<char>, other: Seq<char>, rest: Seq<char>)
    ensures
        begins_with(front + rest, front),
        other.len() == front.len() && other != front ==> !begins_with(front + rest, other),
        other.len() > front.len() + rest.len() ==> !begins_with(front + rest, other),
{
    assert((front + rest).take(front.len() as int) =~= front);
}

/// A list of texts is kept in order, and each says its characters.
pub proof fn texts_say_their_characters(v: Seq<String>, i: int)
    requires
        0 <= i < v.len(),
    ensures
        views(v).len() == v.len(),
        views(v)[i] == v[i]@,
{
}

/// Valid UTF-8 holds the characters that it encodes.
pub proof fn valid_text_is_decoded(bytes: Seq<u8>)
    requires
        utf8::valid_utf8(bytes),
    ensures
        text_in(bytes) == utf8::decode_utf8(bytes),
{
}

} // verus!
