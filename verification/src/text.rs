//! Small verified string helpers shared by the rest of the library.

use vstd::prelude::*;
use vstd::string::StrSliceExecFns;

verus! {

/// The Unicode `White_Space` property, which is what `char::is_whitespace`
/// and `str::trim` test for.
pub open spec fn is_white_space(c: char) -> bool {
    let u = c as u32;
    ||| 0x09 <= u <= 0x0d
    ||| u == 0x20
    ||| u == 0x85
    ||| u == 0xa0
    ||| u == 0x1680
    ||| 0x2000 <= u <= 0x200a
    ||| u == 0x2028
    ||| u == 0x2029
    ||| u == 0x202f
    ||| u == 0x205f
    ||| u == 0x3000
}

/// `s` without its leading white space.
pub open spec fn trim_start(s: Seq<char>) -> Seq<char>
    decreases s.len(),
{
    if s.len() > 0 && is_white_space(s[0]) {
        trim_start(s.drop_first())
    } else {
        s
    }
}

/// `s` without its trailing white space.
pub open spec fn trim_end(s: Seq<char>) -> Seq<char>
    decreases s.len(),
{
    if s.len() > 0 && is_white_space(s.last()) {
        trim_end(s.drop_last())
    } else {
        s
    }
}

/// `s` without leading and trailing white space.
pub open spec fn trimmed(s: Seq<char>) -> Seq<char> {
    trim_end(trim_start(s))
}

/// Whether `s` holds nothing but white space.
pub open spec fn is_blank(s: Seq<char>) -> bool {
    forall|i: int| 0 <= i < s.len() ==> is_white_space(#[trigger] s[i])
}

proof fn lemma_trim_start_skip(s: Seq<char>, i: int)
    requires
        0 <= i <= s.len(),
        forall|k: int| 0 <= k < i ==> is_white_space(#[trigger] s[k]),
        i == s.len() || !is_white_space(s[i]),
    ensures
        trim_start(s) == s.skip(i),
    decreases i,
{
    if i == 0 {
        assert(s.skip(0) =~= s);
    } else {
        assert(is_white_space(s[0]));
        let d = s.drop_first();
        assert forall|k: int| 0 <= k < i - 1 implies is_white_space(#[trigger] d[k]) by {
            assert(d[k] == s[k + 1]);
        }
        if i < s.len() {
            assert(d[i - 1] == s[i]);
        }
        lemma_trim_start_skip(d, i - 1);
        assert(d.skip(i - 1) =~= s.skip(i));
    }
}

proof fn lemma_trim_end_take(t: Seq<char>, j: int)
    requires
        0 <= j <= t.len(),
        forall|k: int| j <= k < t.len() ==> is_white_space(#[trigger] t[k]),
        j == 0 || !is_white_space(t[j - 1]),
    ensures
        trim_end(t) == t.take(j),
    decreases t.len() - j,
{
    if j == t.len() {
        assert(t.take(j) =~= t);
        if t.len() > 0 {
            assert(t.last() == t[j - 1]);
        }
    } else {
        assert(is_white_space(t.last()));
        let d = t.drop_last();
        lemma_trim_end_take(d, j);
        assert(d.take(j) =~= t.take(j));
    }
}

/// `str::trim`: the slice of `s` with leading and trailing Unicode white space
/// removed.
pub fn trim(s: &str) -> (r: &str)
    ensures
        r@ == trimmed(s@),
{
    let n = s.unicode_len();
    let mut i: usize = 0;
    while i < n && is_whitespace_char(s.get_char(i))
        invariant
            n == s@.len(),
            i <= n,
            forall|k: int| 0 <= k < i ==> is_white_space(#[trigger] s@[k]),
        decreases n - i,
    {
        i = i + 1;
    }
    let mut j: usize = n;
    while j > i && is_whitespace_char(s.get_char(j - 1))
        invariant
            n == s@.len(),
            i <= j <= n,
            forall|k: int| j <= k < n ==> is_white_space(#[trigger] s@[k]),
        decreases j - i,
    {
        j = j - 1;
    }
    proof {
        lemma_trim_start_skip(s@, i as int);
        let t = s@.skip(i as int);
        assert forall|k: int| j - i <= k < t.len() implies is_white_space(#[trigger] t[k]) by {
            assert(t[k] == s@[k + i]);
        }
        if j > i {
            assert(t[j - i - 1] == s@[j - 1]);
        }
        lemma_trim_end_take(t, j - i);
        assert(t.take(j - i) =~= s@.subrange(i as int, j as int));
    }
    s.substring_char(i, j)
}

/// `String::push`: appends one character.
#[verifier::external_body]
pub fn push_char(s: &mut String, c: char)
    ensures
        final(s)@ == old(s)@.push(c),
{
    s.push(c)
}

pub proof fn lemma_trim_start_blank(s: Seq<char>)
    ensures
        trim_start(s).len() == 0 <==> is_blank(s),
        trim_start(s).len() <= s.len(),
    decreases s.len(),
{
    if s.len() > 0 && is_white_space(s[0]) {
        lemma_trim_start_blank(s.drop_first());
        if is_blank(s.drop_first()) {
            assert forall|i: int| 0 <= i < s.len() implies is_white_space(#[trigger] s[i]) by {
                if i > 0 {
                    assert(s[i] == s.drop_first()[i - 1]);
                }
            }
        }
        if is_blank(s) {
            assert forall|i: int| 0 <= i < s.drop_first().len() implies is_white_space(
                #[trigger] s.drop_first()[i],
            ) by {
                assert(s.drop_first()[i] == s[i + 1]);
            }
        }
    } else if s.len() > 0 {
        assert(!is_white_space(s[0]));
    }
}

pub proof fn lemma_trim_end_empty(s: Seq<char>)
    ensures
        trim_end(s).len() == 0 ==> s.len() == 0 || is_white_space(s[0]),
        s.len() == 0 ==> trim_end(s).len() == 0,
    decreases s.len(),
{
    if s.len() > 0 && is_white_space(s.last()) {
        lemma_trim_end_empty(s.drop_last());
        if s.len() > 1 {
            assert(s.drop_last()[0] == s[0]);
        }
    }
}

/// A trimmed string is empty exactly when the untrimmed one holds only white space.
pub proof fn lemma_trimmed_empty(s: Seq<char>)
    ensures
        trimmed(s).len() == 0 <==> is_blank(s),
{
    lemma_trim_start_blank(s);
    let t = trim_start(s);
    lemma_trim_end_empty(t);
    lemma_trim_start_first(s);
    if t.len() == 0 {
        assert(trim_end(t).len() == 0);
    }
}

proof fn lemma_trim_end_first(s: Seq<char>)
    ensures
        trim_end(s).len() > 0 ==> trim_end(s)[0] == s[0],
    decreases s.len(),
{
    if s.len() > 0 && is_white_space(s.last()) {
        lemma_trim_end_first(s.drop_last());
    }
}

/// Text that is not blank keeps some character other than white space when
/// trimmed.
pub proof fn lemma_trimmed_not_blank(s: Seq<char>)
    requires
        !is_blank(s),
    ensures
        !is_blank(trimmed(s)),
{
    lemma_trimmed_empty(s);
    lemma_trim_start_first(s);
    lemma_trim_end_first(trim_start(s));
    assert(!is_white_space(trimmed(s)[0]));
}

proof fn lemma_trim_start_first(s: Seq<char>)
    ensures
        trim_start(s).len() > 0 ==> !is_white_space(trim_start(s)[0]),
    decreases s.len(),
{
    if s.len() > 0 && is_white_space(s[0]) {
        lemma_trim_start_first(s.drop_first());
    }
}

proof fn lemma_trim_start_blank_prefix(s: Seq<char>, t: Seq<char>)
    requires
        is_blank(s),
    ensures
        trim_start(s + t) == trim_start(t),
    decreases s.len(),
{
    if s.len() == 0 {
        assert(s + t =~= t);
    } else {
        assert((s + t)[0] == s[0]);
        assert(is_white_space(s[0]));
        let d = s.drop_first();
        assert forall|i: int| 0 <= i < d.len() implies is_white_space(#[trigger] d[i]) by {
            assert(d[i] == s[i + 1]);
        }
        assert((s + t).drop_first() =~= d + t);
        lemma_trim_start_blank_prefix(d, t);
    }
}

proof fn lemma_trim_start_append(s: Seq<char>, t: Seq<char>)
    requires
        !is_blank(s),
    ensures
        trim_start(s + t) == trim_start(s) + t,
    decreases s.len(),
{
    assert(s.len() > 0);
    assert((s + t)[0] == s[0]);
    if is_white_space(s[0]) {
        let d = s.drop_first();
        let k = choose|k: int| 0 <= k < s.len() && !is_white_space(#[trigger] s[k]);
        assert(d[k - 1] == s[k]);
        assert((s + t).drop_first() =~= d + t);
        lemma_trim_start_append(d, t);
    }
}

/// Trimming drops every character with the Unicode `White_Space` property
/// (U+0009..U+000D, U+0020, U+0085, U+00A0, U+1680, U+2000..U+200A, U+2028,
/// U+2029, U+202F, U+205F, U+3000) from either end of a text, and keeps any
/// other character that ends it: so a key pasted as `"sk-abc\r\n"` trims to
/// the same text as `"sk-abc"`.
pub proof fn law_trim_drops_white_space(s: Seq<char>, c: char)
    ensures
        ({
            let u = c as u32;
            ||| 0x09 <= u <= 0x0d
            ||| u == 0x20
            ||| u == 0x85
            ||| u == 0xa0
            ||| u == 0x1680
            ||| 0x2000 <= u <= 0x200a
            ||| u == 0x2028
            ||| u == 0x2029
            ||| u == 0x202f
            ||| u == 0x205f
            ||| u == 0x3000
        }) ==> trimmed(seq![c] + s) == trimmed(s) && trimmed(s.push(c)) == trimmed(s),
        !({
            let u = c as u32;
            ||| 0x09 <= u <= 0x0d
            ||| u == 0x20
            ||| u == 0x85
            ||| u == 0xa0
            ||| u == 0x1680
            ||| 0x2000 <= u <= 0x200a
            ||| u == 0x2028
            ||| u == 0x2029
            ||| u == 0x202f
            ||| u == 0x205f
            ||| u == 0x3000
        }) ==> trimmed(s.push(c)).len() > 0 && trimmed(s.push(c)).last() == c && trimmed(seq![c] + s)[0] == c,
        trimmed(s + seq!['\r', '\n']) == trimmed(s),
        trimmed(s + seq!['\r']) == trimmed(s),
{
    lemma_trim_end_of_push(s, '\r');
    lemma_trim_end_of_push(s.push('\r'), '\n');
    assert(s + seq!['\r', '\n'] =~= s.push('\r').push('\n'));
    assert(s + seq!['\r'] =~= s.push('\r'));
    lemma_trim_end_of_push(s, c);
    lemma_trim_start_of_front(s, c);
}

proof fn lemma_trim_start_of_front(s: Seq<char>, c: char)
    ensures
        is_white_space(c) ==> trimmed(seq![c] + s) == trimmed(s),
        !is_white_space(c) ==> trimmed(seq![c] + s).len() > 0 && trimmed(seq![c] + s)[0] == c,
{
    let t = seq![c] + s;
    assert(t[0] == c);
    assert(t.drop_first() =~= s);
    if !is_white_space(c) {
        assert(trim_start(t) == t);
        lemma_trim_end_first(t);
        lemma_trimmed_empty(t);
        assert(!is_blank(t)) by {
            assert(!is_white_space(t[0]));
        }
    }
}

proof fn lemma_trim_end_of_push(s: Seq<char>, c: char)
    ensures
        is_white_space(c) ==> trimmed(s.push(c)) == trimmed(s),
        !is_white_space(c) ==> trimmed(s.push(c)).len() > 0 && trimmed(s.push(c)).last() == c,
{
    let t = s.push(c);
    assert(t =~= s + seq![c]);
    if is_blank(s) {
        lemma_trim_start_blank_prefix(s, seq![c]);
        lemma_trim_start_blank(s);
        let one = seq![c];
        assert(one.drop_first() =~= Seq::<char>::empty());
        assert(trim_start(Seq::<char>::empty()) == Seq::<char>::empty());
        if is_white_space(c) {
            assert(trim_start(one) == trim_start(one.drop_first()));
            assert(trim_end(Seq::<char>::empty()) == Seq::<char>::empty());
            assert(trim_start(s) =~= Seq::<char>::empty());
        } else {
            assert(trim_start(one) == one);
            assert(trim_end(one) == one);
        }
    } else {
        lemma_trim_start_append(s, seq![c]);
        let u = trim_start(s);
        let v = u + seq![c];
        assert(v.last() == c);
        assert(v.drop_last() =~= u);
        if !is_white_space(c) {
            assert(trim_end(v) == v);
        }
    }
}

/// Whether two strings hold the same characters.
pub fn str_eq(a: &str, b: &str) -> (r: bool)
    ensures
        r == (a@ == b@),
{
    let x = a.as_bytes();
    let y = b.as_bytes();
    proof {
        vstd::utf8::encode_utf8_decode_utf8(a@);
        vstd::utf8::encode_utf8_decode_utf8(b@);
    }
    if x.len() != y.len() {
        return false;
    }
    let n = x.len();
    let mut i: usize = 0;
    while i < n
        invariant
            n == x@.len(),
            n == y@.len(),
            x@ == vstd::utf8::encode_utf8(a@),
            y@ == vstd::utf8::encode_utf8(b@),
            i <= n,
            forall|j: int| 0 <= j < i ==> x@[j] == y@[j],
        decreases n - i,
    {
        if x[i] != y[i] {
            return false;
        }
        i = i + 1;
    }
    assert(x@ =~= y@);
    true
}

/// A `String` with the characters of `s`.
pub fn to_string(s: &str) -> (r: String)
    ensures
        r@ == s@,
{
    s.to_owned()
}

/// `a` followed by `b`.
pub fn concat_str(a: &str, b: &str) -> (r: String)
    ensures
        r@ == a@ + b@,
{
    let mut r = a.to_owned();
    r.append(b);
    r
}

/// Whether `s` ends with `suffix`.
pub open spec fn ends_with_spec(s: Seq<char>, suffix: Seq<char>) -> bool {
    suffix.len() <= s.len() && s.subrange(s.len() - suffix.len(), s.len() as int) == suffix
}

/// `str::ends_with` for a string pattern.
pub fn ends_with(s: &str, suffix: &str) -> (r: bool)
    ensures
        r == ends_with_spec(s@, suffix@),
{
    let n = s.unicode_len();
    let m = suffix.unicode_len();
    if m > n {
        return false;
    }
    let mut i: usize = 0;
    while i < m
        invariant
            n == s@.len(),
            m == suffix@.len(),
            m <= n,
            i <= m,
            forall|j: int| 0 <= j < i ==> s@[n - m + j] == suffix@[j],
        decreases m - i,
    {
        if s.get_char(n - m + i) != suffix.get_char(i) {
            assert(s@.subrange(n - m, n as int)[i as int] != suffix@[i as int]);
            return false;
        }
        i = i + 1;
    }
    assert(s@.subrange(n - m, n as int) =~= suffix@);
    true
}

/// The characters of `s`, in order.
pub fn chars_of(s: &str) -> (r: Vec<char>)
    ensures
        r@ == s@,
{
    let mut r: Vec<char> = Vec::new();
    for c in it: s.chars()
        invariant
            r@ == it.seq().take(it.index() as int),
    {
        r.push(c);
    }
    r
}

/// The character of decimal digit `d`.
pub open spec fn digit_char(d: int) -> char {
    (48 + d) as char
}

/// Decimal digits of `n`, most significant first, without leading zeros.
pub open spec fn digits(n: nat) -> Seq<char>
    decreases n,
{
    if n < 10 {
        seq![digit_char(n as int)]
    } else {
        digits(n / 10).push(digit_char((n % 10) as int))
    }
}

/// `n` written in decimal, with a leading `-` when negative, as `Display`
/// writes integers.
pub open spec fn decimal(n: int) -> Seq<char> {
    if n < 0 {
        seq!['-'] + digits((-n) as nat)
    } else {
        digits(n as nat)
    }
}

fn push_digits(s: &mut String, n: u32)
    ensures
        final(s)@ == old(s)@ + digits(n as nat),
    decreases n,
{
    if n >= 10 {
        push_digits(s, n / 10);
    }
    let d: u8 = (n % 10) as u8;
    push_char(s, (48u8 + d) as char);
    proof {
        assert(final(s)@ =~= old(s)@ + digits(n as nat));
    }
}

/// Append `n` in decimal to `s`.
pub fn push_decimal(s: &mut String, n: i32)
    ensures
        final(s)@ == old(s)@ + decimal(n as int),
{
    if n < 0 {
        push_char(s, '-');
        let m: i64 = n as i64;
        push_digits(s, (-m) as u32);
        proof {
            assert(final(s)@ =~= old(s)@ + decimal(n as int));
        }
    } else {
        push_digits(s, n as u32);
    }
}

/// A `String` holding `v[lo..hi]`.
pub fn string_from_chars(v: &Vec<char>, lo: usize, hi: usize) -> (r: String)
    requires
        lo <= hi <= v@.len(),
    ensures
        r@ == v@.subrange(lo as int, hi as int),
{
    let mut r = String::new();
    let mut i = lo;
    while i < hi
        invariant
            lo <= i <= hi,
            hi <= v@.len(),
            r@ == v@.subrange(lo as int, i as int),
        decreases hi - i,
    {
        push_char(&mut r, v[i]);
        i = i + 1;
        assert(r@ =~= v@.subrange(lo as int, i as int));
    }
    r
}

/// Length of the first line of `s`: the index of the first `\n`, or the
/// length of `s` when there is none.
pub open spec fn line_end(s: Seq<char>) -> nat
    decreases s.len(),
{
    if s.len() == 0 || s[0] == '\n' {
        0
    } else {
        1 + line_end(s.drop_first())
    }
}

/// `line` without one trailing `\r`.
pub open spec fn strip_cr(line: Seq<char>) -> Seq<char> {
    if line.len() > 0 && line.last() == '\r' {
        line.drop_last()
    } else {
        line
    }
}

/// The lines of `s`, as `str::lines` gives them: split at each `\n`, one
/// `\r` before a `\n` dropped, and no empty line after a final `\n`.
pub open spec fn lines(s: Seq<char>) -> Seq<Seq<char>>
    decreases s.len(),
{
    if s.len() == 0 {
        Seq::empty()
    } else {
        let k = line_end(s);
        if k < s.len() {
            seq![strip_cr(s.take(k as int))] + lines(s.skip((k + 1) as int))
        } else {
            seq![s]
        }
    }
}

proof fn lemma_line_end(s: Seq<char>, j: int)
    requires
        0 <= j <= s.len(),
        j < s.len() ==> s[j] == '\n',
        forall|i: int| 0 <= i < j ==> s[i] != '\n',
    ensures
        line_end(s) == j,
    decreases j,
{
    if j > 0 {
        assert(s[0] != '\n');
        lemma_line_end(s.drop_first(), j - 1);
    }
}

/// The character views of a list of strings.
pub open spec fn views(v: Seq<String>) -> Seq<Seq<char>> {
    v.map_values(|a: String| a@)
}

/// Split `s` into lines, as `str::lines` does.
pub fn split_lines(s: &str) -> (r: Vec<String>)
    ensures
        views(r@) == lines(s@),
{
    let v = chars_of(s);
    let n = v.len();
    let mut out: Vec<String> = Vec::new();
    let mut start: usize = 0;
    let mut j: usize = 0;
    proof {
        assert(s@.skip(0) =~= s@);
        assert(views(out@) + lines(s@.skip(0)) =~= lines(s@));
    }
    while j < n
        invariant
            v@ == s@,
            n == v@.len(),
            start <= j <= n,
            forall|i: int| start <= i < j ==> v@[i] != '\n',
            views(out@) + lines(s@.skip(start as int)) == lines(s@),
        decreases n - j,
    {
        if v[j] == '\n' {
            let ghost rest = s@.skip(start as int);
            proof {
                lemma_line_end(rest, j - start);
                assert(rest.skip(j - start + 1) =~= s@.skip(j + 1));
                assert(rest.take(j - start) =~= s@.subrange(start as int, j as int));
            }
            let mut line_stop = j;
            if line_stop > start && v[line_stop - 1] == '\r' {
                line_stop = line_stop - 1;
            }
            let line = string_from_chars(&v, start, line_stop);
            proof {
                assert(line@ == strip_cr(rest.take(j - start)));
            }
            let ghost before = out@;
            out.push(line);
            proof {
                assert(views(out@) =~= views(before).push(line@));
                assert(lines(rest) == seq![strip_cr(rest.take(j - start))] + lines(rest.skip(j - start + 1)));
            }
            start = j + 1;
            j = j + 1;
            proof {
                assert(views(out@) + lines(s@.skip(start as int)) =~= lines(s@));
            }
        } else {
            j = j + 1;
        }
    }
    if start < n {
        let ghost rest = s@.skip(start as int);
        proof {
            lemma_line_end(rest, n - start);
        }
        let line = string_from_chars(&v, start, n);
        proof {
            assert(line@ =~= rest);
        }
        let ghost before = out@;
        out.push(line);
        proof {
            assert(views(out@) =~= views(before).push(line@));
            assert(lines(rest) == seq![rest]);
            assert(views(out@) =~= lines(s@));
        }
    } else {
        proof {
            assert(s@.skip(start as int) =~= Seq::<char>::empty());
            assert(views(out@) =~= lines(s@));
        }
    }
    out
}

/// Length of the first word of `s`: the index of the first white-space
/// character, or the length of `s` when there is none.
pub open spec fn word_end(s: Seq<char>) -> nat
    decreases s.len(),
{
    if s.len() == 0 || is_white_space(s[0]) {
        0
    } else {
        1 + word_end(s.drop_first())
    }
}

/// The words of `s`, as `str::split_whitespace` gives them: the non-empty
/// runs of characters between white space.
pub open spec fn words(s: Seq<char>) -> Seq<Seq<char>>
    decreases s.len(),
{
    if s.len() == 0 {
        Seq::empty()
    } else if is_white_space(s[0]) {
        words(s.drop_first())
    } else {
        let k = word_end(s);
        proof {
            lemma_word_end_le(s);
        }
        if k < 1 {
            Seq::empty()
        } else {
            seq![s.take(k as int)] + words(s.skip(k as int))
        }
    }
}

pub proof fn lemma_word_end_le(s: Seq<char>)
    ensures
        word_end(s) <= s.len(),
    decreases s.len(),
{
    if s.len() > 0 && !is_white_space(s[0]) {
        lemma_word_end_le(s.drop_first());
    }
}

proof fn lemma_word_end(s: Seq<char>, j: int)
    requires
        0 <= j <= s.len(),
        j < s.len() ==> is_white_space(s[j]),
        forall|i: int| 0 <= i < j ==> !is_white_space(s[i]),
    ensures
        word_end(s) == j,
    decreases j,
{
    if j > 0 {
        assert(!is_white_space(s[0]));
        lemma_word_end(s.drop_first(), j - 1);
    }
}

/// Split `s` at white space, as `str::split_whitespace` does.
pub fn split_words(s: &str) -> (r: Vec<String>)
    ensures
        views(r@) == words(s@),
{
    let v = chars_of(s);
    let n = v.len();
    let mut out: Vec<String> = Vec::new();
    let mut pos: usize = 0;
    proof {
        assert(s@.skip(0) =~= s@);
        assert(views(out@) + words(s@.skip(0)) =~= words(s@));
    }
    while pos < n
        invariant
            v@ == s@,
            n == v@.len(),
            pos <= n,
            views(out@) + words(s@.skip(pos as int)) == words(s@),
        decreases n - pos,
    {
        let ghost rest = s@.skip(pos as int);
        if is_whitespace_char(v[pos]) {
            proof {
                assert(rest.drop_first() =~= s@.skip(pos + 1));
            }
            pos = pos + 1;
        } else {
            let mut e = pos + 1;
            while e < n && !is_whitespace_char(v[e])
                invariant
                    v@ == s@,
                    n == v@.len(),
                    pos < e <= n,
                    forall|i: int| pos <= i < e ==> !is_white_space(v@[i]),
                decreases n - e,
            {
                e = e + 1;
            }
            proof {
                lemma_word_end(rest, e - pos);
                assert(rest.skip(e - pos) =~= s@.skip(e as int));
                assert(rest.take(e - pos) =~= s@.subrange(pos as int, e as int));
            }
            let word = string_from_chars(&v, pos, e);
            let ghost before = out@;
            out.push(word);
            proof {
                assert(views(out@) =~= views(before).push(word@));
                assert(words(rest) == seq![rest.take(e - pos)] + words(rest.skip(e - pos)));
            }
            pos = e;
            proof {
                assert(views(out@) + words(s@.skip(pos as int)) =~= words(s@));
            }
        }
    }
    proof {
        assert(s@.skip(pos as int) =~= Seq::<char>::empty());
        assert(views(out@) =~= words(s@));
    }
    out
}

/// `char::is_whitespace`: whether `c` has the Unicode `White_Space` property.
pub fn is_whitespace_char(c: char) -> (r: bool)
    ensures
        r == is_white_space(c),
{
    let u = c as u32;
    (0x09 <= u && u <= 0x0d) || u == 0x20 || u == 0x85 || u == 0xa0 || u == 0x1680 || (0x2000
        <= u && u <= 0x200a) || u == 0x2028 || u == 0x2029 || u == 0x202f || u == 0x205f || u
        == 0x3000
}

/// Length of the part of `s` before the first two consecutive spaces, or
/// the length of `s` when there are none.
pub open spec fn field_end(s: Seq<char>) -> nat
    decreases s.len(),
{
    if s.len() < 2 {
        s.len()
    } else if s[0] == ' ' && s[1] == ' ' {
        0
    } else {
        1 + field_end(s.drop_first())
    }
}

/// Whether two spaces start at index `i` of `s`.
pub open spec fn double_space_at(s: Seq<char>, i: int) -> bool {
    0 <= i && i + 1 < s.len() && s[i] == ' ' && s[i + 1] == ' '
}

proof fn lemma_field_end(s: Seq<char>, j: int)
    requires
        0 <= j <= s.len(),
        j + 1 < s.len() ==> double_space_at(s, j),
        j + 1 >= s.len() ==> j == s.len(),
        forall|i: int| 0 <= i < j ==> !#[trigger] double_space_at(s, i),
    ensures
        field_end(s) == j,
    decreases j,
{
    if j > 0 && s.len() >= 2 {
        assert(!double_space_at(s, 0));
        assert forall|i: int| 0 <= i < j - 1 implies !#[trigger] double_space_at(s.drop_first(), i) by {
            assert(!double_space_at(s, i + 1));
        }
        if j - 1 + 1 < s.drop_first().len() {
            assert(double_space_at(s, j));
        }
        lemma_field_end(s.drop_first(), j - 1);
    }
}

/// The part of `s` before the first two consecutive spaces, as
/// `s.split("  ").next()` gives it.
pub fn before_double_space(s: &str) -> (r: String)
    ensures
        r@ == s@.take(field_end(s@) as int),
{
    let v = chars_of(s);
    let n = v.len();
    let mut j: usize = 0;
    while j < n && j + 1 < n && !(v[j] == ' ' && v[j + 1] == ' ')
        invariant
            v@ == s@,
            n == v@.len(),
            j <= n,
            forall|i: int| 0 <= i < j ==> !#[trigger] double_space_at(s@, i),
        decreases n - j,
    {
        j = j + 1;
    }
    let stop = if j < n && j + 1 < n { j } else { n };
    proof {
        lemma_field_end(s@, stop as int);
    }
    string_from_chars(&v, 0, stop)
}

} // verus!
