//! Text as sequences of characters.
use vstd::prelude::*;

verus! {

/// `String::push` appends one character.
pub assume_specification[ String::push ](s: &mut String, c: char)
    ensures
        final(s)@ == old(s)@.push(c),
;

/// The characters of a text.
pub fn chars_of(s: &str) -> (r: Vec<char>)
    ensures
        r@ == s@,
{
    let mut r: Vec<char> = Vec::new();
    for c in it: s.chars()
        invariant
            r@ == it.seq().take(it.index() as int),
            it.seq() == s@,
    {
        assert(it.seq().take(it.index() as int + 1) =~= it.seq().take(it.index() as int).push(c));
        r.push(c);
    }
    assert(r@ =~= s@);
    r
}

/// The text made of the characters `from..to` of `v`.
pub fn text_of(v: &Vec<char>, from: usize, to: usize) -> (r: String)
    requires
        from <= to <= v.len(),
    ensures
        r@ == v@.subrange(from as int, to as int),
{
    let mut r = String::new();
    let mut i: usize = from;
    while i < to
        invariant
            from <= i <= to <= v.len(),
            r@ == v@.subrange(from as int, i as int),
        decreases to - i,
    {
        assert(v@.subrange(from as int, i as int + 1) =~= v@.subrange(from as int, i as int).push(v[i as int]));
        r.push(v[i]);
        i = i + 1;
    }
    r
}

/// Whether two texts are equal.
pub fn same(a: &str, b: &str) -> (r: bool)
    ensures
        r == (a@ == b@),
{
    let x = chars_of(a);
    let y = chars_of(b);
    if x.len() != y.len() {
        return false;
    }
    let mut i: usize = 0;
    while i < x.len()
        invariant
            i <= x.len(),
            x.len() == y.len(),
            x@ == a@,
            y@ == b@,
            forall|j: int| 0 <= j < i ==> x[j] == y[j],
        decreases x.len() - i,
    {
        if x[i] != y[i] {
            return false;
        }
        i = i + 1;
    }
    assert(a@ =~= b@);
    true
}


/// Appends a copy of `b` to a copy of `a`.
pub fn joined(a: &str, b: &str) -> (r: String)
    ensures
        r@ == a@ + b@,
{
    let mut r = a.to_owned();
    r.append(b);
    r
}

/// The characters with the Unicode property White_Space.
pub open spec fn is_space(c: char) -> bool {
    ||| '\u{9}' <= c <= '\u{d}'
    ||| c == ' '
    ||| c == '\u{85}'
    ||| c == '\u{a0}'
    ||| c == '\u{1680}'
    ||| '\u{2000}' <= c <= '\u{200a}'
    ||| c == '\u{2028}'
    ||| c == '\u{2029}'
    ||| c == '\u{202f}'
    ||| c == '\u{205f}'
    ||| c == '\u{3000}'
}

fn space(c: char) -> (r: bool)
    ensures
        r == is_space(c),
{
    ('\u{9}' <= c && c <= '\u{d}') || c == ' ' || c == '\u{85}' || c == '\u{a0}' || c == '\u{1680}' || (
    '\u{2000}' <= c && c <= '\u{200a}') || c == '\u{2028}' || c == '\u{2029}' || c == '\u{202f}' || c
        == '\u{205f}' || c == '\u{3000}'
}

/// The text without the white space that it starts with.
pub open spec fn trimmed_start(s: Seq<char>) -> Seq<char>
    decreases s.len(),
{
    if s.len() > 0 && is_space(s[0]) {
        trimmed_start(s.skip(1))
    } else {
        s
    }
}

/// The text without the white space that it ends with.
pub open spec fn trimmed_end(s: Seq<char>) -> Seq<char>
    decreases s.len(),
{
    if s.len() > 0 && is_space(s.last()) {
        trimmed_end(s.drop_last())
    } else {
        s
    }
}

/// The text without the white space around it.
pub open spec fn trimmed(s: Seq<char>) -> Seq<char> {
    trimmed_end(trimmed_start(s))
}

proof fn lemma_trimmed_start_stops(s: Seq<char>)
    ensures
        trimmed_start(s).len() > 0 ==> !is_space(trimmed_start(s)[0]),
    decreases s.len(),
{
    if s.len() > 0 && is_space(s[0]) {
        lemma_trimmed_start_stops(s.skip(1));
    }
}

proof fn lemma_trimmed_end_stops(s: Seq<char>)
    ensures
        trimmed_end(s).len() > 0 ==> !is_space(trimmed_end(s).last()) && trimmed_end(s)[0] == s[0],
    decreases s.len(),
{
    if s.len() > 0 && is_space(s.last()) {
        lemma_trimmed_end_stops(s.drop_last());
    }
}

/// A text without white space around it is left as it is.
pub proof fn lemma_trimmed_twice(s: Seq<char>)
    ensures
        trimmed(trimmed(s)) == trimmed(s),
{
    lemma_trimmed_start_stops(s);
    lemma_trimmed_end_stops(trimmed_start(s));
}

/// Removes the white space around a text.
pub fn trim(s: &str) -> (r: String)
    ensures
        r@ == trimmed(s@),
{
    let v = chars_of(s);
    let n: usize = v.len();
    let mut a: usize = 0;
    assert(s@.skip(0) =~= s@);
    while a < n && space(v[a])
        invariant
            a <= n == v.len(),
            v@ == s@,
            trimmed_start(s@) == trimmed_start(s@.skip(a as int)),
        decreases n - a,
    {
        assert(s@.skip(a as int).skip(1) =~= s@.skip(a as int + 1));
        a = a + 1;
    }
    let ghost tail = s@.skip(a as int);
    assert(trimmed_start(s@) == tail);
    let mut b: usize = n;
    while b > a && space(v[b - 1])
        invariant
            a <= b <= n == v.len(),
            v@ == s@,
            tail == s@.skip(a as int),
            trimmed_end(tail) == trimmed_end(s@.subrange(a as int, b as int)),
        decreases b,
    {
        assert(s@.subrange(a as int, b as int).drop_last() =~= s@.subrange(a as int, b as int - 1));
        b = b - 1;
    }
    text_of(&v, a, b)
}

/// The upper case of an ASCII letter; any other character itself.
pub open spec fn ascii_upper(c: char) -> char {
    if 'a' <= c <= 'z' {
        ((c as u8) - 32) as char
    } else {
        c
    }
}

/// The lower case of an ASCII letter; any other character itself.
pub open spec fn ascii_lower(c: char) -> char {
    if 'A' <= c <= 'Z' {
        ((c as u8) + 32) as char
    } else {
        c
    }
}

/// The text with its ASCII letters in upper case.
pub open spec fn ascii_uppercase(s: Seq<char>) -> Seq<char> {
    Seq::new(s.len(), |i: int| ascii_upper(s[i]))
}

/// The text with its ASCII letters in lower case.
pub open spec fn ascii_lowercase(s: Seq<char>) -> Seq<char> {
    Seq::new(s.len(), |i: int| ascii_lower(s[i]))
}

/// Puts the ASCII letters of a text in upper case.
pub fn to_ascii_upper(s: &str) -> (r: String)
    ensures
        r@ == ascii_uppercase(s@),
{
    let v = chars_of(s);
    let mut r = String::new();
    let mut i: usize = 0;
    while i < v.len()
        invariant
            i <= v.len(),
            v@ == s@,
            r@ == ascii_uppercase(s@).take(i as int),
        decreases v.len() - i,
    {
        let c = v[i];
        let u = if 'a' <= c && c <= 'z' {
            ((c as u8) - 32) as char
        } else {
            c
        };
        assert(ascii_uppercase(s@).take(i as int + 1) =~= ascii_uppercase(s@).take(i as int).push(u));
        r.push(u);
        i = i + 1;
    }
    assert(r@ =~= ascii_uppercase(s@));
    r
}

/// Puts the ASCII letters of a text in lower case.
pub fn to_ascii_lower(s: &str) -> (r: String)
    ensures
        r@ == ascii_lowercase(s@),
{
    let v = chars_of(s);
    let mut r = String::new();
    let mut i: usize = 0;
    while i < v.len()
        invariant
            i <= v.len(),
            v@ == s@,
            r@ == ascii_lowercase(s@).take(i as int),
        decreases v.len() - i,
    {
        let c = v[i];
        let u = if 'A' <= c && c <= 'Z' {
            ((c as u8) + 32) as char
        } else {
            c
        };
        assert(ascii_lowercase(s@).take(i as int + 1) =~= ascii_lowercase(s@).take(i as int).push(u));
        r.push(u);
        i = i + 1;
    }
    assert(r@ =~= ascii_lowercase(s@));
    r
}

/// Whether two texts are equal up to the case of their ASCII letters.
pub fn same_ignoring_ascii_case(a: &str, b: &str) -> (r: bool)
    ensures
        r == (ascii_lowercase(a@) == ascii_lowercase(b@)),
{
    let x = to_ascii_lower(a);
    let y = to_ascii_lower(b);
    same(x.as_str(), y.as_str())
}

/// What `str::to_lowercase` makes of a text.
pub uninterp spec fn lowercase(s: Seq<char>) -> Seq<char>;

/// `str::to_lowercase` puts a text in lower case by the Unicode tables, which
/// depend on nothing but the text; of ASCII text they change the letters alone.
#[verifier::external_body]
pub(crate) fn to_lower(s: &str) -> (r: String)
    ensures
        r@ == lowercase(s@),
        vstd::utf8::is_ascii_chars(s@) ==> r@ == ascii_lowercase(s@),
{
    s.to_lowercase()
}

/// What `str::to_uppercase` makes of a text.
pub uninterp spec fn uppercase(s: Seq<char>) -> Seq<char>;

/// `str::to_uppercase` puts a text in upper case by the Unicode tables, which
/// depend on nothing but the text; of ASCII text they change the letters alone.
#[verifier::external_body]
pub(crate) fn to_upper(s: &str) -> (r: String)
    ensures
        r@ == uppercase(s@),
        vstd::utf8::is_ascii_chars(s@) ==> r@ == ascii_uppercase(s@),
{
    s.to_uppercase()
}

/// `needle` stands in `s` at position `i`.
pub open spec fn occurs_at(s: Seq<char>, needle: Seq<char>, i: int) -> bool {
    0 <= i && i + needle.len() <= s.len() && s.subrange(i, i + needle.len()) == needle
}

/// `needle` stands somewhere in `s`.
pub open spec fn has_text(s: Seq<char>, needle: Seq<char>) -> bool {
    exists|i: int| occurs_at(s, needle, i)
}

/// Whether `needle` stands in `v` at position `i`.
fn stands_at(v: &Vec<char>, needle: &Vec<char>, i: usize) -> (r: bool)
    requires
        i <= v.len(),
    ensures
        r == occurs_at(v@, needle@, i as int),
{
    if needle.len() > v.len() - i {
        return false;
    }
    let mut j: usize = 0;
    while j < needle.len()
        invariant
            j <= needle.len(),
            i + needle.len() <= v.len(),
            forall|k: int| 0 <= k < j ==> v[i + k] == #[trigger] needle[k],
        decreases needle.len() - j,
    {
        if v[i + j] != needle[j] {
            assert(v@.subrange(i as int, i + needle.len())[j as int] != needle@[j as int]);
            return false;
        }
        j = j + 1;
    }
    assert(v@.subrange(i as int, i + needle.len()) =~= needle@);
    true
}

/// The first position at which `needle` stands in `s`.
pub fn find(s: &str, needle: &str) -> (r: Option<usize>)
    ensures
        match r {
            Some(i) => occurs_at(s@, needle@, i as int) && forall|j: int|
                0 <= j < i ==> !occurs_at(s@, needle@, j),
            None => !has_text(s@, needle@),
        },
{
    let v = chars_of(s);
    let w = chars_of(needle);
    let n: usize = v.len();
    let mut i: usize = 0;
    loop
        invariant
            i <= n == v.len(),
            v@ == s@,
            w@ == needle@,
            forall|j: int| 0 <= j < i ==> !occurs_at(s@, needle@, j),
        decreases n - i,
    {
        if stands_at(&v, &w, i) {
            return Some(i);
        }
        if i == n {
            return None;
        }
        i = i + 1;
    }
}

/// Whether `needle` stands somewhere in `s`.
pub fn contains(s: &str, needle: &str) -> (r: bool)
    ensures
        r == has_text(s@, needle@),
{
    find(s, needle).is_some()
}

/// Whether `s` starts with `prefix`.
pub fn starts_with(s: &str, prefix: &str) -> (r: bool)
    ensures
        r == occurs_at(s@, prefix@, 0),
{
    let v = chars_of(s);
    let w = chars_of(prefix);
    stands_at(&v, &w, 0)
}

/// At most the first `n` characters.
pub open spec fn first_chars(s: Seq<char>, n: nat) -> Seq<char> {
    if s.len() <= n {
        s
    } else {
        s.take(n as int)
    }
}

/// At most the first `n` characters of a text.
pub fn take_chars(s: &str, n: usize) -> (r: String)
    ensures
        r@ == first_chars(s@, n as nat),
{
    let v = chars_of(s);
    let to: usize = if v.len() <= n {
        v.len()
    } else {
        n
    };
    let r = text_of(&v, 0, to);
    assert(r@ =~= first_chars(s@, n as nat));
    r
}

/// The position of the first `c` in `s`, or the length of `s`.
pub open spec fn first_position(s: Seq<char>, c: char) -> int
    decreases s.len(),
{
    if s.len() == 0 || s[0] == c {
        0
    } else {
        1 + first_position(s.skip(1), c)
    }
}

/// The first `c` of a text is where the text first holds `c`.
pub proof fn lemma_first_position(s: Seq<char>, c: char)
    ensures
        0 <= first_position(s, c) <= s.len(),
        first_position(s, c) < s.len() ==> s[first_position(s, c)] == c,
        forall|i: int| 0 <= i < first_position(s, c) ==> s[i] != c,
    decreases s.len(),
{
    if s.len() > 0 && s[0] != c {
        lemma_first_position(s.skip(1), c);
        assert forall|i: int| 0 <= i < first_position(s, c) implies s[i] != c by {
            if i > 0 {
                assert(s[i] == s.skip(1)[i - 1]);
            }
        }
    }
}

fn position_from(v: &Vec<char>, from: usize, c: char) -> (r: usize)
    requires
        from <= v.len(),
    ensures
        from <= r <= v.len(),
        r == from + first_position(v@.skip(from as int), c),
{
    let mut i: usize = from;
    while i < v.len() && v[i] != c
        invariant
            from <= i <= v.len(),
            first_position(v@.skip(from as int), c) == i - from + first_position(v@.skip(i as int), c),
        decreases v.len() - i,
    {
        assert(v@.skip(i as int).skip(1) =~= v@.skip(i as int + 1));
        i = i + 1;
    }
    i
}

/// What stands before the first `c` and what stands after it.
pub open spec fn cut_at(s: Seq<char>, c: char) -> Option<(Seq<char>, Seq<char>)> {
    let p = first_position(s, c);
    if p < s.len() {
        Some((s.take(p), s.skip(p + 1)))
    } else {
        None
    }
}

/// Cuts a text at the first `c`.
pub fn split_once(s: &str, c: char) -> (r: Option<(String, String)>)
    ensures
        match r {
            Some((a, b)) => cut_at(s@, c) == Some((a@, b@)),
            None => cut_at(s@, c) is None,
        },
{
    let v = chars_of(s);
    assert(v@.skip(0) =~= s@);
    let p = position_from(&v, 0, c);
    if p < v.len() {
        let a = text_of(&v, 0, p);
        let b = text_of(&v, p + 1, v.len());
        assert(a@ =~= s@.take(p as int));
        assert(b@ =~= s@.skip(p as int + 1));
        Some((a, b))
    } else {
        None
    }
}

/// The pieces of a text between the occurrences of `c`.
pub open spec fn pieces(s: Seq<char>, c: char) -> Seq<Seq<char>>
    decreases s.len(),
{
    match cut_at(s, c) {
        None => seq![s],
        Some((a, b)) => {
            proof {
                lemma_first_position(s, c);
            }
            seq![a] + pieces(b, c)
        },
    }
}

/// The contents of a list of texts.
pub open spec fn views(v: Seq<String>) -> Seq<Seq<char>> {
    Seq::new(v.len(), |i: int| v[i]@)
}

/// Splits a text at every `c`.
pub fn split(s: &str, c: char) -> (r: Vec<String>)
    ensures
        views(r@) == pieces(s@, c),
{
    let v = chars_of(s);
    let mut r: Vec<String> = Vec::new();
    let mut from: usize = 0;
    assert(v@.skip(0) =~= s@);
    assert(views(r@) + pieces(s@, c) =~= pieces(s@, c));
    loop
        invariant
            from <= v.len(),
            v@ == s@,
            views(r@) + pieces(v@.skip(from as int), c) == pieces(s@, c),
        decreases v.len() - from,
    {
        let ghost rest = v@.skip(from as int);
        let p = position_from(&v, from, c);
        let piece = text_of(&v, from, p);
        let ghost before = r@;
        r.push(piece);
        proof {
            lemma_first_position(rest, c);
            assert(views(r@) =~= views(before).push(piece@));
            assert(piece@ =~= rest.take(p - from));
        }
        if p == v.len() {
            assert(rest.take(p - from) =~= rest);
            assert(views(before) + seq![rest] =~= views(r@));
            return r;
        }
        proof {
            assert(rest.skip(p - from + 1) =~= v@.skip(p as int + 1));
            assert(views(before) + (seq![piece@] + pieces(v@.skip(p as int + 1), c)) =~= views(r@)
                + pieces(v@.skip(p as int + 1), c));
        }
        from = p + 1;
    }
}

/// The texts one after the other with `sep` between them.
pub open spec fn join_views(parts: Seq<Seq<char>>, sep: Seq<char>) -> Seq<char>
    decreases parts.len(),
{
    if parts.len() == 0 {
        Seq::empty()
    } else if parts.len() == 1 {
        parts[0]
    } else {
        join_views(parts.drop_last(), sep) + sep + parts.last()
    }
}

/// Joins texts with `sep` between them.
pub fn join(parts: &Vec<String>, sep: &str) -> (r: String)
    ensures
        r@ == join_views(views(parts@), sep@),
{
    let mut r = String::new();
    let mut i: usize = 0;
    while i < parts.len()
        invariant
            i <= parts.len(),
            r@ == join_views(views(parts@).take(i as int), sep@),
        decreases parts.len() - i,
    {
        let ghost upto = views(parts@).take(i as int + 1);
        assert(upto.drop_last() =~= views(parts@).take(i as int));
        if i > 0 {
            r.append(sep);
        }
        r.append(parts[i].as_str());
        proof {
            if i == 0 {
                assert(r@ =~= upto[0]);
            } else {
                assert(upto.last() == parts[i as int]@);
            }
        }
        i = i + 1;
    }
    assert(views(parts@).take(i as int) =~= views(parts@));
    r
}

/// The decimal digit of a number below ten.
pub open spec fn digit(d: nat) -> char {
    (48 + d) as u8 as char
}

/// A natural number in decimal notation.
pub open spec fn decimal_nat(n: nat) -> Seq<char>
    decreases n,
{
    if n < 10 {
        seq![digit(n)]
    } else {
        decimal_nat(n / 10).push(digit(n % 10))
    }
}

/// An integer in decimal notation.
pub open spec fn decimal(i: int) -> Seq<char> {
    if i < 0 {
        seq!['-'] + decimal_nat((-i) as nat)
    } else {
        decimal_nat(i as nat)
    }
}

fn push_decimal(s: &mut String, n: u64)
    ensures
        final(s)@ == old(s)@ + decimal_nat(n as nat),
    decreases n,
{
    if n >= 10 {
        push_decimal(s, n / 10);
    }
    let d: u8 = 48 + (n % 10) as u8;
    s.push(d as char);
    assert(s@ =~= old(s)@ + decimal_nat(n as nat));
}

/// An unsigned integer in decimal notation.
pub fn decimal_u64(n: u64) -> (r: String)
    ensures
        r@ == decimal(n as int),
{
    let mut r = String::new();
    push_decimal(&mut r, n);
    assert(r@ =~= decimal_nat(n as nat));
    r
}

/// A signed integer in decimal notation.
pub fn decimal_i64(i: i64) -> (r: String)
    ensures
        r@ == decimal(i as int),
{
    let mut r = String::new();
    if i < 0 {
        r.push('-');
        let m: u64 = (-(i as i128)) as u64;
        push_decimal(&mut r, m);
        assert(r@ =~= decimal(i as int));
    } else {
        push_decimal(&mut r, i as u64);
        assert(r@ =~= decimal(i as int));
    }
    r
}

/// Every character is a decimal digit.
pub open spec fn all_digits(s: Seq<char>) -> bool {
    forall|i: int| 0 <= i < s.len() ==> '0' <= #[trigger] s[i] <= '9'
}

/// The number that decimal digits stand for.
pub open spec fn digits_value(s: Seq<char>) -> nat
    decreases s.len(),
{
    if s.len() == 0 {
        0
    } else {
        10 * digits_value(s.drop_last()) + (s.last() as u32 - 48) as nat
    }
}

/// The integer that a text stands for: decimal digits, after one `+`, or, where
/// negative numbers are taken, one `-`.
pub open spec fn integer_value(s: Seq<char>, signed: bool) -> Option<int> {
    let minus = signed && s.len() > 0 && s[0] == '-';
    let body = if minus || (s.len() > 0 && s[0] == '+') {
        s.skip(1)
    } else {
        s
    };
    if body.len() > 0 && all_digits(body) {
        Some(
            if minus {
                -(digits_value(body) as int)
            } else {
                digits_value(body) as int
            },
        )
    } else {
        None
    }
}

/// The integer that a text stands for, if it lies in `min..=max`.
pub fn parse_integer(s: &str, signed: bool, min: i128, max: i128) -> (r: Option<i128>)
    requires
        -0xFFFF_FFFF_FFFF_FFFF <= min <= max <= 0xFFFF_FFFF_FFFF_FFFF,
    ensures
        match integer_value(s@, signed) {
            Some(x) => if min <= x <= max {
                r == Some(x as i128)
            } else {
                r is None
            },
            None => r is None,
        },
{
    let v = chars_of(s);
    let n: usize = v.len();
    let minus = signed && n > 0 && v[0] == '-';
    let from: usize = if minus || (n > 0 && v[0] == '+') {
        1
    } else {
        0
    };
    let ghost body = s@.skip(from as int);
    assert(s@.skip(0) =~= s@);
    if from == n {
        return None;
    }
    let mut value: i128 = 0;
    let mut over = false;
    let mut i: usize = from;
    while i < n
        invariant
            from <= i <= n == v.len(),
            v@ == s@,
            body == s@.skip(from as int),
            minus == (signed && n > 0 && s@[0] == '-'),
            from == if minus || (n > 0 && s@[0] == '+') {
                1int
            } else {
                0
            },
            s@.skip(0) == s@,
            forall|k: int| 0 <= k < i - from ==> '0' <= #[trigger] body[k] <= '9',
            0 <= value <= 0xFFFF_FFFF_FFFF_FFFF,
            !over ==> value == digits_value(body.take(i - from)),
            over ==> digits_value(body.take(i - from)) > 0xFFFF_FFFF_FFFF_FFFF,
        decreases n - i,
    {
        let c = v[i];
        assert(c == body[i - from]);
        if !('0' <= c && c <= '9') {
            assert(!all_digits(body));
            return None;
        }
        assert(body.take(i - from + 1).drop_last() =~= body.take(i - from));
        let d: i128 = (c as u32 - 48) as i128;
        if !over {
            let next: i128 = 10 * value + d;
            if next > 0xFFFF_FFFF_FFFF_FFFF {
                over = true;
            } else {
                value = next;
            }
        }
        i = i + 1;
    }
    assert(body.take(n - from) =~= body);
    if over {
        return None;
    }
    let x: i128 = if minus {
        -value
    } else {
        value
    };
    if min <= x && x <= max {
        Some(x)
    } else {
        None
    }
}

/// Decimal notation is read back as the number that was written.
pub proof fn lemma_decimal_is_read_back(i: int)
    ensures
        integer_value(decimal(i), true) == Some(i),
        i >= 0 ==> integer_value(decimal(i), false) == Some(i),
{
    let m = if i < 0 { (-i) as nat } else { i as nat };
    lemma_decimal_nat(m);
    if i < 0 {
        assert(decimal(i).skip(1) =~= decimal_nat(m));
    }
}

proof fn lemma_decimal_nat(n: nat)
    ensures
        decimal_nat(n).len() > 0,
        all_digits(decimal_nat(n)),
        digits_value(decimal_nat(n)) == n,
    decreases n,
{
    let s = decimal_nat(n);
    if n < 10 {
        assert(s.drop_last() =~= Seq::empty());
        assert(digits_value(s.drop_last()) == 0);
        assert(s.last() == digit(n));
    } else {
        lemma_decimal_nat(n / 10);
        assert(s.drop_last() =~= decimal_nat(n / 10));
        assert(s.last() == digit(n % 10));
    }
}

/// Different integers have different decimal notations.
pub proof fn lemma_decimal_is_injective(i: int, j: int)
    requires
        decimal(i) == decimal(j),
    ensures
        i == j,
{
    lemma_decimal_is_read_back(i);
    lemma_decimal_is_read_back(j);
}

proof fn lemma_trimmed_start_cuts(s: Seq<char>)
    ensures
        trimmed_start(s).len() <= s.len(),
        trimmed_start(s) == s.skip(s.len() - trimmed_start(s).len()),
        forall|i: int| 0 <= i < s.len() - trimmed_start(s).len() ==> is_space(#[trigger] s[i]),
        trimmed_start(s).len() > 0 ==> !is_space(trimmed_start(s)[0]),
    decreases s.len(),
{
    if s.len() > 0 && is_space(s[0]) {
        let rest = s.skip(1);
        lemma_trimmed_start_cuts(rest);
        let n = rest.len() - trimmed_start(rest).len();
        assert(s.skip(n + 1) =~= rest.skip(n));
        assert forall|i: int| 0 <= i < s.len() - trimmed_start(s).len() implies is_space(#[trigger] s[i]) by {
            if i > 0 {
                assert(rest[i - 1] == s[i]);
            }
        }
    } else {
        assert(s.skip(0) =~= s);
    }
}

proof fn lemma_trimmed_end_cuts(s: Seq<char>)
    ensures
        trimmed_end(s).len() <= s.len(),
        trimmed_end(s) == s.take(trimmed_end(s).len() as int),
        forall|i: int| trimmed_end(s).len() <= i < s.len() ==> is_space(#[trigger] s[i]),
        trimmed_end(s).len() > 0 ==> !is_space(trimmed_end(s).last()),
    decreases s.len(),
{
    if s.len() > 0 && is_space(s.last()) {
        let rest = s.drop_last();
        lemma_trimmed_end_cuts(rest);
        let n = trimmed_end(rest).len() as int;
        assert(s.take(n) =~= rest.take(n));
        assert forall|i: int| trimmed_end(s).len() <= i < s.len() implies is_space(#[trigger] s[i]) by {
            if i < rest.len() {
                assert(rest[i] == s[i]);
            }
        }
    } else {
        assert(s.take(s.len() as int) =~= s);
    }
}

/// What is trimmed off a text is white space, and what is left neither starts nor ends with
/// it.
pub proof fn law_only_white_space_is_trimmed(s: &str, r: String)
    requires
        call_ensures(trim, (s,), r),
    ensures
        r@.len() > 0 ==> !is_space(r@[0]) && !is_space(r@.last()),
        exists|from: int, to: int|
            0 <= from <= to <= s@.len() && r@ == #[trigger] s@.subrange(from, to) && (forall|i: int|
                0 <= i < from ==> is_space(#[trigger] s@[i])) && forall|i: int|
                to <= i < s@.len() ==> is_space(#[trigger] s@[i]),
{
    let a = trimmed_start(s@);
    lemma_trimmed_start_cuts(s@);
    lemma_trimmed_end_cuts(a);
    let from = s@.len() - a.len();
    let to = from + r@.len();
    assert(s@.subrange(from, to) =~= r@);
    assert forall|i: int| to <= i < s@.len() implies is_space(#[trigger] s@[i]) by {
        assert(a[i - from] == s@[i]);
    }
}

/// White space is the blank, the tab, the ends of lines and pages, and their kin beyond
/// ASCII; letters, digits and marks are none.
pub proof fn law_white_space_is_no_mark(c: char)
    ensures
        is_space(' ') && is_space('\n') && is_space('\t') && is_space('\r'),
        '!' <= c <= '~' ==> !is_space(c),
{
}

/// Upper and lower case of ASCII letters undo each other, lie 32 apart, and leave all else.
pub proof fn law_ascii_case_goes_both_ways(s: &str, up: String, low: String, i: int)
    requires
        call_ensures(to_ascii_upper, (s,), up),
        call_ensures(to_ascii_lower, (s,), low),
        0 <= i < s@.len(),
    ensures
        up@.len() == s@.len() && low@.len() == s@.len(),
        'a' <= s@[i] <= 'z' ==> up@[i] as u32 + 32 == s@[i] as u32 && low@[i] == s@[i],
        'A' <= s@[i] <= 'Z' ==> low@[i] as u32 == s@[i] as u32 + 32 && up@[i] == s@[i],
        !('a' <= s@[i] <= 'z') && !('A' <= s@[i] <= 'Z') ==> up@[i] == s@[i] && low@[i] == s@[i],
{
}

/// A needle is found where it first stands, and is there or starts there if and only if it is
/// found.
pub proof fn law_needle_is_found_where_it_stands(
    s: &str,
    needle: &str,
    r: Option<usize>,
    has: bool,
    first: bool,
    i: int,
)
    requires
        call_ensures(find, (s, needle), r),
        call_ensures(contains, (s, needle), has),
        call_ensures(starts_with, (s, needle), first),
    ensures
        has <==> r is Some,
        first <==> r == Some(0usize),
        r is Some ==> r->0 + needle@.len() <= s@.len() && s@.subrange(r->0 as int, r->0 + needle@.len()) == needle@,
        0 <= i && i + needle@.len() <= s@.len() && s@.subrange(i, i + needle@.len()) == needle@ ==> r is Some && r->0 <= i,
{
    if 0 <= i && i + needle@.len() <= s@.len() && s@.subrange(i, i + needle@.len()) == needle@ {
        assert(occurs_at(s@, needle@, i));
    }
    if occurs_at(s@, needle@, 0) {
        assert(has_text(s@, needle@));
    }
}

/// A text is cut at the first mark: what stands before has none, and both parts with the mark
/// between them are the text.
pub proof fn law_cut_parts_make_the_text(s: &str, c: char, r: Option<(String, String)>)
    requires
        call_ensures(split_once, (s, c), r),
    ensures
        r is Some <==> s@.contains(c),
        r is Some ==> (r->0).0@.push(c) + (r->0).1@ == s@ && !(r->0).0@.contains(c),
{
    lemma_first_position(s@, c);
    let p = first_position(s@, c);
    if p < s@.len() {
        assert(s@.take(p).push(c) + s@.skip(p + 1) =~= s@);
        assert(s@[p] == c);
        if s@.take(p).contains(c) {
            let i = choose|i: int| 0 <= i < p && s@.take(p)[i] == c;
            assert(s@[i] == c);
        }
    } else if s@.contains(c) {
        let i = choose|i: int| 0 <= i < s@.len() && s@[i] == c;
        assert(s@[i] == c);
    }
}

/// Pieces hold no mark, and joined with the mark between them they are the text again.
pub proof fn law_pieces_join_to_the_text(s: &str, c: char, v: Vec<String>, sep: &str, r: String, i: int)
    requires
        call_ensures(split, (s, c), v),
        sep@ == seq![c],
        call_ensures(join, (&v, sep), r),
    ensures
        r@ == s@,
        v.len() > 0,
        0 <= i < v.len() ==> !v[i]@.contains(c),
{
    lemma_pieces(s@, c);
    assert(views(v@).len() == v.len());
    if 0 <= i < v.len() {
        assert(views(v@)[i] == v[i]@);
    }
}

proof fn lemma_pieces(s: Seq<char>, c: char)
    ensures
        pieces(s, c).len() > 0,
        join_views(pieces(s, c), seq![c]) == s,
        forall|i: int| 0 <= i < pieces(s, c).len() ==> !(#[trigger] pieces(s, c)[i]).contains(c),
    decreases s.len(),
{
    lemma_first_position(s, c);
    let p = first_position(s, c);
    if p < s.len() {
        let a = s.take(p);
        let b = s.skip(p + 1);
        let rest = pieces(b, c);
        lemma_pieces(b, c);
        lemma_join_front(a, rest, seq![c]);
        assert(a + seq![c] + b =~= s);
        if a.contains(c) {
            let i = choose|i: int| 0 <= i < p && a[i] == c;
            assert(s[i] == c);
        }
        assert forall|i: int| 0 <= i < pieces(s, c).len() implies !(#[trigger] pieces(s, c)[i]).contains(c) by {
            if i > 0 {
                assert(pieces(s, c)[i] == rest[i - 1]);
            }
        }
    } else {
        assert(pieces(s, c) == seq![s]);
        if s.contains(c) {
            let i = choose|i: int| 0 <= i < s.len() && s[i] == c;
            assert(s[i] == c);
        }
    }
}

proof fn lemma_join_front(a: Seq<char>, rest: Seq<Seq<char>>, sep: Seq<char>)
    requires
        rest.len() > 0,
    ensures
        join_views(seq![a] + rest, sep) == a + sep + join_views(rest, sep),
    decreases rest.len(),
{
    let all = seq![a] + rest;
    if rest.len() == 1 {
        reveal_with_fuel(join_views, 3);
        assert(all.drop_last() =~= seq![a]);
        assert(all.last() == rest[0]);
    } else {
        let front = rest.drop_last();
        lemma_join_front(a, front, sep);
        assert(all.drop_last() =~= seq![a] + front);
        assert(all.last() == rest.last());
        assert(a + sep + join_views(front, sep) + sep + rest.last() =~= a + sep + (join_views(front, sep) + sep
            + rest.last()));
    }
}

/// An integer that is written is read back, where it lies within the bounds.
pub proof fn law_written_integers_are_read(n: i64, t: String, s: &str, min: i128, max: i128, r: Option<i128>)
    requires
        call_ensures(decimal_i64, (n,), t),
        s@ == t@,
        call_ensures(parse_integer, (s, true, min, max), r),
        -0xFFFF_FFFF_FFFF_FFFF <= min <= max <= 0xFFFF_FFFF_FFFF_FFFF,
    ensures
        r is Some <==> min <= n <= max,
        r is Some ==> r->0 == n,
{
    lemma_decimal_is_read_back(n as int);
}

/// At most so many characters of a text are kept, from its start on.
pub proof fn law_texts_are_cut_from_behind(s: &str, n: usize, r: String, a: &str, b: &str, j: String, eq: bool)
    requires
        call_ensures(take_chars, (s, n), r),
        call_ensures(joined, (a, b), j),
        call_ensures(same, (a, b), eq),
    ensures
        r@.len() <= n && r@.is_prefix_of(s@),
        s@.len() <= n ==> r@ == s@,
        s@.len() > n ==> r@.len() == n,
        j@ == a@ + b@,
        eq <==> a@ == b@,
{
}

} // verus!
