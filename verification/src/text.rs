//! Text building blocks: comparison, decimal numbers, padding and line
//! splitting, each stated over sequences of characters.

use vstd::prelude::*;

verus! {

// ---------------------------------------------------------------------
// Comparison
// ---------------------------------------------------------------------

/// `String::push`: the character goes behind what the string already holds.
pub assume_specification[ String::push ](s: &mut String, c: char)
    ensures
        final(s)@ == old(s)@.push(c),
;

/// Character-wise lexicographic order: `a` comes strictly before `b`.
pub open spec fn text_lt(a: Seq<char>, b: Seq<char>) -> bool
    decreases a.len(),
{
    if b.len() == 0 {
        false
    } else if a.len() == 0 {
        true
    } else if a[0] == b[0] {
        text_lt(a.drop_first(), b.drop_first())
    } else {
        (a[0] as int) < (b[0] as int)
    }
}

/// The characters of a string slice, one by one.
pub fn chars_of(s: &str) -> (r: Vec<char>)
    ensures
        r@ == s@,
{
    let mut out: Vec<char> = Vec::new();
    for c in it: s.chars()
        invariant
            it.seq() == s@,
            out@ == s@.take(it.index() as int),
    {
        out.push(c);
    }
    assert(s@.take(s@.len() as int) =~= s@);
    out
}

/// Whether a string slice holds the given characters.
pub fn same_chars(s: &str, cs: &Vec<char>) -> (r: bool)
    ensures
        r == (s@ == cs@),
{
    let mut k: usize = 0;
    for c in it: s.chars()
        invariant
            it.seq() == s@,
            k == it.index(),
            k <= cs@.len(),
            s@.take(k as int) == cs@.take(k as int),
    {
        if k >= cs.len() || cs[k] != c {
            assert(s@[k as int] == c);
            return false;
        }
        assert(s@.take(k + 1) =~= s@.take(k as int).push(c));
        assert(cs@.take(k + 1) =~= cs@.take(k as int).push(c));
        k = k + 1;
    }
    assert(s@.take(k as int) =~= s@);
    assert(k == cs@.len() ==> cs@.take(k as int) =~= cs@);
    k == cs.len()
}

/// Whether two string slices hold the same characters.
pub fn same(a: &str, b: &str) -> (r: bool)
    ensures
        r == (a@ == b@),
{
    same_chars(a, &chars_of(b))
}

/// Whether `a` comes strictly before `b`, character by character.
pub fn comes_before(a: &str, b: &str) -> (r: bool)
    ensures
        r == text_lt(a@, b@),
{
    let x = chars_of(a);
    let y = chars_of(b);
    let mut i: usize = 0;
    assert(a@.skip(0) =~= a@ && b@.skip(0) =~= b@);
    while i < x.len() && i < y.len() && x[i] == y[i]
        invariant
            x@ == a@,
            y@ == b@,
            i <= x.len(),
            i <= y.len(),
            text_lt(a@, b@) == text_lt(a@.skip(i as int), b@.skip(i as int)),
        decreases x.len() - i,
    {
        assert(a@.skip(i as int).drop_first() =~= a@.skip(i + 1));
        assert(b@.skip(i as int).drop_first() =~= b@.skip(i + 1));
        i = i + 1;
    }
    if i >= y.len() {
        false
    } else if i >= x.len() {
        true
    } else {
        x[i] < y[i]
    }
}

/// Two different texts are ordered one way or the other.
pub proof fn lemma_text_order_total(a: Seq<char>, b: Seq<char>)
    ensures
        a == b || text_lt(a, b) || text_lt(b, a),
        !(text_lt(a, b) && text_lt(b, a)),
        text_lt(a, b) ==> a != b,
    decreases a.len(),
{
    if a.len() > 0 && b.len() > 0 && a[0] == b[0] {
        lemma_text_order_total(a.drop_first(), b.drop_first());
        if a.drop_first() == b.drop_first() {
            assert(a =~= seq![a[0]] + a.drop_first());
            assert(b =~= seq![b[0]] + b.drop_first());
        }
    } else if a.len() == 0 && b.len() == 0 {
        assert(a =~= b);
    }
}

/// The order on texts is transitive.
pub proof fn lemma_text_order_transitive(a: Seq<char>, b: Seq<char>, c: Seq<char>)
    requires
        text_lt(a, b),
        text_lt(b, c),
    ensures
        text_lt(a, c),
    decreases a.len(),
{
    if a.len() > 0 && a[0] == b[0] && b[0] == c[0] {
        lemma_text_order_transitive(a.drop_first(), b.drop_first(), c.drop_first());
    }
}

// ---------------------------------------------------------------------
// Numbers
// ---------------------------------------------------------------------

/// The character of one decimal digit.
pub open spec fn digit_char(d: nat) -> char {
    ((48 + d) as u8) as char
}

/// A natural number in decimal, without leading zeros.
pub open spec fn decimal(n: nat) -> Seq<char>
    decreases n,
{
    if n < 10 {
        seq![digit_char(n)]
    } else {
        decimal(n / 10).push(digit_char(n % 10))
    }
}

/// An integer in decimal, a minus sign in front where it is negative.
pub open spec fn signed_decimal(n: int) -> Seq<char> {
    if n < 0 {
        seq!['-'] + decimal((-n) as nat)
    } else {
        decimal(n as nat)
    }
}

/// A number in decimal with a leading zero where it has one digit only.
pub open spec fn two_digits(n: nat) -> Seq<char> {
    if n < 10 {
        seq!['0'] + decimal(n)
    } else {
        decimal(n)
    }
}

fn digit(d: u8) -> (c: char)
    requires
        d < 10,
    ensures
        c == digit_char(d as nat),
{
    (48 + d) as char
}

/// `n` in decimal.
pub fn decimal_text(n: u64) -> (r: String)
    ensures
        r@ == decimal(n as nat),
    decreases n,
{
    if n < 10 {
        let mut s = String::new();
        s.push(digit(n as u8));
        assert(s@ =~= seq![digit_char(n as nat)]);
        s
    } else {
        let mut s = decimal_text(n / 10);
        s.push(digit((n % 10) as u8));
        s
    }
}

/// `n` in decimal, with its sign.
pub fn signed_decimal_text(n: i64) -> (r: String)
    ensures
        r@ == signed_decimal(n as int),
{
    if n < 0 {
        let mut s = String::new();
        s.push('-');
        let magnitude: u64 = if n == i64::MIN {
            0x8000_0000_0000_0000u64
        } else {
            (-n) as u64
        };
        s.append(decimal_text(magnitude).as_str());
        assert(s@ =~= seq!['-'] + decimal((-n) as nat));
        s
    } else {
        decimal_text(n as u64)
    }
}

/// `n` in decimal, at least two digits long.
pub fn two_digit_text(n: u64) -> (r: String)
    ensures
        r@ == two_digits(n as nat),
{
    if n < 10 {
        let mut s = String::new();
        s.push('0');
        s.append(decimal_text(n).as_str());
        assert(s@ =~= seq!['0'] + decimal(n as nat));
        s
    } else {
        decimal_text(n)
    }
}

// ---------------------------------------------------------------------
// Shapes
// ---------------------------------------------------------------------

/// The views of a sequence of strings.
pub open spec fn texts(v: Seq<String>) -> Seq<Seq<char>> {
    Seq::new(v.len(), |i: int| v[i]@)
}

/// The view of a string that may be absent.
pub open spec fn opt_text(s: Option<String>) -> Option<Seq<char>> {
    match s {
        Some(t) => Some(t@),
        None => None,
    }
}

/// A copy of an optional string.
pub fn clone_opt(s: &Option<String>) -> (r: Option<String>)
    ensures
        opt_text(r) == opt_text(*s),
{
    match s {
        Some(t) => Some(t.clone()),
        None => None,
    }
}

/// The parts one after the other, with `sep` between them.
pub open spec fn join(parts: Seq<Seq<char>>, sep: Seq<char>) -> Seq<char>
    decreases parts.len(),
{
    if parts.len() == 0 {
        Seq::empty()
    } else if parts.len() == 1 {
        parts[0]
    } else {
        join(parts.drop_last(), sep) + sep + parts.last()
    }
}

/// The parts one after the other, with `sep` between them.
pub fn join_texts(parts: &Vec<String>, sep: &str) -> (r: String)
    ensures
        r@ == join(texts(parts@), sep@),
{
    let mut out = String::new();
    let mut i: usize = 0;
    while i < parts.len()
        invariant
            i <= parts.len(),
            out@ == join(texts(parts@).take(i as int), sep@),
        decreases parts.len() - i,
    {
        let ghost seen = texts(parts@).take(i + 1);
        assert(seen.drop_last() =~= texts(parts@).take(i as int));
        if i > 0 {
            out.append(sep);
        }
        let ghost head = out@;
        out.append(parts[i].as_str());
        assert(i == 0 ==> head + parts@[i as int]@ =~= parts@[i as int]@);
        i = i + 1;
    }
    assert(texts(parts@).take(parts@.len() as int) =~= texts(parts@));
    out
}

/// `s` followed by as many blanks as it takes to reach `width` characters.
pub open spec fn padded(s: Seq<char>, width: nat) -> Seq<char> {
    if s.len() < width {
        s + Seq::new((width - s.len()) as nat, |i: int| ' ')
    } else {
        s
    }
}

/// `s` padded with blanks on the right to `width` characters.
pub fn pad_right(s: &str, width: usize) -> (r: String)
    ensures
        r@ == padded(s@, width as nat),
{
    let len: usize = chars_of(s).len();
    let mut out = s.to_owned();
    let mut i: usize = len;
    while i < width
        invariant
            len == s@.len(),
            len <= i,
            i <= width || i == len,
            out@ =~= s@ + Seq::new((i - len) as nat, |k: int| ' '),
        decreases width - i,
    {
        out.push(' ');
        i = i + 1;
    }
    assert(out@ =~= padded(s@, width as nat));
    out
}

/// The first `n` characters of `s`, or all of them where it has fewer.
pub open spec fn first_chars(s: Seq<char>, n: nat) -> Seq<char> {
    if s.len() <= n {
        s
    } else {
        s.take(n as int)
    }
}

/// The first `n` characters of `s`.
pub fn take_chars(s: &str, n: usize) -> (r: String)
    ensures
        r@ == first_chars(s@, n as nat),
{
    let mut out = String::new();
    let mut k: usize = 0;
    for c in it: s.chars()
        invariant
            it.seq() == s@,
            k == it.index(),
            k <= n,
            out@ == s@.take(it.index() as int),
    {
        if k >= n {
            return out;
        }
        out.push(c);
        k = k + 1;
    }
    assert(s@.take(s@.len() as int) =~= s@);
    out
}

/// `s` without its first `n` characters.
pub fn drop_chars(s: &str, n: usize) -> (r: String)
    ensures
        r@ == if n <= s@.len() {
            s@.skip(n as int)
        } else {
            Seq::empty()
        },
{
    let mut out = String::new();
    let mut k: usize = 0;
    for c in it: s.chars()
        invariant
            it.seq() == s@,
            k <= n,
            k == if it.index() < n {
                it.index() as int
            } else {
                n as int
            },
            out@ == if it.index() <= n {
                Seq::empty()
            } else {
                s@.subrange(n as int, it.index() as int)
            },
    {
        if k < n {
            k = k + 1;
        } else {
            let ghost i = it.index() as int;
            out.push(c);
            assert(s@.subrange(n as int, i + 1) =~= s@.subrange(n as int, i).push(c));
        }
    }
    assert(n <= s@.len() ==> s@.subrange(n as int, s@.len() as int) =~= s@.skip(n as int));
    out
}

/// Whether `s` begins with `p`.
pub open spec fn has_prefix(s: Seq<char>, p: Seq<char>) -> bool {
    p.len() <= s.len() && s.take(p.len() as int) == p
}

/// Whether `s` begins with `p`.
pub fn starts_with(s: &str, p: &str) -> (r: bool)
    ensures
        r == has_prefix(s@, p@),
{
    let n: usize = chars_of(p).len();
    let head = take_chars(s, n);
    assert(s@.len() == p@.len() ==> s@.take(p@.len() as int) =~= s@);
    same(head.as_str(), p)
}

/// Whether `s` ends with `p`.
pub open spec fn has_suffix(s: Seq<char>, p: Seq<char>) -> bool {
    p.len() <= s.len() && s.skip(s.len() - p.len()) == p
}

/// Whether `needle` occurs in `hay` as a run of consecutive characters.
pub open spec fn occurs_in(needle: Seq<char>, hay: Seq<char>) -> bool {
    exists|i: int|
        0 <= i && i + needle.len() <= hay.len() && #[trigger] hay.subrange(i, i + needle.len())
            == needle
}

/// Whether the characters of `needle` stand in `hay` from position `at` on.
fn stands_at(hay: &Vec<char>, needle: &Vec<char>, at: usize) -> (r: bool)
    requires
        at + needle.len() <= hay.len(),
    ensures
        r == (hay@.subrange(at as int, at + needle@.len()) == needle@),
{
    let mut k: usize = 0;
    while k < needle.len()
        invariant
            at + needle.len() <= hay.len(),
            k <= needle.len(),
            hay@.subrange(at as int, at + k) == needle@.take(k as int),
        decreases needle.len() - k,
    {
        if hay[at + k] != needle[k] {
            assert(hay@.subrange(at as int, at + needle@.len())[k as int] != needle@[k as int]);
            return false;
        }
        assert(hay@.subrange(at as int, at + k + 1) =~= hay@.subrange(at as int, at + k).push(
            hay@[at + k],
        ));
        assert(needle@.take(k + 1) =~= needle@.take(k as int).push(needle@[k as int]));
        k = k + 1;
    }
    assert(needle@.take(k as int) =~= needle@);
    true
}

/// Whether `needle` occurs in `hay`.
pub fn contains(hay: &str, needle: &str) -> (r: bool)
    ensures
        r == occurs_in(needle@, hay@),
{
    let h = chars_of(hay);
    let n = chars_of(needle);
    let mut i: usize = 0;
    while i <= h.len() && n.len() <= h.len() - i
        invariant
            h@ == hay@,
            n@ == needle@,
            forall|j: int|
                0 <= j < i && j + n@.len() <= h@.len() ==> #[trigger] hay@.subrange(
                    j,
                    j + needle@.len(),
                ) != needle@,
            i <= h.len() + 1,
        decreases h.len() + 1 - i,
    {
        if stands_at(&h, &n, i) {
            assert(hay@.subrange(i as int, i + needle@.len()) == needle@);
            return true;
        }
        if i == h.len() {
            return false;
        }
        i = i + 1;
    }
    false
}

/// What `str::to_lowercase` makes of a text: the Unicode lower-case mapping.
pub uninterp spec fn lowercase(s: Seq<char>) -> Seq<char>;

/// `str::to_lowercase`, the Unicode lower-case mapping, which depends on
/// the text alone.
#[verifier::external_body]
pub(crate) fn to_lowercase(s: &str) -> (r: String)
    ensures
        r@ == lowercase(s@),
{
    s.to_lowercase()
}

// ---------------------------------------------------------------------
// Lines
// ---------------------------------------------------------------------

/// A line without the carriage return that may precede its line feed.
pub open spec fn without_cr(s: Seq<char>) -> Seq<char> {
    if s.len() > 0 && s.last() == '\r' {
        s.drop_last()
    } else {
        s
    }
}

/// The lines of a text: each is ended by a line feed or by a carriage
/// return and a line feed, and the last one may lack its ending.
pub open spec fn lines_of(s: Seq<char>) -> Seq<Seq<char>>
    decreases s.len(),
{
    if s.len() == 0 {
        Seq::empty()
    } else if s.contains('\n') {
        let i = s.index_of_first('\n')->0;
        if 0 <= i < s.len() {
            seq![without_cr(s.take(i))] + lines_of(s.skip(i + 1))
        } else {
            Seq::empty()
        }
    } else {
        seq![s]
    }
}

/// A line feed ends the first line, and what follows it makes the others.
pub proof fn lemma_lines_of_step(cur: Seq<char>, rest: Seq<char>)
    requires
        !cur.contains('\n'),
    ensures
        lines_of(cur + seq!['\n'] + rest) == seq![without_cr(cur)] + lines_of(rest),
{
    let s = cur + seq!['\n'] + rest;
    assert(s[cur.len() as int] == '\n');
    assert(s.contains('\n'));
    s.index_of_first_ensures('\n');
    let i = s.index_of_first('\n')->0;
    assert(s[i] == '\n');
    if i < cur.len() {
        assert(cur[i] == '\n');
    }
    assert(i == cur.len());
    assert(s.take(i) =~= cur);
    assert(s.skip(i + 1) =~= rest);
}

/// A string without its last character where that is a carriage return.
fn drop_cr(s: &str) -> (r: String)
    ensures
        r@ == without_cr(s@),
{
    let cs = chars_of(s);
    if cs.len() > 0 && cs[cs.len() - 1] == '\r' {
        let r = take_chars(s, cs.len() - 1);
        assert(s@.take(s@.len() - 1) =~= s@.drop_last());
        r
    } else {
        s.to_owned()
    }
}

/// The lines of `s`.
pub fn split_lines(s: &str) -> (r: Vec<String>)
    ensures
        texts(r@) == lines_of(s@),
{
    let mut out: Vec<String> = Vec::new();
    let mut cur = String::new();
    assert(cur@ + s@.skip(0) =~= s@);
    for c in it: s.chars()
        invariant
            it.seq() == s@,
            !cur@.contains('\n'),
            lines_of(s@) =~= texts(out@) + lines_of(cur@ + s@.skip(it.index() as int)),
    {
        let ghost k = it.index() as int;
        let ghost before = out@;
        let ghost held = cur@;
        if c == '\n' {
            proof {
                assert(held + s@.skip(k) =~= held + seq!['\n'] + s@.skip(k + 1));
                lemma_lines_of_step(held, s@.skip(k + 1));
            }
            out.push(drop_cr(cur.as_str()));
            cur = String::new();
            assert(texts(out@) =~= texts(before) + seq![without_cr(held)]);
            assert(cur@ + s@.skip(k + 1) =~= s@.skip(k + 1));
        } else {
            cur.push(c);
            assert(cur@ + s@.skip(k + 1) =~= held + s@.skip(k));
            assert forall|j: int| 0 <= j < cur@.len() implies cur@[j] != '\n' by {
                if j < held.len() {
                    assert(held[j] == cur@[j]);
                    assert(held.contains(held[j]));
                }
            }
        }
    }
    assert(cur@ + s@.skip(s@.len() as int) =~= cur@);
    let ghost before = out@;
    if !cur.as_str().is_empty() {
        let ghost held = cur@;
        out.push(cur);
        assert(texts(out@) =~= texts(before) + seq![held]);
    } else {
        assert(lines_of(cur@) =~= Seq::empty());
    }
    out
}

// ---------------------------------------------------------------------
// What texts hold
// ---------------------------------------------------------------------

/// A text occurs wherever it stands, with anything before and behind it, and
/// nowhere else.
pub proof fn lemma_occurs(needle: Seq<char>, hay: Seq<char>)
    ensures
        occurs_in(needle, hay) <==> exists|a: Seq<char>, b: Seq<char>|
            hay == #[trigger] ((a + needle) + b),
{
    if occurs_in(needle, hay) {
        let i = choose|i: int|
            0 <= i && i + needle.len() <= hay.len() && #[trigger] hay.subrange(i, i + needle.len())
                == needle;
        assert(hay =~= (hay.take(i) + needle) + hay.skip(i + needle.len()));
    }
    assert forall|a: Seq<char>, b: Seq<char>| hay == #[trigger] ((a + needle) + b) implies occurs_in(
        needle,
        hay,
    ) by {
        let i = a.len() as int;
        assert(hay.subrange(i, i + needle.len()) =~= needle);
    }
}

/// What occurs in a text occurs in every longer one.
pub proof fn lemma_occurs_within(needle: Seq<char>, a: Seq<char>, hay: Seq<char>, b: Seq<char>)
    requires
        occurs_in(needle, hay),
    ensures
        occurs_in(needle, a + hay + b),
{
    let i = choose|i: int|
        0 <= i && i + needle.len() <= hay.len() && #[trigger] hay.subrange(i, i + needle.len())
            == needle;
    let all = a + hay + b;
    assert(all.subrange(a.len() + i, a.len() + i + needle.len()) =~= needle);
}

/// The number that a text of decimal digits stands for.
pub open spec fn number_of(s: Seq<char>) -> nat
    decreases s.len(),
{
    if s.len() == 0 {
        0
    } else {
        10 * number_of(s.drop_last()) + (s.last() as nat - '0' as nat) as nat
    }
}

/// A number in decimal is made of digits and stands for the number; two digits
/// do so too, and there are two of them below a hundred.
pub proof fn lemma_decimals(n: nat)
    ensures
        number_of(decimal(n)) == n,
        decimal(n).len() > 0,
        forall|i: int| 0 <= i < decimal(n).len() ==> '0' <= #[trigger] decimal(n)[i] <= '9',
        n >= 10 ==> decimal(n).len() >= 2 && decimal(n)[0] != '0',
        n < 100 ==> two_digits(n).len() == 2,
        number_of(two_digits(n)) == n,
    decreases n,
{
    let s = decimal(n);
    if n < 10 {
        assert(s.drop_last() =~= Seq::<char>::empty());
        assert(number_of(Seq::<char>::empty()) == 0);
        assert(number_of(s) == n);
        let two = two_digits(n);
        assert(two.drop_last() =~= seq!['0']);
        assert(seq!['0'].drop_last() =~= Seq::<char>::empty());
        assert(number_of(seq!['0']) == 0);
        assert(two.last() == digit_char(n));
    } else {
        lemma_decimals(n / 10);
        assert(s.drop_last() =~= decimal(n / 10));
        if n < 100 {
            assert(decimal(n / 10) =~= seq![digit_char(n / 10)]);
        }
        assert(decimal(n / 10)[0] != '0' || n / 10 < 10);
        assert(s[0] == decimal(n / 10)[0]);
        if n / 10 < 10 {
            assert(decimal(n / 10)[0] == digit_char(n / 10));
        }
    }
}

/// The first characters of a text begin it; there are as many as were asked
/// for where the text has so many, and all of them otherwise.
pub proof fn lemma_first_chars(s: Seq<char>, n: nat)
    ensures
        has_prefix(s, first_chars(s, n)),
        s.len() >= n ==> first_chars(s, n).len() == n,
        s.len() < n ==> first_chars(s, n) == s,
{
    assert(s.take(s.len() as int) =~= s);
}

/// A column holds its text from the left, then blanks; it is as wide as asked
/// for, or as its text where that is wider.
pub proof fn lemma_padded(s: Seq<char>, width: nat)
    ensures
        padded(s, width).take(s.len() as int) == s,
        padded(s, width).len() >= width && padded(s, width).len() >= s.len(),
        padded(s, width).len() == width || padded(s, width).len() == s.len(),
        forall|i: int|
            s.len() <= i < padded(s, width).len() ==> #[trigger] padded(s, width)[i] == ' ',
{
    assert(padded(s, width).take(s.len() as int) =~= s);
}

/// Parts are joined in their order, with the separator between any two.
pub proof fn lemma_join(parts: Seq<Seq<char>>, last: Seq<char>, sep: Seq<char>)
    ensures
        parts.len() > 0 ==> join(parts.push(last), sep) == join(parts, sep) + sep + last,
        join(seq![last], sep) == last,
        join(Seq::<Seq<char>>::empty(), sep) == Seq::<char>::empty(),
{
    assert(parts.push(last).drop_last() =~= parts);
}

/// Texts are in order by the first character in which they differ; where there
/// is none the shorter one comes first.
pub proof fn lemma_text_order(common: Seq<char>, a: Seq<char>, b: Seq<char>)
    ensures
        text_lt(common + a, common + b) == text_lt(a, b),
        a.len() > 0 && b.len() > 0 && a[0] != b[0] ==> (text_lt(a, b) <==> (a[0] as int) < (
        b[0] as int)),
        a.len() == 0 && b.len() > 0 ==> text_lt(a, b),
        b.len() == 0 ==> !text_lt(a, b),
    decreases common.len(),
{
    if common.len() > 0 {
        lemma_text_order(common.drop_first(), a, b);
        assert((common + a).drop_first() =~= common.drop_first() + a);
        assert((common + b).drop_first() =~= common.drop_first() + b);
    } else {
        assert(common + a =~= a);
        assert(common + b =~= b);
    }
}

/// A line is ended by a line feed, and by a carriage return and a line feed in
/// the same way; what follows makes the other lines.
pub proof fn lemma_lines(line: Seq<char>, rest: Seq<char>)
    requires
        !line.contains('\n'),
        line.len() > 0 ==> line.last() != '\r',
    ensures
        lines_of(line + seq!['\n'] + rest) == seq![line] + lines_of(rest),
        lines_of(line.push('\r') + seq!['\n'] + rest) == seq![line] + lines_of(rest),
        line.len() > 0 ==> lines_of(line) == seq![line],
{
    lemma_lines_of_step(line, rest);
    let ended = line.push('\r');
    assert(!ended.contains('\n')) by {
        if ended.contains('\n') {
            let i = choose|i: int| 0 <= i < ended.len() && ended[i] == '\n';
            assert(line[i] == '\n');
        }
    }
    lemma_lines_of_step(ended, rest);
    assert(ended.drop_last() =~= line);
}

} // verus!
