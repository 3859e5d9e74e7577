//! Slugs: file names and link targets made of a text.

use vstd::prelude::*;

use crate::time;
use crate::types;
use crate::types::{Task, TaskView};

verus! {

/// A digit or a letter of ASCII.
pub open spec fn is_alnum(c: char) -> bool {
    ||| '0' as int <= c as int <= '9' as int
    ||| 'A' as int <= c as int <= 'Z' as int
    ||| 'a' as int <= c as int <= 'z' as int
}

/// A character with capital letters of ASCII made small.
pub open spec fn lower(c: char) -> char {
    if 'A' as int <= c as int <= 'Z' as int {
        ((c as int + 32) as u8) as char
    } else {
        c
    }
}

/// The letters and digits of a text in lower case, with one hyphen between
/// two of them wherever something else stood there.
pub open spec fn joined(s: Seq<char>) -> Seq<char>
    decreases s.len(),
{
    if s.len() == 0 {
        s
    } else {
        let before = joined(s.drop_last());
        if !is_alnum(s.last()) {
            before
        } else if before.len() == 0 || is_alnum(s[s.len() - 2]) {
            before.push(lower(s.last()))
        } else {
            before.push('-').push(lower(s.last()))
        }
    }
}

/// The slug of a text.
pub open spec fn slug(s: Seq<char>) -> Seq<char> {
    if joined(s).len() == 0 {
        "untitled"@
    } else {
        joined(s)
    }
}

/// The slug of a task: the minute of its creation, then its name.
pub open spec fn slug_of(t: TaskView) -> Seq<char> {
    time::strftime_text(t.created_at.secs(), t.created_at.nanos(), time::SLUG_FORMAT@) + "-"@
        + slug(t.name)
}

/// The slug of a decision: the date on which it was posted, then its name.
pub open spec fn dated_slug(t: TaskView) -> Seq<char> {
    time::strftime_text(t.created_at.secs(), t.created_at.nanos(), time::DATE_FORMAT@) + "-"@
        + slug(t.name)
}

/// A hexadecimal digit of a character's code, the `k`-th from the right.
pub open spec fn code_digit(c: char, k: int) -> nat {
    if k == 0 {
        (c as nat) % 16
    } else if k == 1 {
        (c as nat) / 16 % 16
    } else if k == 2 {
        (c as nat) / 256 % 16
    } else if k == 3 {
        (c as nat) / 4_096 % 16
    } else if k == 4 {
        (c as nat) / 65_536 % 16
    } else {
        (c as nat) / 1_048_576 % 16
    }
}

/// A character as it stands in a file name: letters, digits, hyphens and dots
/// as they are, any other by its code.
pub open spec fn escaped_char(c: char) -> Seq<char> {
    if is_alnum(c) || c == '-' || c == '.' {
        seq![c]
    } else {
        seq![
            '%',
            types::hex_char(code_digit(c, 5)),
            types::hex_char(code_digit(c, 4)),
            types::hex_char(code_digit(c, 3)),
            types::hex_char(code_digit(c, 2)),
            types::hex_char(code_digit(c, 1)),
            types::hex_char(code_digit(c, 0)),
        ]
    }
}

/// A text as it stands in a file name.
pub open spec fn escaped(s: Seq<char>) -> Seq<char>
    decreases s.len(),
{
    if s.len() == 0 {
        Seq::empty()
    } else {
        escaped_char(s[0]) + escaped(s.drop_first())
    }
}

/// The letters and digits of a text in lower case. Where something else stood
/// between two of them there is a dot, if that was a single dot, and a hyphen
/// otherwise.
pub open spec fn dotted(s: Seq<char>) -> Seq<char>
    decreases s.len(),
{
    if s.len() == 0 {
        s
    } else {
        let before = dotted(s.drop_last());
        if !is_alnum(s.last()) {
            before
        } else if before.len() == 0 || is_alnum(s[s.len() - 2]) {
            before.push(lower(s.last()))
        } else if s.len() >= 3 && s[s.len() - 2] == '.' && is_alnum(s[s.len() - 3]) {
            before.push('.').push(lower(s.last()))
        } else {
            before.push('-').push(lower(s.last()))
        }
    }
}

/// The slug of an agent's identifier, which may hold a version number.
pub open spec fn agent_slug(s: Seq<char>) -> Seq<char> {
    if dotted(s).len() == 0 {
        "untitled"@
    } else {
        dotted(s)
    }
}

fn alnum(c: char) -> (r: bool)
    ensures
        r == is_alnum(c),
{
    (c >= '0' && c <= '9') || (c >= 'A' && c <= 'Z') || (c >= 'a' && c <= 'z')
}

fn to_lower(c: char) -> (r: char)
    ensures
        r == lower(c),
{
    if c >= 'A' && c <= 'Z' {
        (c as u8 + 32) as char
    } else {
        c
    }
}

/// The slug of a text.
pub fn slugify(s: &str) -> (r: String)
    ensures
        r@ == slug(s@),
{
    let mut out = String::new();
    let mut apart = false;
    for c in it: s.chars()
        invariant
            it.seq() == s@,
            out@ == joined(s@.take(it.index() as int)),
            apart == (it.index() > 0 && !is_alnum(s@[it.index() - 1])),
    {
        let ghost k = it.index() as int;
        let ghost seen = s@.take(k + 1);
        assert(seen.drop_last() =~= s@.take(k));
        assert(seen.last() == c);
        if alnum(c) {
            if apart && !out.as_str().is_empty() {
                out.push('-');
            }
            out.push(to_lower(c));
            apart = false;
        } else {
            apart = true;
        }
    }
    assert(s@.take(s@.len() as int) =~= s@);
    if out.as_str().is_empty() {
        "untitled".to_owned()
    } else {
        out
    }
}

/// The slug of a task.
pub fn task_slug(task: &Task) -> (r: String)
    ensures
        r@ == slug_of(task@),
{
    let mut out = time::strftime(&task.created_at, time::SLUG_FORMAT);
    out.append("-");
    out.append(slugify(task.name.as_str()).as_str());
    out
}

/// The slug of a decision.
pub fn decision_slug(task: &Task) -> (r: String)
    ensures
        r@ == dated_slug(task@),
{
    let mut out = time::strftime(&task.created_at, time::DATE_FORMAT);
    out.append("-");
    out.append(slugify(task.name.as_str()).as_str());
    out
}

fn hex(d: u32) -> (c: char)
    requires
        d < 16,
    ensures
        c == types::hex_char(d as nat),
{
    if d < 10 {
        (48 + d as u8) as char
    } else {
        (87 + d as u8) as char
    }
}

/// Puts a character, as it stands in a file name, behind `out`.
fn push_escaped(out: &mut String, c: char)
    ensures
        final(out)@ == old(out)@ + escaped_char(c),
{
    let ghost before = out@;
    if alnum(c) || c == '-' || c == '.' {
        out.push(c);
    } else {
        let code: u32 = c as u32;
        out.push('%');
        out.push(hex(code / 1_048_576 % 16));
        out.push(hex(code / 65_536 % 16));
        out.push(hex(code / 4_096 % 16));
        out.push(hex(code / 256 % 16));
        out.push(hex(code / 16 % 16));
        out.push(hex(code % 16));
    }
    assert(out@ =~= before + escaped_char(c));
}

/// A text as it stands in a file name.
pub fn escape(s: &str) -> (r: String)
    ensures
        r@ == escaped(s@),
{
    let mut out = String::new();
    for c in it: s.chars()
        invariant
            it.seq() == s@,
            out@ == escaped(s@.take(it.index() as int)),
    {
        let ghost k = it.index() as int;
        proof {
            lemma_escaped_push(s@.take(k), c);
            assert(s@.take(k + 1) =~= s@.take(k).push(c));
        }
        push_escaped(&mut out, c);
    }
    assert(s@.take(s@.len() as int) =~= s@);
    out
}

proof fn lemma_escaped_push(s: Seq<char>, c: char)
    ensures
        escaped(s.push(c)) == escaped(s) + escaped_char(c),
    decreases s.len(),
{
    if s.len() > 0 {
        lemma_escaped_push(s.drop_first(), c);
        assert(s.push(c).drop_first() =~= s.drop_first().push(c));
        assert(escaped(s.push(c)) =~= escaped(s) + escaped_char(c));
    } else {
        assert(s.push(c).drop_first() =~= s);
        assert(escaped(s.push(c)) =~= escaped(s) + escaped_char(c));
    }
}

/// The slug of an agent's identifier.
pub fn slugify_agent(s: &str) -> (r: String)
    ensures
        r@ == agent_slug(s@),
{
    let mut out = String::new();
    // What stands between the last letter or digit and here: anything at
    // all, and a single dot.
    let mut apart = false;
    let mut dot = false;
    for c in it: s.chars()
        invariant
            it.seq() == s@,
            out@ == dotted(s@.take(it.index() as int)),
            apart == (it.index() > 0 && !is_alnum(s@[it.index() - 1])),
            dot == (it.index() > 1 && s@[it.index() - 1] == '.' && is_alnum(s@[it.index() - 2])),
    {
        let ghost k = it.index() as int;
        let ghost seen = s@.take(k + 1);
        assert(seen.drop_last() =~= s@.take(k));
        assert(seen.last() == c);
        if alnum(c) {
            if apart && !out.as_str().is_empty() {
                out.push(
                    if dot {
                        '.'
                    } else {
                        '-'
                    },
                );
            }
            out.push(to_lower(c));
            apart = false;
            dot = false;
        } else {
            dot = c == '.' && !apart && !out.as_str().is_empty();
            apart = true;
        }
    }
    assert(s@.take(s@.len() as int) =~= s@);
    if out.as_str().is_empty() {
        "untitled".to_owned()
    } else {
        out
    }
}

// ---------------------------------------------------------------------
// Laws
// ---------------------------------------------------------------------

/// A small letter, a digit or a hyphen.
pub open spec fn is_slug_char(c: char) -> bool {
    (is_alnum(c) && lower(c) == c) || c == '-'
}

/// The shape of a slug: small letters, digits and hyphens, with no hyphen at
/// either end and no two in a row.
pub open spec fn is_slug(s: Seq<char>) -> bool {
    &&& s.len() > 0
    &&& s[0] != '-'
    &&& s.last() != '-'
    &&& forall|i: int| 0 <= i < s.len() ==> is_slug_char(#[trigger] s[i])
    &&& forall|i: int, j: int|
        0 <= i && j == i + 1 && j < s.len() ==> #[trigger] s[i] != '-' || #[trigger] s[j] != '-'
}

proof fn lemma_joined_shape(s: Seq<char>)
    ensures
        joined(s).len() == 0 || is_slug(joined(s)),
    decreases s.len(),
{
    if s.len() > 0 {
        lemma_joined_shape(s.drop_last());
    }
}

/// Every text has a slug of the right shape.
pub proof fn lemma_slug_shape(s: Seq<char>)
    ensures
        is_slug(slug(s)),
{
    lemma_joined_shape(s);
    reveal_strlit("untitled");
}

proof fn lemma_joined_prefix(t: Seq<char>, k: int)
    requires
        is_slug(t),
        0 <= k <= t.len(),
    ensures
        joined(t.take(k)) == if k > 0 && t[k - 1] == '-' {
            t.take(k - 1)
        } else {
            t.take(k)
        },
    decreases k,
{
    if k > 0 {
        lemma_joined_prefix(t, k - 1);
        let p = t.take(k);
        assert(p.drop_last() =~= t.take(k - 1));
        assert(p.last() == t[k - 1]);
        assert(is_slug_char(t[k - 1]));
        if k > 1 {
            assert(p[k - 2] == t[k - 2]);
            assert(is_slug_char(t[k - 2]));
            if t[k - 2] == '-' {
                assert(t[k - 1] != '-');
                assert(t.take(k - 2).push('-').push(t[k - 1]) =~= t.take(k));
                if k == 2 {
                    assert(t[0] == '-');
                }
            } else {
                assert(t.take(k - 1).push(t[k - 1]) =~= t.take(k));
            }
        } else {
            assert(t.take(0).push(t[0]) =~= t.take(1));
        }
    } else {
        assert(t.take(0) =~= Seq::<char>::empty());
    }
}

/// A slug is its own slug.
pub proof fn lemma_slug_of_slug(s: Seq<char>)
    ensures
        slug(slug(s)) == slug(s),
{
    let t = slug(s);
    lemma_slug_shape(s);
    lemma_joined_prefix(t, t.len() as int);
    assert(t.take(t.len() as int) =~= t);
}

/// The shape of an agent's slug: small letters and digits, with hyphens and
/// dots among them, but none at either end and no two in a row.
pub open spec fn is_agent_slug(s: Seq<char>) -> bool {
    &&& s.len() > 0
    &&& is_alnum(s[0])
    &&& is_alnum(s.last())
    &&& forall|i: int|
        0 <= i < s.len() ==> is_slug_char(#[trigger] s[i]) || s[i] == '.'
    &&& forall|i: int, j: int|
        0 <= i && j == i + 1 && j < s.len() ==> is_alnum(#[trigger] s[i]) || is_alnum(
            #[trigger] s[j],
        )
}

proof fn lemma_dotted_shape(s: Seq<char>)
    ensures
        dotted(s).len() == 0 || is_agent_slug(dotted(s)),
    decreases s.len(),
{
    if s.len() > 0 {
        lemma_dotted_shape(s.drop_last());
    }
}

/// Every identifier has a slug of the right shape.
pub proof fn lemma_agent_slug_shape(s: Seq<char>)
    ensures
        is_agent_slug(agent_slug(s)),
{
    lemma_dotted_shape(s);
    reveal_strlit("untitled");
}

proof fn lemma_dotted_prefix(t: Seq<char>, k: int)
    requires
        is_agent_slug(t),
        0 <= k <= t.len(),
    ensures
        dotted(t.take(k)) == if k > 0 && !is_alnum(t[k - 1]) {
            t.take(k - 1)
        } else {
            t.take(k)
        },
    decreases k,
{
    if k > 0 {
        lemma_dotted_prefix(t, k - 1);
        let p = t.take(k);
        assert(p.drop_last() =~= t.take(k - 1));
        assert(p.last() == t[k - 1]);
        assert(is_slug_char(t[k - 1]) || t[k - 1] == '.');
        if k > 1 {
            assert(p[k - 2] == t[k - 2]);
            assert(is_slug_char(t[k - 2]) || t[k - 2] == '.');
            if !is_alnum(t[k - 2]) {
                assert(is_alnum(t[k - 1]));
                assert(t.take(k - 2).push(t[k - 2]).push(t[k - 1]) =~= t.take(k));
                assert(k > 2);
                assert(p[k - 3] == t[k - 3]);
                assert(is_alnum(t[k - 3]));
            } else {
                assert(t.take(k - 1).push(t[k - 1]) =~= t.take(k));
            }
        } else {
            assert(t.take(0).push(t[0]) =~= t.take(1));
        }
    } else {
        assert(t.take(0) =~= Seq::<char>::empty());
    }
}

/// An identifier that has the shape of a slug is its own slug, dots and all,
/// so no two such agents share one.
pub proof fn lemma_agent_slug_of_slug(s: Seq<char>)
    requires
        is_agent_slug(s),
    ensures
        agent_slug(s) == s,
{
    lemma_dotted_prefix(s, s.len() as int);
    assert(s.take(s.len() as int) =~= s);
}

proof fn lemma_code_digits(c: char, d: char)
    requires
        forall|k: int| 0 <= k < 6 ==> #[trigger] code_digit(c, k) == code_digit(d, k),
    ensures
        c == d,
{
    let m = c as nat;
    let n = d as nat;
    assert(code_digit(c, 5) == code_digit(d, 5));
    assert(m / 1_048_576 == n / 1_048_576);
    assert(code_digit(c, 4) == code_digit(d, 4));
    lemma_digit_joins(m / 65_536, n / 65_536);
    assert(code_digit(c, 3) == code_digit(d, 3));
    lemma_digit_joins(m / 4_096, n / 4_096);
    assert(code_digit(c, 2) == code_digit(d, 2));
    lemma_digit_joins(m / 256, n / 256);
    assert(code_digit(c, 1) == code_digit(d, 1));
    lemma_digit_joins(m / 16, n / 16);
    assert(code_digit(c, 0) == code_digit(d, 0));
    lemma_digit_joins(m, n);
}

proof fn lemma_digit_joins(m: nat, n: nat)
    requires
        m / 16 == n / 16,
        m % 16 == n % 16,
    ensures
        m == n,
{
}

/// No bracket stands in an escaped text.
pub proof fn lemma_escaped_plain(s: Seq<char>)
    ensures
        !escaped(s).contains('('),
    decreases s.len(),
{
    if s.len() > 0 {
        lemma_escaped_plain(s.drop_first());
        let e = escaped_char(s[0]);
        let rest = escaped(s.drop_first());
        if (e + rest).contains('(') {
            let k = choose|k: int| 0 <= k < (e + rest).len() && (e + rest)[k] == '(';
            if k >= e.len() {
                assert(rest[k - e.len()] == '(');
            }
        }
    }
}

/// Two texts never stand alike in a file name.
pub proof fn lemma_escaped_unique(a: Seq<char>, b: Seq<char>)
    requires
        escaped(a) == escaped(b),
    ensures
        a == b,
    decreases a.len(),
{
    let x = escaped(a);
    if a.len() == 0 || b.len() == 0 {
        if a.len() > 0 {
            assert(escaped(a).len() > 0);
        }
        if b.len() > 0 {
            assert(escaped(b).len() > 0);
        }
        assert(a =~= b);
    } else {
        let ea = escaped_char(a[0]);
        let eb = escaped_char(b[0]);
        assert(x[0] == ea[0] && x[0] == eb[0]);
        assert(ea.len() == eb.len());
        if ea.len() == 7 {
            assert forall|k: int| 0 <= k < 6 implies #[trigger] code_digit(a[0], k) == code_digit(
                b[0],
                k,
            ) by {
                assert(x[6 - k] == ea[6 - k] && x[6 - k] == eb[6 - k]);
                assert(ea[6 - k] == types::hex_char(code_digit(a[0], k)));
                assert(eb[6 - k] == types::hex_char(code_digit(b[0], k)));
            }
            lemma_code_digits(a[0], b[0]);
        }
        assert(a[0] == b[0]);
        assert(escaped(a.drop_first()) =~= x.skip(ea.len() as int));
        assert(escaped(b.drop_first()) =~= x.skip(ea.len() as int));
        lemma_escaped_unique(a.drop_first(), b.drop_first());
        assert(a =~= seq![a[0]] + a.drop_first());
        assert(b =~= seq![b[0]] + b.drop_first());
    }
}

// ---------------------------------------------------------------------
// What a slug keeps
// ---------------------------------------------------------------------

/// The letters and digits are those of ASCII, and a capital letter is made
/// small by itself.
pub proof fn lemma_letters(c: char)
    ensures
        is_alnum(c) <==> ('0' <= c <= '9') || ('A' <= c <= 'Z') || ('a' <= c <= 'z'),
        !('A' <= c <= 'Z') ==> lower(c) == c,
        'A' <= c <= 'Z' ==> 'a' <= lower(c) <= 'z' && lower(c) as int - 'a' as int == c as int
            - 'A' as int,
{
}

/// A text in small letters.
pub open spec fn small(s: Seq<char>) -> Seq<char> {
    Seq::new(s.len(), |i: int| lower(s[i]))
}

/// Whether a text is made of letters and digits only.
pub open spec fn is_word(s: Seq<char>) -> bool {
    forall|i: int| 0 <= i < s.len() ==> is_alnum(#[trigger] s[i])
}

/// Whether a text holds no letter and no digit.
pub open spec fn is_gap(s: Seq<char>) -> bool {
    forall|i: int| 0 <= i < s.len() ==> !is_alnum(#[trigger] s[i])
}

/// A word is its own slug, in small letters, and what has no letter and no
/// digit is untitled.
pub proof fn lemma_slug_of_word(s: Seq<char>)
    ensures
        is_word(s) ==> joined(s) == small(s) && dotted(s) == small(s),
        is_word(s) && s.len() > 0 ==> slug(s) == small(s) && agent_slug(s) == small(s),
        is_gap(s) ==> slug(s) == "untitled"@ && agent_slug(s) == "untitled"@,
        is_gap(s) ==> joined(s).len() == 0 && dotted(s).len() == 0,
    decreases s.len(),
{
    if s.len() > 0 {
        let rest = s.drop_last();
        lemma_slug_of_word(rest);
        if is_word(s) {
            assert forall|i: int| 0 <= i < rest.len() implies is_alnum(#[trigger] rest[i]) by {
                assert(rest[i] == s[i]);
            }
            assert(is_alnum(s[s.len() - 1]));
            if s.len() > 1 {
                assert(is_alnum(s[s.len() - 2]));
            }
            assert(joined(s) =~= small(s));
            assert(dotted(s) =~= small(s));
        }
        if is_gap(s) {
            assert forall|i: int| 0 <= i < rest.len() implies !is_alnum(#[trigger] rest[i]) by {
                assert(rest[i] == s[i]);
            }
            assert(!is_alnum(s[s.len() - 1]));
        }
    } else {
        assert(joined(s) =~= small(s));
        assert(dotted(s) =~= small(s));
    }
}

/// What stands before the first and behind the last letter or digit does not
/// count.
pub proof fn lemma_ends_do_not_count(s: Seq<char>, gap: Seq<char>)
    requires
        is_gap(gap),
    ensures
        joined(s + gap) == joined(s),
        dotted(s + gap) == dotted(s),
        slug(s + gap) == slug(s),
        agent_slug(s + gap) == agent_slug(s),
    decreases gap.len(),
{
    let all = s + gap;
    if gap.len() > 0 {
        let rest = gap.drop_last();
        assert forall|i: int| 0 <= i < rest.len() implies !is_alnum(#[trigger] rest[i]) by {
            assert(rest[i] == gap[i]);
        }
        lemma_ends_do_not_count(s, rest);
        assert(all.drop_last() =~= s + rest);
        assert(!is_alnum(gap[gap.len() - 1]));
    } else {
        assert(all =~= s);
    }
}

/// Two parts of a name keep their slugs, with one hyphen between them whatever
/// stood there. In the identifier of an agent a single dot stays a dot.
pub proof fn lemma_slug_of_parts(a: Seq<char>, gap: Seq<char>, b: Seq<char>)
    requires
        a.len() > 0 && is_alnum(a.last()),
        gap.len() > 0 && is_gap(gap),
        b.len() > 0 && is_alnum(b[0]),
    ensures
        slug(a + gap + b) == slug(a) + seq!['-'] + slug(b),
        gap != seq!['.'] ==> agent_slug(a + gap + b) == agent_slug(a) + seq!['-'] + agent_slug(b),
        gap == seq!['.'] ==> agent_slug(a + gap + b) == agent_slug(a) + seq!['.'] + agent_slug(b),
        joined(a + gap + b) == joined(a) + seq!['-'] + joined(b),
        gap != seq!['.'] ==> dotted(a + gap + b) == dotted(a) + seq!['-'] + dotted(b),
        gap == seq!['.'] ==> dotted(a + gap + b) == dotted(a) + seq!['.'] + dotted(b),
        joined(a).len() > 0 && joined(b).len() > 0 && dotted(a).len() > 0 && dotted(b).len() > 0,
    decreases b.len(),
{
    let all = a + gap + b;
    let rest = b.drop_last();
    assert(all.drop_last() =~= a + gap + rest);
    assert(all.last() == b.last());
    assert(joined(a).len() > 0 && dotted(a).len() > 0);
    let n = all.len();
    if b.len() == 1 {
        lemma_ends_do_not_count(a, gap);
        assert(a + gap + rest =~= a + gap);
        assert(all[n - 2] == gap.last());
        assert(!is_alnum(gap[gap.len() - 1]));
        assert(b =~= seq![b[0]]);
        assert(joined(rest) == rest && dotted(rest) == rest);
        assert(b.last() == b[0]);
        assert(joined(b) =~= seq![lower(b[0])]);
        assert(dotted(b) =~= seq![lower(b[0])]);
        assert(joined(all) =~= joined(a) + seq!['-'] + joined(b));
        if gap == seq!['.'] {
            assert(all[n - 3] == a.last());
            assert(all[n - 2] == '.');
            assert(dotted(all) =~= dotted(a) + seq!['.'] + dotted(b));
        } else {
            if gap.len() == 1 {
                if gap[0] == '.' {
                    assert(gap =~= seq!['.']);
                }
            } else {
                assert(all[n - 3] == gap[gap.len() - 2]);
                assert(!is_alnum(gap[gap.len() - 2]));
            }
            assert(dotted(all) =~= dotted(a) + seq!['-'] + dotted(b));
        }
    } else {
        lemma_slug_of_parts(a, gap, rest);
        assert(all[n - 2] == b[b.len() - 2]);
        if b.len() == 2 {
            assert(is_alnum(b[b.len() - 2]));
        } else {
            assert(all[n - 3] == b[b.len() - 3]);
        }
        assert(joined(all) =~= joined(a) + seq!['-'] + joined(b));
        if gap == seq!['.'] {
            assert(dotted(all) =~= dotted(a) + seq!['.'] + dotted(b));
        } else {
            assert(dotted(all) =~= dotted(a) + seq!['-'] + dotted(b));
        }
    }
}

} // verus!
