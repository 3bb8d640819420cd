//! Text as the plugin needs it: decimal numbers, search, trimming, and the joining of paths.
use vstd::prelude::*;

verus! {

/// The decimal digit for `d`, a number below ten.
pub open spec fn digit(d: nat) -> char {
    (48 + d) as char
}

/// `n` written in decimal, without leading zeros.
pub open spec fn decimal(n: nat) -> Seq<char>
    decreases n,
{
    if n < 10 {
        seq![digit(n)]
    } else {
        decimal(n / 10).push(digit(n % 10))
    }
}

/// Whether every character of `s` is a decimal digit.
pub open spec fn all_digits(s: Seq<char>) -> bool {
    forall|i: int| 0 <= i < s.len() ==> '0' <= #[trigger] s[i] <= '9'
}

/// Whether `pat` stands in `s` at position `i`.
pub open spec fn occurs_at(s: Seq<char>, pat: Seq<char>, i: int) -> bool {
    &&& 0 <= i
    &&& i + pat.len() <= s.len()
    &&& s.subrange(i, i + pat.len()) == pat
}

/// Whether `pat` stands anywhere in `s`.
pub open spec fn occurs(s: Seq<char>, pat: Seq<char>) -> bool {
    exists|i: int| occurs_at(s, pat, i)
}

/// The characters with the Unicode property `White_Space`.
pub open spec fn is_white_space(c: char) -> bool {
    ||| '\u{9}' <= c <= '\u{d}'
    ||| c == '\u{20}'
    ||| c == '\u{85}'
    ||| c == '\u{a0}'
    ||| c == '\u{1680}'
    ||| '\u{2000}' <= c <= '\u{200a}'
    ||| c == '\u{2028}'
    ||| c == '\u{2029}'
    ||| c == '\u{202f}'
    ||| c == '\u{205f}'
    ||| c == '\u{3000}'
}

/// `s` without its leading white space.
pub open spec fn trimmed_start(s: Seq<char>) -> Seq<char>
    decreases s.len(),
{
    if s.len() > 0 && is_white_space(s.first()) {
        trimmed_start(s.drop_first())
    } else {
        s
    }
}

/// `s` without its trailing white space.
pub open spec fn trimmed_end(s: Seq<char>) -> Seq<char>
    decreases s.len(),
{
    if s.len() > 0 && is_white_space(s.last()) {
        trimmed_end(s.drop_last())
    } else {
        s
    }
}

/// `s` without the white space at both ends.
pub open spec fn trimmed(s: Seq<char>) -> Seq<char> {
    trimmed_end(trimmed_start(s))
}

/// `s` with every `/` turned into `-`.
pub open spec fn dashed(s: Seq<char>) -> Seq<char> {
    s.map_values(
        |c: char|
            if c == '/' {
                '-'
            } else {
                c
            },
    )
}

/// What follows the last `c` in `s`, or all of `s` where there is none.
pub open spec fn after_last(s: Seq<char>, c: char) -> Seq<char>
    decreases s.len(),
{
    if s.len() == 0 || s.last() == c {
        Seq::empty()
    } else {
        after_last(s.drop_last(), c).push(s.last())
    }
}

/// The path of `name` inside `dir`: an absolute `name` stands alone, and a separator is put in
/// only where `dir` does not bring one.
pub open spec fn joined(dir: Seq<char>, name: Seq<char>) -> Seq<char> {
    if name.len() > 0 && name.first() == '/' {
        name
    } else if dir.len() == 0 || dir.last() == '/' {
        dir + name
    } else {
        dir.push('/') + name
    }
}

/// `n` in decimal.
pub fn decimal_string(n: u64) -> (r: String)
    ensures
        r@ == decimal(n as nat),
    decreases n,
{
    let mut out = if n < 10 {
        String::new()
    } else {
        decimal_string(n / 10)
    };
    let d: u64 = n % 10;
    proof {
        reveal_strlit("0");
        reveal_strlit("1");
        reveal_strlit("2");
        reveal_strlit("3");
        reveal_strlit("4");
        reveal_strlit("5");
        reveal_strlit("6");
        reveal_strlit("7");
        reveal_strlit("8");
        reveal_strlit("9");
    }
    let text = match d {
        0 => "0",
        1 => "1",
        2 => "2",
        3 => "3",
        4 => "4",
        5 => "5",
        6 => "6",
        7 => "7",
        8 => "8",
        _ => "9",
    };
    assert(text@ =~= seq![digit(d as nat)]);
    out.append(text);
    assert(out@ =~= decimal(n as nat));
    out
}

/// The characters of `s`.
fn chars_of(s: &str) -> (r: Vec<char>)
    ensures
        r@ == s@,
{
    let mut out: Vec<char> = Vec::new();
    for c in it: s.chars()
        invariant
            it.seq() == s@,
            out@ == s@.take(it.index() as int),
    {
        out.push(c);
    }
    out
}

/// Whether `pat` stands anywhere in `s`.
pub fn contains(s: &str, pat: &str) -> (r: bool)
    ensures
        r == occurs(s@, pat@),
{
    let text = chars_of(s);
    let pattern = chars_of(pat);
    if pattern.len() > text.len() {
        return false;
    }
    let last: usize = text.len() - pattern.len();
    let mut i: usize = 0;
    while i <= last
        invariant
            text@ == s@,
            pattern@ == pat@,
            last + pattern.len() == text.len(),
            i <= last + 1,
            forall|k: int| 0 <= k < i ==> !occurs_at(s@, pat@, k),
        decreases last + 1 - i,
    {
        let mut j: usize = 0;
        while j < pattern.len() && text[i + j] == pattern[j]
            invariant
                text@ == s@,
                pattern@ == pat@,
                i + pattern.len() <= text.len(),
                j <= pattern.len(),
                forall|k: int| 0 <= k < j ==> text[i + k] == pattern[k],
            decreases pattern.len() - j,
        {
            j = j + 1;
        }
        if j == pattern.len() {
            assert(s@.subrange(i as int, i + pat@.len()) =~= pat@);
            assert(occurs_at(s@, pat@, i as int));
            return true;
        }
        assert(!occurs_at(s@, pat@, i as int)) by {
            if occurs_at(s@, pat@, i as int) {
                assert(s@.subrange(i as int, i + pat@.len())[j as int] == pat@[j as int]);
            }
        }
        i = i + 1;
    }
    false
}

/// Whether `c` has the Unicode property `White_Space`.
pub fn white_space(c: char) -> (r: bool)
    ensures
        r == is_white_space(c),
{
    ('\u{9}' <= c && c <= '\u{d}') || c == '\u{20}' || c == '\u{85}' || c == '\u{a0}' || c
        == '\u{1680}' || ('\u{2000}' <= c && c <= '\u{200a}') || c == '\u{2028}' || c == '\u{2029}'
        || c == '\u{202f}' || c == '\u{205f}' || c == '\u{3000}'
}

/// `s` without the white space at both ends.
pub fn trim(s: &str) -> (r: &str)
    ensures
        r@ == trimmed(s@),
{
    let text = chars_of(s);
    let mut from: usize = 0;
    assert(s@.skip(0) =~= s@);
    while from < text.len() && white_space(text[from])
        invariant
            text@ == s@,
            from <= text.len(),
            trimmed_start(s@.skip(from as int)) == trimmed_start(s@),
        decreases text.len() - from,
    {
        assert(s@.skip(from as int).drop_first() =~= s@.skip(from + 1));
        from = from + 1;
    }
    let ghost rest = s@.skip(from as int);
    assert(rest == trimmed_start(s@));
    let mut to: usize = text.len();
    assert(s@.subrange(from as int, to as int) =~= rest);
    while from < to && white_space(text[to - 1])
        invariant
            text@ == s@,
            from <= to <= text.len(),
            trimmed_end(s@.subrange(from as int, to as int)) == trimmed_end(rest),
        decreases to,
    {
        assert(s@.subrange(from as int, to as int).drop_last() =~= s@.subrange(
            from as int,
            to - 1,
        ));
        to = to - 1;
    }
    s.substring_char(from, to)
}

/// `s` with every `/` turned into `-`.
pub fn slashes_to_dashes(s: &str) -> (r: String)
    ensures
        r@ == dashed(s@),
{
    let n: usize = s.unicode_len();
    let mut out = String::new();
    let mut i: usize = 0;
    while i < n
        invariant
            n == s@.len(),
            i <= n,
            out@ == dashed(s@).take(i as int),
        decreases n - i,
    {
        let ghost before = out@;
        if s.get_char(i) == '/' {
            proof {
                reveal_strlit("-");
            }
            out.append("-");
        } else {
            out.append(s.substring_char(i, i + 1));
        }
        assert(out@ =~= before.push(dashed(s@)[i as int]));
        i = i + 1;
    }
    out
}

/// What follows the last `c` in `s`, or all of `s` where there is none.
pub fn base_name(s: &str, c: char) -> (r: &str)
    ensures
        r@ == after_last(s@, c),
{
    let n: usize = s.unicode_len();
    let mut i: usize = n;
    assert(s@.take(n as int) =~= s@);
    while i > 0 && s.get_char(i - 1) != c
        invariant
            n == s@.len(),
            i <= n,
            after_last(s@.take(i as int), c) + s@.skip(i as int) == after_last(s@, c),
        decreases i,
    {
        let ghost head = s@.take(i as int);
        assert(head.drop_last() =~= s@.take(i - 1));
        assert(after_last(head.drop_last(), c).push(head.last()) + s@.skip(i as int) =~= after_last(
            head.drop_last(),
            c,
        ) + s@.skip(i - 1));
        i = i - 1;
    }
    assert(after_last(s@.take(i as int), c) =~= Seq::empty());
    assert(s@.subrange(i as int, n as int) =~= s@.skip(i as int));
    s.substring_char(i, n)
}

/// The path of `name` inside `dir`.
pub fn join_path(dir: &str, name: &str) -> (r: String)
    ensures
        r@ == joined(dir@, name@),
{
    let len: usize = dir.unicode_len();
    if name.unicode_len() > 0 && name.get_char(0) == '/' {
        return name.to_owned();
    }
    let mut out = dir.to_owned();
    if len > 0 && dir.get_char(len - 1) != '/' {
        proof {
            reveal_strlit("/");
        }
        out.append("/");
        assert(out@ =~= dir@.push('/'));
    }
    out.append(name);
    out
}

/// The number that the digits of `s` stand for.
pub open spec fn value(s: Seq<char>) -> int
    decreases s.len(),
{
    if s.len() == 0 {
        0
    } else {
        10 * value(s.drop_last()) + (s.last() as int - 48)
    }
}

proof fn lemma_value_of_decimal(n: nat)
    ensures
        value(decimal(n)) == n,
    decreases n,
{
    reveal_with_fuel(value, 2);
    if n < 10 {
        assert(decimal(n).drop_last() =~= Seq::empty());
    } else {
        lemma_value_of_decimal(n / 10);
        assert(decimal(n).drop_last() =~= decimal(n / 10));
    }
}

/// Two numbers with one decimal text are the same number.
pub proof fn law_decimal_injective(m: nat, n: nat)
    requires
        decimal(m) == decimal(n),
    ensures
        m == n,
{
    lemma_value_of_decimal(m);
    lemma_value_of_decimal(n);
}

/// A number in decimal is one digit or more, and nothing else.
pub proof fn law_decimal_is_digits(n: nat)
    ensures
        decimal(n).len() > 0,
        all_digits(decimal(n)),
    decreases n,
{
    if n >= 10 {
        law_decimal_is_digits(n / 10);
    }
}

/// What follows the last `c` is what was put behind one, if that holds no `c` itself.
pub proof fn lemma_after_last(head: Seq<char>, c: char, tail: Seq<char>)
    requires
        !tail.contains(c),
    ensures
        after_last(head.push(c) + tail, c) == tail,
    decreases tail.len(),
{
    let whole = head.push(c) + tail;
    if tail.len() == 0 {
        assert(whole.last() == c);
    } else {
        let shorter = tail.drop_last();
        assert(!shorter.contains(c)) by {
            if shorter.contains(c) {
                let i = shorter.index_of(c);
                assert(tail[i] == c);
            }
        }
        lemma_after_last(head, c, shorter);
        assert(whole.drop_last() =~= head.push(c) + shorter);
        assert(tail.contains(tail.last()));
        assert(after_last(whole, c) =~= tail);
    }
}

/// Text in front of a separator and text behind it, with no separator in the latter, can be told
/// apart again.
pub proof fn lemma_split_unique(
    head1: Seq<char>,
    tail1: Seq<char>,
    head2: Seq<char>,
    tail2: Seq<char>,
    c: char,
)
    requires
        !tail1.contains(c),
        !tail2.contains(c),
        head1.push(c) + tail1 == head2.push(c) + tail2,
    ensures
        head1 == head2,
        tail1 == tail2,
{
    lemma_after_last(head1, c, tail1);
    lemma_after_last(head2, c, tail2);
    let whole = head1.push(c) + tail1;
    assert(head1 =~= whole.take(head1.len() as int));
    assert(head2 =~= whole.take(head2.len() as int));
}

/// Relative names in one directory have one path only if they are the same.
pub proof fn lemma_joined_unique(dir: Seq<char>, name1: Seq<char>, name2: Seq<char>)
    requires
        name1.len() > 0 ==> name1[0] != '/',
        name2.len() > 0 ==> name2[0] != '/',
        joined(dir, name1) == joined(dir, name2),
    ensures
        name1 == name2,
{
    let path = joined(dir, name1);
    assert(name1 =~= path.skip(path.len() - name1.len()));
    assert(name2 =~= path.skip(path.len() - name2.len()));
}

/// A number in decimal can be read back, and has no leading zero but that of zero itself.
pub proof fn law_decimal_reads_back(n: nat)
    ensures
        value(decimal(n)) == n,
        decimal(n).len() > 0,
        decimal(n)[0] == '0' <==> n == 0,
        forall|i: int| 0 <= i < decimal(n).len() ==> '0' <= #[trigger] decimal(n)[i] <= '9',
        decimal(n).last() as int == '0' as int + n % 10,
    decreases n,
{
    lemma_value_of_decimal(n);
    law_decimal_is_digits(n);
    if n >= 10 {
        law_decimal_reads_back(n / 10);
        assert(decimal(n)[0] == decimal(n / 10)[0]);
    }
}

/// Where a pattern stands in a text, from some position on the text has the characters of the
/// pattern, one by one; and wherever it has them, the pattern stands in it.
pub proof fn law_occurs_by_characters(s: Seq<char>, pat: Seq<char>, i: int) -> (at: int)
    ensures
        occurs(s, pat) ==> 0 <= at && at + pat.len() <= s.len() && forall|k: int|
            0 <= k < pat.len() ==> s[at + k] == #[trigger] pat[k],
        0 <= i && i + pat.len() <= s.len() && (forall|k: int|
            0 <= k < pat.len() ==> s[i + k] == #[trigger] pat[k]) ==> occurs(s, pat),
{
    let at = choose|at: int| occurs_at(s, pat, at);
    if occurs(s, pat) {
        assert forall|k: int| 0 <= k < pat.len() implies s[at + k] == #[trigger] pat[k] by {
            assert(s.subrange(at, at + pat.len())[k] == pat[k]);
        }
    }
    if 0 <= i && i + pat.len() <= s.len() && (forall|k: int|
        0 <= k < pat.len() ==> s[i + k] == #[trigger] pat[k]) {
        assert(s.subrange(i, i + pat.len()) =~= pat);
        assert(occurs_at(s, pat, i));
    }
    at
}

/// White space is what Unicode says, by the numbers of the characters.
pub proof fn law_white_space_by_number(c: char)
    ensures
        is_white_space(c) <==> ({
            let n = c as int;
            ||| 9 <= n <= 13
            ||| n == 32
            ||| n == 133
            ||| n == 160
            ||| n == 5760
            ||| 8192 <= n <= 8202
            ||| n == 8232
            ||| n == 8233
            ||| n == 8239
            ||| n == 8287
            ||| n == 12288
        }),
{
}

/// Trimming takes white space off both ends, all of it, and nothing else.
pub proof fn law_trimmed_takes_white_space(s: Seq<char>) -> (lead: nat)
    ensures
        lead + trimmed(s).len() <= s.len(),
        trimmed(s) == s.subrange(lead as int, (lead + trimmed(s).len()) as int),
        forall|i: int| 0 <= i < lead ==> is_white_space(#[trigger] s[i]),
        forall|i: int|
            lead + trimmed(s).len() <= i < s.len() ==> is_white_space(#[trigger] s[i]),
        trimmed(s).len() > 0 ==> !is_white_space(trimmed(s).first()) && !is_white_space(
            trimmed(s).last(),
        ),
{
    lemma_trimmed_start(s);
    let rest = trimmed_start(s);
    lemma_trimmed_end(rest);
    let lead = (s.len() - rest.len()) as nat;
    let kept = trimmed(s).len();
    assert(trimmed(s) =~= s.subrange(lead as int, (lead + kept) as int));
    assert forall|i: int| lead + kept <= i < s.len() implies is_white_space(#[trigger] s[i]) by {
        assert(rest[i - lead] == s[i]);
    }
    lead
}

proof fn lemma_trimmed_start(s: Seq<char>)
    ensures
        trimmed_start(s).len() <= s.len(),
        trimmed_start(s) == s.skip(s.len() - trimmed_start(s).len()),
        forall|i: int|
            0 <= i < s.len() - trimmed_start(s).len() ==> is_white_space(#[trigger] s[i]),
        trimmed_start(s).len() > 0 ==> !is_white_space(trimmed_start(s).first()),
    decreases s.len(),
{
    if s.len() > 0 && is_white_space(s.first()) {
        let rest = s.drop_first();
        lemma_trimmed_start(rest);
        assert forall|i: int|
            0 <= i < s.len() - trimmed_start(s).len() implies is_white_space(#[trigger] s[i]) by {
            if i > 0 {
                assert(rest[i - 1] == s[i]);
            }
        }
    }
    assert(trimmed_start(s) =~= s.skip(s.len() - trimmed_start(s).len()));
}

proof fn lemma_trimmed_end(s: Seq<char>)
    ensures
        trimmed_end(s).len() <= s.len(),
        trimmed_end(s) == s.take(trimmed_end(s).len() as int),
        forall|i: int|
            trimmed_end(s).len() <= i < s.len() ==> is_white_space(#[trigger] s[i]),
        trimmed_end(s).len() > 0 ==> !is_white_space(trimmed_end(s).last()),
    decreases s.len(),
{
    if s.len() > 0 && is_white_space(s.last()) {
        let rest = s.drop_last();
        lemma_trimmed_end(rest);
        assert forall|i: int| trimmed_end(s).len() <= i < s.len() implies is_white_space(
            #[trigger] s[i],
        ) by {
            if i < s.len() - 1 {
                assert(rest[i] == s[i]);
            }
        }
    }
    assert(trimmed_end(s) =~= s.take(trimmed_end(s).len() as int));
}

/// Turning slashes into dashes keeps every other character where it is.
pub proof fn law_dashed_by_characters(s: Seq<char>, i: int)
    requires
        0 <= i < s.len(),
    ensures
        dashed(s).len() == s.len(),
        s[i] == '/' ==> dashed(s)[i] == '-',
        s[i] != '/' ==> dashed(s)[i] == s[i],
{
}

/// What follows the last `c` is the longest end of the text without a `c`.
pub proof fn law_after_last_is_the_end(s: Seq<char>, c: char)
    ensures
        after_last(s, c).len() <= s.len(),
        after_last(s, c) == s.skip(s.len() - after_last(s, c).len()),
        !after_last(s, c).contains(c),
        after_last(s, c).len() < s.len() ==> s[s.len() - after_last(s, c).len() - 1] == c,
    decreases s.len(),
{
    if s.len() > 0 && s.last() != c {
        let rest = s.drop_last();
        let end = after_last(rest, c);
        law_after_last_is_the_end(rest, c);
        if after_last(s, c).contains(c) {
            let i = after_last(s, c).index_of(c);
            assert(i < end.len());
            assert(end.contains(end[i]));
        }
    }
    assert(after_last(s, c) =~= s.skip(s.len() - after_last(s, c).len()));
}

/// A relative name stands in its directory behind exactly one separator, whether the directory
/// brings it or not; an absolute one stands for itself.
pub proof fn law_joined_by_parts(dir: Seq<char>, name: Seq<char>)
    ensures
        name.len() > 0 && name[0] == '/' ==> joined(dir, name) == name,
        !(name.len() > 0 && name[0] == '/') && dir.len() > 0 && dir[dir.len() - 1] != '/'
            ==> joined(dir, name) == dir + "/"@ + name,
        !(name.len() > 0 && name[0] == '/') && (dir.len() == 0 || dir[dir.len() - 1] == '/')
            ==> joined(dir, name) == dir + name,
{
    reveal_strlit("/");
    assert(dir.push('/') + name =~= dir + "/"@ + name);
}

} // verus!
