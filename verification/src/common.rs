//! Line-oriented text utilities shared by the renderers.
//!
//! The central operation is [`indent`]: it re-indents a rendered fragment by a
//! fixed two-space unit per nesting level, line by line, leaving empty lines
//! untouched. Its exact behaviour — including the way a trailing line break is
//! dropped and a carriage return before a line feed is stripped — is pinned
//! down by the spec functions in this module, because the rendered output is
//! compared byte for byte by golden tests.

use vstd::prelude::*;

verus! {

/// `n` space characters.
pub open spec fn spaces(n: nat) -> Seq<char>
    decreases n,
{
    if n == 0 {
        Seq::empty()
    } else {
        spaces((n - 1) as nat).push(' ')
    }
}

/// The prefix put in front of a non-empty line at the given indentation
/// level. Right-aligning a single space in a field of width `2 * level`
/// yields `2 * level` spaces, except that width zero leaves the lone space.
pub open spec fn pad_of(level: nat) -> Seq<char> {
    if level == 0 {
        seq![' ']
    } else {
        spaces(2 * level)
    }
}

/// Index of the first line feed in `s`, or `s.len()` if there is none.
pub open spec fn first_nl(s: Seq<char>) -> int
    decreases s.len(),
{
    if s.len() == 0 {
        0
    } else if s[0] == '\n' {
        0
    } else {
        1 + first_nl(s.drop_first())
    }
}

/// A line feed terminated this line: one carriage return directly before it
/// is stripped, as `str::lines` does.
pub open spec fn strip_cr(l: Seq<char>) -> Seq<char> {
    if l.len() > 0 && l.last() == '\r' {
        l.drop_last()
    } else {
        l
    }
}

/// `first_nl` always lands inside the sequence or right past its end.
pub proof fn lemma_first_nl_bounds(s: Seq<char>)
    ensures
        0 <= first_nl(s) <= s.len(),
    decreases s.len(),
{
    if s.len() > 0 && s[0] != '\n' {
        lemma_first_nl_bounds(s.drop_first());
    }
}

/// The lines of `s`, as `str::lines` yields them: split at every line feed,
/// a carriage return directly before a line feed stripped, and no final empty
/// line for a trailing line feed.
pub open spec fn lines_of(s: Seq<char>) -> Seq<Seq<char>>
    decreases s.len(),
    via lines_of_decreases
{
    if s.len() == 0 {
        Seq::empty()
    } else if first_nl(s) == s.len() {
        seq![s]
    } else {
        seq![strip_cr(s.take(first_nl(s)))] + lines_of(s.skip(first_nl(s) + 1))
    }
}

#[via_fn]
proof fn lines_of_decreases(s: Seq<char>) {
    lemma_first_nl_bounds(s);
}

/// One line after indentation: empty lines stay empty, others get the pad.
pub open spec fn indent_line(l: Seq<char>, level: nat) -> Seq<char> {
    if l.len() == 0 {
        l
    } else {
        pad_of(level) + l
    }
}

/// The indented lines joined back together with line feeds.
pub open spec fn join_indented(ls: Seq<Seq<char>>, level: nat) -> Seq<char>
    decreases ls.len(),
{
    if ls.len() == 0 {
        Seq::empty()
    } else if ls.len() == 1 {
        indent_line(ls[0], level)
    } else {
        join_indented(ls.drop_last(), level) + seq!['\n'] + indent_line(ls.last(), level)
    }
}

/// What [`indent`] returns.
pub open spec fn indent_text(s: Seq<char>, level: nat) -> Seq<char> {
    join_indented(lines_of(s), level)
}

/// Plain join with line feeds, as the renderers join sibling fragments.
pub open spec fn join_nl(ls: Seq<Seq<char>>) -> Seq<char>
    decreases ls.len(),
{
    if ls.len() == 0 {
        Seq::empty()
    } else if ls.len() == 1 {
        ls[0]
    } else {
        join_nl(ls.drop_last()) + "\n"@ + ls.last()
    }
}

/// The views of a sequence of character vectors.
pub open spec fn deep(ls: Seq<Vec<char>>) -> Seq<Seq<char>> {
    ls.map_values(|l: Vec<char>| l@)
}

/// `first_nl` is the unique position with no line feed before it and a line
/// feed (or the end) at it.
pub proof fn lemma_first_nl_at(s: Seq<char>, m: int)
    requires
        0 <= m <= s.len(),
        forall|k: int| 0 <= k < m ==> s[k] != '\n',
        m < s.len() ==> s[m] == '\n',
    ensures
        first_nl(s) == m,
    decreases s.len(),
{
    if s.len() == 0 {
    } else if s[0] == '\n' {
    } else {
        lemma_first_nl_at(s.drop_first(), m - 1);
    }
}

pub proof fn lemma_join_indented_step(ls: Seq<Seq<char>>, k: int, level: nat)
    requires
        0 <= k < ls.len(),
    ensures
        join_indented(ls.take(k + 1), level) == if k == 0 {
            indent_line(ls[0], level)
        } else {
            (join_indented(ls.take(k), level) + seq!['\n'] + indent_line(ls[k], level))
        },
{
    let t = ls.take(k + 1);
    assert(t.drop_last() =~= ls.take(k));
    assert(t.last() == ls[k]);
    if k == 0 {
        assert(t[0] == ls[0]);
    }
}

pub proof fn lemma_join_nl_push(ls: Seq<Seq<char>>, x: Seq<char>)
    ensures
        join_nl(ls.push(x)) == if ls.len() == 0 {
            x
        } else {
            (join_nl(ls) + "\n"@ + x)
        },
{
    let t = ls.push(x);
    assert(t.drop_last() =~= ls);
    assert(t.last() == x);
    if ls.len() == 0 {
        assert(t[0] == x);
    }
}

pub proof fn lemma_join_nl_concat(a: Seq<Seq<char>>, b: Seq<Seq<char>>)
    ensures
        join_nl(a + b) == (if a.len() == 0 {
            join_nl(b)
        } else if b.len() == 0 {
            join_nl(a)
        } else {
            (join_nl(a) + "\n"@ + join_nl(b))
        }),
    decreases b.len(),
{
    if b.len() == 0 {
        assert(a + b =~= a);
    } else if a.len() == 0 {
        assert(a + b =~= b);
    } else {
        lemma_join_nl_concat(a, b.drop_last());
        assert((a + b).drop_last() =~= a + b.drop_last());
        assert((a + b).last() == b.last());
        if b.len() == 1 {
            assert(join_nl(b) == b.last());
        } else {
            assert(join_nl(a) + "\n"@ + (join_nl(b.drop_last()) + "\n"@ + b.last()) =~= (join_nl(a)
                + "\n"@ + join_nl(b.drop_last())) + "\n"@ + b.last());
        }
    }
}

/// The characters of `s`, in order.
pub fn to_chars(s: &str) -> (r: Vec<char>)
    ensures
        r@ == s@,
{
    let n = s.unicode_len();
    let mut v: Vec<char> = Vec::new();
    let mut i: usize = 0;
    while i < n
        invariant
            n == s@.len(),
            i <= n,
            v@ == s@.take(i as int),
        decreases n - i,
    {
        v.push(s.get_char(i));
        assert(v@ =~= s@.take(i + 1));
        i = i + 1;
    }
    assert(v@ =~= s@);
    v
}

/// Relies on String::push: it appends exactly the given character.
#[verifier::external_body]
fn push_char(s: &mut String, c: char)
    ensures
        final(s)@ == old(s)@.push(c),
{
    s.push(c);
}

/// A string holding exactly the given characters.
pub fn chars_to_string(v: &Vec<char>) -> (r: String)
    ensures
        r@ == v@,
{
    let mut s = String::new();
    let mut i: usize = 0;
    while i < v.len()
        invariant
            i <= v@.len(),
            s@ == v@.take(i as int),
        decreases v@.len() - i,
    {
        push_char(&mut s, v[i]);
        assert(s@ =~= v@.take(i + 1));
        i = i + 1;
    }
    assert(s@ =~= v@);
    s
}

/// Whether two string slices hold the same characters.
pub fn str_eq(a: &str, b: &str) -> (r: bool)
    ensures
        r == (a@ == b@),
{
    let sa = a.to_owned();
    let sb = b.to_owned();
    sa == sb
}

/// A copy of the characters of `v` between `i` and `j`.
pub fn subvec(v: &Vec<char>, i: usize, j: usize) -> (r: Vec<char>)
    requires
        i <= j <= v@.len(),
    ensures
        r@ == v@.subrange(i as int, j as int),
{
    let mut out: Vec<char> = Vec::new();
    let mut k: usize = i;
    while k < j
        invariant
            i <= k <= j <= v@.len(),
            out@ == v@.subrange(i as int, k as int),
        decreases j - k,
    {
        out.push(*v.get(k).unwrap());
        assert(out@ =~= v@.subrange(i as int, k + 1));
        k = k + 1;
    }
    out
}

/// The decimal digit `d` as a character.
pub open spec fn digit_char(d: int) -> char {
    if d == 0 {
        '0'
    } else if d == 1 {
        '1'
    } else if d == 2 {
        '2'
    } else if d == 3 {
        '3'
    } else if d == 4 {
        '4'
    } else if d == 5 {
        '5'
    } else if d == 6 {
        '6'
    } else if d == 7 {
        '7'
    } else {
        '8'
    }
}

/// The decimal rendering of a non-negative integer, most significant digit
/// first.
pub open spec fn dec_str(n: int) -> Seq<char>
    decreases n,
{
    if n < 10 {
        seq![if n == 9 {
                '9'
            } else {
                digit_char(n)
            }]
    } else {
        dec_str(n / 10).push(
            if n % 10 == 9 {
                '9'
            } else {
                digit_char(n % 10)
            },
        )
    }
}

/// The digit for `d`, as an executable character.
pub fn dec_digit(d: u32) -> (c: char)
    requires
        d < 10,
    ensures
        c == (if d == 9 {
            '9'
        } else {
            digit_char(d as int)
        }),
{
    match d {
        0 => '0',
        1 => '1',
        2 => '2',
        3 => '3',
        4 => '4',
        5 => '5',
        6 => '6',
        7 => '7',
        8 => '8',
        _ => '9',
    }
}

/// The decimal digits of `n`.
pub fn u32_dec_chars(n: u32) -> (r: Vec<char>)
    ensures
        r@ == dec_str(n as int),
    decreases n,
{
    if n < 10 {
        let mut v: Vec<char> = Vec::new();
        v.push(dec_digit(n));
        assert(v@ =~= dec_str(n as int));
        v
    } else {
        let mut v = u32_dec_chars(n / 10);
        v.push(dec_digit(n % 10));
        v
    }
}

/// The decimal digits of `n`, for wider counters.
pub fn u64_dec_chars(n: u64) -> (r: Vec<char>)
    ensures
        r@ == dec_str(n as int),
    decreases n,
{
    if n < 10 {
        let mut v: Vec<char> = Vec::new();
        v.push(dec_digit(n as u32));
        assert(v@ =~= dec_str(n as int));
        v
    } else {
        let mut v = u64_dec_chars(n / 10);
        v.push(dec_digit((n % 10) as u32));
        v
    }
}

/// Append the characters of `s` to `out`.
pub fn append_str(out: &mut Vec<char>, s: &str)
    ensures
        final(out)@ == old(out)@ + s@,
{
    let cs = to_chars(s);
    out.extend_from_slice(cs.as_slice());
    assert(out@ =~= old(out)@ + s@);
}

/// The pad for one indentation level, as executable characters.
pub fn make_pad(level: usize) -> (r: Vec<char>)
    ensures
        r@ == pad_of(level as nat),
{
    let mut v: Vec<char> = Vec::new();
    if level == 0 {
        v.push(' ');
        assert(v@ =~= pad_of(0));
        return v;
    }
    let mut i: usize = 0;
    while i < level
        invariant
            i <= level,
            v@ == spaces(2 * i as nat),
        decreases level - i,
    {
        v.push(' ');
        v.push(' ');
        proof {
            assert(spaces((2 * i + 1) as nat) == spaces((2 * i) as nat).push(' '));
            assert(spaces((2 * i + 2) as nat) == spaces((2 * i + 1) as nat).push(' '));
            assert(v@ =~= spaces((2 * i + 2) as nat));
        }
        i = i + 1;
    }
    v
}

/// The lines of the suffix of `v` that starts at `i`.
fn split_lines_from(v: &Vec<char>, i: usize) -> (r: Vec<Vec<char>>)
    requires
        i <= v@.len(),
    ensures
        deep(r@) == lines_of(v@.skip(i as int)),
    decreases v@.len() - i,
{
    let s = Ghost(v@.skip(i as int));
    if i == v.len() {
        let r: Vec<Vec<char>> = Vec::new();
        assert(deep(r@) =~= lines_of(s@));
        return r;
    }
    let mut j: usize = i;
    while j < v.len() && *v.get(j).unwrap() != '\n'
        invariant
            i <= j <= v@.len(),
            forall|k: int| i <= k < j ==> v@[k] != '\n',
        decreases v@.len() - j,
    {
        j = j + 1;
    }
    proof {
        lemma_first_nl_at(s@, j - i);
    }
    if j == v.len() {
        // no line feed in the suffix: one line, kept as it is
        let mut line: Vec<char> = Vec::new();
        let mut k: usize = i;
        while k < j
            invariant
                i <= k <= j <= v@.len(),
                line@ == v@.subrange(i as int, k as int),
            decreases j - k,
        {
            line.push(*v.get(k).unwrap());
            assert(line@ =~= v@.subrange(i as int, k + 1));
            k = k + 1;
        }
        let mut r: Vec<Vec<char>> = Vec::new();
        r.push(line);
        assert(deep(r@) =~= seq![s@]);
        return r;
    }
    // a line feed at j ends this line; strip one carriage return before it
    let end: usize = if j > i && *v.get(j - 1).unwrap() == '\r' {
        j - 1
    } else {
        j
    };
    let mut line: Vec<char> = Vec::new();
    let mut k: usize = i;
    while k < end
        invariant
            i <= k <= end <= v@.len(),
            line@ == v@.subrange(i as int, k as int),
        decreases end - k,
    {
        line.push(*v.get(k).unwrap());
        assert(line@ =~= v@.subrange(i as int, k + 1));
        k = k + 1;
    }
    proof {
        assert(s@.take(j - i) =~= v@.subrange(i as int, j as int));
        assert(strip_cr(s@.take(j - i)) =~= v@.subrange(i as int, end as int));
    }
    let mut rest = split_lines_from(v, j + 1);
    proof {
        assert(v@.skip(j + 1) =~= s@.skip(j - i + 1));
    }
    let mut r: Vec<Vec<char>> = Vec::new();
    r.push(line);
    r.append(&mut rest);
    proof {
        assert(deep(r@) =~= seq![strip_cr(s@.take(first_nl(s@)))] + lines_of(
            s@.skip(first_nl(s@) + 1),
        ));
    }
    r
}

/// The given lines, each indented, joined with line feeds.
fn join_indented_exec(lines: &Vec<Vec<char>>, level: usize) -> (r: Vec<char>)
    ensures
        r@ == join_indented(deep(lines@), level as nat),
{
    let pad = make_pad(level);
    let mut out: Vec<char> = Vec::new();
    let mut k: usize = 0;
    while k < lines.len()
        invariant
            k <= lines@.len(),
            pad@ == pad_of(level as nat),
            out@ == join_indented(deep(lines@).take(k as int), level as nat),
        decreases lines@.len() - k,
    {
        let ghost pre = out@;
        if k > 0 {
            out.push('\n');
        }
        let line = lines.get(k).unwrap();
        if line.len() > 0 {
            out.extend_from_slice(pad.as_slice());
            out.extend_from_slice(line.as_slice());
        }
        proof {
            lemma_join_indented_step(deep(lines@), k as int, level as nat);
            assert(deep(lines@)[k as int] == lines@[k as int]@);
            if k == 0 {
                assert(out@ =~= indent_line(deep(lines@)[0], level as nat));
            } else {
                assert(out@ =~= pre + seq!['\n'] + indent_line(
                    deep(lines@)[k as int],
                    level as nat,
                ));
            }
        }
        k = k + 1;
    }
    proof {
        assert(deep(lines@).take(lines@.len() as int) =~= deep(lines@));
    }
    out
}

/// Indent every non-empty line of `s` by two spaces per level, exactly as
/// the rendered fragments are shifted when they are nested into a larger
/// document.
pub fn indent(s: &str, level: usize) -> (r: String)
    ensures
        r@ == indent_text(s@, level as nat),
{
    let chars = to_chars(s);
    proof {
        assert(chars@.skip(0) =~= s@);
    }
    let lines = split_lines_from(&chars, 0);
    let joined = join_indented_exec(&lines, level);
    chars_to_string(&joined)
}

} // verus!
