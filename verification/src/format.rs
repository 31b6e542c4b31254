//! Text formatting used when showing and exporting routes.
use vstd::prelude::*;
use crate::text::{
    decimal, first_match, lemma_first_match_unique, lemma_take_push_contains, push_char,
    push_decimal,
};

verus! {

/// The characters before the first `.` (all of them when there is none).
pub open spec fn integer_part(s: Seq<char>) -> Seq<char> {
    s.take(first_match(s, |c: char| c == '.'))
}

/// Digits grouped by three from the right, groups separated by `,`.
pub open spec fn group_thousands(p: Seq<char>) -> Seq<char>
    decreases p.len(),
{
    if p.len() <= 3 {
        p
    } else {
        group_thousands(p.take(p.len() - 3)) + seq![','] + p.skip(p.len() - 3)
    }
}

/// The first `t` characters of `p`, each preceded by `,` when a positive
/// multiple of three characters of `p` (whose full length is `n`) starts there.
spec fn separated_prefix(p: Seq<char>, n: int, t: nat) -> Seq<char>
    decreases t,
{
    if t == 0 {
        seq![]
    } else {
        let k = t - 1;
        let before = separated_prefix(p, n, k as nat);
        let sep = if k > 0 && (n - k) % 3 == 0 {
            seq![',']
        } else {
            seq![]
        };
        before + sep + seq![p[k]]
    }
}

proof fn lemma_separated_prefix_agree(p: Seq<char>, q: Seq<char>, n: int, m: int, t: nat)
    requires
        t <= q.len(),
        t <= p.len(),
        forall|k: int| 0 <= k < t ==> p[k] == q[k],
        (n - m) % 3 == 0,
    ensures
        separated_prefix(p, n, t) == separated_prefix(q, m, t),
    decreases t,
{
    if t > 0 {
        lemma_separated_prefix_agree(p, q, n, m, (t - 1) as nat);
        let k = t - 1;
        assert((n - k) % 3 == 0 <==> (m - k) % 3 == 0) by {
            assert(n - k == (m - k) + (n - m));
        }
    }
}

proof fn lemma_separated_prefix_groups(p: Seq<char>)
    ensures
        separated_prefix(p, p.len() as int, p.len()) == group_thousands(p),
    decreases p.len(),
{
    let n = p.len() as int;
    if n <= 3 {
        assert forall|t: nat| t <= n implies separated_prefix(p, n, t) == p.take(t as int) by {
            lemma_separated_prefix_short(p, t);
        }
        assert(p.take(n) =~= p);
    } else {
        let m = n - 3;
        let q = p.take(m);
        lemma_separated_prefix_groups(q);
        lemma_separated_prefix_agree(p, q, n, m, m as nat);
        let a = separated_prefix(p, n, m as nat);
        assert(separated_prefix(p, n, (m + 1) as nat) == a + seq![','] + seq![p[m]]);
        assert(separated_prefix(p, n, (m + 2) as nat) == a + seq![','] + seq![p[m]] + seq![p[m
            + 1]]);
        assert(separated_prefix(p, n, (m + 3) as nat) == a + seq![','] + seq![p[m]] + seq![p[m
            + 1]] + seq![p[m + 2]]);
        assert(p.skip(m) =~= seq![p[m], p[m + 1], p[m + 2]]);
        assert(separated_prefix(p, n, n as nat) =~= a + seq![','] + p.skip(m));
    }
}

proof fn lemma_separated_prefix_short(p: Seq<char>, t: nat)
    requires
        p.len() <= 3,
        t <= p.len(),
    ensures
        separated_prefix(p, p.len() as int, t) == p.take(t as int),
    decreases t,
{
    if t > 0 {
        lemma_separated_prefix_short(p, (t - 1) as nat);
        assert(p.take(t as int) =~= p.take(t - 1) + seq![p[t - 1]]);
    }
}

/// Thousands grouping of the text of a number: the digits in groups of three,
/// after a leading `-` when there is one.
pub open spec fn signed_group_thousands(ip: Seq<char>) -> Seq<char> {
    if ip.len() > 0 && ip[0] == '-' {
        seq!['-'] + group_thousands(ip.skip(1))
    } else {
        group_thousands(ip)
    }
}

/// Format a number with thousands separators: the integer part of its text
/// (everything before the first `.`), its digits in groups of three after an
/// optional leading `-`.
pub fn format_thousands(s: &str) -> (r: String)
    ensures
        r@ == signed_group_thousands(integer_part(s@)),
{
    let len = s.unicode_len();
    let mut n: usize = 0;
    while n < len && s.get_char(n) != '.'
        invariant
            n <= len,
            len == s@.len(),
            forall|k: int| 0 <= k < n ==> s@[k] != '.',
        decreases len - n,
    {
        n = n + 1;
    }
    proof {
        lemma_first_match_unique(s@, |c: char| c == '.', n as int);
    }
    let ghost ip = s@.take(n as int);
    let mut out = String::new();
    let mut start: usize = 0;
    if n > 0 && s.get_char(0) == '-' {
        push_char(&mut out, '-');
        start = 1;
    }
    let ghost head = out@;
    let ghost p = s@.subrange(start as int, n as int);
    let mut t: usize = start;
    while t < n
        invariant
            start <= t <= n <= len,
            len == s@.len(),
            p == s@.subrange(start as int, n as int),
            out@ == head + separated_prefix(p, n - start, (t - start) as nat),
        decreases n - t,
    {
        if t > start && (n - t) % 3 == 0 {
            push_char(&mut out, ',');
        }
        push_char(&mut out, s.get_char(t));
        proof {
            let k = (t - start) as nat;
            assert(p[k as int] == s@[t as int]);
            assert((n - start) - k == n - t);
        }
        t = t + 1;
    }
    proof {
        lemma_separated_prefix_groups(p);
        if start == 1 {
            assert(p =~= ip.skip(1));
            assert(head =~= seq!['-']);
        } else {
            assert(p =~= ip);
            assert(head =~= Seq::<char>::empty());
            assert(out@ =~= group_thousands(ip));
        }
    }
    out
}

/// `n` written with at least two digits, as `{:02}` does.
pub open spec fn two_digits(n: nat) -> Seq<char> {
    if n < 10 {
        seq!['0'] + decimal(n)
    } else {
        decimal(n)
    }
}

/// `HH:MM:SS` for a duration in whole seconds.
pub open spec fn hms(total_seconds: nat) -> Seq<char> {
    two_digits(total_seconds / 3600) + seq![':'] + two_digits((total_seconds % 3600) / 60) + seq![
        ':',
    ] + two_digits(total_seconds % 60)
}

fn push_two_digits(out: &mut String, n: u64)
    ensures
        final(out)@ == old(out)@ + two_digits(n as nat),
{
    if n < 10 {
        push_char(out, '0');
    }
    push_decimal(out, n);
    assert(final(out)@ =~= old(out)@ + two_digits(n as nat));
}

/// Format a duration given in whole seconds as `HH:MM:SS`.
pub fn format_hms(total_seconds: u64) -> (r: String)
    ensures
        r@ == hms(total_seconds as nat),
{
    let h = total_seconds / 3600;
    let m = (total_seconds % 3600) / 60;
    let s = total_seconds % 60;
    let mut out = String::new();
    push_two_digits(&mut out, h);
    push_char(&mut out, ':');
    push_two_digits(&mut out, m);
    push_char(&mut out, ':');
    push_two_digits(&mut out, s);
    assert(out@ =~= hms(total_seconds as nat));
    out
}

/// Whether a CSV field must be quoted.
pub open spec fn needs_quotes(s: Seq<char>) -> bool {
    s.contains(',') || s.contains('"') || s.contains('\n')
}

/// Every `"` doubled.
pub open spec fn double_quotes(s: Seq<char>) -> Seq<char>
    decreases s.len(),
{
    if s.len() == 0 {
        seq![]
    } else {
        double_quotes(s.drop_last()) + if s.last() == '"' {
            seq!['"', '"']
        } else {
            seq![s.last()]
        }
    }
}

/// A CSV field: quoted, with inner quotes doubled, when it holds a comma, a
/// quote or a newline; unchanged otherwise.
pub open spec fn csv_field(s: Seq<char>) -> Seq<char> {
    if needs_quotes(s) {
        seq!['"'] + double_quotes(s) + seq!['"']
    } else {
        s
    }
}

/// Escape one field of an exported CSV file.
pub fn csv_escape(s: &str) -> (r: String)
    ensures
        r@ == csv_field(s@),
{
    let len = s.unicode_len();
    let mut quote = false;
    let mut i: usize = 0;
    while i < len
        invariant
            i <= len,
            len == s@.len(),
            quote == needs_quotes(s@.take(i as int)),
        decreases len - i,
    {
        let c = s.get_char(i);
        proof {
            assert forall|x: char| s@.take(i + 1).contains(x) <==> s@.take(i as int).contains(x)
                || x == c by {
                lemma_take_push_contains(s@, i as int, x);
            }
        }
        if c == ',' || c == '"' || c == '\n' {
            quote = true;
        }
        i = i + 1;
    }
    assert(s@.take(len as int) =~= s@);
    if !quote {
        return s.to_owned();
    }
    let mut out = String::new();
    push_char(&mut out, '"');
    let mut k: usize = 0;
    while k < len
        invariant
            k <= len,
            len == s@.len(),
            out@ == seq!['"'] + double_quotes(s@.take(k as int)),
        decreases len - k,
    {
        let c = s.get_char(k);
        assert(s@.take(k + 1).drop_last() =~= s@.take(k as int));
        push_char(&mut out, c);
        if c == '"' {
            push_char(&mut out, '"');
        }
        assert(out@ =~= seq!['"'] + double_quotes(s@.take(k + 1)));
        k = k + 1;
    }
    push_char(&mut out, '"');
    out
}

} // verus!
