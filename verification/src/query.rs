//! The text typed into a multi-select search box: a comma-separated list of
//! codes is cut into tokens to pick, and what could not be picked is put back.
use vstd::prelude::*;
use crate::text::{
    char_is_whitespace, first_match, is_whitespace, lemma_first_match, lemma_first_match_unique,
    push_char,
};

verus! {

/// `s` cut at every `,`, as `str::split(',')` yields it: always at least one
/// (possibly empty) part.
pub open spec fn split_commas(s: Seq<char>) -> Seq<Seq<char>>
    decreases s.len(),
{
    if s.len() == 0 {
        seq![Seq::empty()]
    } else {
        let p = split_commas(s.drop_last());
        if s.last() == ',' {
            p.push(Seq::empty())
        } else {
            p.update(p.len() - 1, p.last().push(s.last()))
        }
    }
}

/// One past the last non-whitespace character of `s`, or `0`.
pub open spec fn content_end(s: Seq<char>) -> int
    decreases s.len(),
{
    if s.len() == 0 {
        0
    } else if !is_whitespace(s.last()) {
        s.len() as int
    } else {
        content_end(s.drop_last())
    }
}

/// `s` without leading and trailing whitespace, as `str::trim` returns it.
pub open spec fn trim(s: Seq<char>) -> Seq<char> {
    let a = first_match(s, |c: char| !is_whitespace(c));
    let b = content_end(s);
    if a < b {
        s.subrange(a, b)
    } else {
        Seq::empty()
    }
}

/// The trimmed parts that are not empty, in order.
pub open spec fn nonblank_trimmed(parts: Seq<Seq<char>>) -> Seq<Seq<char>>
    decreases parts.len(),
{
    if parts.len() == 0 {
        Seq::empty()
    } else {
        let r = nonblank_trimmed(parts.drop_last());
        let t = trim(parts.last());
        if t.len() == 0 {
            r
        } else {
            r.push(t)
        }
    }
}

/// The parts that were ended by a comma (all of them when the text ends in
/// a comma).
pub open spec fn committed_parts(s: Seq<char>) -> Seq<Seq<char>> {
    if s.len() > 0 && s.last() == ',' {
        split_commas(s)
    } else {
        split_commas(s).drop_last()
    }
}

/// The part still being typed: the trimmed last part, or nothing after a
/// final comma.
pub open spec fn typed_tail(s: Seq<char>) -> Seq<char> {
    if s.len() > 0 && s.last() == ',' {
        Seq::empty()
    } else {
        trim(split_commas(s).last())
    }
}

/// Every part joined with `,` between them.
pub open spec fn join_commas(parts: Seq<Seq<char>>) -> Seq<char>
    decreases parts.len(),
{
    if parts.len() == 0 {
        Seq::empty()
    } else if parts.len() == 1 {
        parts[0]
    } else {
        join_commas(parts.drop_last()) + seq![','] + parts.last()
    }
}

pub open spec fn texts(v: Seq<String>) -> Seq<Seq<char>> {
    v.map_values(|s: String| s@)
}

proof fn lemma_content_end(s: Seq<char>)
    ensures
        0 <= content_end(s) <= s.len(),
        content_end(s) > 0 ==> !is_whitespace(s[content_end(s) - 1]),
        forall|k: int| content_end(s) <= k < s.len() ==> is_whitespace(#[trigger] s[k]),
    decreases s.len(),
{
    if s.len() > 0 {
        let d = s.drop_last();
        lemma_content_end(d);
        assert forall|k: int| content_end(s) <= k < s.len() implies is_whitespace(#[trigger] s[k]) by {
            if k < d.len() {
                assert(d[k] == s[k]);
            }
        }
        if content_end(s) > 0 && content_end(s) < s.len() {
            assert(d[content_end(s) - 1] == s[content_end(s) - 1]);
        }
    }
}

/// `s` without leading and trailing whitespace.
pub fn trim_text(s: &str) -> (r: String)
    ensures
        r@ == trim(s@),
{
    let n = s.unicode_len();
    let mut a: usize = 0;
    while a < n && char_is_whitespace(s.get_char(a))
        invariant
            a <= n,
            n == s@.len(),
            forall|k: int| 0 <= k < a ==> is_whitespace(#[trigger] s@[k]),
        decreases n - a,
    {
        a = a + 1;
    }
    proof {
        lemma_first_match_unique(s@, |c: char| !is_whitespace(c), a as int);
    }
    let mut b: usize = n;
    while b > 0 && char_is_whitespace(s.get_char(b - 1))
        invariant
            b <= n,
            n == s@.len(),
            forall|k: int| b <= k < n ==> is_whitespace(#[trigger] s@[k]),
        decreases b,
    {
        b = b - 1;
    }
    proof {
        lemma_content_end(s@);
        let e = content_end(s@);
        if e < b {
            assert(!is_whitespace(s@[b - 1]));
            assert(is_whitespace(s@[b - 1]));
        }
        if b < e {
            assert(!is_whitespace(s@[e - 1]));
        }
    }
    let mut out = String::new();
    if a < b {
        let mut k = a;
        while k < b
            invariant
                a <= k <= b <= n,
                n == s@.len(),
                out@ == s@.subrange(a as int, k as int),
            decreases b - k,
        {
            push_char(&mut out, s.get_char(k));
            assert(out@ =~= s@.subrange(a as int, k + 1));
            k = k + 1;
        }
    }
    proof {
        if !(a < b) {
            assert(out@ =~= Seq::<char>::empty());
        }
    }
    out
}

proof fn lemma_trim_empty()
    ensures
        trim(Seq::<char>::empty()) == Seq::<char>::empty(),
{
    lemma_first_match(Seq::<char>::empty(), |c: char| !is_whitespace(c));
}

/// The tokens of a comma-separated query: the trimmed, non-empty parts that a
/// comma has ended, and the trimmed part still being typed. `None` when the
/// query holds no comma.
pub fn csv_tokens(value: &str) -> (r: Option<(Vec<String>, String)>)
    ensures
        r is None <==> !value@.contains(','),
        r matches Some(p) ==> texts(p.0@) == nonblank_trimmed(committed_parts(value@)) && p.1@
            == typed_tail(value@),
{
    let n = value.unicode_len();
    let ghost v = value@;
    let mut parts: Vec<String> = Vec::new();
    let mut cur = String::new();
    let mut has_comma = false;
    let mut i: usize = 0;
    while i < n
        invariant
            i <= n,
            n == v.len(),
            v == value@,
            split_commas(v.take(i as int)) == texts(parts@).push(cur@),
            has_comma == v.take(i as int).contains(','),
        decreases n - i,
    {
        let c = value.get_char(i);
        proof {
            assert(v.take(i + 1).drop_last() =~= v.take(i as int));
            crate::text::lemma_take_push_contains(v, i as int, ',');
        }
        if c == ',' {
            let done = cur;
            parts.push(done);
            cur = String::new();
            has_comma = true;
            assert(texts(parts@) =~= split_commas(v.take(i as int)));
        } else {
            let ghost before = texts(parts@).push(cur@);
            push_char(&mut cur, c);
            assert(texts(parts@).push(cur@) =~= before.update(before.len() - 1, before.last().push(c)));
        }
        i = i + 1;
    }
    assert(v.take(n as int) =~= v);
    if !has_comma {
        return None;
    }
    let ghost all = split_commas(v);
    let mut tokens: Vec<String> = Vec::new();
    let mut k: usize = 0;
    while k < parts.len()
        invariant
            k <= parts@.len(),
            all == texts(parts@).push(cur@),
            texts(tokens@) == nonblank_trimmed(texts(parts@).take(k as int)),
        decreases parts@.len() - k,
    {
        let t = trim_text(parts[k].as_str());
        assert(texts(parts@).take(k + 1).drop_last() =~= texts(parts@).take(k as int));
        if t.unicode_len() > 0 {
            tokens.push(t);
        }
        assert(texts(tokens@) =~= nonblank_trimmed(texts(parts@).take(k + 1)));
        k = k + 1;
    }
    assert(texts(parts@).take(parts@.len() as int) =~= texts(parts@));
    assert(all.drop_last() =~= texts(parts@));
    let trailing = n > 0 && value.get_char(n - 1) == ',';
    let tail = if trailing {
        proof {
            assert(v.last() == ',');
            assert(all == split_commas(v.drop_last()).push(Seq::empty()));
            assert(all.last() == cur@);
            assert(cur@.len() == 0);
            assert(all =~= texts(parts@).push(Seq::empty()));
            assert(all.drop_last() =~= texts(parts@));
            lemma_trim_empty();
            assert(nonblank_trimmed(all) == nonblank_trimmed(texts(parts@)));
        }
        String::new()
    } else {
        trim_text(cur.as_str())
    };
    Some((tokens, tail))
}

/// Join texts with `,` between them, as `[..].join(",")` does.
pub fn join_with_commas(parts: &Vec<String>) -> (r: String)
    ensures
        r@ == join_commas(texts(parts@)),
{
    let mut out = String::new();
    let mut k: usize = 0;
    while k < parts.len()
        invariant
            k <= parts@.len(),
            out@ == join_commas(texts(parts@).take(k as int)),
        decreases parts@.len() - k,
    {
        if k > 0 {
            push_char(&mut out, ',');
        }
        out.append(parts[k].as_str());
        proof {
            let t = texts(parts@).take(k + 1);
            assert(t.drop_last() =~= texts(parts@).take(k as int));
            if k == 0 {
                assert(out@ =~= t[0]);
            }
        }
        k = k + 1;
    }
    assert(texts(parts@).take(parts@.len() as int) =~= texts(parts@));
    out
}

} // verus!
