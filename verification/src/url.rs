//! Building the request URL, and reading the four inputs back out of it.
//!
//! The URL is the fixed aggregates-endpoint template with the ticker, the two
//! dates and the API key interpolated verbatim — no percent-encoding is
//! applied, so callers are responsible for URL-safe values. `parse_url` is
//! the inverse reading: as long as the ticker and from-date contain no `/`
//! and the to-date no `?`, parsing a built URL recovers the four inputs
//! exactly (`lemma_url_round_trip`).

use vstd::prelude::*;
use vstd::string::StrSliceExecFns;
use vstd::string::StringExecFns;

verus! {

/// The URL text for the given ticker, date range and API key.
pub open spec fn spec_url(t: Seq<char>, f: Seq<char>, o: Seq<char>, k: Seq<char>) -> Seq<char> {
    "https://api.polygon.io/v2/aggs/ticker/"@ + t + "/range/1/day/"@ + f + "/"@ + o + "?apiKey="@
        + k
}

/// Build the request URL from the four inputs, substituted verbatim.
pub fn build_url(ticker: &str, from: &str, to: &str, api_key: &str) -> (r: String)
    ensures
        r@ == spec_url(ticker@, from@, to@, api_key@),
{
    let mut r = String::new();
    r.append("https://api.polygon.io/v2/aggs/ticker/");
    r.append(ticker);
    r.append("/range/1/day/");
    r.append(from);
    r.append("/");
    r.append(to);
    r.append("?apiKey=");
    r.append(api_key);
    proof {
        assert(r@ =~= spec_url(ticker@, from@, to@, api_key@));
    }
    r
}

/// Split `s` at the first occurrence of `c`: the part before it and the
/// part after it, or `None` when `c` does not occur.
pub open spec fn take_until(s: Seq<char>, c: char) -> Option<(Seq<char>, Seq<char>)>
    decreases s.len(),
{
    if s.len() == 0 {
        None
    } else if s[0] == c {
        Some((Seq::empty(), s.skip(1)))
    } else {
        match take_until(s.skip(1), c) {
            None => None,
            Some((a, b)) => Some((seq![s[0]] + a, b)),
        }
    }
}

/// Splitting a sequence that is literally `a + [c] + b`, with no `c` in `a`,
/// yields exactly `a` and `b`.
pub proof fn lemma_take_until_concat(a: Seq<char>, c: char, b: Seq<char>)
    requires
        !a.contains(c),
    ensures
        take_until(a + seq![c] + b, c) == Some((a, b)),
    decreases a.len(),
{
    let s = a + seq![c] + b;
    if a.len() == 0 {
        assert(s[0] == c);
        assert(s.skip(1) =~= b);
        assert(a =~= Seq::<char>::empty());
    } else {
        assert(s[0] == a[0]);
        assert(a.contains(c) <==> exists|i: int| 0 <= i < a.len() && a[i] == c);
        assert(a[0] != c);
        assert(!a.skip(1).contains(c)) by {
            if a.skip(1).contains(c) {
                let i = choose|i: int| 0 <= i < a.skip(1).len() && a.skip(1)[i] == c;
                assert(a[i + 1] == c);
            }
        }
        assert(s.skip(1) =~= a.skip(1) + seq![c] + b);
        lemma_take_until_concat(a.skip(1), c, b);
        assert(seq![s[0]] + a.skip(1) =~= a);
    }
}

/// A sequence without `c` has no split at `c`.
pub proof fn lemma_take_until_none(s: Seq<char>, c: char)
    requires
        forall|i: int| 0 <= i < s.len() ==> s[i] != c,
    ensures
        take_until(s, c) is None,
    decreases s.len(),
{
    if s.len() != 0 {
        assert(forall|i: int| 0 <= i < s.skip(1).len() ==> s.skip(1)[i] == s[i + 1]);
        lemma_take_until_none(s.skip(1), c);
    }
}

/// Splitting at the first occurrence, located by index.
pub proof fn lemma_take_until_found(s: Seq<char>, c: char, j: int)
    requires
        0 <= j < s.len(),
        s[j] == c,
        forall|i: int| 0 <= i < j ==> s[i] != c,
    ensures
        take_until(s, c) == Some((s.take(j), s.skip(j + 1))),
{
    let a = s.take(j);
    let b = s.skip(j + 1);
    assert(!a.contains(c)) by {
        if a.contains(c) {
            let i = choose|i: int| 0 <= i < a.len() && a[i] == c;
            assert(s[i] == c);
        }
    }
    assert(s =~= a + seq![c] + b);
    lemma_take_until_concat(a, c, b);
}

/// Read the four inputs back out of a URL in the fixed template, splitting
/// the path at the separators the template places around them.
pub open spec fn spec_parse_url(s: Seq<char>) -> Option<
    (Seq<char>, Seq<char>, Seq<char>, Seq<char>),
> {
    let p1 = "https://api.polygon.io/v2/aggs/ticker/"@;
    let p2 = "range/1/day/"@;
    let p3 = "apiKey="@;
    if s.len() < p1.len() || s.take(p1.len() as int) != p1 {
        None
    } else {
        match take_until(s.skip(p1.len() as int), '/') {
            None => None,
            Some((t, r2)) => {
                if r2.len() < p2.len() || r2.take(p2.len() as int) != p2 {
                    None
                } else {
                    match take_until(r2.skip(p2.len() as int), '/') {
                        None => None,
                        Some((f, r3)) => {
                            match take_until(r3, '?') {
                                None => None,
                                Some((o, r4)) => {
                                    if r4.len() < p3.len() || r4.take(p3.len() as int) != p3 {
                                        None
                                    } else {
                                        Some((t, f, o, r4.skip(p3.len() as int)))
                                    }
                                },
                            }
                        },
                    }
                }
            },
        }
    }
}

/// Parsing a built URL recovers the four inputs, provided the inputs do not
/// themselves contain the separator that ends their slot in the template:
/// no `/` in the ticker or the from-date, no `?` in the to-date.
pub proof fn lemma_url_round_trip(t: Seq<char>, f: Seq<char>, o: Seq<char>, k: Seq<char>)
    requires
        !t.contains('/'),
        !f.contains('/'),
        !o.contains('?'),
    ensures
        spec_parse_url(spec_url(t, f, o, k)) == Some((t, f, o, k)),
{
    reveal_strlit("https://api.polygon.io/v2/aggs/ticker/");
    reveal_strlit("/range/1/day/");
    reveal_strlit("range/1/day/");
    reveal_strlit("/");
    reveal_strlit("?apiKey=");
    reveal_strlit("apiKey=");
    let p1 = "https://api.polygon.io/v2/aggs/ticker/"@;
    let p2 = "range/1/day/"@;
    let p3 = "apiKey="@;
    let s = spec_url(t, f, o, k);
    assert(s.len() >= p1.len());
    assert(s.take(p1.len() as int) =~= p1);
    let rest1 = s.skip(p1.len() as int);
    assert(rest1 =~= t + seq!['/'] + (p2 + f + seq!['/'] + o + seq!['?'] + (p3 + k)));
    lemma_take_until_concat(t, '/', p2 + f + seq!['/'] + o + seq!['?'] + (p3 + k));
    let r2 = p2 + f + seq!['/'] + o + seq!['?'] + (p3 + k);
    assert(take_until(rest1, '/') == Some((t, r2)));
    assert(r2.take(p2.len() as int) =~= p2);
    assert(r2.skip(p2.len() as int) =~= f + seq!['/'] + (o + seq!['?'] + (p3 + k)));
    lemma_take_until_concat(f, '/', o + seq!['?'] + (p3 + k));
    let r3 = o + seq!['?'] + (p3 + k);
    lemma_take_until_concat(o, '?', p3 + k);
    let r4 = p3 + k;
    assert(r4.take(p3.len() as int) =~= p3);
    assert(r4.skip(p3.len() as int) =~= k);
}

/// True when `s` continues with the characters of `p` at position `at`.
fn matches_at(s: &str, n: usize, at: usize, p: &str, plen: usize) -> (r: bool)
    requires
        n == s@.len(),
        plen == p@.len(),
        at <= n,
    ensures
        r <==> (at + plen <= n && s@.subrange(at as int, at + plen) == p@),
{
    if plen > n - at {
        proof {
            if at + plen <= n && s@.subrange(at as int, at + plen) =~= p@ {
            }
        }
        return false;
    }
    let mut i: usize = 0;
    while i < plen
        invariant
            i <= plen,
            at + plen <= n,
            n == s@.len(),
            plen == p@.len(),
            forall|q: int| 0 <= q < i ==> s@[at + q] == p@[q],
        decreases plen - i,
    {
        if s.get_char(at + i) != p.get_char(i) {
            proof {
                assert(s@.subrange(at as int, at + plen)[i as int] != p@[i as int]);
            }
            return false;
        }
        i += 1;
    }
    proof {
        assert(s@.subrange(at as int, at + plen) =~= p@);
    }
    true
}

/// The first position `>= start` holding `c`, if any.
fn find_from(s: &str, n: usize, start: usize, c: char) -> (r: Option<usize>)
    requires
        n == s@.len(),
        start <= n,
    ensures
        match r {
            Some(j) => start <= j < n && s@[j as int] == c && (forall|q: int|
                start <= q < j ==> s@[q] != c),
            None => forall|q: int| start <= q < n ==> s@[q] != c,
        },
{
    let mut i: usize = start;
    while i < n
        invariant
            start <= i <= n,
            n == s@.len(),
            forall|q: int| start <= q < i ==> s@[q] != c,
        decreases n - i,
    {
        if s.get_char(i) == c {
            return Some(i);
        }
        i += 1;
    }
    None
}

/// Read the four inputs back out of a URL in the fixed template, or `None`
/// when the text does not fit the template.
#[verifier::rlimit(50)]
pub fn parse_url(url: &str) -> (r: Option<(String, String, String, String)>)
    ensures
        match r {
            Some(q) => spec_parse_url(url@) == Some((q.0@, q.1@, q.2@, q.3@)),
            None => spec_parse_url(url@) is None,
        },
{
    let p1 = "https://api.polygon.io/v2/aggs/ticker/";
    let p2 = "range/1/day/";
    let p3 = "apiKey=";
    let n = url.unicode_len();
    let p1len = p1.unicode_len();
    let p2len = p2.unicode_len();
    let p3len = p3.unicode_len();
    if !matches_at(url, n, 0, p1, p1len) {
        proof {
            assert(n >= p1len ==> url@.take(p1len as int) =~= url@.subrange(0, p1len as int));
        }
        return None;
    }
    proof {
        assert(url@.take(p1len as int) =~= url@.subrange(0, p1len as int));
    }
    let ghost rest1 = url@.skip(p1len as int);
    let jt = match find_from(url, n, p1len, '/') {
        None => {
            proof {
                assert(forall|q: int| 0 <= q < rest1.len() ==> rest1[q] == url@[p1len + q]);
                lemma_take_until_none(rest1, '/');
            }
            return None;
        },
        Some(j) => j,
    };
    proof {
        assert(forall|q: int| 0 <= q < rest1.len() ==> rest1[q] == url@[p1len + q]);
        lemma_take_until_found(rest1, '/', jt - p1len);
    }
    let ticker = url.substring_char(p1len, jt).to_owned();
    let ghost r2 = rest1.skip(jt - p1len + 1);
    proof {
        assert(ticker@ =~= rest1.take(jt - p1len));
        assert(forall|q: int| 0 <= q < r2.len() ==> r2[q] == url@[jt + 1 + q]);
    }
    if !matches_at(url, n, jt + 1, p2, p2len) {
        proof {
            if r2.len() >= p2len && r2.take(p2len as int) == p2@ {
                assert(jt + 1 + p2len <= n);
                assert(url@.subrange(jt + 1, jt + 1 + p2len) =~= r2.take(p2len as int));
            }
        }
        return None;
    }
    proof {
        assert(r2.len() >= p2len);
        assert(r2.take(p2len as int) =~= url@.subrange(jt + 1, jt + 1 + p2len));
    }
    let ghost rest2 = r2.skip(p2len as int);
    let base = jt + 1 + p2len;
    proof {
        assert(forall|q: int| 0 <= q < rest2.len() ==> rest2[q] == url@[base + q]);
    }
    let jf = match find_from(url, n, base, '/') {
        None => {
            proof {
                lemma_take_until_none(rest2, '/');
            }
            return None;
        },
        Some(j) => j,
    };
    proof {
        lemma_take_until_found(rest2, '/', jf - base);
    }
    let from = url.substring_char(base, jf).to_owned();
    let ghost r3 = rest2.skip(jf - base + 1);
    proof {
        assert(from@ =~= rest2.take(jf - base));
        assert(forall|q: int| 0 <= q < r3.len() ==> r3[q] == url@[jf + 1 + q]);
    }
    let jo = match find_from(url, n, jf + 1, '?') {
        None => {
            proof {
                lemma_take_until_none(r3, '?');
            }
            return None;
        },
        Some(j) => j,
    };
    proof {
        lemma_take_until_found(r3, '?', jo - (jf + 1));
    }
    let to = url.substring_char(jf + 1, jo).to_owned();
    let ghost r4 = r3.skip(jo - (jf + 1) + 1);
    proof {
        assert(to@ =~= r3.take(jo - (jf + 1)));
        assert(forall|q: int| 0 <= q < r4.len() ==> r4[q] == url@[jo + 1 + q]);
    }
    if !matches_at(url, n, jo + 1, p3, p3len) {
        proof {
            if r4.len() >= p3len && r4.take(p3len as int) == p3@ {
                assert(url@.subrange(jo + 1, jo + 1 + p3len) =~= r4.take(p3len as int));
            }
        }
        return None;
    }
    proof {
        assert(r4.len() >= p3len);
        assert(r4.take(p3len as int) =~= url@.subrange(jo + 1, jo + 1 + p3len));
    }
    let key = url.substring_char(jo + 1 + p3len, n).to_owned();
    proof {
        assert(key@ =~= r4.skip(p3len as int));
    }
    Some((ticker, from, to, key))
}

} // verus!
