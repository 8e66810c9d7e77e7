use vstd::prelude::*;
use vstd::string::*;
use crate::path::{split_on, split_on_char};

verus! {

pub open spec fn is_digit(c: char) -> bool {
    '0' <= c && c <= '9'
}

pub open spec fn all_digits(s: Seq<char>) -> bool {
    forall|i: int| 0 <= i < s.len() ==> is_digit(#[trigger] s[i])
}

/// The number that the decimal digits `s` write.
pub open spec fn digits_value(s: Seq<char>) -> nat
    decreases s.len(),
{
    if s.len() == 0 {
        0
    } else {
        digits_value(s.drop_last()) * 10 + ((s.last() as u32) - ('0' as u32)) as nat
    }
}

/// A decimal number no greater than `max`, with an optional leading '+', as
/// std parses unsigned integers.
pub open spec fn decimal(s: Seq<char>, max: nat) -> Option<nat> {
    let d = if s.len() > 0 && s[0] == '+' { s.drop_first() } else { s };
    if d.len() > 0 && all_digits(d) && digits_value(d) <= max {
        Some(digits_value(d))
    } else {
        None
    }
}

proof fn lemma_digits_value_prefix(s: Seq<char>, k: int)
    requires
        all_digits(s),
        0 <= k <= s.len(),
    ensures
        digits_value(s.take(k)) <= digits_value(s),
    decreases s.len(),
{
    if k < s.len() {
        assert(s.take(k) =~= s.drop_last().take(k));
        lemma_digits_value_prefix(s.drop_last(), k);
    } else {
        assert(s.take(k) =~= s);
    }
}

/// Parses `s` as a decimal number no greater than `max`.
pub fn parse_decimal(s: &str, max: u64) -> (r: Option<u64>)
    ensures
        r matches Some(v) ==> decimal(s@, max as nat) == Some(v as nat),
        r is None ==> decimal(s@, max as nat) is None,
{
    let n = s.unicode_len();
    let start: usize = if n > 0 && s.get_char(0) == '+' { 1 } else { 0 };
    let ghost d = s@.subrange(start as int, n as int);
    assert(d =~= (if s@.len() > 0 && s@[0] == '+' { s@.drop_first() } else { s@ }));
    if start == n {
        return None;
    }
    let mut value: u128 = 0;
    let mut i: usize = start;
    assert(d.take(0) =~= Seq::<char>::empty());
    while i < n
        invariant
            start <= i <= n,
            n == s@.len(),
            d == s@.subrange(start as int, n as int),
            d == (if s@.len() > 0 && s@[0] == '+' { s@.drop_first() } else { s@ }),
            all_digits(d.take(i - start)),
            value == digits_value(d.take(i - start)),
            value <= max,
        decreases n - i,
    {
        let c = s.get_char(i);
        assert(d.take(i + 1 - start).drop_last() =~= d.take(i - start));
        assert(d.take(i + 1 - start).last() == c);
        if !('0' <= c && c <= '9') {
            assert(!all_digits(d)) by {
                assert(d[i - start] == c);
            }
            return None;
        }
        let dig: u32 = (c as u32) - ('0' as u32);
        value = value * 10 + dig as u128;
        assert(all_digits(d.take(i + 1 - start)));
        if value > max as u128 {
            proof {
                if all_digits(d) {
                    lemma_digits_value_prefix(d, i + 1 - start);
                }
            }
            return None;
        }
        i = i + 1;
    }
    assert(d.take(n - start) =~= d);
    Some(value as u64)
}

/// The query parameters of the random-bytes endpoints.
#[derive(PartialEq, Eq, Structural, Clone, Copy, Debug)]
pub struct BytesQueryParams {
    pub seed: Option<u32>,
    pub chunk_size: Option<usize>,
}

/// The part of a `key=value` pair before its first '='.
pub open spec fn pair_key(pair: Seq<char>) -> Seq<char> {
    split_on(pair, '=')[0]
}

/// The part of a `key=value` pair after its first '=' (empty where it has none).
pub open spec fn pair_value(pair: Seq<char>) -> Seq<char> {
    let k = pair_key(pair).len();
    if k < pair.len() {
        pair.skip(k + 1 as int)
    } else {
        Seq::empty()
    }
}

/// The parameters after one more pair of a query; `None` once a known key
/// had a value that does not parse.
pub open spec fn apply_pair(acc: Option<BytesQueryParams>, pair: Seq<char>) -> Option<
    BytesQueryParams,
> {
    match acc {
        None => None,
        Some(p) => {
            let k = pair_key(pair);
            let v = pair_value(pair);
            if k == "seed"@ {
                match decimal(v, u32::MAX as nat) {
                    Some(x) => Some(BytesQueryParams { seed: Some(x as u32), ..p }),
                    None => None,
                }
            } else if k == "chunk_size"@ {
                match decimal(v, usize::MAX as nat) {
                    Some(x) => Some(BytesQueryParams { chunk_size: Some(x as usize), ..p }),
                    None => None,
                }
            } else {
                Some(p)
            }
        },
    }
}

pub open spec fn apply_pairs(pairs: Seq<Seq<char>>, n: nat) -> Option<BytesQueryParams>
    decreases n,
{
    if n == 0 {
        Some(BytesQueryParams { seed: None, chunk_size: None })
    } else {
        apply_pair(apply_pairs(pairs, (n - 1) as nat), pairs[n - 1])
    }
}

/// The parameters that a query string sets: its '&'-separated pairs, left to
/// right, a later value of a key replacing an earlier one; other keys are
/// ignored.
pub open spec fn query_params(q: Option<Seq<char>>) -> Option<BytesQueryParams> {
    match q {
        None => Some(BytesQueryParams { seed: None, chunk_size: None }),
        Some(s) => {
            let pairs = split_on(s, '&');
            apply_pairs(pairs, pairs.len())
        },
    }
}

proof fn lemma_split_first_len(s: Seq<char>, sep: char)
    ensures
        split_on(s, sep).len() >= 1,
        split_on(s, sep).len() == 1 ==> split_on(s, sep)[0] == s,
        split_on(s, sep).len() > 1 ==> split_on(s, sep)[0].len() < s.len(),
        split_on(s, sep)[0].len() <= s.len(),
        split_on(s, sep)[0].len() < s.len() ==> s[split_on(s, sep)[0].len() as int] == sep,
        split_on(s, sep)[0] == s.take(split_on(s, sep)[0].len() as int),
    decreases s.len(),
{
    if s.len() > 0 {
        let t = s.drop_last();
        lemma_split_first_len(t, sep);
        let init = split_on(t, sep);
        let k = init[0].len() as int;
        if s.last() == sep {
            assert(split_on(s, sep) == init.push(Seq::<char>::empty()));
            assert(split_on(s, sep)[0] == init[0]);
            if k < t.len() {
                assert(s[k] == t[k]);
            }
            assert(t.take(k) =~= s.take(k));
        } else if init.len() == 1 {
            assert(split_on(s, sep)[0] =~= s);
        } else {
            assert(split_on(s, sep)[0] == init[0]);
            assert(s[k] == t[k]);
            assert(t.take(k) =~= s.take(k));
        }
    } else {
        assert(s.take(0) =~= s);
    }
}

/// Splits one `key=value` pair at its first '='.
fn split_pair(pair: &str) -> (r: (String, String))
    ensures
        r.0@ == pair_key(pair@),
        r.1@ == pair_value(pair@),
{
    let parts = split_on_char(pair, '=');
    proof {
        lemma_split_first_len(pair@, '=');
    }
    assert(parts@[0]@ == split_on(pair@, '=')[0]);
    let key = parts[0].clone();
    let n = pair.unicode_len();
    let k = key.as_str().unicode_len();
    if k < n {
        let v = pair.substring_char(k + 1, n);
        (key, String::from_str(v))
    } else {
        (key, String::new())
    }
}

impl BytesQueryParams {
    /// The parameters that `query` sets, or `None` where a `seed` or
    /// `chunk_size` in it is no number of its type.
    pub fn parse(query: Option<&str>) -> (r: Option<BytesQueryParams>)
        ensures
            r == query_params(
                match query {
                    Some(q) => Some(q@),
                    None => None,
                },
            ),
    {
        let mut acc = BytesQueryParams { seed: None, chunk_size: None };
        let q = match query {
            None => {
                return Some(acc);
            },
            Some(q) => q,
        };
        let pairs = split_on_char(q, '&');
        let ghost ps = split_on(q@, '&');
        let seed_key = String::from_str("seed");
        let size_key = String::from_str("chunk_size");
        let mut i: usize = 0;
        while i < pairs.len()
            invariant
                i <= pairs@.len(),
                query == Some(q),
                pairs@.map_values(|s: String| s@) == ps,
                ps == split_on(q@, '&'),
                seed_key@ == "seed"@,
                size_key@ == "chunk_size"@,
                apply_pairs(ps, i as nat) == Some(acc),
            decreases pairs@.len() - i,
        {
            assert(ps[i as int] == pairs@[i as int]@);
            let (k, v) = split_pair(pairs[i].as_str());
            if k == seed_key {
                match parse_decimal(v.as_str(), 0xffff_ffff) {
                    Some(x) => {
                        acc = BytesQueryParams { seed: Some(x as u32), ..acc };
                    },
                    None => {
                        assert(apply_pairs(ps, (i + 1) as nat) is None);
                        proof {
                            lemma_apply_pairs_none(ps, (i + 1) as nat, ps.len());
                        }
                        return None;
                    },
                }
            } else if k == size_key {
                match parse_decimal(v.as_str(), usize::MAX as u64) {
                    Some(x) => {
                        acc = BytesQueryParams { chunk_size: Some(x as usize), ..acc };
                    },
                    None => {
                        assert(apply_pairs(ps, (i + 1) as nat) is None);
                        proof {
                            lemma_apply_pairs_none(ps, (i + 1) as nat, ps.len());
                        }
                        return None;
                    },
                }
            }
            i = i + 1;
        }
        assert(pairs@.len() == ps.len());
        Some(acc)
    }
}

proof fn lemma_apply_pairs_none(pairs: Seq<Seq<char>>, i: nat, n: nat)
    requires
        i <= n,
        apply_pairs(pairs, i) is None,
    ensures
        apply_pairs(pairs, n) is None,
    decreases n - i,
{
    if i < n {
        lemma_apply_pairs_none(pairs, i + 1, n);
    }
}

} // verus!
