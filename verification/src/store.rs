use vstd::prelude::*;

verus! {

/// Whether a byte is a decimal digit.
pub open spec fn is_digit(b: u8) -> bool {
    0x30 <= b <= 0x39
}

/// Every byte is a decimal digit.
pub open spec fn all_digits(s: Seq<u8>) -> bool {
    forall|i: int| 0 <= i < s.len() ==> is_digit(#[trigger] s[i])
}

/// The number a digit string denotes (zero for the empty string).
pub open spec fn dec_value(s: Seq<u8>) -> int
    recommends
        all_digits(s),
    decreases s.len(),
{
    if s.len() == 0 {
        0
    } else {
        dec_value(s.drop_last()) * 10 + (s.last() - 0x30)
    }
}

/// A digit string denotes a number no smaller than zero.
proof fn lemma_dec_value_nonneg(s: Seq<u8>)
    requires
        all_digits(s),
    ensures
        dec_value(s) >= 0,
    decreases s.len(),
{
    if s.len() > 0 {
        assert(all_digits(s.drop_last())) by {
            assert(forall|i: int|
                0 <= i < s.drop_last().len() ==> #[trigger] s.drop_last()[i] == s[i]);
        }
        lemma_dec_value_nonneg(s.drop_last());
    }
}

/// A digit string denotes at least as much as any of its prefixes.
proof fn lemma_dec_value_prefix(s: Seq<u8>, i: int)
    requires
        all_digits(s),
        0 <= i <= s.len(),
    ensures
        dec_value(s.subrange(0, i)) <= dec_value(s),
    decreases s.len() - i,
{
    if i < s.len() {
        lemma_dec_value_prefix(s, i + 1);
        let a = s.subrange(0, i);
        let b = s.subrange(0, i + 1);
        assert(b.drop_last() =~= a);
        assert(all_digits(a)) by {
            assert(forall|j: int| 0 <= j < a.len() ==> #[trigger] a[j] == s[j]);
        }
        lemma_dec_value_nonneg(a);
        assert(dec_value(b) == dec_value(a) * 10 + (s[i] - 0x30));
    } else {
        assert(s.subrange(0, i) =~= s);
    }
}

/// Parses a purely numeric byte string: at least one byte, every byte a
/// decimal digit, and the value within 64-bit range; anything else is None.
fn parse_stem(s: &[u8]) -> (r: Option<u64>)
    ensures
        (match r {
            Option::Some(v) => s@.len() > 0 && all_digits(s@) && dec_value(s@) == v,
            Option::None => !(s@.len() > 0 && all_digits(s@) && dec_value(s@) <= u64::MAX),
        }),
{
    let n = s.len();
    if n == 0 {
        return Option::None;
    }
    let mut acc: u64 = 0;
    let mut i: usize = 0;
    while i < n
        invariant
            n == s@.len(),
            i <= n,
            all_digits(s@.subrange(0, i as int)),
            acc == dec_value(s@.subrange(0, i as int)),
        decreases n - i,
    {
        let b = s[i];
        if b < 0x30 || b > 0x39 {
            assert(!all_digits(s@));
            return Option::None;
        }
        let d = (b - 0x30) as u64;
        proof {
            let a = s@.subrange(0, i as int);
            let e = s@.subrange(0, i + 1);
            assert(e.drop_last() =~= a);
            assert(all_digits(e)) by {
                assert(forall|j: int| 0 <= j < e.len() ==> #[trigger] e[j] == s@[j]);
            }
            assert(dec_value(e) == acc * 10 + d);
        }
        if acc > (u64::MAX - d) / 10 {
            proof {
                vstd::arithmetic::div_mod::lemma_fundamental_div_mod((u64::MAX - d) as int, 10);
                vstd::arithmetic::mul::lemma_mul_inequality(
                    (u64::MAX - d) as int / 10 + 1,
                    acc as int,
                    10,
                );
                assert(acc * 10 + d > u64::MAX);
                if all_digits(s@) {
                    lemma_dec_value_prefix(s@, i + 1);
                }
            }
            return Option::None;
        }
        acc = acc * 10 + d;
        i = i + 1;
    }
    proof {
        assert(s@.subrange(0, n as int) =~= s@);
    }
    Option::Some(acc)
}

/// The index of the last dot in a name, if it has one.
pub open spec fn last_dot(name: Seq<u8>) -> Option<int>
    decreases name.len(),
{
    if name.len() == 0 {
        Option::None
    } else if name.last() == 0x2e {
        Option::Some(name.len() - 1)
    } else {
        last_dot(name.drop_last())
    }
}

/// The two extension bytes spell "db", ignoring ASCII case.
pub open spec fn is_db_ext(e: Seq<u8>) -> bool {
    e.len() == 2 && (e[0] == 0x64 || e[0] == 0x44) && (e[1] == 0x62 || e[1] == 0x42)
}

/// The store index a directory entry contributes: the name must split at a
/// final dot that is not its first byte (a leading dot starts a hidden name
/// with no extension), the extension must be "db" ignoring case, and the
/// stem must be purely numeric with a value within 64-bit range. Every
/// other name is ignored by the scan.
pub open spec fn entry_index(name: Seq<u8>) -> Option<int> {
    match last_dot(name) {
        Option::Some(d) => {
            let stem = name.subrange(0, d);
            let ext = name.subrange(d + 1, name.len() as int);
            if d > 0 && is_db_ext(ext) && all_digits(stem) && dec_value(stem) <= u64::MAX {
                Option::Some(dec_value(stem))
            } else {
                Option::None
            }
        },
        Option::None => Option::None,
    }
}

/// The largest store index among the entries, if any entry contributes one.
pub open spec fn max_index(names: Seq<Seq<u8>>) -> Option<int>
    decreases names.len(),
{
    if names.len() == 0 {
        Option::None
    } else {
        let rest = max_index(names.drop_last());
        match entry_index(names.last()) {
            Option::Some(v) => match rest {
                Option::Some(m) => Option::Some(if v >= m { v } else { m }),
                Option::None => Option::Some(v),
            },
            Option::None => rest,
        }
    }
}

/// The index the next store file gets: one past the largest existing index,
/// or zero if no entry matches.
pub open spec fn next_index(names: Seq<Seq<u8>>) -> int {
    match max_index(names) {
        Option::Some(m) => m + 1,
        Option::None => 0,
    }
}

/// The shortest decimal digit string for `n`.
pub open spec fn dec_rep(n: int) -> Seq<u8>
    recommends
        n >= 0,
    decreases n,
{
    if n <= 9 {
        seq![(0x30 + n) as u8]
    } else {
        dec_rep(n / 10).push((0x30 + n % 10) as u8)
    }
}

/// The file name for store index `n`: its decimal digits zero-padded to
/// width 3, then the ".db" extension.
pub open spec fn db_file_name(n: int) -> Seq<u8>
    recommends
        n >= 0,
{
    (if n <= 9 {
        seq![0x30u8, 0x30]
    } else if n <= 99 {
        seq![0x30u8]
    } else {
        Seq::<u8>::empty()
    }) + dec_rep(n) + seq![0x2eu8, 0x64, 0x62]
}

/// Finds the last dot of a name.
fn find_last_dot(name: &Vec<u8>) -> (r: Option<usize>)
    ensures
        (match r {
            Option::Some(d) => last_dot(name@) == Option::Some(d as int) && d < name@.len(),
            Option::None => last_dot(name@) is None,
        }),
{
    let mut i: usize = name.len();
    proof {
        assert(name@.subrange(0, name@.len() as int) =~= name@);
    }
    while i > 0
        invariant
            i <= name@.len(),
            last_dot(name@) == last_dot(name@.subrange(0, i as int)),
        decreases i,
    {
        proof {
            assert(name@.subrange(0, i as int).drop_last() =~= name@.subrange(0, i - 1));
        }
        if name[i - 1] == 0x2e {
            return Option::Some(i - 1);
        }
        i = i - 1;
    }
    Option::None
}

/// The store index a directory entry contributes, or None.
fn entry_index_of(name: &Vec<u8>) -> (r: Option<u64>)
    ensures
        (match r {
            Option::Some(v) => entry_index(name@) == Option::Some(v as int),
            Option::None => entry_index(name@) is None,
        }),
{
    let n = name.len();
    let d = match find_last_dot(name) {
        Option::Some(d) => d,
        Option::None => {
            return Option::None;
        },
    };
    if d == 0 {
        return Option::None;
    }
    let ghost ext = name@.subrange(d + 1, n as int);
    if n - (d + 1) != 2 {
        assert(!is_db_ext(ext));
        return Option::None;
    }
    let e0 = name[d + 1];
    let e1 = name[d + 2];
    proof {
        assert(ext[0] == name@[d + 1] && ext[1] == name@[d + 2]);
    }
    if !((e0 == 0x64 || e0 == 0x44) && (e1 == 0x62 || e1 == 0x42)) {
        return Option::None;
    }
    let stem = vstd::slice::slice_subrange(name.as_slice(), 0, d);
    match parse_stem(stem) {
        Option::Some(v) => Option::Some(v),
        Option::None => Option::None,
    }
}

/// Appends the decimal digits of `n`.
fn push_dec(out: &mut Vec<u8>, n: u64)
    ensures
        final(out)@ == old(out)@ + dec_rep(n as int),
    decreases n,
{
    if n <= 9 {
        out.push(0x30 + n as u8);
        assert(out@ =~= old(out)@ + dec_rep(n as int));
    } else {
        push_dec(out, n / 10);
        out.push(0x30 + (n % 10) as u8);
        assert(out@ =~= old(out)@ + dec_rep(n as int));
    }
}

/// Builds the file name for store index `n`.
fn build_db_name(n: u64) -> (r: Vec<u8>)
    ensures
        r@ == db_file_name(n as int),
{
    let mut out: Vec<u8> = Vec::new();
    if n <= 9 {
        out.push(0x30);
        out.push(0x30);
    } else if n <= 99 {
        out.push(0x30);
    }
    push_dec(&mut out, n);
    out.push(0x2e);
    out.push(0x64);
    out.push(0x62);
    assert(out@ =~= db_file_name(n as int));
    out
}

/// Computes the name for the next store file from the names of the entries
/// already in the store directory: the next index, zero-padded to three
/// digits, with the ".db" extension. Entries whose stem is not purely
/// numeric, or whose extension is not "db", are ignored. None comes back
/// only in the degenerate case where an existing numeric stem already
/// denotes the largest 64-bit value, so no next index exists.
pub fn db_name(names: &Vec<Vec<u8>>) -> (r: Option<Vec<u8>>)
    ensures
        (match r {
            Option::Some(v) => {
                &&& max_index(names@.map_values(|nm: Vec<u8>| nm@)) != Option::Some(
                    u64::MAX as int,
                )
                &&& v@ == db_file_name(next_index(names@.map_values(|nm: Vec<u8>| nm@)))
            },
            Option::None => max_index(names@.map_values(|nm: Vec<u8>| nm@)) == Option::Some(
                u64::MAX as int,
            ),
        }),
{
    let ghost model = names@.map_values(|nm: Vec<u8>| nm@);
    let mut best: Option<u64> = Option::None;
    let mut k: usize = 0;
    while k < names.len()
        invariant
            k <= names@.len(),
            model == names@.map_values(|nm: Vec<u8>| nm@),
            (match best {
                Option::Some(b) => max_index(model.subrange(0, k as int)) == Option::Some(
                    b as int,
                ),
                Option::None => max_index(model.subrange(0, k as int)) is None,
            }),
        decreases names@.len() - k,
    {
        proof {
            assert(model.subrange(0, k + 1).drop_last() =~= model.subrange(0, k as int));
            assert(model.subrange(0, k + 1).last() == names@[k as int]@);
        }
        match entry_index_of(&names[k]) {
            Option::Some(v) => {
                best = match best {
                    Option::Some(b) => if v >= b {
                        Option::Some(v)
                    } else {
                        Option::Some(b)
                    },
                    Option::None => Option::Some(v),
                };
            },
            Option::None => {},
        }
        k = k + 1;
    }
    proof {
        assert(model.subrange(0, names@.len() as int) =~= model);
    }
    match best {
        Option::Some(m) => {
            if m == u64::MAX {
                Option::None
            } else {
                Option::Some(build_db_name(m + 1))
            }
        },
        Option::None => Option::Some(build_db_name(0)),
    }
}

} // verus!
