//! Character-level helpers on plain strings: splitting, dropping
//! characters, and reading decimal integers.
use vstd::prelude::*;

verus! {

/// Relies on `str::chars`: the characters of `s`, in order.
#[verifier::external_body]
pub fn chars_of(s: &str) -> (r: Vec<char>)
    ensures
        r@ == s@,
{
    s.chars().collect()
}

/// Relies on `String`'s `FromIterator<char>`: the string of these characters.
#[verifier::external_body]
pub fn string_of(v: &Vec<char>) -> (r: String)
    ensures
        r@ == v@,
{
    v.iter().collect()
}

/// The pieces of `s` between occurrences of `sep`, as `str::split` yields
/// them: always at least one, possibly empty.
pub open spec fn split_on(s: Seq<char>, sep: char) -> Seq<Seq<char>>
    decreases s.len(),
{
    if s.len() == 0 {
        seq![Seq::<char>::empty()]
    } else {
        let rest = split_on(s.drop_last(), sep);
        if s.last() == sep {
            rest.push(Seq::<char>::empty())
        } else {
            rest.update(rest.len() - 1, rest.last().push(s.last()))
        }
    }
}

/// `s` without the characters listed in `drop`.
pub open spec fn without(s: Seq<char>, drop: Seq<char>) -> Seq<char>
    decreases s.len(),
{
    if s.len() == 0 {
        s
    } else {
        let rest = without(s.drop_last(), drop);
        if drop.contains(s.last()) {
            rest
        } else {
            rest.push(s.last())
        }
    }
}

/// Whether every character of `d` is an ASCII digit.
pub open spec fn all_digits(d: Seq<char>) -> bool {
    forall|i: int| 0 <= i < d.len() ==> '0' <= #[trigger] d[i] <= '9'
}

/// The value of a string of decimal digits.
pub open spec fn digits_value(d: Seq<char>) -> nat
    decreases d.len(),
{
    if d.len() == 0 {
        0
    } else {
        digits_value(d.drop_last()) * 10 + (d.last() as nat - '0' as nat) as nat
    }
}

/// The `i32` that `s` denotes in the syntax of `i32::from_str`: an optional
/// `+` or `-`, then one or more decimal digits, in range.
pub open spec fn parse_i32(s: Seq<char>) -> Option<int> {
    let signed = s.len() > 0 && (s[0] == '-' || s[0] == '+');
    let d = if signed {
        s.drop_first()
    } else {
        s
    };
    let v: int = if signed && s[0] == '-' {
        -digits_value(d)
    } else {
        digits_value(d) as int
    };
    if d.len() == 0 || !all_digits(d) || v < i32::MIN || v > i32::MAX {
        None
    } else {
        Some(v)
    }
}

proof fn lemma_split_nonempty(s: Seq<char>, sep: char)
    ensures
        split_on(s, sep).len() >= 1,
    decreases s.len(),
{
    if s.len() > 0 {
        lemma_split_nonempty(s.drop_last(), sep);
    }
}

proof fn lemma_digits_grow(d: Seq<char>, k: int)
    requires
        0 <= k <= d.len(),
        all_digits(d),
    ensures
        digits_value(d.subrange(0, k)) <= digits_value(d),
    decreases d.len() - k,
{
    if k < d.len() {
        lemma_digits_grow(d, k + 1);
        let p = d.subrange(0, k + 1);
        assert(p.drop_last() =~= d.subrange(0, k));
        assert('0' <= p.last() <= '9');
        assert(digits_value(p) == digits_value(d.subrange(0, k)) * 10 + (p.last() as nat
            - '0' as nat) as nat);
    } else {
        assert(d.subrange(0, k) =~= d);
    }
}

/// Splits `s` at every `sep`; see [`split_on`].
pub fn split_chars(s: &Vec<char>, sep: char) -> (r: Vec<Vec<char>>)
    ensures
        r.len() == split_on(s@, sep).len(),
        r.len() >= 1,
        forall|i: int| 0 <= i < r.len() ==> #[trigger] r[i]@ == split_on(s@, sep)[i],
{
    let mut pieces: Vec<Vec<char>> = Vec::new();
    pieces.push(Vec::new());
    let mut i: usize = 0;
    proof {
        assert(s@.subrange(0, 0) =~= Seq::<char>::empty());
    }
    while i < s.len()
        invariant
            i <= s.len(),
            pieces.len() == split_on(s@.subrange(0, i as int), sep).len(),
            pieces.len() >= 1,
            forall|j: int|
                0 <= j < pieces.len() ==> #[trigger] pieces[j]@ == split_on(
                    s@.subrange(0, i as int),
                    sep,
                )[j],
        decreases s.len() - i,
    {
        let c = s[i];
        let ghost before = s@.subrange(0, i as int);
        let ghost after = s@.subrange(0, i + 1);
        proof {
            assert(after.drop_last() =~= before);
            assert(after.last() == c);
        }
        if c == sep {
            pieces.push(Vec::new());
            proof {
                assert forall|j: int| 0 <= j < pieces.len() implies #[trigger] pieces[j]@
                    == split_on(after, sep)[j] by {
                    if j == pieces.len() - 1 {
                        assert(pieces[j]@ =~= Seq::<char>::empty());
                    }
                }
            }
        } else {
            let last = pieces.len() - 1;
            let mut piece = pieces.pop().unwrap();
            piece.push(c);
            pieces.push(piece);
            proof {
                assert forall|j: int| 0 <= j < pieces.len() implies #[trigger] pieces[j]@
                    == split_on(after, sep)[j] by {
                    if j == last {
                        assert(pieces[j]@ =~= split_on(before, sep)[j].push(c));
                    }
                }
            }
        }
        i = i + 1;
    }
    proof {
        assert(s@.subrange(0, s@.len() as int) =~= s@);
    }
    pieces
}

/// `s` without the characters listed in `drop`; see [`without`].
pub fn remove_chars(s: &Vec<char>, drop: &Vec<char>) -> (r: Vec<char>)
    ensures
        r@ == without(s@, drop@),
{
    let mut out: Vec<char> = Vec::new();
    let mut i: usize = 0;
    proof {
        assert(s@.subrange(0, 0) =~= Seq::<char>::empty());
    }
    while i < s.len()
        invariant
            i <= s.len(),
            out@ == without(s@.subrange(0, i as int), drop@),
        decreases s.len() - i,
    {
        let c = s[i];
        let ghost after = s@.subrange(0, i + 1);
        proof {
            assert(after.drop_last() =~= s@.subrange(0, i as int));
            assert(after.last() == c);
        }
        let mut listed = false;
        let mut k: usize = 0;
        while k < drop.len()
            invariant
                k <= drop.len(),
                listed == exists|m: int| 0 <= m < k && drop@[m] == c,
            decreases drop.len() - k,
        {
            if drop[k] == c {
                listed = true;
            }
            k = k + 1;
        }
        if !listed {
            out.push(c);
        }
        i = i + 1;
    }
    proof {
        assert(s@.subrange(0, s@.len() as int) =~= s@);
    }
    out
}

/// Reads `s` as an `i32` in the syntax of `i32::from_str`; see [`parse_i32`].
pub fn parse_int(s: &Vec<char>) -> (r: Option<i32>)
    ensures
        match parse_i32(s@) {
            Some(v) => r == Some(v as i32),
            None => r is None,
        },
{
    let signed = s.len() > 0 && (s[0] == '-' || s[0] == '+');
    let negative = s.len() > 0 && s[0] == '-';
    let start: usize = if signed {
        1
    } else {
        0
    };
    let ghost d = if signed {
        s@.drop_first()
    } else {
        s@
    };
    proof {
        assert(d =~= s@.subrange(start as int, s@.len() as int));
    }
    if start == s.len() {
        return None;
    }
    let mut acc: i64 = 0;
    let mut i: usize = start;
    proof {
        assert(d.subrange(0, 0) =~= Seq::<char>::empty());
    }
    while i < s.len()
        invariant
            start <= i <= s.len(),
            signed == (s@.len() > 0 && (s@[0] == '-' || s@[0] == '+')),
            negative == (s@.len() > 0 && s@[0] == '-'),
            start == (if signed {
                1usize
            } else {
                0usize
            }),
            d == (if signed {
                s@.drop_first()
            } else {
                s@
            }),
            d == s@.subrange(start as int, s@.len() as int),
            acc as int == digits_value(d.subrange(0, i - start)),
            acc <= 2_147_483_648,
            forall|m: int| 0 <= m < i - start ==> '0' <= #[trigger] d[m] <= '9',
        decreases s.len() - i,
    {
        let c = s[i];
        let ghost p = d.subrange(0, i - start + 1);
        proof {
            assert(p.drop_last() =~= d.subrange(0, i - start));
            assert(p.last() == c);
        }
        proof {
            assert(d[i - start] == c);
        }
        if c < '0' || c > '9' {
            proof {
                assert(!all_digits(d));
            }
            return None;
        }
        let next: i64 = acc * 10 + (c as u32 - '0' as u32) as i64;
        if next > 2_147_483_648 {
            proof {
                assert(digits_value(p) == next);
                assert forall|m: int| 0 <= m < i - start + 1 implies '0' <= #[trigger] d[m]
                    <= '9' by {
                    if m == i - start {
                        assert(d[m] == c);
                    }
                }
                if all_digits(d) {
                    lemma_digits_grow(d, i - start + 1);
                }
            }
            return None;
        }
        acc = next;
        proof {
            assert forall|m: int| 0 <= m < i - start + 1 implies '0' <= #[trigger] d[m]
                <= '9' by {
                if m == i - start {
                    assert(d[m] == c);
                }
            }
        }
        i = i + 1;
    }
    proof {
        assert(d.subrange(0, d.len() as int) =~= d);
        assert(all_digits(d));
    }
    if negative {
        Some((-acc) as i32)
    } else if acc > 2_147_483_647 {
        None
    } else {
        Some(acc as i32)
    }
}

} // verus!
