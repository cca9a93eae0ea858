use vstd::prelude::*;
use vstd::assert_seqs_equal;

verus! {

/// The byte that separates the segments of a series key (a colon).
pub const KEY_DELIMITER: u8 = 58;

/// The colon-delimited segments of a series key, in order. A key with no
/// delimiter is one segment; every delimiter opens a further one, so the
/// result is never empty.
pub open spec fn split_bytes(s: Seq<u8>) -> Seq<Seq<u8>>
    decreases s.len(),
{
    if s.len() == 0 {
        seq![Seq::<u8>::empty()]
    } else {
        let rest = split_bytes(s.skip(1));
        if s[0] == KEY_DELIMITER {
            seq![Seq::<u8>::empty()] + rest
        } else {
            seq![seq![s[0]] + rest[0]] + rest.skip(1)
        }
    }
}

pub proof fn lemma_split_nonempty(s: Seq<u8>)
    ensures
        split_bytes(s).len() >= 1,
    decreases s.len(),
{
    if s.len() > 0 {
        lemma_split_nonempty(s.skip(1));
    }
}

/// The first segment of `segs` extended on the left with `c`.
pub open spec fn prepend_first(c: Seq<u8>, segs: Seq<Seq<u8>>) -> Seq<Seq<u8>> {
    seq![c + segs[0]] + segs.skip(1)
}

proof fn lemma_split_step_plain(c: Seq<u8>, t: Seq<u8>)
    requires
        t.len() > 0,
        t[0] != KEY_DELIMITER,
    ensures
        prepend_first(c, split_bytes(t)) == prepend_first(c.push(t[0]), split_bytes(t.skip(1))),
{
    let rest = split_bytes(t.skip(1));
    lemma_split_nonempty(t.skip(1));
    assert(split_bytes(t) == seq![seq![t[0]] + rest[0]] + rest.skip(1));
    assert_seqs_equal!(c + (seq![t[0]] + rest[0]) == c.push(t[0]) + rest[0]);
    assert_seqs_equal!(
        prepend_first(c, split_bytes(t)) == prepend_first(c.push(t[0]), split_bytes(t.skip(1)))
    );
}

proof fn lemma_split_step_delim(c: Seq<u8>, t: Seq<u8>)
    requires
        t.len() > 0,
        t[0] == KEY_DELIMITER,
    ensures
        prepend_first(c, split_bytes(t)) == seq![c] + prepend_first(
            Seq::<u8>::empty(),
            split_bytes(t.skip(1)),
        ),
{
    let rest = split_bytes(t.skip(1));
    lemma_split_nonempty(t.skip(1));
    assert(split_bytes(t) == seq![Seq::<u8>::empty()] + rest);
    assert_seqs_equal!(c + Seq::<u8>::empty() == c);
    assert_seqs_equal!(Seq::<u8>::empty() + rest[0] == rest[0]);
    assert_seqs_equal!(
        prepend_first(c, split_bytes(t)) ==
        seq![c] + prepend_first(Seq::<u8>::empty(), split_bytes(t.skip(1)))
    );
}

/// Split a series key into its colon-delimited segments.
pub fn split_key(key: &Vec<u8>) -> (r: Vec<Vec<u8>>)
    ensures
        r@.map_values(|v: Vec<u8>| v@) == split_bytes(key@),
{
    let mut done: Vec<Vec<u8>> = Vec::new();
    let mut cur: Vec<u8> = Vec::new();
    let n = key.len();
    let mut i: usize = 0;
    proof {
        lemma_split_nonempty(key@);
        assert(key@.skip(0) == key@);
        assert(done@.map_values(|v: Vec<u8>| v@) + prepend_first(cur@, split_bytes(key@))
            =~~= split_bytes(key@));
    }
    while i < n
        invariant
            n == key@.len(),
            0 <= i <= n,
            done@.map_values(|v: Vec<u8>| v@) + prepend_first(
                cur@,
                split_bytes(key@.skip(i as int)),
            ) == split_bytes(key@),
        decreases n - i,
    {
        let ghost t = key@.skip(i as int);
        let ghost done_pre = done@;
        let ghost cur_pre = cur@;
        let b = key[i];
        assert(t[0] == b);
        assert(t.skip(1) == key@.skip(i + 1));
        if b == KEY_DELIMITER {
            proof {
                lemma_split_step_delim(cur_pre, t);
            }
            done.push(cur);
            cur = Vec::new();
            proof {
                assert_seqs_equal!(
                    done@.map_values(|v: Vec<u8>| v@) ==
                    done_pre.map_values(|v: Vec<u8>| v@).push(cur_pre)
                );
                assert_seqs_equal!(
                    done@.map_values(|v: Vec<u8>| v@)
                        + prepend_first(cur@, split_bytes(key@.skip(i + 1)))
                    == done_pre.map_values(|v: Vec<u8>| v@)
                        + (seq![cur_pre]
                            + prepend_first(Seq::<u8>::empty(), split_bytes(key@.skip(i + 1))))
                );
            }
        } else {
            proof {
                lemma_split_step_plain(cur_pre, t);
            }
            cur.push(b);
        }
        i = i + 1;
    }
    assert(key@.skip(n as int) == Seq::<u8>::empty());
    assert(split_bytes(Seq::<u8>::empty()) == seq![Seq::<u8>::empty()]);
    proof {
        assert_seqs_equal!(prepend_first(cur@, split_bytes(Seq::<u8>::empty())) == seq![cur@]);
    }
    let ghost done_pre = done@;
    let ghost cur_pre = cur@;
    done.push(cur);
    proof {
        assert_seqs_equal!(
            done@.map_values(|v: Vec<u8>| v@) ==
            done_pre.map_values(|v: Vec<u8>| v@).push(cur_pre)
        );
        assert_seqs_equal!(
            done@.map_values(|v: Vec<u8>| v@) ==
            done_pre.map_values(|v: Vec<u8>| v@) + seq![cur_pre]
        );
    }
    done
}

/// An ASCII decimal digit.
pub open spec fn is_digit_byte(b: u8) -> bool {
    48 <= b <= 57
}

/// A non-empty run of ASCII decimal digits.
pub open spec fn all_digits(s: Seq<u8>) -> bool {
    s.len() > 0 && forall|i: int| 0 <= i < s.len() ==> is_digit_byte(#[trigger] s[i])
}

/// The number the digit run denotes.
pub open spec fn digits_value(s: Seq<u8>) -> nat
    decreases s.len(),
{
    if s.len() == 0 {
        0
    } else {
        (digits_value(s.drop_last()) * 10 + (s.last() - 48)) as nat
    }
}

proof fn lemma_digits_value_prefix_le(s: Seq<u8>, m: int)
    requires
        0 <= m <= s.len(),
        forall|i: int| 0 <= i < s.len() ==> is_digit_byte(#[trigger] s[i]),
    ensures
        digits_value(s.take(m)) <= digits_value(s),
    decreases s.len() - m,
{
    if m == s.len() {
        assert(s.take(m) == s);
    } else {
        lemma_digits_value_prefix_le(s, m + 1);
        assert(s.take(m + 1).drop_last() == s.take(m));
        assert(digits_value(s.take(m + 1)) == digits_value(s.take(m)) * 10 + (s[m] - 48));
    }
}

/// Parse a key segment as a decimal index, accepting it only when it is a
/// non-empty run of digits whose value lies below `bound`.
pub fn parse_index(seg: &Vec<u8>, bound: usize) -> (r: Option<usize>)
    ensures
        all_digits(seg@) && digits_value(seg@) < bound ==> r == Some(
            digits_value(seg@) as usize,
        ),
        !(all_digits(seg@) && digits_value(seg@) < bound) ==> r is None,
{
    let n = seg.len();
    if n == 0 {
        return None;
    }
    let mut acc: usize = 0;
    let mut i: usize = 0;
    while i < n
        invariant
            n == seg@.len(),
            0 < n,
            0 <= i <= n,
            forall|j: int| 0 <= j < i ==> is_digit_byte(#[trigger] seg@[j]),
            acc == digits_value(seg@.take(i as int)),
        decreases n - i,
    {
        let b = seg[i];
        if b < 48 || b > 57 {
            return None;
        }
        let d: usize = (b - 48) as usize;
        assert(seg@.take(i + 1).drop_last() == seg@.take(i as int));
        assert(digits_value(seg@.take(i + 1)) == acc * 10 + d);
        if acc > (usize::MAX - d) / 10 {
            assert(acc * 10 + d > usize::MAX) by (nonlinear_arith)
                requires
                    acc > (usize::MAX - d) / 10,
                    d <= usize::MAX,
                    (usize::MAX - d) / 10 == ((usize::MAX - d) as int) / 10,
            ;
            proof {
                if all_digits(seg@) {
                    lemma_digits_value_prefix_le(seg@, i + 1);
                }
            }
            return None;
        }
        acc = acc * 10 + d;
        i = i + 1;
    }
    assert(seg@.take(n as int) == seg@);
    if acc < bound {
        Some(acc)
    } else {
        None
    }
}

} // verus!
