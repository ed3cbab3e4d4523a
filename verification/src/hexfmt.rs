//! Hex renderings used by the certificate records.
//!
//! Three layouts appear in the records:
//! - plain pairs (`"0abc"`), used for an authority certificate serial;
//! - colon-joined pairs (`"0a:bc"`), used for key identifiers;
//! - colon-joined pairs wrapped into lines of 16 pairs, used for public
//!   keys and signature values;
//! and the minimal big-endian integer rendering (`"abc"`, no leading
//! zero digit) used for the certificate serial number.
//!
//! All renderings are lowercase and carry no `0x` prefix.

use vstd::prelude::*;

verus! {

/// The lowercase hex digit for a value below 16.
pub open spec fn spec_hex_digit(n: int) -> char {
    if n == 0 {
        '0'
    } else if n == 1 {
        '1'
    } else if n == 2 {
        '2'
    } else if n == 3 {
        '3'
    } else if n == 4 {
        '4'
    } else if n == 5 {
        '5'
    } else if n == 6 {
        '6'
    } else if n == 7 {
        '7'
    } else if n == 8 {
        '8'
    } else if n == 9 {
        '9'
    } else if n == 10 {
        'a'
    } else if n == 11 {
        'b'
    } else if n == 12 {
        'c'
    } else if n == 13 {
        'd'
    } else if n == 14 {
        'e'
    } else {
        'f'
    }
}

/// The two lowercase hex digits of one byte.
pub open spec fn spec_hex_pair(b: u8) -> Seq<char> {
    seq![spec_hex_digit(b as int / 16), spec_hex_digit(b as int % 16)]
}

/// All bytes as hex pairs, concatenated without separators.
pub open spec fn spec_hex_plain(s: Seq<u8>) -> Seq<char>
    decreases s.len(),
{
    if s.len() == 0 {
        Seq::empty()
    } else {
        spec_hex_plain(s.drop_last()) + spec_hex_pair(s.last())
    }
}

/// All bytes as hex pairs joined by `':'`.
pub open spec fn spec_hex_colon(s: Seq<u8>) -> Seq<char>
    decreases s.len(),
{
    if s.len() == 0 {
        Seq::empty()
    } else if s.len() == 1 {
        spec_hex_pair(s[0])
    } else {
        spec_hex_colon(s.drop_last()) + seq![':'] + spec_hex_pair(s.last())
    }
}

/// The separator written before the pair at position `i`: a line break
/// before every sixteenth pair, `':'` otherwise.
pub open spec fn spec_group_sep(i: int) -> Seq<char> {
    if i % 16 == 0 {
        seq!['\n']
    } else {
        seq![':']
    }
}

/// All bytes as hex pairs joined by `':'`, wrapped into lines of 16
/// pairs joined by `'\n'`.
pub open spec fn spec_hex_grouped(s: Seq<u8>) -> Seq<char>
    decreases s.len(),
{
    if s.len() == 0 {
        Seq::empty()
    } else if s.len() == 1 {
        spec_hex_pair(s[0])
    } else {
        spec_hex_grouped(s.drop_last()) + spec_group_sep(s.len() - 1) + spec_hex_pair(s.last())
    }
}

/// The big-endian bytes with leading zero bytes removed.
pub open spec fn spec_strip_zeros(s: Seq<u8>) -> Seq<u8>
    decreases s.len(),
{
    if s.len() > 0 && s.first() == 0 {
        spec_strip_zeros(s.drop_first())
    } else {
        s
    }
}

/// The minimal lowercase hex rendering of the unsigned big-endian
/// integer held in `s`: no leading zero digit, and `"0"` for zero.
pub open spec fn spec_serial_hex(s: Seq<u8>) -> Seq<char> {
    let t = spec_strip_zeros(s);
    if t.len() == 0 {
        seq!['0']
    } else if t.first() < 16 {
        seq![spec_hex_digit(t.first() as int)] + spec_hex_plain(t.drop_first())
    } else {
        spec_hex_plain(t)
    }
}

/// A lowercase hex digit: `'0'` to `'9'` or `'a'` to `'f'`.
pub open spec fn is_lower_hex_digit(c: char) -> bool {
    (('0' as int) <= c as int && c as int <= ('9' as int)) || (('a' as int) <= c as int && c as int
        <= ('f' as int))
}

/// Every hex digit of a value below 16 is a lowercase hex character,
/// and only the digit of zero is `'0'`.
pub proof fn lemma_hex_digit_props(n: int)
    requires
        0 <= n < 16,
    ensures
        is_lower_hex_digit(spec_hex_digit(n)),
        (spec_hex_digit(n) == '0') == (n == 0),
{
}

/// The plain rendering holds exactly the bytes' digits: two lowercase
/// hex digits per byte, high digit first, nothing else — in particular
/// no uppercase letter and no `0x` prefix.
pub proof fn lemma_hex_plain_chars(b: Seq<u8>)
    ensures
        spec_hex_plain(b).len() == 2 * b.len(),
        forall|i: int|
            0 <= i < spec_hex_plain(b).len() ==> #[trigger] spec_hex_plain(b)[i] == (if i % 2 == 0 {
                spec_hex_digit(b[i / 2] as int / 16)
            } else {
                spec_hex_digit(b[i / 2] as int % 16)
            }),
    decreases b.len(),
{
    if b.len() > 0 {
        lemma_hex_plain_chars(b.drop_last());
        let n = b.len() as int;
        let prev = spec_hex_plain(b.drop_last());
        assert forall|i: int| 0 <= i < spec_hex_plain(b).len() implies #[trigger] spec_hex_plain(
            b,
        )[i] == (if i % 2 == 0 {
            spec_hex_digit(b[i / 2] as int / 16)
        } else {
            spec_hex_digit(b[i / 2] as int % 16)
        }) by {
            if i < 2 * n - 2 {
                assert(spec_hex_plain(b)[i] == prev[i]);
                assert(b.drop_last()[i / 2] == b[i / 2]);
            } else {
                assert(spec_hex_plain(b)[i] == spec_hex_pair(b.last())[i - (2 * n - 2)]);
                assert(i / 2 == n - 1);
            }
        }
    }
}

/// The colon-joined rendering holds exactly the bytes' digits in pairs,
/// a `':'` between neighbouring pairs and nothing else: position `3j`
/// holds byte `j`'s high digit, `3j + 1` its low digit, and every
/// position `3j + 2` a `':'`.
pub proof fn lemma_hex_colon_chars(b: Seq<u8>)
    ensures
        b.len() == 0 ==> spec_hex_colon(b).len() == 0,
        b.len() > 0 ==> spec_hex_colon(b).len() == 3 * b.len() - 1,
        forall|i: int|
            0 <= i < spec_hex_colon(b).len() ==> #[trigger] spec_hex_colon(b)[i] == (if i % 3 == 2 {
                ':'
            } else if i % 3 == 0 {
                spec_hex_digit(b[i / 3] as int / 16)
            } else {
                spec_hex_digit(b[i / 3] as int % 16)
            }),
    decreases b.len(),
{
    if b.len() <= 1 {
    } else {
        lemma_hex_colon_chars(b.drop_last());
        let n = b.len() as int;
        let prev = spec_hex_colon(b.drop_last());
        assert forall|i: int| 0 <= i < spec_hex_colon(b).len() implies #[trigger] spec_hex_colon(
            b,
        )[i] == (if i % 3 == 2 {
            ':'
        } else if i % 3 == 0 {
            spec_hex_digit(b[i / 3] as int / 16)
        } else {
            spec_hex_digit(b[i / 3] as int % 16)
        }) by {
            if i < 3 * n - 4 {
                assert(spec_hex_colon(b)[i] == prev[i]);
                assert(b.drop_last()[i / 3] == b[i / 3]);
            } else if i == 3 * n - 4 {
                assert(spec_hex_colon(b)[i] == ':');
            } else {
                assert(spec_hex_colon(b)[i] == spec_hex_pair(b.last())[i - (3 * n - 3)]);
                assert(i / 3 == n - 1);
            }
        }
    }
}

/// The grouped rendering holds exactly the bytes' digits in pairs and
/// one separator between neighbouring pairs: position `3j` holds byte
/// `j`'s high digit, `3j + 1` its low digit, and position `3j + 2`
/// holds `'\n'` where pair `j + 1` starts a group of sixteen and `':'`
/// otherwise — all digits lowercase, no `0x` prefix anywhere.
pub proof fn lemma_hex_grouped_chars(b: Seq<u8>)
    ensures
        b.len() == 0 ==> spec_hex_grouped(b).len() == 0,
        b.len() > 0 ==> spec_hex_grouped(b).len() == 3 * b.len() - 1,
        forall|i: int|
            0 <= i < spec_hex_grouped(b).len() ==> #[trigger] spec_hex_grouped(b)[i] == (if i % 3
                == 2 {
                if (i / 3 + 1) % 16 == 0 {
                    '\n'
                } else {
                    ':'
                }
            } else if i % 3 == 0 {
                spec_hex_digit(b[i / 3] as int / 16)
            } else {
                spec_hex_digit(b[i / 3] as int % 16)
            }),
    decreases b.len(),
{
    if b.len() <= 1 {
    } else {
        lemma_hex_grouped_chars(b.drop_last());
        let n = b.len() as int;
        let prev = spec_hex_grouped(b.drop_last());
        assert forall|i: int|
            0 <= i < spec_hex_grouped(b).len() implies #[trigger] spec_hex_grouped(b)[i] == (if i
            % 3 == 2 {
            if (i / 3 + 1) % 16 == 0 {
                '\n'
            } else {
                ':'
            }
        } else if i % 3 == 0 {
            spec_hex_digit(b[i / 3] as int / 16)
        } else {
            spec_hex_digit(b[i / 3] as int % 16)
        }) by {
            if i < 3 * n - 4 {
                assert(spec_hex_grouped(b)[i] == prev[i]);
                assert(b.drop_last()[i / 3] == b[i / 3]);
            } else if i == 3 * n - 4 {
                assert(spec_hex_grouped(b)[i] == spec_group_sep(n - 1)[0]);
                assert(i / 3 + 1 == n - 1);
            } else {
                assert(spec_hex_grouped(b)[i] == spec_hex_pair(b.last())[i - (3 * n - 3)]);
                assert(i / 3 == n - 1);
            }
        }
    }
}

/// What survives the strip starts with a nonzero byte.
proof fn lemma_strip_zeros_first(s: Seq<u8>)
    ensures
        spec_strip_zeros(s).len() > 0 ==> spec_strip_zeros(s).first() != 0,
    decreases s.len(),
{
    if s.len() > 0 && s.first() == 0 {
        lemma_strip_zeros_first(s.drop_first());
    }
}

/// The serial rendering is never empty, holds lowercase hex digits
/// only — so no `0x` prefix and no separator — and never starts with a
/// superfluous zero digit.
pub proof fn lemma_serial_hex_chars(b: Seq<u8>)
    ensures
        spec_serial_hex(b).len() >= 1,
        forall|i: int|
            0 <= i < spec_serial_hex(b).len() ==> is_lower_hex_digit(
                #[trigger] spec_serial_hex(b)[i],
            ),
        spec_serial_hex(b).len() > 1 ==> spec_serial_hex(b)[0] != '0',
{
    let t = spec_strip_zeros(b);
    lemma_strip_zeros_first(b);
    lemma_hex_plain_chars(t);
    lemma_hex_plain_chars(t.drop_first());
    let s = spec_serial_hex(b);
    if t.len() == 0 {
        assert(s == seq!['0']);
        assert(is_lower_hex_digit('0'));
    } else if t.first() < 16 {
        lemma_hex_digit_props(t.first() as int);
        assert forall|i: int| 0 <= i < s.len() implies is_lower_hex_digit(#[trigger] s[i]) by {
            if i == 0 {
                assert(s[0] == spec_hex_digit(t.first() as int));
            } else {
                let p = spec_hex_plain(t.drop_first());
                assert(s[i] == p[i - 1]);
                if (i - 1) % 2 == 0 {
                    lemma_hex_digit_props(t.drop_first()[(i - 1) / 2] as int / 16);
                } else {
                    lemma_hex_digit_props(t.drop_first()[(i - 1) / 2] as int % 16);
                }
            }
        }
        assert(s[0] == spec_hex_digit(t.first() as int));
    } else {
        assert forall|i: int| 0 <= i < s.len() implies is_lower_hex_digit(#[trigger] s[i]) by {
            if i % 2 == 0 {
                lemma_hex_digit_props(t[i / 2] as int / 16);
            } else {
                lemma_hex_digit_props(t[i / 2] as int % 16);
            }
        }
        assert(s[0] == spec_hex_digit(t[0] as int / 16));
        lemma_hex_digit_props(t[0] as int / 16);
    }
}

/// Relies on `String::push`: appends exactly the given character.
#[verifier::external_body]
fn push_char(s: &mut String, c: char)
    ensures
        final(s)@ == old(s)@.push(c),
{
    s.push(c);
}

/// The lowercase hex digit of a value below 16.
fn hex_digit_char(n: u8) -> (c: char)
    requires
        n < 16,
    ensures
        c == spec_hex_digit(n as int),
{
    match n {
        0 => '0',
        1 => '1',
        2 => '2',
        3 => '3',
        4 => '4',
        5 => '5',
        6 => '6',
        7 => '7',
        8 => '8',
        9 => '9',
        10 => 'a',
        11 => 'b',
        12 => 'c',
        13 => 'd',
        14 => 'e',
        _ => 'f',
    }
}

/// Appends the two hex digits of one byte.
fn push_pair(out: &mut String, b: u8)
    ensures
        final(out)@ == old(out)@ + spec_hex_pair(b),
{
    push_char(out, hex_digit_char(b / 16));
    push_char(out, hex_digit_char(b % 16));
    proof {
        assert(out@ =~= old(out)@ + spec_hex_pair(b));
    }
}

/// The bytes as lowercase hex pairs, concatenated without separators.
pub fn to_hex_plain(bytes: &[u8]) -> (r: String)
    ensures
        r@ == spec_hex_plain(bytes@),
{
    let mut r = String::new();
    proof {
        assert(bytes@.take(0) =~= Seq::<u8>::empty());
    }
    for i in 0..bytes.len()
        invariant
            r@ == spec_hex_plain(bytes@.take(i as int)),
    {
        push_pair(&mut r, bytes[i]);
        proof {
            assert(bytes@.take(i + 1).drop_last() =~= bytes@.take(i as int));
            assert(bytes@.take(i + 1).last() == bytes@[i as int]);
        }
    }
    proof {
        assert(bytes@.take(bytes@.len() as int) =~= bytes@);
    }
    r
}

/// The bytes as lowercase hex pairs joined by `':'`.
pub fn to_hex_colon(bytes: &[u8]) -> (r: String)
    ensures
        r@ == spec_hex_colon(bytes@),
{
    let mut r = String::new();
    proof {
        assert(bytes@.take(0) =~= Seq::<u8>::empty());
    }
    for i in 0..bytes.len()
        invariant
            r@ == spec_hex_colon(bytes@.take(i as int)),
    {
        if i > 0 {
            push_char(&mut r, ':');
        }
        push_pair(&mut r, bytes[i]);
        proof {
            assert(bytes@.take(i + 1).drop_last() =~= bytes@.take(i as int));
            assert(bytes@.take(i + 1).last() == bytes@[i as int]);
            if i == 0 {
                assert(r@ =~= spec_hex_pair(bytes@[0]));
            } else {
                assert(r@ =~= spec_hex_colon(bytes@.take(i as int)) + seq![':']
                    + spec_hex_pair(bytes@[i as int]));
            }
        }
    }
    proof {
        assert(bytes@.take(bytes@.len() as int) =~= bytes@);
    }
    r
}

/// The bytes as lowercase hex pairs joined by `':'`, wrapped into lines
/// of 16 pairs joined by `'\n'`.
pub fn to_hex_grouped(bytes: &[u8]) -> (r: String)
    ensures
        r@ == spec_hex_grouped(bytes@),
{
    let mut r = String::new();
    proof {
        assert(bytes@.take(0) =~= Seq::<u8>::empty());
    }
    for i in 0..bytes.len()
        invariant
            r@ == spec_hex_grouped(bytes@.take(i as int)),
    {
        if i > 0 {
            if i % 16 == 0 {
                push_char(&mut r, '\n');
            } else {
                push_char(&mut r, ':');
            }
        }
        push_pair(&mut r, bytes[i]);
        proof {
            assert(bytes@.take(i + 1).drop_last() =~= bytes@.take(i as int));
            assert(bytes@.take(i + 1).last() == bytes@[i as int]);
            if i == 0 {
                assert(r@ =~= spec_hex_pair(bytes@[0]));
            } else {
                assert(r@ =~= spec_hex_grouped(bytes@.take(i as int)) + spec_group_sep(i as int)
                    + spec_hex_pair(bytes@[i as int]));
            }
        }
    }
    proof {
        assert(bytes@.take(bytes@.len() as int) =~= bytes@);
    }
    r
}

/// Leading zero bytes strip down to the suffix that starts at the first
/// nonzero byte.
proof fn lemma_strip_zeros_skip(s: Seq<u8>, j: int)
    requires
        0 <= j <= s.len(),
        forall|k: int| 0 <= k < j ==> s[k] == 0,
        j < s.len() ==> s[j] != 0,
    ensures
        spec_strip_zeros(s) == s.skip(j),
    decreases j,
{
    if j == 0 {
        assert(s.skip(0) =~= s);
    } else {
        assert(s.first() == 0);
        lemma_strip_zeros_skip(s.drop_first(), j - 1);
        assert(s.drop_first().skip(j - 1) =~= s.skip(j));
    }
}

/// The minimal lowercase hex rendering of the unsigned big-endian
/// integer held in `bytes` (the layout of a certificate serial number).
pub fn serial_hex(bytes: &[u8]) -> (r: String)
    ensures
        r@ == spec_serial_hex(bytes@),
{
    let n = bytes.len();
    let mut j: usize = 0;
    while j < n && bytes[j] == 0
        invariant
            0 <= j <= n,
            n == bytes@.len(),
            forall|k: int| 0 <= k < j ==> bytes@[k] == 0,
        decreases n - j,
    {
        j = j + 1;
    }
    proof {
        lemma_strip_zeros_skip(bytes@, j as int);
    }
    let mut r = String::new();
    if j == n {
        push_char(&mut r, '0');
        proof {
            assert(r@ =~= seq!['0']);
        }
    } else if bytes[j] < 16 {
        push_char(&mut r, hex_digit_char(bytes[j]));
        let ghost head: Seq<char> = seq![spec_hex_digit(bytes@[j as int] as int)];
        proof {
            assert(r@ =~= head + spec_hex_plain(bytes@.subrange(j + 1, j + 1)));
        }
        let mut i: usize = j + 1;
        while i < n
            invariant
                j + 1 <= i <= n,
                n == bytes@.len(),
                head == seq![spec_hex_digit(bytes@[j as int] as int)],
                r@ == head + spec_hex_plain(bytes@.subrange(j + 1, i as int)),
            decreases n - i,
        {
            push_pair(&mut r, bytes[i]);
            proof {
                assert(bytes@.subrange(j + 1, i + 1).drop_last() =~= bytes@.subrange(
                    j + 1,
                    i as int,
                ));
                assert(bytes@.subrange(j + 1, i + 1).last() == bytes@[i as int]);
                assert(r@ =~= head + spec_hex_plain(bytes@.subrange(j + 1, i + 1)));
            }
            i = i + 1;
        }
        proof {
            let t = spec_strip_zeros(bytes@);
            assert(t.first() == bytes@[j as int]);
            assert(t.drop_first() =~= bytes@.subrange(j + 1, n as int));
        }
    } else {
        proof {
            assert(r@ =~= spec_hex_plain(bytes@.subrange(j as int, j as int)));
        }
        let mut i: usize = j;
        while i < n
            invariant
                j <= i <= n,
                n == bytes@.len(),
                r@ == spec_hex_plain(bytes@.subrange(j as int, i as int)),
            decreases n - i,
        {
            push_pair(&mut r, bytes[i]);
            proof {
                assert(bytes@.subrange(j as int, i + 1).drop_last() =~= bytes@.subrange(
                    j as int,
                    i as int,
                ));
                assert(bytes@.subrange(j as int, i + 1).last() == bytes@[i as int]);
                assert(r@ =~= spec_hex_plain(bytes@.subrange(j as int, i + 1)));
            }
            i = i + 1;
        }
        proof {
            let t = spec_strip_zeros(bytes@);
            assert(t =~= bytes@.subrange(j as int, n as int));
            assert(t.first() == bytes@[j as int]);
        }
    }
    r
}

} // verus!
