//! Character-level helpers: splitting, hexadecimal numbers, and building text.

use vstd::prelude::*;
use vstd::string::*;

verus! {

/// `String::push` appends one character at the end of the string.
pub assume_specification[ String::push ](s: &mut String, ch: char)
    ensures
        final(s)@ == old(s)@.push(ch),
;

/// The value of a hexadecimal digit (either case), if `c` is one.
pub open spec fn hex_digit_value(c: char) -> Option<nat> {
    if '0' <= c && c <= '9' {
        Some((c as nat - '0' as nat) as nat)
    } else if 'a' <= c && c <= 'f' {
        Some((c as nat - 'a' as nat + 10) as nat)
    } else if 'A' <= c && c <= 'F' {
        Some((c as nat - 'A' as nat + 10) as nat)
    } else {
        None
    }
}

/// Every character of `p` is a hexadecimal digit.
pub open spec fn all_hex(p: Seq<char>) -> bool {
    forall|i: int| 0 <= i < p.len() ==> (#[trigger] hex_digit_value(p[i])).is_some()
}

/// The number written by the hexadecimal digits `p`, most significant first.
pub open spec fn hex_value(p: Seq<char>) -> nat
    decreases p.len(),
{
    if p.len() == 0 {
        0
    } else {
        hex_value(p.drop_last()) * 16 + hex_digit_value(p.last()).unwrap_or(0)
    }
}

/// Parsing of an unsigned number in base 16 with largest value `max`: an
/// optional leading `+`, then at least one hexadecimal digit; `None` when
/// the text is empty, holds another character, or the value exceeds `max`.
pub open spec fn parse_hex(p: Seq<char>, max: nat) -> Option<nat> {
    if p.len() == 0 {
        None
    } else {
        let d = if p[0] == '+' { p.drop_first() } else { p };
        if d.len() == 0 || !all_hex(d) || hex_value(d) > max {
            None
        } else {
            Some(hex_value(d))
        }
    }
}

/// The pieces of `s` between occurrences of `sep`, in order (as `str::split`).
pub open spec fn split_on(s: Seq<char>, sep: char) -> Seq<Seq<char>>
    decreases s.len(),
{
    if s.len() == 0 {
        seq![Seq::<char>::empty()]
    } else {
        let rest = split_on(s.drop_last(), sep);
        if s.last() == sep {
            rest.push(Seq::<char>::empty())
        } else {
            rest.update(rest.len() - 1, rest.last().push(s.last()))
        }
    }
}

/// `s` with every occurrence of `c` removed (as `str::replace(c, "")`).
pub open spec fn remove_char(s: Seq<char>, c: char) -> Seq<char>
    decreases s.len(),
{
    if s.len() == 0 {
        s
    } else if s.last() == c {
        remove_char(s.drop_last(), c)
    } else {
        remove_char(s.drop_last(), c).push(s.last())
    }
}

pub proof fn lemma_split_on_nonempty(s: Seq<char>, sep: char)
    ensures
        split_on(s, sep).len() >= 1,
    decreases s.len(),
{
    if s.len() > 0 {
        lemma_split_on_nonempty(s.drop_last(), sep);
    }
}

/// Appending text without the separator extends the last piece.
pub proof fn lemma_split_on_extend(s: Seq<char>, t: Seq<char>, sep: char)
    requires
        forall|i: int| 0 <= i < t.len() ==> t[i] != sep,
    ensures
        split_on(s + t, sep) == split_on(s, sep).update(
            split_on(s, sep).len() - 1,
            split_on(s, sep).last() + t,
        ),
    decreases t.len(),
{
    lemma_split_on_nonempty(s, sep);
    let n = split_on(s, sep).len();
    if t.len() == 0 {
        assert(s + t =~= s);
        assert(split_on(s, sep).last() + t =~= split_on(s, sep).last());
        assert(split_on(s, sep).update(n - 1, split_on(s, sep).last()) =~= split_on(s, sep));
    } else {
        let t0 = t.drop_last();
        assert forall|i: int| 0 <= i < t0.len() implies t0[i] != sep by {
            assert(t0[i] == t[i]);
        }
        lemma_split_on_extend(s, t0, sep);
        assert((s + t).drop_last() =~= s + t0);
        assert((s + t).last() == t.last());
        let rest = split_on(s + t0, sep);
        assert(rest.last() == split_on(s, sep).last() + t0);
        assert(rest.last().push(t.last()) =~= split_on(s, sep).last() + t);
        assert(rest.update(rest.len() - 1, rest.last().push(t.last())) =~= split_on(s, sep).update(
            n - 1,
            split_on(s, sep).last() + t,
        ));
    }
}

/// Appending the separator starts a new, empty piece.
pub proof fn lemma_split_on_sep(s: Seq<char>, sep: char)
    ensures
        split_on(s.push(sep), sep) == split_on(s, sep).push(Seq::<char>::empty()),
{
    assert(s.push(sep).drop_last() =~= s);
}

proof fn lemma_hex_value_prefix(p: Seq<char>, k: int)
    requires
        0 <= k <= p.len(),
    ensures
        hex_value(p.take(k)) <= hex_value(p),
    decreases p.len(),
{
    if k < p.len() {
        lemma_hex_value_prefix(p.drop_last(), k);
        assert(p.drop_last().take(k) =~= p.take(k));
    } else {
        assert(p.take(k) =~= p);
    }
}

/// Where a piece of a split begins: after the previous separator.
pub open spec fn piece_start(seps: Seq<usize>, k: int) -> int {
    if k == 0 {
        0
    } else {
        seps[k - 1] + 1
    }
}

/// Where a piece of a split ends: at the next separator, or at `n`.
pub open spec fn piece_end(seps: Seq<usize>, k: int, n: int) -> int {
    if k < seps.len() {
        seps[k] as int
    } else {
        n
    }
}

/// The positions of `sep` in `cs`; the pieces between them are those of
/// `split_on(cs@, sep)`.
pub fn split_positions(cs: &Vec<char>, sep: char) -> (seps: Vec<usize>)
    ensures
        split_on(cs@, sep).len() == seps@.len() + 1,
        forall|k: int|
            0 <= k <= seps@.len() ==> 0 <= #[trigger] piece_start(seps@, k) <= piece_end(
                seps@,
                k,
                cs@.len() as int,
            ) <= cs@.len() && split_on(cs@, sep)[k] == cs@.subrange(
                piece_start(seps@, k),
                piece_end(seps@, k, cs@.len() as int),
            ),
{
    let mut seps: Vec<usize> = Vec::new();
    let mut i: usize = 0;
    while i < cs.len()
        invariant
            i <= cs@.len(),
            split_on(cs@.take(i as int), sep).len() == seps@.len() + 1,
            forall|k: int| 0 <= k < seps@.len() ==> #[trigger] seps@[k] < i,
            forall|k: int|
                0 <= k <= seps@.len() ==> 0 <= #[trigger] piece_start(seps@, k) <= piece_end(
                    seps@,
                    k,
                    i as int,
                ) <= i && split_on(cs@.take(i as int), sep)[k] == cs@.subrange(
                    piece_start(seps@, k),
                    piece_end(seps@, k, i as int),
                ),
        decreases cs@.len() - i,
    {
        let ghost old_seps = seps@;
        let ghost t = cs@.take(i + 1);
        assert(t.drop_last() =~= cs@.take(i as int));
        assert(t.last() == cs@[i as int]);
        if cs[i] == sep {
            seps.push(i);
        }
        i = i + 1;
        assert forall|k: int| 0 <= k <= seps@.len() implies 0 <= #[trigger] piece_start(seps@, k)
            <= piece_end(seps@, k, i as int) <= i && split_on(cs@.take(i as int), sep)[k]
            == cs@.subrange(piece_start(seps@, k), piece_end(seps@, k, i as int)) by {
            if k < old_seps.len() {
                assert(piece_start(seps@, k) == piece_start(old_seps, k));
                assert(piece_end(seps@, k, i as int) == piece_end(old_seps, k, i - 1));
            } else if seps@.len() > old_seps.len() && k == old_seps.len() {
                assert(piece_start(seps@, k) == piece_start(old_seps, k));
                assert(piece_end(seps@, k, i as int) == i - 1);
            } else if seps@.len() > old_seps.len() {
                assert(split_on(cs@.take(i as int), sep)[k] =~= Seq::<char>::empty());
                assert(cs@.subrange(piece_start(seps@, k), piece_end(seps@, k, i as int))
                    =~= Seq::<char>::empty());
            } else {
                assert(piece_start(seps@, k) == piece_start(old_seps, k));
                assert(split_on(cs@.take(i as int), sep)[k] =~= cs@.subrange(
                    piece_start(seps@, k),
                    i as int,
                ));
            }
        }
    }
    assert(cs@.take(cs@.len() as int) =~= cs@);
    seps
}

/// The characters of `s`, in order.
pub fn chars_of(s: &str) -> (r: Vec<char>)
    ensures
        r@ == s@,
{
    let n = s.unicode_len();
    let mut r: Vec<char> = Vec::new();
    let mut i: usize = 0;
    while i < n
        invariant
            n == s@.len(),
            i <= n,
            r@ == s@.take(i as int),
        decreases n - i,
    {
        r.push(s.get_char(i));
        i = i + 1;
        assert(r@ =~= s@.take(i as int));
    }
    assert(s@.take(n as int) =~= s@);
    r
}

fn hex_digit(c: char) -> (r: Option<u64>)
    ensures
        r matches Some(v) ==> hex_digit_value(c) == Some(v as nat) && v < 16,
        r is None ==> hex_digit_value(c) is None,
{
    if '0' <= c && c <= '9' {
        Some((c as u64) - ('0' as u64))
    } else if 'a' <= c && c <= 'f' {
        Some((c as u64) - ('a' as u64) + 10)
    } else if 'A' <= c && c <= 'F' {
        Some((c as u64) - ('A' as u64) + 10)
    } else {
        None
    }
}

/// Parses `cs[lo..hi]` as a base-16 number no larger than `max`.
pub fn parse_hex_range(cs: &Vec<char>, lo: usize, hi: usize, max: u64) -> (r: Option<u64>)
    requires
        lo <= hi <= cs@.len(),
    ensures
        r matches Some(v) ==> parse_hex(cs@.subrange(lo as int, hi as int), max as nat) == Some(
            v as nat,
        ),
        r is None ==> parse_hex(cs@.subrange(lo as int, hi as int), max as nat) is None,
{
    let ghost p = cs@.subrange(lo as int, hi as int);
    if lo == hi {
        return None;
    }
    let start = if cs[lo] == '+' { lo + 1 } else { lo };
    let ghost d = cs@.subrange(start as int, hi as int);
    assert(d =~= (if p[0] == '+' { p.drop_first() } else { p }));
    if start == hi {
        return None;
    }
    let mut acc: u64 = 0;
    let mut j: usize = start;
    while j < hi
        invariant
            lo <= start <= j <= hi <= cs@.len(),
            d == cs@.subrange(start as int, hi as int),
            p == cs@.subrange(lo as int, hi as int),
            p.len() > 0,
            d == (if p[0] == '+' { p.drop_first() } else { p }),
            d.len() > 0,
            acc as nat == hex_value(d.take(j - start)),
            acc <= max,
            all_hex(d.take(j - start)),
        decreases hi - j,
    {
        let dv = match hex_digit(cs[j]) {
            Some(v) => v,
            None => {
                assert(hex_digit_value(d[j - start]) is None);
                assert(!all_hex(d));
                return None;
            },
        };
        let ghost t = d.take(j - start + 1);
        assert(t.drop_last() =~= d.take(j - start));
        assert(t.last() == cs@[j as int]);
        if dv > max || acc > (max - dv) / 16 {
            proof {
                assert(acc * 16 + dv > max) by (nonlinear_arith)
                    requires
                        dv > max || acc > (max - dv) / 16,
                        dv < 16,
                ;
                if all_hex(d) {
                    lemma_hex_value_prefix(d, j - start + 1);
                }
            }
            return None;
        }
        proof {
            assert(acc * 16 + dv <= max) by (nonlinear_arith)
                requires
                    acc <= (max - dv) / 16,
                    dv <= max,
            ;
        }
        acc = acc * 16 + dv;
        j = j + 1;
        assert(all_hex(t)) by {
            assert forall|i: int| 0 <= i < t.len() implies (#[trigger] hex_digit_value(t[i])).is_some() by {
                if i < t.len() - 1 {
                    assert(t[i] == d.take(j - start - 1)[i]);
                }
            }
        }
    }
    assert(d.take(j - start) =~= d);
    Some(acc)
}

/// The value of a decimal digit, if `c` is one.
pub open spec fn decimal_digit_value(c: char) -> Option<nat> {
    if '0' <= c && c <= '9' {
        Some((c as nat - '0' as nat) as nat)
    } else {
        None
    }
}

/// Every character of `p` is a decimal digit.
pub open spec fn all_decimal(p: Seq<char>) -> bool {
    forall|i: int| 0 <= i < p.len() ==> (#[trigger] decimal_digit_value(p[i])).is_some()
}

/// The number written by the decimal digits `p`, most significant first.
pub open spec fn decimal_value(p: Seq<char>) -> nat
    decreases p.len(),
{
    if p.len() == 0 {
        0
    } else {
        decimal_value(p.drop_last()) * 10 + decimal_digit_value(p.last()).unwrap_or(0)
    }
}

/// Parsing of an unsigned number in base 10 with largest value `max` (as
/// `str::parse` does for the unsigned integers): an optional leading `+`,
/// then at least one digit; `None` when the text is empty, holds another
/// character, or the value exceeds `max`.
pub open spec fn parse_decimal(p: Seq<char>, max: nat) -> Option<nat> {
    if p.len() == 0 {
        None
    } else {
        let d = if p[0] == '+' { p.drop_first() } else { p };
        if d.len() == 0 || !all_decimal(d) || decimal_value(d) > max {
            None
        } else {
            Some(decimal_value(d))
        }
    }
}

proof fn lemma_decimal_value_prefix(p: Seq<char>, k: int)
    requires
        0 <= k <= p.len(),
    ensures
        decimal_value(p.take(k)) <= decimal_value(p),
    decreases p.len(),
{
    if k < p.len() {
        lemma_decimal_value_prefix(p.drop_last(), k);
        assert(p.drop_last().take(k) =~= p.take(k));
    } else {
        assert(p.take(k) =~= p);
    }
}

/// Parses `s` as a base-10 number no larger than `max`.
pub fn parse_decimal_str(s: &str, max: u64) -> (r: Option<u64>)
    ensures
        r matches Some(v) ==> parse_decimal(s@, max as nat) == Some(v as nat),
        r is None ==> parse_decimal(s@, max as nat) is None,
{
    let cs = chars_of(s);
    let hi = cs.len();
    let ghost p = cs@;
    if hi == 0 {
        return None;
    }
    let start: usize = if cs[0] == '+' { 1 } else { 0 };
    let ghost d = cs@.subrange(start as int, hi as int);
    assert(d =~= (if p[0] == '+' { p.drop_first() } else { p }));
    if start == hi {
        return None;
    }
    let mut acc: u64 = 0;
    let mut j: usize = start;
    while j < hi
        invariant
            start <= j <= hi == cs@.len(),
            d == cs@.subrange(start as int, hi as int),
            p == cs@,
            p == s@,
            p.len() > 0,
            d == (if p[0] == '+' { p.drop_first() } else { p }),
            d.len() > 0,
            acc as nat == decimal_value(d.take(j - start)),
            acc <= max,
            all_decimal(d.take(j - start)),
        decreases hi - j,
    {
        let c = cs[j];
        if !('0' <= c && c <= '9') {
            assert(decimal_digit_value(d[j - start]) is None);
            assert(!all_decimal(d));
            return None;
        }
        let dv: u64 = (c as u64) - ('0' as u64);
        let ghost t = d.take(j - start + 1);
        assert(t.drop_last() =~= d.take(j - start));
        assert(t.last() == cs@[j as int]);
        if dv > max || acc > (max - dv) / 10 {
            proof {
                assert(acc * 10 + dv > max) by (nonlinear_arith)
                    requires
                        dv > max || acc > (max - dv) / 10,
                        dv < 10,
                ;
                if all_decimal(d) {
                    lemma_decimal_value_prefix(d, j - start + 1);
                }
            }
            return None;
        }
        proof {
            assert(acc * 10 + dv <= max) by (nonlinear_arith)
                requires
                    acc <= (max - dv) / 10,
                    dv <= max,
            ;
        }
        acc = acc * 10 + dv;
        j = j + 1;
        assert(all_decimal(t)) by {
            assert forall|i: int| 0 <= i < t.len() implies (#[trigger] decimal_digit_value(t[i])).is_some() by {
                if i < t.len() - 1 {
                    assert(t[i] == d.take(j - start - 1)[i]);
                }
            }
        }
    }
    assert(d.take(j - start) =~= d);
    Some(acc)
}

/// The lowercase hexadecimal digit for `n < 16`.
pub open spec fn hex_char(n: u8) -> char {
    if n < 10 {
        ('0' as u8 + n) as char
    } else {
        ('a' as u8 + n - 10) as char
    }
}

/// Two lowercase hexadecimal digits for a byte.
pub open spec fn hex_byte(b: u8) -> Seq<char> {
    seq![hex_char(b / 16), hex_char(b % 16)]
}

/// The two digits of a byte parse back to the byte.
pub proof fn lemma_hex_byte_parse(b: u8)
    ensures
        parse_hex(hex_byte(b), 255) == Some(b as nat),
        forall|i: int| 0 <= i < 2 ==> #[trigger] hex_byte(b)[i] != ':',
{
    let h = hex_byte(b);
    let hi = b / 16;
    let lo = b % 16;
    assert(hex_digit_value(hex_char(hi)) == Some(hi as nat));
    assert(hex_digit_value(hex_char(lo)) == Some(lo as nat));
    assert(h.drop_last() =~= seq![hex_char(hi)]);
    assert(seq![hex_char(hi)].drop_last() =~= Seq::<char>::empty());
    assert(hex_value(Seq::<char>::empty()) == 0);
    assert(hex_value(seq![hex_char(hi)]) == hi);
    assert(hex_value(h) == hi * 16 + lo);
    assert(all_hex(h));
}

fn hex_char_exec(n: u8) -> (c: char)
    requires
        n < 16,
    ensures
        c == hex_char(n),
{
    if n < 10 {
        ('0' as u8 + n) as char
    } else {
        ('a' as u8 + n - 10) as char
    }
}

/// Appends the two lowercase hexadecimal digits of `b`.
pub fn push_hex_byte(s: &mut String, b: u8)
    ensures
        final(s)@ == old(s)@ + hex_byte(b),
{
    s.push(hex_char_exec(b / 16));
    s.push(hex_char_exec(b % 16));
    assert(final(s)@ =~= old(s)@ + hex_byte(b));
}

/// Appends the characters of a literal.
pub fn push_str(s: &mut String, t: &str)
    ensures
        final(s)@ == old(s)@ + t@,
{
    let n = t.unicode_len();
    let mut i: usize = 0;
    let ghost start = s@;
    while i < n
        invariant
            n == t@.len(),
            i <= n,
            s@ == start + t@.take(i as int),
        decreases n - i,
    {
        s.push(t.get_char(i));
        i = i + 1;
        assert(s@ =~= start + t@.take(i as int));
    }
    assert(t@.take(n as int) =~= t@);
}

/// The decimal digits of `n`, most significant first, without leading zeros.
pub open spec fn decimal(n: nat) -> Seq<char>
    decreases n,
{
    if n < 10 {
        seq![('0' as u8 + n as u8) as char]
    } else {
        decimal(n / 10).push(('0' as u8 + (n % 10) as u8) as char)
    }
}

/// The decimal digits of `n`, padded with leading zeros to at least `width`.
pub open spec fn decimal_padded(n: nat, width: nat) -> Seq<char> {
    let d = decimal(n);
    if d.len() >= width {
        d
    } else {
        Seq::new((width - d.len()) as nat, |i: int| '0') + d
    }
}

pub proof fn lemma_decimal_nonempty(n: nat)
    ensures
        decimal(n).len() >= 1,
    decreases n,
{
    if n >= 10 {
        lemma_decimal_nonempty(n / 10);
    }
}

/// The decimal digits of `n`.
pub fn decimal_chars(n: u64) -> (r: Vec<char>)
    ensures
        r@ == decimal(n as nat),
    decreases n,
{
    if n < 10 {
        let mut r: Vec<char> = Vec::new();
        r.push(('0' as u8 + n as u8) as char);
        assert(r@ =~= decimal(n as nat));
        r
    } else {
        let mut r = decimal_chars(n / 10);
        r.push(('0' as u8 + (n % 10) as u8) as char);
        r
    }
}

/// The decimal text of a signed number.
pub open spec fn signed_decimal(v: int) -> Seq<char> {
    if v < 0 {
        seq!['-'] + decimal((-v) as nat)
    } else {
        decimal(v as nat)
    }
}

/// Appends the decimal text of a signed number.
pub fn push_signed(s: &mut String, v: i32)
    ensures
        final(s)@ == old(s)@ + signed_decimal(v as int),
{
    if v < 0 {
        s.push('-');
        let m = (-(v as i64)) as u64;
        push_decimal(s, m, 0);
        assert(final(s)@ =~= old(s)@ + signed_decimal(v as int));
    } else {
        push_decimal(s, v as u64, 0);
    }
}

/// Appends the decimal digits of `n`, padded with zeros to `width`.
pub fn push_decimal(s: &mut String, n: u64, width: usize)
    ensures
        final(s)@ == old(s)@ + decimal_padded(n as nat, width as nat),
{
    let d = decimal_chars(n);
    let ghost start = s@;
    if d.len() < width {
        let pad = width - d.len();
        let mut i: usize = 0;
        while i < pad
            invariant
                i <= pad,
                s@ == start + Seq::new(i as nat, |k: int| '0'),
            decreases pad - i,
        {
            s.push('0');
            i = i + 1;
            assert(s@ =~= start + Seq::new(i as nat, |k: int| '0'));
        }
    }
    let ghost mid = s@;
    let mut j: usize = 0;
    while j < d.len()
        invariant
            j <= d@.len(),
            s@ == mid + d@.take(j as int),
        decreases d@.len() - j,
    {
        s.push(d[j]);
        j = j + 1;
        assert(s@ =~= mid + d@.take(j as int));
    }
    assert(d@.take(d@.len() as int) =~= d@);
    assert(final(s)@ =~= old(s)@ + decimal_padded(n as nat, width as nat));
}

} // verus!
