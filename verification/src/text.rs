//! Text primitives over character sequences: substring search with the
//! leftmost, non-overlapping match rule that `str::matches`,
//! `str::match_indices` and `str::replace` follow, Unicode whitespace, and
//! construction of `String`s from characters.
use vstd::prelude::*;

verus! {

/// `String::push` appends one character to the end of the string.
pub assume_specification[ String::push ](s: &mut String, ch: char)
    ensures
        final(s)@ == old(s)@.push(ch),
;

/// `pat` occurs in `s` starting at character index `i`.
pub open spec fn matches_at(s: Seq<char>, pat: Seq<char>, i: int) -> bool {
    &&& 0 <= i
    &&& i + pat.len() <= s.len()
    &&& s.subrange(i, i + pat.len()) == pat
}

/// `pat` occurs somewhere in `s` (the empty pattern occurs everywhere).
pub open spec fn contains(s: Seq<char>, pat: Seq<char>) -> bool {
    exists|i: int| matches_at(s, pat, i)
}

/// How far a search moves past a match: the match's length, or one
/// character for the empty pattern, which matches at every boundary.
pub open spec fn advance(pat: Seq<char>) -> int {
    if pat.len() == 0 {
        1
    } else {
        pat.len() as int
    }
}

/// Start positions of the leftmost, non-overlapping occurrences of `pat`
/// in `s` at or after `pos`.
pub open spec fn occurrences_from(s: Seq<char>, pat: Seq<char>, pos: int) -> Seq<int>
    decreases s.len() + 1 - pos,
{
    if pos < 0 || pos > s.len() {
        Seq::empty()
    } else if matches_at(s, pat, pos) {
        seq![pos] + occurrences_from(s, pat, pos + advance(pat))
    } else {
        occurrences_from(s, pat, pos + 1)
    }
}

/// Start positions of all leftmost, non-overlapping occurrences of `pat`.
pub open spec fn occurrences(s: Seq<char>, pat: Seq<char>) -> Seq<int> {
    occurrences_from(s, pat, 0)
}

/// `s` from `pos` on, with every leftmost, non-overlapping occurrence of
/// `pat` replaced by `rep`.
pub open spec fn replace_from(s: Seq<char>, pat: Seq<char>, rep: Seq<char>, pos: int) -> Seq<char>
    decreases s.len() + 1 - pos,
{
    if pos < 0 || pos > s.len() {
        Seq::empty()
    } else if matches_at(s, pat, pos) {
        if pat.len() == 0 {
            if pos < s.len() {
                rep.push(s[pos]) + replace_from(s, pat, rep, pos + 1)
            } else {
                rep
            }
        } else {
            rep + replace_from(s, pat, rep, pos + pat.len())
        }
    } else if pos < s.len() {
        seq![s[pos]] + replace_from(s, pat, rep, pos + 1)
    } else {
        Seq::empty()
    }
}

/// `s` with every leftmost, non-overlapping occurrence of `pat` replaced
/// by `rep`.
pub open spec fn replace_all(s: Seq<char>, pat: Seq<char>, rep: Seq<char>) -> Seq<char> {
    replace_from(s, pat, rep, 0)
}

/// `s` with the characters `[start, end)` replaced by `rep`.
pub open spec fn splice_one(s: Seq<char>, start: int, end: int, rep: Seq<char>) -> Seq<char> {
    s.subrange(0, start) + rep + s.subrange(end, s.len() as int)
}

/// Unicode `White_Space`, the set `char::is_whitespace` tests for.
pub open spec fn is_space(c: char) -> bool {
    let u = c as u32;
    ||| 0x09 <= u <= 0x0D
    ||| u == 0x20
    ||| u == 0x85
    ||| u == 0xA0
    ||| u == 0x1680
    ||| 0x2000 <= u <= 0x200A
    ||| u == 0x2028
    ||| u == 0x2029
    ||| u == 0x202F
    ||| u == 0x205F
    ||| u == 0x3000
}

/// `pat` occurs in `s` at `i` as a whole whitespace-delimited token.
pub open spec fn token_at(s: Seq<char>, pat: Seq<char>, i: int) -> bool {
    &&& matches_at(s, pat, i)
    &&& (i == 0 || is_space(s[i - 1]))
    &&& (i + pat.len() == s.len() || is_space(s[i + pat.len()]))
}

/// Some whitespace-delimited token of `s` equals the non-blank `pat`.
pub open spec fn has_token(s: Seq<char>, pat: Seq<char>) -> bool {
    exists|i: int| token_at(s, pat, i)
}

/// Whether `c` is Unicode whitespace.
pub fn is_space_char(c: char) -> (r: bool)
    ensures
        r == is_space(c),
{
    let u = c as u32;
    (0x09 <= u && u <= 0x0D) || u == 0x20 || u == 0x85 || u == 0xA0 || u == 0x1680 || (0x2000 <= u
        && u <= 0x200A) || u == 0x2028 || u == 0x2029 || u == 0x202F || u == 0x205F || u == 0x3000
}

/// The characters of `s`, in order.
pub fn chars_of(s: &str) -> (out: Vec<char>)
    ensures
        out@ == s@,
{
    let mut out: Vec<char> = Vec::new();
    for c in it: s.chars()
        invariant
            out@ == it.seq().take(it.index()),
            it.seq() == s@,
    {
        out.push(c);
    }
    out
}

/// A `String` holding exactly the characters `cs`.
pub fn string_of(cs: &Vec<char>) -> (out: String)
    ensures
        out@ == cs@,
{
    let mut out = String::new();
    let mut i: usize = 0;
    while i < cs.len()
        invariant
            i <= cs.len(),
            out@ == cs@.take(i as int),
        decreases cs.len() - i,
    {
        out.push(cs[i]);
        assert(cs@.take(i + 1) =~= cs@.take(i as int).push(cs@[i as int]));
        i += 1;
    }
    assert(cs@.take(cs.len() as int) =~= cs@);
    out
}

/// Appends `cs[from..to]` to `out`.
pub fn push_range(out: &mut Vec<char>, cs: &Vec<char>, from: usize, to: usize)
    requires
        from <= to <= cs.len(),
    ensures
        final(out)@ == old(out)@ + cs@.subrange(from as int, to as int),
{
    let mut i = from;
    while i < to
        invariant
            from <= i <= to <= cs.len(),
            out@ == old(out)@ + cs@.subrange(from as int, i as int),
        decreases to - i,
    {
        out.push(cs[i]);
        assert(cs@.subrange(from as int, i + 1) =~= cs@.subrange(from as int, i as int).push(
            cs@[i as int],
        ));
        i += 1;
    }
}

/// Appends all of `cs` to `out`.
pub fn push_all(out: &mut Vec<char>, cs: &Vec<char>)
    ensures
        final(out)@ == old(out)@ + cs@,
{
    push_range(out, cs, 0, cs.len());
    assert(cs@.subrange(0, cs.len() as int) =~= cs@);
}

/// Whether two texts are equal.
pub fn same_text(a: &str, b: &str) -> (r: bool)
    ensures
        r == (a@ == b@),
{
    let x = chars_of(a);
    let y = chars_of(b);
    if x.len() != y.len() {
        return false;
    }
    let mut i: usize = 0;
    while i < x.len()
        invariant
            x@ == a@,
            y@ == b@,
            x.len() == y.len(),
            i <= x.len(),
            forall|j: int| 0 <= j < i ==> x@[j] == y@[j],
        decreases x.len() - i,
    {
        if x[i] != y[i] {
            assert(a@ != b@) by {
                if a@ == b@ {
                    assert(x@[i as int] == y@[i as int]);
                }
            }
            return false;
        }
        i += 1;
    }
    assert(x@ =~= y@);
    true
}

/// Whether `pat` occurs in `s` at character index `i`.
pub fn matches_at_exec(s: &Vec<char>, pat: &Vec<char>, i: usize) -> (r: bool)
    ensures
        r == matches_at(s@, pat@, i as int),
{
    if i > s.len() || pat.len() > s.len() - i {
        return false;
    }
    let mut k: usize = 0;
    while k < pat.len()
        invariant
            k <= pat.len(),
            i + pat.len() <= s.len(),
            forall|j: int| 0 <= j < k ==> s@[i + j] == pat@[j],
        decreases pat.len() - k,
    {
        if s[i + k] != pat[k] {
            assert(s@.subrange(i as int, i + pat.len())[k as int] != pat@[k as int]);
            return false;
        }
        k += 1;
    }
    assert(s@.subrange(i as int, i + pat.len()) =~= pat@);
    true
}

/// Whether `pat` occurs anywhere in `s`.
pub fn contains_chars(s: &Vec<char>, pat: &Vec<char>) -> (r: bool)
    ensures
        r == contains(s@, pat@),
{
    if pat.len() > s.len() {
        return false;
    }
    let last = s.len() - pat.len();
    let mut i: usize = 0;
    loop
        invariant
            last == s.len() - pat.len(),
            i <= last,
            forall|j: int| 0 <= j < i ==> !matches_at(s@, pat@, j),
        decreases last - i,
    {
        if matches_at_exec(s, pat, i) {
            return true;
        }
        if i == last {
            assert forall|j: int| !matches_at(s@, pat@, j) by {
                if 0 <= j <= i {
                } else if matches_at(s@, pat@, j) {
                    assert(j + pat@.len() <= s@.len());
                }
            }
            return false;
        }
        i += 1;
    }
}

/// Whether `pat` occurs anywhere in `s`.
pub fn contains_text(s: &str, pat: &str) -> (r: bool)
    ensures
        r == contains(s@, pat@),
{
    let sc = chars_of(s);
    let pc = chars_of(pat);
    contains_chars(&sc, &pc)
}

/// Whether the non-blank `pat` occurs in `s` as a whole
/// whitespace-delimited token.
pub fn has_token_exec(s: &Vec<char>, pat: &Vec<char>) -> (r: bool)
    ensures
        r == has_token(s@, pat@),
{
    if pat.len() > s.len() {
        return false;
    }
    let last = s.len() - pat.len();
    let mut i: usize = 0;
    loop
        invariant
            last == s.len() - pat.len(),
            i <= last,
            forall|j: int| 0 <= j < i ==> !token_at(s@, pat@, j),
        decreases last - i,
    {
        if matches_at_exec(s, pat, i) {
            let left_ok = i == 0 || is_space_char(s[i - 1]);
            let right_ok = i + pat.len() == s.len() || is_space_char(s[i + pat.len()]);
            if left_ok && right_ok {
                assert(token_at(s@, pat@, i as int));
                return true;
            }
        }
        if i == last {
            assert forall|j: int| !token_at(s@, pat@, j) by {
                if 0 <= j <= i {
                } else if token_at(s@, pat@, j) {
                    assert(j + pat@.len() <= s@.len());
                }
            }
            return false;
        }
        i += 1;
    }
}


/// A sequence of indices read as integers.
pub open spec fn as_ints(v: Seq<usize>) -> Seq<int> {
    v.map_values(|p: usize| p as int)
}

/// Start positions of all leftmost, non-overlapping occurrences of `pat`
/// in `s`.
pub fn occurrences_exec(s: &Vec<char>, pat: &Vec<char>) -> (out: Vec<usize>)
    ensures
        as_ints(out@) == occurrences(s@, pat@),
{
    let mut out: Vec<usize> = Vec::new();
    let mut pos: usize = 0;
    assert(as_ints(out@) =~= Seq::<int>::empty());
    loop
        invariant
            pos <= s.len(),
            as_ints(out@) + occurrences_from(s@, pat@, pos as int) == occurrences(s@, pat@),
        decreases s.len() - pos,
    {
        let ghost before = as_ints(out@);
        if matches_at_exec(s, pat, pos) {
            out.push(pos);
            assert(as_ints(out@) =~= before.push(pos as int));
            let adv: usize = if pat.len() == 0 {
                1
            } else {
                pat.len()
            };
            assert(occurrences_from(s@, pat@, pos as int) == seq![pos as int] + occurrences_from(
                s@,
                pat@,
                pos + adv,
            ));
            assert(before + (seq![pos as int] + occurrences_from(s@, pat@, pos + adv)) =~= before.push(
                pos as int,
            ) + occurrences_from(s@, pat@, pos + adv));
            if adv > s.len() - pos {
                assert(occurrences_from(s@, pat@, pos + adv) =~= Seq::<int>::empty());
                assert(as_ints(out@) =~= as_ints(out@) + Seq::<int>::empty());
                return out;
            }
            pos = pos + adv;
        } else {
            if pos == s.len() {
                assert(occurrences_from(s@, pat@, pos + 1) =~= Seq::<int>::empty());
                assert(as_ints(out@) =~= as_ints(out@) + Seq::<int>::empty());
                return out;
            }
            pos = pos + 1;
        }
    }
}

/// `s` with every leftmost, non-overlapping occurrence of `pat` replaced
/// by `rep`.
pub fn replace_chars(s: &Vec<char>, pat: &Vec<char>, rep: &Vec<char>) -> (out: Vec<char>)
    ensures
        out@ == replace_all(s@, pat@, rep@),
{
    let mut out: Vec<char> = Vec::new();
    let mut pos: usize = 0;
    assert(out@ + replace_from(s@, pat@, rep@, 0) =~= replace_all(s@, pat@, rep@));
    loop
        invariant
            pos <= s.len(),
            out@ + replace_from(s@, pat@, rep@, pos as int) == replace_all(s@, pat@, rep@),
        decreases s.len() - pos,
    {
        let ghost before = out@;
        if matches_at_exec(s, pat, pos) {
            push_all(&mut out, rep);
            if pat.len() == 0 {
                if pos < s.len() {
                    out.push(s[pos]);
                    assert(before + (rep@.push(s@[pos as int]) + replace_from(
                        s@,
                        pat@,
                        rep@,
                        pos + 1,
                    )) =~= out@ + replace_from(s@, pat@, rep@, pos + 1));
                    pos = pos + 1;
                } else {
                    assert(before + rep@ =~= out@);
                    return out;
                }
            } else {
                assert(before + (rep@ + replace_from(s@, pat@, rep@, pos + pat@.len())) =~= out@
                    + replace_from(s@, pat@, rep@, pos + pat@.len()));
                pos = pos + pat.len();
            }
        } else if pos < s.len() {
            out.push(s[pos]);
            assert(before + (seq![s@[pos as int]] + replace_from(s@, pat@, rep@, pos + 1))
                =~= out@ + replace_from(s@, pat@, rep@, pos + 1));
            pos = pos + 1;
        } else {
            assert(out@ + Seq::<char>::empty() =~= out@);
            return out;
        }
    }
}


/// The decimal digit for `d` (`0 <= d < 10`).
pub open spec fn digit(d: int) -> char {
    if d == 0 {
        '0'
    } else if d == 1 {
        '1'
    } else if d == 2 {
        '2'
    } else if d == 3 {
        '3'
    } else if d == 4 {
        '4'
    } else if d == 5 {
        '5'
    } else if d == 6 {
        '6'
    } else if d == 7 {
        '7'
    } else if d == 8 {
        '8'
    } else {
        '9'
    }
}

/// The decimal representation of `n`, as `usize`'s `Display` writes it.
pub open spec fn decimal(n: nat) -> Seq<char>
    decreases n,
{
    if n < 10 {
        seq![digit(n as int)]
    } else {
        decimal(n / 10).push(digit((n % 10) as int))
    }
}

fn digit_exec(d: u64) -> (c: char)
    requires
        d < 10,
    ensures
        c == digit(d as int),
{
    if d == 0 {
        '0'
    } else if d == 1 {
        '1'
    } else if d == 2 {
        '2'
    } else if d == 3 {
        '3'
    } else if d == 4 {
        '4'
    } else if d == 5 {
        '5'
    } else if d == 6 {
        '6'
    } else if d == 7 {
        '7'
    } else if d == 8 {
        '8'
    } else {
        '9'
    }
}

/// Appends the decimal representation of `n` to `out`.
pub fn push_decimal(out: &mut Vec<char>, n: u64)
    ensures
        final(out)@ == old(out)@ + decimal(n as nat),
    decreases n,
{
    if n >= 10 {
        push_decimal(out, n / 10);
    }
    let ghost mid = out@;
    out.push(digit_exec(n % 10));
    if n >= 10 {
        assert(out@ =~= old(out)@ + decimal(n as nat));
    } else {
        assert(out@ =~= old(out)@ + decimal(n as nat));
    }
}

/// `k` zero characters (none for `k <= 0`).
pub open spec fn zeros(k: int) -> Seq<char> {
    Seq::new(if k > 0 { k as nat } else { 0 }, |_i: int| '0')
}

/// `n` in decimal, zero-padded after its sign to at least `width`
/// characters, as the `{:0width}` format writes an integer.
pub open spec fn zero_padded(n: int, width: int) -> Seq<char> {
    let sign: Seq<char> = if n < 0 {
        seq!['-']
    } else {
        Seq::empty()
    };
    let digits = decimal(
        if n < 0 {
            (-n) as nat
        } else {
            n as nat
        },
    );
    sign + zeros(width - sign.len() - digits.len()) + digits
}

/// The value of a decimal digit character (`0` for any other).
pub open spec fn digit_value(c: char) -> int {
    if c == '1' {
        1
    } else if c == '2' {
        2
    } else if c == '3' {
        3
    } else if c == '4' {
        4
    } else if c == '5' {
        5
    } else if c == '6' {
        6
    } else if c == '7' {
        7
    } else if c == '8' {
        8
    } else if c == '9' {
        9
    } else {
        0
    }
}

/// The number a run of decimal digits spells, leading zeros included.
pub open spec fn digits_value(s: Seq<char>) -> int
    decreases s.len(),
{
    if s.len() == 0 {
        0
    } else {
        digits_value(s.drop_last()) * 10 + digit_value(s.last())
    }
}

/// The integer a zero-padded decimal text spells, sign included.
pub open spec fn padded_value(s: Seq<char>) -> int {
    if s.len() > 0 && s[0] == '-' {
        -digits_value(s.drop_first())
    } else {
        digits_value(s)
    }
}

/// `10` to the power `k`.
pub open spec fn pow10(k: nat) -> nat
    decreases k,
{
    if k == 0 {
        1
    } else {
        10 * pow10((k - 1) as nat)
    }
}

proof fn lemma_digit_value(d: int)
    requires
        0 <= d < 10,
    ensures
        digit_value(digit(d)) == d,
        digit(d) != '-',
{
}

/// The decimal text of `n` is a non-empty run of digits spelling `n`.
pub proof fn lemma_decimal_value(n: nat)
    ensures
        digits_value(decimal(n)) == n,
        decimal(n).len() > 0,
        forall|k: int| 0 <= k < decimal(n).len() ==> #[trigger] decimal(n)[k] != '-',
    decreases n,
{
    lemma_digit_value((n % 10) as int);
    if n < 10 {
        let d = decimal(n);
        assert(d.drop_last() =~= Seq::<char>::empty());
        assert(digits_value(Seq::<char>::empty()) == 0);
        assert(d.last() == digit(n as int));
        assert(digits_value(d) == digits_value(d.drop_last()) * 10 + digit_value(d.last()));
    } else {
        lemma_decimal_value(n / 10);
        let d = decimal(n);
        assert(d.drop_last() =~= decimal(n / 10));
        assert(d.last() == digit((n % 10) as int));
        assert(digits_value(d) == digits_value(d.drop_last()) * 10 + digit_value(d.last()));
        assert((n / 10) as int * 10 + (n % 10) as int == n);
        assert forall|k: int| 0 <= k < d.len() implies #[trigger] d[k] != '-' by {
            if k < d.len() - 1 {
                assert(d[k] == decimal(n / 10)[k]);
            }
        }
    }
}

/// Fewer than `k` digits' worth of value takes at most `k` digits.
pub proof fn lemma_decimal_len(n: nat, k: nat)
    requires
        k >= 1,
        n < pow10(k),
    ensures
        decimal(n).len() <= k,
    decreases n,
{
    if n >= 10 {
        let k1 = (k - 1) as nat;
        if k == 1 {
            assert(pow10(1) == 10) by {
                reveal_with_fuel(pow10, 2);
            }
        }
        assert(n / 10 < pow10(k1)) by (nonlinear_arith)
            requires
                n < 10 * pow10(k1),
        ;
        lemma_decimal_len(n / 10, k1);
    }
}

proof fn lemma_zeros_value(k: int)
    ensures
        digits_value(zeros(k)) == 0,
    decreases k,
{
    if k > 0 {
        lemma_zeros_value(k - 1);
        assert(zeros(k).drop_last() =~= zeros(k - 1));
    }
}

proof fn lemma_leading_zeros_value(k: int, d: Seq<char>)
    ensures
        digits_value(zeros(k) + d) == digits_value(d),
    decreases d.len(),
{
    if d.len() == 0 {
        assert(zeros(k) + d =~= zeros(k));
        lemma_zeros_value(k);
    } else {
        lemma_leading_zeros_value(k, d.drop_last());
        assert((zeros(k) + d).drop_last() =~= zeros(k) + d.drop_last());
    }
}

/// A zero-padded decimal text spells the integer it was made from, and
/// for a 64-bit integer padded to twenty characters it is exactly twenty
/// characters long.
pub proof fn lemma_zero_padded(n: int)
    requires
        -pow10(19) < n < pow10(20),
    ensures
        padded_value(zero_padded(n, 20)) == n,
        n < pow10(19) ==> zero_padded(n, 20).len() == 20,
        n >= 0 ==> zero_padded(n, 20).len() == 20,
{
    let m: nat = if n < 0 {
        (-n) as nat
    } else {
        n as nat
    };
    let digits = decimal(m);
    lemma_decimal_value(m);
    lemma_leading_zeros_value(20 - (if n < 0 { 1int } else { 0int }) - digits.len(), digits);
    let s = zero_padded(n, 20);
    if n < 0 {
        assert(m < pow10(19));
        lemma_decimal_len(m, 19);
        assert(s.drop_first() =~= zeros(20 - 1 - digits.len()) + digits);
    } else {
        assert(s =~= zeros(20 - digits.len()) + digits);
        if m < pow10(19) {
            lemma_decimal_len(m, 19);
        } else {
            lemma_decimal_len(m, 20);
        }
        if s.len() > 0 && s[0] == '-' {
            if 20 - digits.len() > 0 {
                assert(s[0] == '0');
            } else {
                assert(s[0] == digits[0]);
            }
        }
    }
}

/// Appends the zeros that pad `digits` (after a sign of `sign_len`
/// characters) to `width`, then `digits`.
fn push_padding_and_digits(out: &mut Vec<char>, digits: &Vec<char>, sign_len: usize, width: usize)
    ensures
        final(out)@ == old(out)@ + zeros(width - sign_len - digits@.len()) + digits@,
{
    let fill: usize = if sign_len < width && digits.len() < width - sign_len {
        width - sign_len - digits.len()
    } else {
        0
    };
    let mut k: usize = 0;
    while k < fill
        invariant
            k <= fill,
            out@ == old(out)@ + zeros(k as int),
        decreases fill - k,
    {
        out.push('0');
        assert(out@ =~= old(out)@ + zeros(k + 1));
        k += 1;
    }
    assert(zeros(fill as int) =~= zeros(width - sign_len - digits@.len()));
    push_all(out, digits);
}

/// Appends `n` in decimal, zero-padded to at least `width` characters.
pub fn push_zero_padded_u64(out: &mut Vec<char>, n: u64, width: usize)
    ensures
        final(out)@ == old(out)@ + zero_padded(n as int, width as int),
{
    let mut digits: Vec<char> = Vec::new();
    push_decimal(&mut digits, n);
    push_padding_and_digits(out, &digits, 0, width);
    assert(out@ =~= old(out)@ + zero_padded(n as int, width as int));
}

/// Appends `n` in decimal, zero-padded after its sign to at least `width`
/// characters.
pub fn push_zero_padded(out: &mut Vec<char>, n: i64, width: usize)
    ensures
        final(out)@ == old(out)@ + zero_padded(n as int, width as int),
{
    let negative = n < 0;
    let magnitude: u64 = if negative {
        ((-(n + 1)) as u64) + 1
    } else {
        n as u64
    };
    let mut digits: Vec<char> = Vec::new();
    push_decimal(&mut digits, magnitude);
    let ghost sign: Seq<char> = if n < 0 {
        seq!['-']
    } else {
        Seq::empty()
    };
    assert(digits@ =~= decimal(
        if n < 0 {
            (-n) as nat
        } else {
            n as nat
        },
    ));
    let sign_len: usize = if negative {
        out.push('-');
        1
    } else {
        0
    };
    let ghost head = out@;
    assert(head =~= old(out)@ + sign);
    push_padding_and_digits(out, &digits, sign_len, width);
    assert(zeros(width - sign_len - digits@.len()) =~= zeros(width - sign.len() - digits@.len()));
    assert(out@ =~= old(out)@ + zero_padded(n as int, width as int));
}

/// Appends the characters of `s` to `out`.
pub fn push_str(out: &mut Vec<char>, s: &str)
    ensures
        final(out)@ == old(out)@ + s@,
{
    let cs = chars_of(s);
    push_all(out, &cs);
}

/// The text of `s` as Rust's `Debug` formatting writes a string: quoted,
/// with special characters escaped.
pub uninterp spec fn debug_quoted(s: Seq<char>) -> Seq<char>;

/// Formats `s` as a quoted, escaped string literal (`{:?}`).
#[verifier::external_body]
pub fn debug_quote(s: &str) -> (r: String)
    ensures
        r@ == debug_quoted(s@),
{
    format!("{s:?}")
}


/// The decimal representation of a signed integer, as `Display` writes it.
pub open spec fn signed_decimal(n: int) -> Seq<char> {
    if n < 0 {
        seq!['-'] + decimal((-n) as nat)
    } else {
        decimal(n as nat)
    }
}

/// Appends the decimal representation of `n` to `out`.
pub fn push_signed_decimal(out: &mut Vec<char>, n: i64)
    ensures
        final(out)@ == old(out)@ + signed_decimal(n as int),
{
    if n < 0 {
        out.push('-');
        let m: u64 = ((-(n + 1)) as u64) + 1;
        assert(m as int == -(n as int));
        let ghost mid = out@;
        push_decimal(out, m);
        assert(out@ =~= old(out)@ + signed_decimal(n as int));
    } else {
        push_decimal(out, n as u64);
    }
}

} // verus!
