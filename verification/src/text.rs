//! Character-level helpers shared by the formatting code: decimal
//! rendering of integers, zero padding, and building `String`s from chars.
use vstd::prelude::*;
use vstd::std_specs::iter::IteratorSpec;

verus! {

/// The ASCII digit for `d` (0..=9).
pub open spec fn digit_char(d: nat) -> char {
    (('0' as u32) + d) as char
}

/// Decimal rendering of a natural number, without leading zeros.
pub open spec fn decimal(n: nat) -> Seq<char>
    decreases n,
{
    if n < 10 {
        seq![digit_char(n)]
    } else {
        decimal(n / 10).push(digit_char(n % 10))
    }
}

/// `s` left-padded with `'0'` up to `width` characters.
pub open spec fn zero_pad(s: Seq<char>, width: nat) -> Seq<char> {
    if s.len() < width {
        Seq::new((width - s.len()) as nat, |i: int| '0') + s
    } else {
        s
    }
}

/// Every character of `s` is an ASCII digit.
pub open spec fn all_digits(s: Seq<char>) -> bool {
    forall|i: int| 0 <= i < s.len() ==> '0' <= #[trigger] s[i] <= '9'
}

/// The number a string of ASCII digits reads as (the empty string reads
/// as zero).
pub open spec fn digits_value(s: Seq<char>) -> nat
    decreases s.len(),
{
    if s.len() == 0 {
        0
    } else {
        digits_value(s.drop_last()) * 10 + ((s.last() as u32) - ('0' as u32)) as nat
    }
}

proof fn digit_char_value(d: nat)
    requires
        d < 10,
    ensures
        ((digit_char(d) as u32) - ('0' as u32)) as nat == d,
{
    assert(('0' as u32) == 48u32);
    assert((digit_char(d) as u32) == 48 + d);
}

/// The decimal rendering of `n` is made of digits, has at most two of
/// them below 100, and reads back as `n`.
pub proof fn decimal_reads_back(n: nat)
    ensures
        all_digits(decimal(n)),
        decimal(n).len() >= 1,
        n < 10 ==> decimal(n).len() == 1,
        n < 100 ==> decimal(n).len() <= 2,
        digits_value(decimal(n)) == n,
    decreases n,
{
    if n < 10 {
        digit_char_value(n);
        assert(decimal(n) == seq![digit_char(n)]);
        assert(decimal(n).drop_last() =~= Seq::<char>::empty());
        assert(digits_value(decimal(n).drop_last()) == 0);
    } else {
        digit_char_value(n % 10);
        decimal_reads_back(n / 10);
        let d = decimal(n);
        assert(d.drop_last() == decimal(n / 10));
        assert(d.last() == digit_char(n % 10));
        assert((n / 10) * 10 + n % 10 == n) by (nonlinear_arith);
        assert forall|i: int| 0 <= i < d.len() implies '0' <= #[trigger] d[i] <= '9' by {
            if i < d.len() - 1 {
                assert(d[i] == decimal(n / 10)[i]);
            }
        }
    }
}

/// Distinct numbers have distinct decimal renderings.
pub proof fn decimal_injective(a: nat, b: nat)
    ensures
        decimal(a) == decimal(b) ==> a == b,
{
    decimal_reads_back(a);
    decimal_reads_back(b);
}

proof fn zeros_then_digits_value(k: nat, s: Seq<char>)
    ensures
        digits_value(Seq::new(k, |i: int| '0') + s) == digits_value(s),
    decreases s.len(), k,
{
    let z = Seq::new(k, |i: int| '0');
    if s.len() == 0 {
        assert(z + s =~= z);
        if k > 0 {
            let z1 = Seq::new((k - 1) as nat, |i: int| '0');
            assert(z.drop_last() =~= z1);
            zeros_then_digits_value((k - 1) as nat, s);
            assert(z1 + s =~= z1);
        }
    } else {
        zeros_then_digits_value(k, s.drop_last());
        assert((z + s).drop_last() =~= z + s.drop_last());
        assert((z + s).last() == s.last());
    }
}

/// Zero padding keeps a digit string's value and its digits.
pub proof fn zero_pad_reads_back(s: Seq<char>, width: nat)
    requires
        all_digits(s),
    ensures
        all_digits(zero_pad(s, width)),
        digits_value(zero_pad(s, width)) == digits_value(s),
        zero_pad(s, width).len() == if s.len() < width { width } else { s.len() },
{
    if s.len() < width {
        let k = (width - s.len()) as nat;
        zeros_then_digits_value(k, s);
        let t = Seq::new(k, |i: int| '0') + s;
        assert forall|i: int| 0 <= i < t.len() implies '0' <= #[trigger] t[i] <= '9' by {
            if i >= k {
                assert(t[i] == s[i - k]);
            }
        }
    }
}

/// Appends one character to a `String` (`String::push`).
#[verifier::external_body]
pub(crate) fn push_char(s: &mut String, c: char)
    ensures
        final(s)@ == old(s)@.push(c),
{
    s.push(c);
}

/// The digit character for a value below ten.
pub fn digit_to_char(d: u64) -> (c: char)
    requires
        d < 10,
    ensures
        c == digit_char(d as nat),
{
    let b: u8 = 48u8 + (d as u8);
    b as char
}

/// Appends the decimal rendering of `n` to `s`.
pub fn push_decimal(s: &mut String, n: u64)
    ensures
        final(s)@ == old(s)@ + decimal(n as nat),
    decreases n,
{
    if n >= 10 {
        push_decimal(s, n / 10);
    }
    let c = digit_to_char(n % 10);
    push_char(s, c);
    proof {
        if n >= 10 {
            assert(decimal(n as nat) == decimal((n / 10) as nat).push(digit_char((n % 10) as nat)));
        }
    }
}


/// The characters of `s`, in order.
pub fn chars_of(s: &str) -> (r: Vec<char>)
    ensures
        r@ == s@,
{
    broadcast use vstd::string::group_string_axioms;
    let mut r: Vec<char> = Vec::new();
    let mut it = s.chars();
    loop
        invariant
            r@ + it.remaining() == s@,
            it.decrease() is Some,
        ensures
            r@ == s@,
        decreases it.decrease()->0,
    {
        let ghost before = it.remaining();
        match it.next() {
            Some(c) => {
                r.push(c);
                assert(r@ + it.remaining() == s@) by {
                    assert(before == seq![c] + before.drop_first());
                }
            },
            None => {
                assert(r@ == s@);
                break ;
            },
        }
    }
    r
}

/// A `String` holding exactly the characters of `cs`.
pub fn string_of(cs: &Vec<char>) -> (r: String)
    ensures
        r@ == cs@,
{
    let mut r = String::new();
    for i in 0..cs.len()
        invariant
            r@ == cs@.take(i as int),
    {
        push_char(&mut r, cs[i]);
        assert(cs@.take(i + 1) == cs@.take(i as int).push(cs@[i as int]));
    }
    assert(cs@.take(cs.len() as int) == cs@);
    r
}

/// Appends all of `t` to `s`.
pub fn push_str(s: &mut String, t: &str)
    ensures
        final(s)@ == old(s)@ + t@,
{
    s.append(t);
}


/// Unicode `White_Space`, as `char::is_whitespace` documents it.
pub open spec fn is_ws(c: char) -> bool {
    let u = c as u32;
    ||| 0x09 <= u <= 0x0D
    ||| u == 0x20
    ||| u == 0x85
    ||| u == 0xA0
    ||| u == 0x1680
    ||| 0x2000 <= u <= 0x200A
    ||| u == 0x2028
    ||| u == 0x2029
    ||| u == 0x202F
    ||| u == 0x205F
    ||| u == 0x3000
}

/// Whether `c` is whitespace.
pub fn is_whitespace(c: char) -> (b: bool)
    ensures
        b == is_ws(c),
{
    let u = c as u32;
    (0x09 <= u && u <= 0x0D) || u == 0x20 || u == 0x85 || u == 0xA0 || u == 0x1680 || (0x2000 <= u
        && u <= 0x200A) || u == 0x2028 || u == 0x2029 || u == 0x202F || u == 0x205F || u == 0x3000
}

/// Number of leading whitespace characters of `s`.
pub open spec fn lead_ws(s: Seq<char>) -> nat
    decreases s.len(),
{
    if s.len() > 0 && is_ws(s[0]) { 1 + lead_ws(s.drop_first()) } else { 0 }
}

/// Number of trailing whitespace characters of `s`.
pub open spec fn trail_ws(s: Seq<char>) -> nat
    decreases s.len(),
{
    if s.len() > 0 && is_ws(s.last()) { 1 + trail_ws(s.drop_last()) } else { 0 }
}

/// `s` without leading whitespace.
pub open spec fn trim_start(s: Seq<char>) -> Seq<char> {
    s.skip(lead_ws(s) as int)
}

/// `s` without trailing whitespace.
pub open spec fn trim_end(s: Seq<char>) -> Seq<char> {
    s.take(s.len() - trail_ws(s))
}

/// `s` without leading and trailing whitespace (`str::trim`).
pub open spec fn trim(s: Seq<char>) -> Seq<char> {
    trim_end(trim_start(s))
}

proof fn lead_ws_props(s: Seq<char>)
    ensures
        lead_ws(s) <= s.len(),
        forall|i: int| 0 <= i < lead_ws(s) ==> is_ws(#[trigger] s[i]),
        lead_ws(s) < s.len() ==> !is_ws(s[lead_ws(s) as int]),
    decreases s.len(),
{
    if s.len() > 0 && is_ws(s[0]) {
        lead_ws_props(s.drop_first());
        assert forall|i: int| 0 <= i < lead_ws(s) implies is_ws(#[trigger] s[i]) by {
            if i > 0 {
                assert(s[i] == s.drop_first()[i - 1]);
            }
        }
    }
}

proof fn lead_ws_of_skip(s: Seq<char>, k: int)
    requires
        0 <= k <= s.len(),
        forall|i: int| 0 <= i < k ==> is_ws(#[trigger] s[i]),
    ensures
        lead_ws(s) == k + lead_ws(s.skip(k)),
    decreases k,
{
    if k > 0 {
        assert(s.skip(k) == s.drop_first().skip(k - 1));
        assert forall|i: int| 0 <= i < k - 1 implies is_ws(#[trigger] s.drop_first()[i]) by {
            assert(s.drop_first()[i] == s[i + 1]);
        }
        lead_ws_of_skip(s.drop_first(), k - 1);
    } else {
        assert(s.skip(0) == s);
    }
}

proof fn trail_ws_props(s: Seq<char>)
    ensures
        trail_ws(s) <= s.len(),
        forall|i: int| s.len() - trail_ws(s) <= i < s.len() ==> is_ws(#[trigger] s[i]),
        trail_ws(s) < s.len() ==> !is_ws(s[s.len() - trail_ws(s) - 1]),
    decreases s.len(),
{
    if s.len() > 0 && is_ws(s.last()) {
        trail_ws_props(s.drop_last());
        assert forall|i: int| s.len() - trail_ws(s) <= i < s.len() implies is_ws(#[trigger] s[i]) by {
            if i < s.len() - 1 {
                assert(s[i] == s.drop_last()[i]);
            }
        }
    }
}

proof fn trail_ws_of_take(s: Seq<char>, k: int)
    requires
        0 <= k <= s.len(),
        forall|i: int| k <= i < s.len() ==> is_ws(#[trigger] s[i]),
    ensures
        trail_ws(s) == (s.len() - k) + trail_ws(s.take(k)),
    decreases s.len() - k,
{
    if k < s.len() {
        assert(s.take(k) == s.drop_last().take(k));
        assert forall|i: int| k <= i < s.drop_last().len() implies is_ws(#[trigger] s.drop_last()[i]) by {
            assert(s.drop_last()[i] == s[i]);
        }
        trail_ws_of_take(s.drop_last(), k);
    } else {
        assert(s.take(k) == s);
    }
}

/// A trimmed text neither starts nor ends with whitespace.
pub proof fn trim_has_no_outer_whitespace(s: Seq<char>)
    ensures
        trim(s).len() > 0 ==> !is_ws(trim(s)[0]) && !is_ws(trim(s).last()),
{
    lead_ws_props(s);
    let t0 = trim_start(s);
    trail_ws_props(t0);
    if trim(s).len() > 0 {
        assert(trim(s)[0] == t0[0]);
        assert(t0[0] == s[lead_ws(s) as int]);
        assert(trim(s).last() == t0[t0.len() - trail_ws(t0) - 1]);
    }
}

/// A text that ends in a character other than whitespace does not trim
/// to nothing.
pub proof fn trim_keeps_a_last_non_whitespace(u: Seq<char>)
    requires
        u.len() > 0,
        !is_ws(u.last()),
    ensures
        trim(u).len() > 0,
{
    lead_ws_props(u);
    if lead_ws(u) >= u.len() {
        assert(is_ws(u[u.len() - 1]));
    }
    let t0 = trim_start(u);
    assert(t0.last() == u.last());
    assert(trail_ws(t0) == 0);
}

/// The characters of `s[from..to]`, trimmed of whitespace.
pub fn trimmed_range(s: &Vec<char>, from: usize, to: usize) -> (r: Vec<char>)
    requires
        from <= to <= s@.len(),
    ensures
        r@ == trim(s@.subrange(from as int, to as int)),
{
    let ghost t = s@.subrange(from as int, to as int);
    let mut a = from;
    while a < to && is_whitespace(s[a])
        invariant
            from <= a <= to <= s@.len(),
            t == s@.subrange(from as int, to as int),
            forall|i: int| 0 <= i < a - from ==> is_ws(#[trigger] t[i]),
        decreases to - a,
    {
        a = a + 1;
    }
    proof {
        lead_ws_of_skip(t, a - from);
        let u = t.skip(a - from);
        if a < to {
            assert(u[0] == s@[a as int]);
        }
        assert(lead_ws(u) == 0);
        assert(trim_start(t) == u);
        assert(u == s@.subrange(a as int, to as int));
    }
    let mut b = to;
    while b > a && is_whitespace(s[b - 1])
        invariant
            from <= a <= b <= to <= s@.len(),
            forall|i: int| b <= i < to ==> is_ws(#[trigger] s@[i]),
        decreases b,
    {
        b = b - 1;
    }
    proof {
        let u = s@.subrange(a as int, to as int);
        assert forall|i: int| b - a <= i < u.len() implies is_ws(#[trigger] u[i]) by {
            assert(u[i] == s@[a + i]);
        }
        trail_ws_of_take(u, b - a);
        let w = u.take(b - a);
        if b > a {
            assert(w.last() == s@[b - 1]);
        }
        assert(trail_ws(w) == 0);
        assert(trim_end(u) == w);
        assert(w == s@.subrange(a as int, b as int));
    }
    let mut r: Vec<char> = Vec::new();
    let mut i = a;
    while i < b
        invariant
            a <= i <= b <= s@.len(),
            r@ == s@.subrange(a as int, i as int),
        decreases b - i,
    {
        r.push(s[i]);
        assert(s@.subrange(a as int, i + 1) == s@.subrange(a as int, i as int).push(s@[i as int]));
        i = i + 1;
    }
    r
}


/// Whether two character vectors are equal.
pub fn chars_equal(a: &Vec<char>, b: &Vec<char>) -> (r: bool)
    ensures
        r == (a@ == b@),
{
    if a.len() != b.len() {
        return false;
    }
    for i in 0..a.len()
        invariant
            a@.len() == b@.len(),
            forall|k: int| 0 <= k < i ==> a@[k] == b@[k],
    {
        if a[i] != b[i] {
            return false;
        }
    }
    assert(a@ =~= b@);
    true
}

/// Whether two strings hold the same characters.
pub fn str_equals(a: &str, b: &str) -> (r: bool)
    ensures
        r == (a@ == b@),
{
    let x = chars_of(a);
    let y = chars_of(b);
    chars_equal(&x, &y)
}

/// Appends the characters of `cs` to `s`.
pub fn push_chars(s: &mut String, cs: &Vec<char>)
    ensures
        final(s)@ == old(s)@ + cs@,
{
    for i in 0..cs.len()
        invariant
            s@ == old(s)@ + cs@.take(i as int),
    {
        push_char(s, cs[i]);
        assert(cs@.take(i + 1) == cs@.take(i as int).push(cs@[i as int]));
    }
    assert(cs@.take(cs.len() as int) == cs@);
}


/// The pieces of `s` between occurrences of `sep` (`str::split`): one more
/// piece than there are separators.
pub open spec fn split_on(s: Seq<char>, sep: char) -> Seq<Seq<char>>
    decreases s.len(),
{
    if s.len() == 0 {
        seq![Seq::empty()]
    } else {
        let p = split_on(s.drop_last(), sep);
        if s.last() == sep {
            p.push(Seq::empty())
        } else {
            p.update(p.len() - 1, p.last().push(s.last()))
        }
    }
}

/// `split_on` never yields an empty list of pieces.
pub proof fn split_on_nonempty(s: Seq<char>, sep: char)
    ensures
        split_on(s, sep).len() >= 1,
    decreases s.len(),
{
    if s.len() > 0 {
        split_on_nonempty(s.drop_last(), sep);
    }
}

/// `parts` joined with `sep` between consecutive parts.
pub open spec fn join(parts: Seq<Seq<char>>, sep: Seq<char>) -> Seq<char>
    decreases parts.len(),
{
    if parts.len() == 0 {
        Seq::empty()
    } else if parts.len() == 1 {
        parts[0]
    } else {
        join(parts.drop_last(), sep) + sep + parts.last()
    }
}

/// Joins `parts` with `sep` between consecutive parts.
pub fn join_strings(parts: &[String], sep: &str) -> (r: String)
    ensures
        r@ == join(parts@.map_values(|p: String| p@), sep@),
{
    let ghost ps = parts@.map_values(|p: String| p@);
    let mut r = String::new();
    for i in 0..parts.len()
        invariant
            ps == parts@.map_values(|p: String| p@),
            r@ == join(ps.take(i as int), sep@),
    {
        let ghost t = ps.take(i + 1);
        assert(t.drop_last() == ps.take(i as int));
        assert(t.last() == parts@[i as int]@);
        if i > 0 {
            push_str(&mut r, sep);
        } else {
            assert(t.len() == 1 && t[0] == parts@[0]@);
            assert(r@ == Seq::<char>::empty());
        }
        push_str(&mut r, parts[i].as_str());
    }
    assert(ps.take(parts.len() as int) == ps);
    r
}


/// Appends `n` in decimal, left-padded with zeros to at least `width` digits.
pub fn push_padded(s: &mut String, n: u64, width: u64)
    ensures
        final(s)@ == old(s)@ + zero_pad(decimal(n as nat), width as nat),
{
    let mut digits = String::new();
    push_decimal(&mut digits, n);
    let dc = chars_of(digits.as_str());
    let len = dc.len() as u64;
    let mut k: u64 = len;
    let ghost start = s@;
    while k < width
        invariant
            len <= k,
            len == decimal(n as nat).len(),
            k <= width || k == len,
            s@ == start + Seq::new((k - len) as nat, |i: int| '0'),
        decreases width - k,
    {
        push_char(s, '0');
        assert(Seq::new((k + 1 - len) as nat, |i: int| '0') =~= Seq::new((k - len) as nat, |i: int| '0').push('0'));
        k = k + 1;
    }
    push_chars(s, &dc);
    proof {
        if len >= width {
            assert(Seq::new(0nat, |i: int| '0') =~= Seq::<char>::empty());
            assert(s@ =~= start + decimal(n as nat));
        } else {
            assert(k == width);
        }
    }
}

} // verus!
