use vstd::prelude::*;

verus! {

/// The Unicode `White_Space` property, which `char::is_whitespace` reports.
pub open spec fn is_white_space(c: char) -> bool {
    let v = c as u32;
    ||| 0x9 <= v <= 0xD
    ||| v == 0x20
    ||| v == 0x85
    ||| v == 0xA0
    ||| v == 0x1680
    ||| 0x2000 <= v <= 0x200A
    ||| v == 0x2028
    ||| v == 0x2029
    ||| v == 0x202F
    ||| v == 0x205F
    ||| v == 0x3000
}

/// `s` without its leading white space.
pub open spec fn trim_start_spec(s: Seq<char>) -> Seq<char>
    decreases s.len(),
{
    if s.len() > 0 && is_white_space(s[0]) {
        trim_start_spec(s.drop_first())
    } else {
        s
    }
}

/// `s` without its trailing white space.
pub open spec fn trim_end_spec(s: Seq<char>) -> Seq<char>
    decreases s.len(),
{
    if s.len() > 0 && is_white_space(s.last()) {
        trim_end_spec(s.drop_last())
    } else {
        s
    }
}

/// `s` without leading and trailing white space.
pub open spec fn trim_spec(s: Seq<char>) -> Seq<char> {
    trim_end_spec(trim_start_spec(s))
}

proof fn lemma_trim_start_shape(s: Seq<char>)
    ensures
        trim_start_spec(s).len() == 0 || !is_white_space(trim_start_spec(s)[0]),
        trim_start_spec(s).len() <= s.len(),
        trim_start_spec(s) == s.subrange(s.len() - trim_start_spec(s).len(), s.len() as int),
        forall|i: int| 0 <= i < s.len() - trim_start_spec(s).len() ==> is_white_space(#[trigger] s[i]),
    decreases s.len(),
{
    if s.len() > 0 && is_white_space(s[0]) {
        lemma_trim_start_shape(s.drop_first());
        let t = trim_start_spec(s.drop_first());
        assert(s.drop_first().subrange(s.len() - 1 - t.len(), s.len() - 1) =~= s.subrange(s.len() - t.len(), s.len() as int));
        assert forall|i: int| 0 <= i < s.len() - t.len() implies is_white_space(#[trigger] s[i]) by {
            if i > 0 {
                assert(s[i] == s.drop_first()[i - 1]);
            }
        }
    } else {
        assert(s.subrange(0, s.len() as int) =~= s);
    }
}

proof fn lemma_trim_end_shape(s: Seq<char>)
    ensures
        trim_end_spec(s).len() == 0 || !is_white_space(trim_end_spec(s).last()),
        trim_end_spec(s).len() <= s.len(),
        trim_end_spec(s) == s.subrange(0, trim_end_spec(s).len() as int),
    decreases s.len(),
{
    if s.len() > 0 && is_white_space(s.last()) {
        lemma_trim_end_shape(s.drop_last());
        let t = trim_end_spec(s.drop_last());
        assert(s.drop_last().subrange(0, t.len() as int) =~= s.subrange(0, t.len() as int));
    } else {
        assert(s.subrange(0, s.len() as int) =~= s);
    }
}

/// Trimming text that was trimmed changes nothing: parsing the text of a
/// parsed identity gives the same identity.
pub proof fn lemma_trim_idempotent(s: Seq<char>)
    ensures
        trim_spec(trim_spec(s)) == trim_spec(s),
{
    let a = trim_start_spec(s);
    let b = trim_end_spec(a);
    lemma_trim_start_shape(s);
    lemma_trim_end_shape(a);
    if b.len() > 0 {
        assert(b[0] == a[0]);
        assert(trim_start_spec(b) == b);
        lemma_trim_end_shape(b);
        assert(trim_end_spec(b) == b);
    } else {
        assert(trim_start_spec(b) == b);
        assert(trim_end_spec(b) == b);
    }
}

/// Whether a character has the Unicode `White_Space` property.
fn is_white_space_char(c: char) -> (r: bool)
    ensures
        r == is_white_space(c),
{
    let v = c as u32;
    (0x9 <= v && v <= 0xD) || v == 0x20 || v == 0x85 || v == 0xA0 || v == 0x1680
        || (0x2000 <= v && v <= 0x200A) || v == 0x2028 || v == 0x2029 || v == 0x202F
        || v == 0x205F || v == 0x3000
}

proof fn lemma_trim_start_at(s: Seq<char>, i: int)
    requires
        0 <= i <= s.len(),
        forall|k: int| 0 <= k < i ==> is_white_space(#[trigger] s[k]),
        i == s.len() || !is_white_space(s[i]),
    ensures
        trim_start_spec(s) == s.subrange(i, s.len() as int),
    decreases i,
{
    if i == 0 {
        assert(s.subrange(0, s.len() as int) =~= s);
    } else {
        let d = s.drop_first();
        assert forall|k: int| 0 <= k < i - 1 implies is_white_space(#[trigger] d[k]) by {
            assert(d[k] == s[k + 1]);
        }
        if i < s.len() {
            assert(d[i - 1] == s[i]);
        }
        lemma_trim_start_at(d, i - 1);
        assert(d.subrange(i - 1, d.len() as int) =~= s.subrange(i, s.len() as int));
    }
}

proof fn lemma_trim_end_at(t: Seq<char>, m: int)
    requires
        0 <= m <= t.len(),
        forall|k: int| m <= k < t.len() ==> is_white_space(#[trigger] t[k]),
        m == 0 || !is_white_space(t[m - 1]),
    ensures
        trim_end_spec(t) == t.subrange(0, m),
    decreases t.len(),
{
    if t.len() == m {
        assert(t.subrange(0, m) =~= t);
    } else {
        let d = t.drop_last();
        assert forall|k: int| m <= k < d.len() implies is_white_space(#[trigger] d[k]) by {
            assert(d[k] == t[k]);
        }
        if m > 0 {
            assert(d[m - 1] == t[m - 1]);
        }
        assert(is_white_space(t[t.len() - 1]));
        lemma_trim_end_at(d, m);
        assert(d.subrange(0, m) =~= t.subrange(0, m));
    }
}

/// The slice without the leading and trailing characters that have the
/// Unicode `White_Space` property, as `str::trim` gives it.
pub(crate) fn trim_str(s: &str) -> (r: &str)
    ensures
        r@ == trim_spec(s@),
{
    let n = s.unicode_len();
    let mut i: usize = 0;
    while i < n && is_white_space_char(s.get_char(i))
        invariant
            i <= n,
            n == s@.len(),
            forall|k: int| 0 <= k < i ==> is_white_space(#[trigger] s@[k]),
        decreases n - i,
    {
        i = i + 1;
    }
    let mut j: usize = n;
    while j > i && is_white_space_char(s.get_char(j - 1))
        invariant
            i <= j <= n,
            n == s@.len(),
            forall|k: int| j <= k < n ==> is_white_space(#[trigger] s@[k]),
        decreases j,
    {
        j = j - 1;
    }
    proof {
        lemma_trim_start_at(s@, i as int);
        let t = s@.subrange(i as int, n as int);
        assert forall|k: int| j - i <= k < t.len() implies is_white_space(#[trigger] t[k]) by {
            assert(t[k] == s@[i + k]);
        }
        if j > i {
            assert(t[j - i - 1] == s@[j - 1]);
        }
        lemma_trim_end_at(t, j - i);
        assert(t.subrange(0, j - i) =~= s@.subrange(i as int, j as int));
    }
    s.substring_char(i, j)
}

/// An owned copy of a string slice.
pub fn owned(s: &str) -> (r: String)
    ensures
        r@ == s@,
{
    s.to_owned()
}

/// The decimal digits of `n`, most significant first, without leading zeros
/// (the digit `0` for zero).
pub open spec fn decimal_spec(n: nat) -> Seq<char>
    decreases n,
{
    if n < 10 {
        seq![digit_char(n)]
    } else {
        decimal_spec(n / 10).push(digit_char(n % 10))
    }
}

/// The character of a decimal digit.
pub open spec fn digit_char(d: nat) -> char {
    if d == 0 { '0' }
    else if d == 1 { '1' }
    else if d == 2 { '2' }
    else if d == 3 { '3' }
    else if d == 4 { '4' }
    else if d == 5 { '5' }
    else if d == 6 { '6' }
    else if d == 7 { '7' }
    else if d == 8 { '8' }
    else { '9' }
}

/// The character of a lower-case hexadecimal digit.
pub open spec fn hex_char(d: nat) -> char {
    if d < 10 { digit_char(d) }
    else if d == 10 { 'a' }
    else if d == 11 { 'b' }
    else if d == 12 { 'c' }
    else if d == 13 { 'd' }
    else if d == 14 { 'e' }
    else { 'f' }
}

/// The decimal text of a signed integer: a `-` before the digits of a negative one.
pub open spec fn signed_decimal_spec(n: int) -> Seq<char> {
    if n < 0 {
        seq!['-'] + decimal_spec((-n) as nat)
    } else {
        decimal_spec(n as nat)
    }
}

/// The last `width` lower-case hexadecimal digits of `n`, most significant first
/// (`{:0width$x}` for a value below `16^width`).
pub open spec fn hex_spec(n: nat, width: nat) -> Seq<char>
    decreases width,
{
    if width == 0 {
        Seq::empty()
    } else {
        hex_spec(n / 16, (width - 1) as nat).push(hex_char(n % 16))
    }
}

fn digit(d: u128) -> (c: char)
    requires
        d < 16,
    ensures
        c == hex_char(d as nat),
{
    if d == 0 { '0' }
    else if d == 1 { '1' }
    else if d == 2 { '2' }
    else if d == 3 { '3' }
    else if d == 4 { '4' }
    else if d == 5 { '5' }
    else if d == 6 { '6' }
    else if d == 7 { '7' }
    else if d == 8 { '8' }
    else if d == 9 { '9' }
    else if d == 10 { 'a' }
    else if d == 11 { 'b' }
    else if d == 12 { 'c' }
    else if d == 13 { 'd' }
    else if d == 14 { 'e' }
    else { 'f' }
}

/// Appends one character to a string.
#[verifier::external_body]
pub(crate) fn push_char(s: &mut String, c: char)
    ensures
        final(s)@ == old(s)@.push(c),
{
    s.push(c)
}

/// Appends a string slice to a string.
pub(crate) fn push_str(s: &mut String, t: &str)
    ensures
        final(s)@ == old(s)@ + t@,
{
    s.append(t);
}

/// The decimal text of `n`, as `n.to_string()` writes it.
pub fn decimal_text(n: u128) -> (r: String)
    ensures
        r@ == decimal_spec(n as nat),
{
    let mut digits: Vec<char> = Vec::new();
    let mut m = n;
    // collect the digits least significant first
    while m >= 10
        invariant
            m <= n,
            decimal_spec(n as nat) =~= decimal_spec(m as nat) + digits@.reverse(),
        decreases m,
    {
        let d = m % 10;
        proof {
            assert(decimal_spec(m as nat) == decimal_spec((m / 10) as nat).push(digit_char(d as nat)));
            assert(digits@.push(digit_char(d as nat)).reverse() =~= seq![digit_char(d as nat)] + digits@.reverse());
        }
        digits.push(digit(d));
        m = m / 10;
    }
    let mut r = String::new();
    push_char(&mut r, digit(m));
    let mut i = digits.len();
    while i > 0
        invariant
            i <= digits.len(),
            r@ =~= seq![digit_char(m as nat)] + digits@.subrange(i as int, digits.len() as int).reverse(),
            decimal_spec(n as nat) =~= seq![digit_char(m as nat)] + digits@.reverse(),
        decreases i,
    {
        i = i - 1;
        proof {
            assert(digits@.subrange(i as int, digits.len() as int).reverse() =~=
                digits@.subrange(i + 1, digits.len() as int).reverse().push(digits@[i as int]));
        }
        push_char(&mut r, digits[i]);
    }
    proof {
        assert(digits@.subrange(0, digits.len() as int) =~= digits@);
    }
    r
}

/// The decimal text of a signed integer, as `n.to_string()` writes it.
pub fn signed_decimal_text(n: i64) -> (r: String)
    ensures
        r@ == signed_decimal_spec(n as int),
{
    if n < 0 {
        let magnitude: u128 = if n == i64::MIN { 9223372036854775808u128 } else { (-n) as u128 };
        let digits = decimal_text(magnitude);
        let mut r = String::new();
        push_char(&mut r, '-');
        push_str(&mut r, digits.as_str());
        r
    } else {
        decimal_text(n as u128)
    }
}

/// The last `width` lower-case hexadecimal digits of `n`.
pub fn hex_text(n: u64, width: usize) -> (r: String)
    ensures
        r@ == hex_spec(n as nat, width as nat),
{
    let mut digits: Vec<char> = Vec::new();
    let mut m = n;
    let mut k: usize = 0;
    while k < width
        invariant
            k <= width,
            digits@.len() == k,
            hex_spec(n as nat, width as nat) =~= hex_spec(m as nat, (width - k) as nat) + digits@.reverse(),
        decreases width - k,
    {
        let d = (m % 16) as u128;
        proof {
            assert(hex_spec(m as nat, (width - k) as nat) == hex_spec((m / 16) as nat, (width - k - 1) as nat).push(hex_char(d as nat)));
            assert(digits@.push(hex_char(d as nat)).reverse() =~= seq![hex_char(d as nat)] + digits@.reverse());
        }
        digits.push(digit(d));
        m = m / 16;
        k = k + 1;
    }
    let mut r = String::new();
    let mut i = digits.len();
    while i > 0
        invariant
            i <= digits.len(),
            r@ =~= digits@.subrange(i as int, digits.len() as int).reverse(),
            hex_spec(n as nat, width as nat) =~= digits@.reverse(),
        decreases i,
    {
        i = i - 1;
        proof {
            assert(digits@.subrange(i as int, digits.len() as int).reverse() =~=
                digits@.subrange(i + 1, digits.len() as int).reverse().push(digits@[i as int]));
        }
        push_char(&mut r, digits[i]);
    }
    proof {
        assert(digits@.subrange(0, digits.len() as int) =~= digits@);
    }
    r
}

} // verus!
