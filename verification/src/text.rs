//! Text helpers: trimming, searching, decimal numerals, quoting and path strings.
use vstd::prelude::*;

verus! {

/// `String::push` appends one character to the end of the string.
pub assume_specification[ String::push ](s: &mut String, c: char)
    ensures
        final(s)@ == old(s)@.push(c),
;

/// The characters of a string, in order.
pub fn chars_of(s: &str) -> (v: Vec<char>)
    ensures
        v@ == s@,
{
    let mut v: Vec<char> = Vec::new();
    for c in it: s.chars()
        invariant
            it.seq() == s@,
            v@ == s@.take(it.index()),
    {
        v.push(c);
    }
    v
}

/// Whether two strings hold the same characters.
pub fn same_text(a: &str, b: &str) -> (r: bool)
    ensures
        r == (a@ == b@),
{
    let x = chars_of(a);
    let y = chars_of(b);
    if x.len() != y.len() {
        return false;
    }
    for i in 0..x.len()
        invariant
            x@.len() == y@.len(),
            x@ == a@,
            y@ == b@,
            forall|j: int| 0 <= j < i ==> x@[j] == y@[j],
    {
        if x[i] != y[i] {
            return false;
        }
    }
    assert(x@ =~= y@);
    true
}

// ---------------------------------------------------------------------------
// White space
// ---------------------------------------------------------------------------

/// The characters with the Unicode property `White_Space`.
pub open spec fn white_space(c: char) -> bool {
    let u = c as int;
    ||| 0x09 <= u <= 0x0D
    ||| u == 0x20
    ||| u == 0x85
    ||| u == 0xA0
    ||| u == 0x1680
    ||| 0x2000 <= u <= 0x200A
    ||| u == 0x2028
    ||| u == 0x2029
    ||| u == 0x202F
    ||| u == 0x205F
    ||| u == 0x3000
}

/// Whether a character is white space.
pub fn is_white_space(c: char) -> (r: bool)
    ensures
        r == white_space(c),
{
    let u: u32 = c as u32;
    (0x09 <= u && u <= 0x0D) || u == 0x20 || u == 0x85 || u == 0xA0 || u == 0x1680 || (0x2000 <= u
        && u <= 0x200A) || u == 0x2028 || u == 0x2029 || u == 0x202F || u == 0x205F || u == 0x3000
}

/// Nothing but white space (or nothing at all).
pub open spec fn blank(s: Seq<char>) -> bool {
    forall|i: int| 0 <= i < s.len() ==> white_space(#[trigger] s[i])
}

/// The text without the white space at its two ends.
pub open spec fn trimmed(s: Seq<char>) -> Seq<char>
    decreases s.len(),
{
    if s.len() == 0 {
        s
    } else if white_space(s[0]) {
        trimmed(s.drop_first())
    } else if white_space(s.last()) {
        trimmed(s.drop_last())
    } else {
        s
    }
}

/// Trimming keeps what lies between the first and the last character that is not white space.
pub proof fn lemma_trimmed_is_middle(s: Seq<char>, a: int, b: int)
    requires
        0 <= a <= b <= s.len(),
        blank(s.take(a)),
        blank(s.skip(b)),
        a < b ==> !white_space(s[a]) && !white_space(s[b - 1]),
    ensures
        trimmed(s) == s.subrange(a, b),
    decreases s.len(),
{
    if s.len() == 0 {
        assert(s.subrange(a, b) =~= s);
    } else if white_space(s[0]) {
        let t = s.drop_first();
        if a == 0 {
            assert(b == 0);
            assert(t.take(0) =~= Seq::<char>::empty());
            assert forall|i: int| 0 <= i < t.skip(0).len() implies white_space(
                #[trigger] t.skip(0)[i],
            ) by {
                assert(t.skip(0)[i] == s.skip(0)[i + 1]);
            }
            lemma_trimmed_is_middle(t, 0, 0);
            assert(s.subrange(a, b) =~= t.subrange(0, 0));
        } else {
            assert forall|i: int| 0 <= i < t.take(a - 1).len() implies white_space(
                #[trigger] t.take(a - 1)[i],
            ) by {
                assert(t.take(a - 1)[i] == s.take(a)[i + 1]);
            }
            assert(t.skip(b - 1) =~= s.skip(b));
            lemma_trimmed_is_middle(t, a - 1, b - 1);
            assert(s.subrange(a, b) =~= t.subrange(a - 1, b - 1));
        }
    } else {
        assert(a == 0) by {
            if a > 0 {
                assert(s.take(a)[0] == s[0]);
            }
        }
        if b == 0 {
            assert(s.skip(0)[0] == s[0]);
        }
        if white_space(s.last()) {
            let t = s.drop_last();
            assert(t.take(a) =~= s.take(a));
            assert forall|i: int| 0 <= i < t.skip(b).len() implies white_space(
                #[trigger] t.skip(b)[i],
            ) by {
                assert(t.skip(b)[i] == s.skip(b)[i]);
            }
            lemma_trimmed_is_middle(t, a, b);
            assert(s.subrange(a, b) =~= t.subrange(a, b));
        } else {
            assert(b == s.len()) by {
                if b < s.len() {
                    assert(s.skip(b)[s.len() - 1 - b] == s.last());
                }
            }
            assert(s.subrange(a, b) =~= s);
        }
    }
}

/// A text trims to nothing exactly when it is blank.
pub proof fn lemma_blank_trims_to_nothing(s: Seq<char>)
    ensures
        blank(s) <==> trimmed(s).len() == 0,
    decreases s.len(),
{
    if s.len() > 0 {
        if white_space(s[0]) {
            let t = s.drop_first();
            lemma_blank_trims_to_nothing(t);
            if blank(t) {
                assert forall|i: int| 0 <= i < s.len() implies white_space(#[trigger] s[i]) by {
                    if i > 0 {
                        assert(s[i] == t[i - 1]);
                    }
                }
            }
            if blank(s) {
                assert forall|i: int| 0 <= i < t.len() implies white_space(#[trigger] t[i]) by {
                    assert(t[i] == s[i + 1]);
                }
            }
        } else {
            if white_space(s.last()) {
                let t = s.drop_last();
                lemma_blank_trims_to_nothing(t);
                assert(t[0] == s[0]);
            }
        }
    }
}

/// Removes the white space at both ends of a text.
pub fn trim(s: &str) -> (r: &str)
    ensures
        r@ == trimmed(s@),
{
    let v = chars_of(s);
    let n: usize = v.len();
    let mut a: usize = 0;
    while a < n && is_white_space(v[a])
        invariant
            n == v@.len(),
            a <= n,
            forall|i: int| 0 <= i < a ==> white_space(#[trigger] v@[i]),
        decreases n - a,
    {
        a += 1;
    }
    let mut b: usize = n;
    while b > a && is_white_space(v[b - 1])
        invariant
            n == v@.len(),
            a <= b <= n,
            forall|i: int| b <= i < n ==> white_space(#[trigger] v@[i]),
        decreases b,
    {
        b -= 1;
    }
    proof {
        if a < n {
            assert(!white_space(v@[a as int]));
        }
        lemma_trimmed_is_middle(s@, a as int, b as int);
    }
    s.substring_char(a, b)
}

/// Whether a text is blank.
pub fn is_blank(s: &str) -> (r: bool)
    ensures
        r == blank(s@),
{
    for c in it: s.chars()
        invariant
            it.seq() == s@,
            forall|i: int| 0 <= i < it.index() ==> white_space(#[trigger] s@[i]),
    {
        if !is_white_space(c) {
            assert(s@[it.index()] == c);
            return false;
        }
    }
    true
}

// ---------------------------------------------------------------------------
// Searching
// ---------------------------------------------------------------------------

/// The pattern stands in the text from position `i` on.
pub open spec fn occurs_at(pat: Seq<char>, s: Seq<char>, i: int) -> bool {
    0 <= i && i + pat.len() <= s.len() && s.subrange(i, i + pat.len()) == pat
}

/// The pattern stands somewhere in the text.
pub open spec fn occurs(pat: Seq<char>, s: Seq<char>) -> bool {
    exists|i: int| occurs_at(pat, s, i)
}

fn matches_at(s: &Vec<char>, i: usize, pat: &Vec<char>) -> (r: bool)
    requires
        i + pat@.len() <= s@.len(),
    ensures
        r == occurs_at(pat@, s@, i as int),
{
    let n: usize = s.len();
    for j in 0..pat.len()
        invariant
            n == s@.len(),
            i + pat@.len() <= n,
            forall|k: int| 0 <= k < j ==> s@[i + k] == pat@[k],
    {
        if s[i + j] != pat[j] {
            assert(s@.subrange(i as int, i + pat@.len())[j as int] == s@[i + j]);
            return false;
        }
    }
    assert(s@.subrange(i as int, i + pat@.len()) =~= pat@);
    true
}

/// Whether the pattern stands somewhere in the text.
pub fn contains(s: &str, pat: &str) -> (r: bool)
    ensures
        r == occurs(pat@, s@),
{
    let v = chars_of(s);
    let p = chars_of(pat);
    if p.len() > v.len() {
        return false;
    }
    let last: usize = v.len() - p.len();
    let mut i: usize = 0;
    while i <= last
        invariant
            v@ == s@,
            p@ == pat@,
            last == v@.len() - p@.len(),
            i <= last + 1,
            v@.len() <= usize::MAX,
            forall|k: int| 0 <= k < i ==> !occurs_at(pat@, s@, k),
        decreases last + 1 - i,
    {
        if matches_at(&v, i, &p) {
            return true;
        }
        if i == last {
            return false;
        }
        i += 1;
    }
    false
}

/// Whether the pattern stands in the text from position `i` on.
pub fn stands_at(s: &str, pat: &str, i: usize) -> (r: bool)
    ensures
        r == occurs_at(pat@, s@, i as int),
{
    let v = chars_of(s);
    let p = chars_of(pat);
    if i > v.len() || p.len() > v.len() - i {
        return false;
    }
    matches_at(&v, i, &p)
}

/// A pattern found in one part of a text is found in the whole.
pub proof fn lemma_occurs_in_context(pat: Seq<char>, before: Seq<char>, s: Seq<char>, after: Seq<char>)
    requires
        occurs(pat, s),
    ensures
        occurs(pat, before + s + after),
{
    let i = choose|i: int| occurs_at(pat, s, i);
    let t = before + s + after;
    let k = before.len() + i;
    assert(t.subrange(k, k + pat.len()) =~= s.subrange(i, i + pat.len()));
    assert(occurs_at(pat, t, k));
}

// ---------------------------------------------------------------------------
// Decimal numerals
// ---------------------------------------------------------------------------

/// The decimal digit of a value below ten.
pub open spec fn digit(d: nat) -> char {
    (48 + d) as char
}

/// The decimal numeral of a natural number, without leading zeros.
pub open spec fn decimal(n: nat) -> Seq<char>
    decreases n,
{
    if n < 10 {
        seq![digit(n)]
    } else {
        decimal(n / 10).push(digit(n % 10))
    }
}

/// The last `k` decimal digits of a natural number.
pub open spec fn last_digits(n: nat, k: nat) -> Seq<char>
    decreases k,
{
    if k == 0 {
        Seq::empty()
    } else {
        last_digits(n / 10, (k - 1) as nat).push(digit(n % 10))
    }
}

/// The numeral filled up with zeros on the left to four digits.
pub open spec fn padded4(n: nat) -> Seq<char> {
    if n < 10_000 {
        last_digits(n, 4)
    } else {
        decimal(n)
    }
}

/// `n` thousandths with exactly three digits behind the point.
pub open spec fn fixed3(n: int) -> Seq<char> {
    if n < 0 {
        seq!['-'] + fixed3_magnitude((-n) as nat)
    } else {
        fixed3_magnitude(n as nat)
    }
}

/// `n` thousandths with exactly three digits behind the point, without a sign.
pub open spec fn fixed3_magnitude(n: nat) -> Seq<char> {
    decimal(n / 1000).push('.') + last_digits(n % 1000, 3)
}

/// `n` units of `10^-scale`, written with as few digits behind the point as possible.
pub open spec fn shortest(n: nat, scale: nat) -> Seq<char>
    decreases scale,
{
    if scale == 0 {
        decimal(n)
    } else if n % 10 == 0 {
        shortest(n / 10, (scale - 1) as nat)
    } else {
        decimal(n / pow10(scale)).push('.') + last_digits(n % pow10(scale), scale)
    }
}

/// A number of units of `10^-scale` with its sign, with as few digits as possible.
pub open spec fn shortest_signed(n: int, scale: nat) -> Seq<char> {
    if n < 0 {
        seq!['-'] + shortest((-n) as nat, scale)
    } else {
        shortest(n as nat, scale)
    }
}

/// Powers of ten.
pub open spec fn pow10(k: nat) -> nat
    decreases k,
{
    if k == 0 {
        1
    } else {
        10 * pow10((k - 1) as nat)
    }
}

fn digit_char(d: u64) -> (c: char)
    requires
        d < 10,
    ensures
        c == digit(d as nat),
{
    let b: u8 = 48 + d as u8;
    b as char
}

/// Appends the decimal numeral of `n`.
pub fn push_decimal(s: &mut String, n: u64)
    ensures
        final(s)@ == old(s)@ + decimal(n as nat),
    decreases n,
{
    if n >= 10 {
        push_decimal(s, n / 10);
    }
    s.push(digit_char(n % 10));
    assert(s@ =~= old(s)@ + decimal(n as nat));
}

/// Appends the last `k` decimal digits of `n`.
pub fn push_last_digits(s: &mut String, n: u64, k: u32)
    ensures
        final(s)@ == old(s)@ + last_digits(n as nat, k as nat),
    decreases k,
{
    if k > 0 {
        push_last_digits(s, n / 10, k - 1);
        s.push(digit_char(n % 10));
    }
    assert(s@ =~= old(s)@ + last_digits(n as nat, k as nat));
}

/// Appends `n` padded with zeros to four digits.
pub fn push_padded4(s: &mut String, n: u64)
    ensures
        final(s)@ == old(s)@ + padded4(n as nat),
{
    if n < 10_000 {
        push_last_digits(s, n, 4);
    } else {
        push_decimal(s, n);
    }
}

/// Appends `m` thousandths with three digits behind the point.
pub fn push_fixed3_magnitude(s: &mut String, m: u64)
    ensures
        final(s)@ == old(s)@ + fixed3(m as int),
{
    push_decimal(s, m / 1000);
    s.push('.');
    push_last_digits(s, m % 1000, 3);
    assert(s@ =~= old(s)@ + fixed3(m as int));
}

/// Appends `n` thousandths with three digits behind the point.
pub fn push_fixed3(s: &mut String, n: i64)
    ensures
        final(s)@ == old(s)@ + fixed3(n as int),
{
    if n < 0 {
        s.push('-');
        push_fixed3_magnitude(s, (-(n as i128)) as u64);
    } else {
        push_fixed3_magnitude(s, n as u64);
    }
    assert(s@ =~= old(s)@ + fixed3(n as int));
}

/// Appends `n` units of `10^-scale` with as few digits behind the point as possible.
pub fn push_shortest(s: &mut String, n: u64, scale: u32)
    requires
        scale <= 18,
    ensures
        final(s)@ == old(s)@ + shortest(n as nat, scale as nat),
    decreases scale,
{
    if scale == 0 {
        push_decimal(s, n);
    } else if n % 10 == 0 {
        push_shortest(s, n / 10, scale - 1);
    } else {
        let p: u64 = power_of_ten(scale);
        push_decimal(s, n / p);
        s.push('.');
        push_last_digits(s, n % p, scale);
        assert(s@ =~= old(s)@ + shortest(n as nat, scale as nat));
    }
}

/// Appends a number of units of `10^-scale` with its sign, with as few digits as possible.
pub fn push_shortest_signed(s: &mut String, n: i64, scale: u32)
    requires
        scale <= 18,
    ensures
        final(s)@ == old(s)@ + shortest_signed(n as int, scale as nat),
{
    if n < 0 {
        s.push('-');
        push_shortest(s, (-(n as i128)) as u64, scale);
    } else {
        push_shortest(s, n as u64, scale);
    }
    assert(s@ =~= old(s)@ + shortest_signed(n as int, scale as nat));
}

fn power_of_ten(k: u32) -> (p: u64)
    requires
        k <= 18,
    ensures
        p == pow10(k as nat),
        p >= 1,
        p <= 1_000_000_000_000_000_000,
    decreases k,
{
    proof {
        lemma_pow10_bound(k as nat);
    }
    if k == 0 {
        1
    } else {
        let q: u64 = power_of_ten(k - 1);
        proof {
            lemma_pow10_bound((k - 1) as nat);
        }
        10 * q
    }
}

proof fn lemma_pow10_bound(k: nat)
    requires
        k <= 18,
    ensures
        1 <= pow10(k) <= 1_000_000_000_000_000_000,
{
    reveal_with_fuel(pow10, 19);
}

/// Different numbers have different numerals, and a numeral ends in a digit.
pub proof fn lemma_decimal_injective(a: nat, b: nat)
    requires
        decimal(a) == decimal(b),
    ensures
        a == b,
    decreases a + b,
{
    lemma_decimal_nonempty(a);
    lemma_decimal_nonempty(b);
    assert(decimal(a).last() == digit(a % 10));
    assert(decimal(b).last() == digit(b % 10));
    lemma_digit_injective(a % 10, b % 10);
    if a < 10 && b < 10 {
    } else if a < 10 {
        lemma_decimal_nonempty(b / 10);
        assert(decimal(b).len() >= 2);
    } else if b < 10 {
        lemma_decimal_nonempty(a / 10);
        assert(decimal(a).len() >= 2);
    } else {
        assert(decimal(a).drop_last() =~= decimal(a / 10));
        assert(decimal(b).drop_last() =~= decimal(b / 10));
        lemma_decimal_injective(a / 10, b / 10);
    }
}

proof fn lemma_digit_injective(a: nat, b: nat)
    requires
        a < 10,
        b < 10,
        digit(a) == digit(b),
    ensures
        a == b,
{
    assert(digit(a) as int == 48 + a);
    assert(digit(b) as int == 48 + b);
}

/// A numeral has at least one digit.
pub proof fn lemma_decimal_nonempty(n: nat)
    ensures
        decimal(n).len() > 0,
{
}

// ---------------------------------------------------------------------------
// Quoting and paths
// ---------------------------------------------------------------------------

/// What a single quote becomes inside a single-quoted word: the word is closed, a quote is set behind
/// a backslash, and the word is opened again.
pub open spec fn quoted_char(c: char) -> Seq<char> {
    if c == '\'' {
        seq!['\'', '\\', '\'', '\'']
    } else {
        seq![c]
    }
}

/// The text with every single quote replaced by its quoted form.
pub open spec fn escaped(s: Seq<char>) -> Seq<char>
    decreases s.len(),
{
    if s.len() == 0 {
        s
    } else {
        escaped(s.drop_last()) + quoted_char(s.last())
    }
}

/// Replaces every single quote by its quoted form.
pub fn escape_quotes(s: &str) -> (r: String)
    ensures
        r@ == escaped(s@),
{
    let mut r = String::new();
    for c in it: s.chars()
        invariant
            it.seq() == s@,
            r@ == escaped(s@.take(it.index())),
    {
        assert(s@.take(it.index() + 1).drop_last() =~= s@.take(it.index()));
        if c == '\'' {
            r.push('\'');
            r.push('\\');
            r.push('\'');
            r.push('\'');
        } else {
            r.push(c);
        }
        assert(r@ =~= escaped(s@.take(it.index())) + quoted_char(c));
    }
    assert(s@.take(s@.len() as int) =~= s@);
    r
}

/// A text without single quotes is left as it is.
pub proof fn law_plain_text_needs_no_quoting(s: Seq<char>)
    requires
        !s.contains('\''),
    ensures
        escaped(s) == s,
    decreases s.len(),
{
    if s.len() > 0 {
        assert(!s.drop_last().contains('\''));
        assert(s.contains(s.last()));
        law_plain_text_needs_no_quoting(s.drop_last());
        assert(escaped(s) =~= s);
    }
}

/// Different texts stay different when they are quoted.
pub proof fn law_quoting_keeps_texts_apart(a: Seq<char>, b: Seq<char>)
    requires
        escaped(a) == escaped(b),
    ensures
        a == b,
    decreases a.len(),
{
    if a.len() == 0 {
        if b.len() > 0 {
            assert(escaped(b).len() > 0);
        }
        assert(a =~= b);
    } else {
        let e = escaped(a);
        if b.len() == 0 {
            assert(e.len() > 0);
        }
        let p = quoted_char(a.last());
        let q = quoted_char(b.last());
        assert(e.last() == p.last());
        assert(e.last() == q.last());
        assert(a.last() == b.last());
        assert(escaped(a.drop_last()) =~= e.subrange(0, e.len() - p.len()));
        assert(escaped(b.drop_last()) =~= e.subrange(0, e.len() - p.len()));
        law_quoting_keeps_texts_apart(a.drop_last(), b.drop_last());
        assert(a =~= a.drop_last().push(a.last()));
        assert(b =~= b.drop_last().push(b.last()));
    }
}

/// A file inside a directory: the two names with one separator between them.
pub open spec fn joined(dir: Seq<char>, name: Seq<char>) -> Seq<char> {
    if dir.len() == 0 || dir.last() == '/' {
        dir + name
    } else {
        dir.push('/') + name
    }
}

/// The path of the file `name` inside the directory `dir`.
pub fn join_path(dir: &str, name: &str) -> (r: String)
    ensures
        r@ == joined(dir@, name@),
{
    let v = chars_of(dir);
    let mut r = String::new();
    r.append(dir);
    if v.len() > 0 && v[v.len() - 1] != '/' {
        r.push('/');
    }
    r.append(name);
    assert(r@ =~= joined(dir@, name@));
    r
}

/// The text without the slashes at its end.
pub open spec fn without_trailing_slashes(s: Seq<char>) -> Seq<char>
    decreases s.len(),
{
    if s.len() > 0 && s.last() == '/' {
        without_trailing_slashes(s.drop_last())
    } else {
        s
    }
}

/// Removes every slash at the end of a text.
pub fn trim_trailing_slashes(s: &str) -> (r: &str)
    ensures
        r@ == without_trailing_slashes(s@),
{
    let v = chars_of(s);
    let mut b: usize = v.len();
    assert(s@.take(b as int) =~= s@);
    while b > 0 && v[b - 1] == '/'
        invariant
            v@ == s@,
            b <= v@.len(),
            without_trailing_slashes(s@) == without_trailing_slashes(s@.take(b as int)),
        decreases b,
    {
        assert(s@.take(b as int).drop_last() =~= s@.take(b - 1));
        b -= 1;
    }
    let r = s.substring_char(0, b);
    assert(r@ =~= s@.take(b as int));
    r
}

} // verus!
