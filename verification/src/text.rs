//! Text helpers shared by the library: turning strings into character
//! sequences and back, Unicode character classes, trimming, splitting and
//! decimal numbers.
use vstd::prelude::*;

verus! {

/// The characters of a string slice, in order.
pub fn str_chars(s: &str) -> (r: Vec<char>)
    ensures
        r@ == s@,
{
    broadcast use vstd::string::group_string_axioms;

    let mut r: Vec<char> = Vec::new();
    for c in it: s.chars()
        invariant
            r@ == it.seq().take(it.index() as int),
    {
        r.push(c);
    }
    r
}

/// Builds a `String` from a sequence of characters with
/// `Iterator::collect`; std documents that collecting chars into a `String`
/// concatenates them in order.
#[verifier::external_body]
pub(crate) fn string_from_chars(v: &[char]) -> (r: String)
    ensures
        r@ == v@,
{
    v.iter().collect()
}

/// A `String` holding a copy of the given slice, by `str::to_string`.
pub fn str_to_string(s: &str) -> (r: String)
    ensures
        r@ == s@,
{
    s.to_owned()
}

/// Appends the characters of `s` to `v`.
pub fn push_str(v: &mut Vec<char>, s: &str)
    ensures
        final(v)@ == old(v)@ + s@,
{
    let mut cs = str_chars(s);
    v.append(&mut cs);
}

/// Whether `a` and `b` hold the same characters.
pub fn str_eq(a: &str, b: &str) -> (r: bool)
    ensures
        r == (a@ == b@),
{
    let x = str_chars(a);
    let y = str_chars(b);
    if x.len() != y.len() {
        return false;
    }
    let mut i: usize = 0;
    while i < x.len()
        invariant
            i <= x@.len(),
            x@.len() == y@.len(),
            x@ == a@,
            y@ == b@,
            forall|k: int| 0 <= k < i ==> x@[k] == y@[k],
        decreases x@.len() - i,
    {
        if x[i] != y[i] {
            return false;
        }
        i = i + 1;
    }
    assert(x@ =~= y@);
    true
}

/// `a` comes before `b` in the order of `str`: by the first character
/// where they differ, or `a` is a proper prefix of `b`.
pub open spec fn str_lt(a: Seq<char>, b: Seq<char>) -> bool {
    exists|k: int|
        0 <= k <= a.len() && k <= b.len() && a.take(k) == b.take(k) && (k == a.len() && k
            < b.len() || k < a.len() && k < b.len() && (a[k] as u32) < (b[k] as u32))
}

/// `s` starts with `p`.
pub open spec fn has_prefix(s: Seq<char>, p: Seq<char>) -> bool {
    p.len() <= s.len() && s.take(p.len() as int) == p
}

/// Whether `s` starts with `p`.
pub fn starts_with(s: &str, p: &str) -> (r: bool)
    ensures
        r == has_prefix(s@, p@),
{
    let x = str_chars(s);
    let y = str_chars(p);
    if y.len() > x.len() {
        return false;
    }
    let mut i: usize = 0;
    while i < y.len()
        invariant
            i <= y@.len() <= x@.len(),
            x@ == s@,
            y@ == p@,
            forall|k: int| 0 <= k < i ==> x@[k] == y@[k],
        decreases y@.len() - i,
    {
        if x[i] != y[i] {
            assert(s@.take(p@.len() as int)[i as int] != p@[i as int]);
            return false;
        }
        i = i + 1;
    }
    assert(s@.take(p@.len() as int) =~= p@);
    true
}

/// `a` followed by `b`, as a new `String`.
pub fn concat(a: &str, b: &str) -> (r: String)
    ensures
        r@ == a@ + b@,
{
    let mut r = s_new();
    r.append(a);
    r.append(b);
    r
}

/// An empty `String`.
pub fn s_new() -> (r: String)
    ensures
        r@ == Seq::<char>::empty(),
{
    String::new()
}

// ---------------------------------------------------------------------
// Character classes.

/// ASCII letters and digits.
pub open spec fn is_ascii_alnum(c: char) -> bool {
    ||| ('a' as u32 <= c as u32 && c as u32 <= 'z' as u32)
    ||| ('A' as u32 <= c as u32 && c as u32 <= 'Z' as u32)
    ||| ('0' as u32 <= c as u32 && c as u32 <= '9' as u32)
}

/// The ASCII characters with Unicode's `White_Space` property: tab, line
/// feed, vertical tab, form feed, carriage return and space.
pub open spec fn is_ascii_white(c: char) -> bool {
    c == ' ' || (9 <= c as u32 && c as u32 <= 13)
}

/// What `char::is_alphanumeric` answers for `c`: whether it has Unicode's
/// `Alphabetic` or `Numeric` property.
pub uninterp spec fn unicode_alphanumeric(c: char) -> bool;

/// What `char::is_whitespace` answers for `c`: whether it has Unicode's
/// `White_Space` property, which holds of tab, LF, VT, FF, CR, space,
/// NEL, no-break space, the Ogham space mark, the spaces from en quad to
/// hair space, the line and paragraph separators, the narrow no-break
/// space, the medium mathematical space and the ideographic space.
pub open spec fn unicode_whitespace(c: char) -> bool {
    let u = c as u32;
    ||| 0x9 <= u <= 0xD
    ||| u == 0x20
    ||| u == 0x85
    ||| u == 0xA0
    ||| u == 0x1680
    ||| 0x2000 <= u <= 0x200A
    ||| u == 0x2028
    ||| u == 0x2029
    ||| u == 0x202F
    ||| u == 0x205F
    ||| u == 0x3000
}

/// Calls `char::is_alphanumeric`. The contract names its answer
/// `unicode_alphanumeric` and, as std documents for the ASCII range, says
/// that there it holds of letters and digits only; what it answers for
/// other characters (Unicode tables) is left unsaid.
#[verifier::external_body]
pub(crate) fn char_is_alphanumeric(c: char) -> (r: bool)
    ensures
        r == unicode_alphanumeric(c),
        (c as u32) < 128 ==> (r <==> is_ascii_alnum(c)),
{
    c.is_alphanumeric()
}

/// Calls `char::is_whitespace`, which std documents as the `White_Space`
/// property of Unicode's PropList; the contract states that property's
/// code points.
#[verifier::external_body]
pub(crate) fn char_is_whitespace(c: char) -> (r: bool)
    ensures
        r == unicode_whitespace(c),
        (c as u32) < 128 ==> (r <==> is_ascii_white(c)),
{
    c.is_whitespace()
}

// ---------------------------------------------------------------------
// Display widths.

/// The control characters, which have no display width: `U+0000` to
/// `U+001F` and `U+007F` to `U+009F`.
pub open spec fn is_control(c: char) -> bool {
    (c as u32) < 0x20 || (0x7F <= (c as u32) && (c as u32) < 0xA0)
}

/// The display width, in columns, that `unicode-width` gives a character
/// outside ASCII that is not a control character.
pub uninterp spec fn unicode_char_width(c: char) -> nat;

/// What `UnicodeWidthChar::width` gives for `c`.
pub open spec fn char_width_spec(c: char) -> Option<nat> {
    if is_control(c) {
        None
    } else if (c as u32) < 0x7F {
        Some(1)
    } else {
        Some(unicode_char_width(c))
    }
}

/// Calls `unicode_width::UnicodeWidthChar::width`. Its source answers
/// `None` for control characters, 1 for printable ASCII, and otherwise looks
/// the width up in Unicode tables (named `unicode_char_width` here), which
/// hold no width above 3.
#[verifier::external_body]
pub(crate) fn char_width(c: char) -> (r: Option<usize>)
    ensures
        match r {
            Some(w) => char_width_spec(c) == Some(w as nat),
            None => char_width_spec(c) is None,
        },
        r matches Some(w) ==> w <= 3,
        (c as u32) >= 0xA0 ==> r == Some(unicode_char_width(c) as usize),
{
    unicode_width::UnicodeWidthChar::width(c)
}

/// The width of the characters of `s` that have one, added up (control
/// characters count for nothing).
pub open spec fn width_sum(s: Seq<char>) -> nat
    decreases s.len(),
{
    if s.len() == 0 {
        0
    } else {
        width_sum(s.drop_last()) + match char_width_spec(s.last()) {
            Some(w) => w,
            None => 0,
        }
    }
}

/// Every character of `s` is printable ASCII.
pub open spec fn is_printable_ascii(s: Seq<char>) -> bool {
    forall|i: int| 0 <= i < s.len() ==> 0x20 <= (#[trigger] s[i] as u32) < 0x7F
}

/// Printable ASCII characters are one column wide each.
pub proof fn lemma_ascii_width(s: Seq<char>)
    requires
        is_printable_ascii(s),
    ensures
        width_sum(s) == s.len(),
    decreases s.len(),
{
    if s.len() > 0 {
        assert(is_printable_ascii(s.drop_last())) by {
            assert forall|i: int| 0 <= i < s.drop_last().len() implies 0x20 <= (
            #[trigger] s.drop_last()[i] as u32) < 0x7F by {
                assert(s.drop_last()[i] == s[i]);
            }
        }
        lemma_ascii_width(s.drop_last());
        assert(0x20 <= (s[s.len() - 1] as u32) < 0x7F);
    }
}

/// The sum of the display widths of the characters of `s` that have one.
pub fn chars_width_sum(s: &Vec<char>) -> (r: u128)
    ensures
        r == width_sum(s@),
{
    let n = s.len();
    let mut sum: u128 = 0;
    let mut i: usize = 0;
    assert(s@.take(0) =~= Seq::<char>::empty());
    while i < n
        invariant
            i <= n,
            n == s@.len(),
            sum == width_sum(s@.take(i as int)),
            sum <= 3 * i,
        decreases n - i,
    {
        assert(s@.take(i + 1).drop_last() =~= s@.take(i as int));
        match char_width(s[i]) {
            Some(w) => {
                sum = sum + w as u128;
            },
            None => {},
        }
        i = i + 1;
    }
    assert(s@.take(n as int) =~= s@);
    sum
}

/// `n` copies of `c`.
pub open spec fn repeat_seq(c: char, n: nat) -> Seq<char> {
    Seq::new(n, |i: int| c)
}

/// `piece` stands somewhere in `s`, as a run of consecutive characters.
pub open spec fn occurs_in(s: Seq<char>, piece: Seq<char>) -> bool {
    exists|i: int|
        0 <= i && i + piece.len() <= s.len() && #[trigger] s.subrange(i, i + piece.len()) == piece
}

/// What stands in a text still stands in it with more text before and
/// after it.
pub proof fn lemma_occurs_in_concat(a: Seq<char>, b: Seq<char>, c: Seq<char>, piece: Seq<char>)
    requires
        occurs_in(b, piece),
    ensures
        occurs_in(a + b + c, piece),
{
    let i = choose|i: int|
        0 <= i && i + piece.len() <= b.len() && #[trigger] b.subrange(i, i + piece.len()) == piece;
    let j = a.len() + i;
    assert((a + b + c).subrange(j, j + piece.len()) =~= b.subrange(i, i + piece.len()));
}

/// What stands in a text still stands in it with more text after it.
pub proof fn lemma_occurs_in_prefix(a: Seq<char>, b: Seq<char>, piece: Seq<char>)
    requires
        occurs_in(a, piece),
    ensures
        occurs_in(a + b, piece),
{
    let i = choose|i: int|
        0 <= i && i + piece.len() <= a.len() && #[trigger] a.subrange(i, i + piece.len()) == piece;
    assert((a + b).subrange(i, i + piece.len()) =~= a.subrange(i, i + piece.len()));
}

/// What stands in a text still stands in it with more text before it.
pub proof fn lemma_occurs_in_suffix(a: Seq<char>, b: Seq<char>, piece: Seq<char>)
    requires
        occurs_in(b, piece),
    ensures
        occurs_in(a + b, piece),
{
    let i = choose|i: int|
        0 <= i && i + piece.len() <= b.len() && #[trigger] b.subrange(i, i + piece.len()) == piece;
    let j = a.len() + i;
    assert((a + b).subrange(j, j + piece.len()) =~= b.subrange(i, i + piece.len()));
}

/// A text stands in itself.
pub proof fn lemma_occurs_in_self(s: Seq<char>)
    ensures
        occurs_in(s, s),
{
    let z: int = 0;
    assert(s.subrange(z, z + s.len()) =~= s);
}

/// A `String` of `n` copies of `c`.
pub fn repeat_char(c: char, n: usize) -> (r: String)
    ensures
        r@ == repeat_seq(c, n as nat),
{
    let mut v: Vec<char> = Vec::new();
    let mut i: usize = 0;
    while i < n
        invariant
            i <= n,
            v@ == repeat_seq(c, i as nat),
        decreases n - i,
    {
        v.push(c);
        i = i + 1;
        assert(v@ =~= repeat_seq(c, i as nat));
    }
    string_from_chars(v.as_slice())
}

// ---------------------------------------------------------------------
// Trimming.

/// `s` without its leading whitespace.
pub open spec fn trim_start_seq(s: Seq<char>) -> Seq<char>
    decreases s.len(),
{
    if s.len() > 0 && unicode_whitespace(s[0]) {
        trim_start_seq(s.drop_first())
    } else {
        s
    }
}

/// `s` without its trailing whitespace.
pub open spec fn trim_end_seq(s: Seq<char>) -> Seq<char>
    decreases s.len(),
{
    if s.len() > 0 && unicode_whitespace(s.last()) {
        trim_end_seq(s.drop_last())
    } else {
        s
    }
}

/// `s` without leading and trailing whitespace, as `str::trim` gives it.
pub open spec fn trim_seq(s: Seq<char>) -> Seq<char> {
    trim_end_seq(trim_start_seq(s))
}

/// Removes leading and trailing whitespace.
pub fn trim_chars(s: &Vec<char>) -> (r: Vec<char>)
    ensures
        r@ == trim_seq(s@),
{
    let n = s.len();
    let mut i: usize = 0;
    assert(s@.subrange(0, n as int) =~= s@);
    while i < n && char_is_whitespace(s[i])
        invariant
            i <= n,
            n == s@.len(),
            trim_start_seq(s@) == trim_start_seq(s@.subrange(i as int, n as int)),
        decreases n - i,
    {
        assert(s@.subrange(i as int, n as int).drop_first() =~= s@.subrange(i + 1, n as int));
        i = i + 1;
    }
    let ghost mid = s@.subrange(i as int, n as int);
    assert(trim_start_seq(s@) == mid) by {
        assert(s@.subrange(n as int, n as int).len() == 0);
    }
    let mut j: usize = n;
    while j > i && char_is_whitespace(s[j - 1])
        invariant
            i <= j <= n,
            n == s@.len(),
            mid == s@.subrange(i as int, n as int),
            trim_end_seq(mid) == trim_end_seq(s@.subrange(i as int, j as int)),
        decreases j,
    {
        assert(s@.subrange(i as int, j as int).drop_last() =~= s@.subrange(i as int, j - 1));
        j = j - 1;
    }
    let mut r: Vec<char> = Vec::new();
    let mut k: usize = i;
    while k < j
        invariant
            i <= k <= j <= n,
            n == s@.len(),
            r@ == s@.subrange(i as int, k as int),
        decreases j - k,
    {
        r.push(s[k]);
        assert(r@ =~= s@.subrange(i as int, k + 1));
        k = k + 1;
    }
    r
}

/// `str::trim` on a string slice, as an owned `String`.
pub fn trim(s: &str) -> (r: String)
    ensures
        r@ == trim_seq(s@),
{
    let cs = str_chars(s);
    let t = trim_chars(&cs);
    string_from_chars(t.as_slice())
}

// ---------------------------------------------------------------------
// Splitting.

/// The pieces of `s` between occurrences of `sep`, as `str::split` with a
/// `char` pattern yields them: one more piece than there are separators.
pub open spec fn split_seq(s: Seq<char>, sep: char) -> Seq<Seq<char>>
    decreases s.len(),
{
    if s.len() == 0 {
        seq![Seq::<char>::empty()]
    } else {
        let rest = split_seq(s.drop_last(), sep);
        if s.last() == sep {
            rest.push(Seq::<char>::empty())
        } else {
            rest.update(rest.len() - 1, rest.last().push(s.last()))
        }
    }
}

/// There is always at least one piece.
pub proof fn lemma_split_nonempty(s: Seq<char>, sep: char)
    ensures
        split_seq(s, sep).len() >= 1,
    decreases s.len(),
{
    if s.len() > 0 {
        lemma_split_nonempty(s.drop_last(), sep);
    }
}

/// Text without the separator is one piece.
pub proof fn lemma_split_single(s: Seq<char>, sep: char)
    requires
        !s.contains(sep),
    ensures
        split_seq(s, sep) == seq![s],
    decreases s.len(),
{
    if s.len() > 0 {
        assert(!s.drop_last().contains(sep)) by {
            if s.drop_last().contains(sep) {
                let k = choose|k: int| 0 <= k < s.drop_last().len() && s.drop_last()[k] == sep;
                assert(s[k] == sep);
            }
        }
        lemma_split_single(s.drop_last(), sep);
        assert(s.last() != sep) by {
            assert(s[s.len() - 1] == s.last());
        }
        assert(s.drop_last().push(s.last()) =~= s);
        let rest = split_seq(s.drop_last(), sep);
        assert(rest == seq![s.drop_last()]);
        assert(rest.update(0, rest.last().push(s.last())) =~= seq![s]);
    } else {
        assert(s =~= Seq::<char>::empty());
    }
}

/// A first piece without the separator, the separator, then the rest: the
/// pieces are the first one, then those of the rest.
pub proof fn lemma_split_concat(a: Seq<char>, b: Seq<char>, sep: char)
    requires
        !a.contains(sep),
    ensures
        split_seq(a + seq![sep] + b, sep) == seq![a] + split_seq(b, sep),
    decreases b.len(),
{
    let s = a + seq![sep] + b;
    if b.len() == 0 {
        assert(s.drop_last() =~= a);
        lemma_split_single(a, sep);
        assert(split_seq(s, sep) =~= seq![a] + split_seq(b, sep));
    } else {
        lemma_split_concat(a, b.drop_last(), sep);
        assert(s.drop_last() =~= a + seq![sep] + b.drop_last());
        lemma_split_nonempty(b.drop_last(), sep);
        assert(s.last() == b.last());
        assert(split_seq(s, sep) =~= seq![a] + split_seq(b, sep));
    }
}

/// Splits `s` at every `sep`.
pub fn split_chars(s: &Vec<char>, sep: char) -> (r: Vec<String>)
    ensures
        r.deep_view() == split_seq(s@, sep),
{
    let mut done: Vec<String> = Vec::new();
    let mut cur: Vec<char> = Vec::new();
    let n = s.len();
    let mut i: usize = 0;
    assert(s@.take(0) =~= Seq::<char>::empty());
    assert(done.deep_view().push(cur@) =~= seq![Seq::<char>::empty()]);
    while i < n
        invariant
            i <= n,
            n == s@.len(),
            split_seq(s@.take(i as int), sep) == done.deep_view().push(cur@),
        decreases n - i,
    {
        let c = s[i];
        let ghost pre = done.deep_view();
        assert(s@.take(i + 1).drop_last() =~= s@.take(i as int));
        if c == sep {
            let piece = string_from_chars(cur.as_slice());
            done.push(piece);
            cur = Vec::new();
            assert(done.deep_view() =~= pre.push(piece@));
            assert(split_seq(s@.take(i + 1), sep) =~= done.deep_view().push(cur@));
        } else {
            cur.push(c);
            assert(split_seq(s@.take(i + 1), sep) =~= done.deep_view().push(cur@));
        }
        i = i + 1;
    }
    let ghost pre = done.deep_view();
    let last = string_from_chars(cur.as_slice());
    done.push(last);
    assert(done.deep_view() =~= pre.push(cur@));
    assert(s@.take(n as int) =~= s@);
    done
}

// ---------------------------------------------------------------------
// Decimal numbers.

/// The character of a decimal digit.
pub open spec fn digit_char(d: nat) -> char {
    if d == 0 {
        '0'
    } else if d == 1 {
        '1'
    } else if d == 2 {
        '2'
    } else if d == 3 {
        '3'
    } else if d == 4 {
        '4'
    } else if d == 5 {
        '5'
    } else if d == 6 {
        '6'
    } else if d == 7 {
        '7'
    } else if d == 8 {
        '8'
    } else {
        '9'
    }
}

/// Whether `c` is one of `'0'..='9'`.
pub open spec fn is_digit(c: char) -> bool {
    '0' as u32 <= c as u32 && c as u32 <= '9' as u32
}

/// The value of a decimal digit character.
pub open spec fn digit_value(c: char) -> nat {
    (c as u32 - '0' as u32) as nat
}

/// The decimal representation of `n`, without leading zeros, as `Display`
/// writes unsigned integers.
pub open spec fn dec_seq(n: nat) -> Seq<char>
    decreases n,
{
    if n < 10 {
        seq![digit_char(n)]
    } else {
        dec_seq(n / 10).push(digit_char(n % 10))
    }
}

/// The decimal representation of `n` is a non-empty run of digits whose
/// value is `n`.
proof fn lemma_digit_char(d: nat)
    requires
        d < 10,
    ensures
        is_digit(digit_char(d)),
        digit_value(digit_char(d)) == d,
{
    assert('0' as u32 == 48);
    assert('9' as u32 == 57);
    if d == 0 {
    } else if d == 1 {
        assert('1' as u32 == 49);
    } else if d == 2 {
        assert('2' as u32 == 50);
    } else if d == 3 {
        assert('3' as u32 == 51);
    } else if d == 4 {
        assert('4' as u32 == 52);
    } else if d == 5 {
        assert('5' as u32 == 53);
    } else if d == 6 {
        assert('6' as u32 == 54);
    } else if d == 7 {
        assert('7' as u32 == 55);
    } else if d == 8 {
        assert('8' as u32 == 56);
    }
}

pub proof fn lemma_dec_digits(n: nat)
    ensures
        dec_seq(n).len() > 0,
        all_digits(dec_seq(n)),
        digits_value(dec_seq(n)) == n,
    decreases n,
{
    lemma_digit_char(n % 10);
    if n < 10 {
        let s = dec_seq(n);
        assert(s.drop_last() =~= Seq::<char>::empty());
        assert(digits_value(s) == digits_value(s.drop_last()) * 10 + digit_value(s.last()));
        assert(s.last() == digit_char(n));
    } else {
        lemma_dec_digits(n / 10);
        let s = dec_seq(n);
        assert(s.drop_last() =~= dec_seq(n / 10));
        assert(n / 10 * 10 + n % 10 == n) by (nonlinear_arith);
        assert(digits_value(s) == digits_value(s.drop_last()) * 10 + digit_value(s.last()));
        assert(s.last() == digit_char(n % 10));
        assert forall|i: int| 0 <= i < s.len() implies is_digit(#[trigger] s[i]) by {
            if i < s.len() - 1 {
                assert(s[i] == dec_seq(n / 10)[i]);
            }
        }
    }
}

/// What `str::parse` reads back of what `Display` writes for an unsigned
/// number is the number.
pub proof fn lemma_parse_dec(n: nat, max: nat)
    requires
        n <= max,
    ensures
        parse_nat_seq(dec_seq(n), max) == Some(n),
{
    lemma_dec_digits(n);
    assert(is_digit(dec_seq(n)[0]));
}

/// The decimal representation of a signed number, as `Display` writes it.
pub open spec fn dec_int_seq(i: int) -> Seq<char> {
    if i < 0 {
        seq!['-'] + dec_seq((-i) as nat)
    } else {
        dec_seq(i as nat)
    }
}

fn digit_of(d: u128) -> (c: char)
    requires
        d < 10,
    ensures
        c == digit_char(d as nat),
{
    if d == 0 {
        '0'
    } else if d == 1 {
        '1'
    } else if d == 2 {
        '2'
    } else if d == 3 {
        '3'
    } else if d == 4 {
        '4'
    } else if d == 5 {
        '5'
    } else if d == 6 {
        '6'
    } else if d == 7 {
        '7'
    } else if d == 8 {
        '8'
    } else {
        '9'
    }
}

/// Appends the decimal representation of `n` to `out`.
pub fn push_dec(out: &mut Vec<char>, n: u128)
    ensures
        final(out)@ == old(out)@ + dec_seq(n as nat),
    decreases n,
{
    if n >= 10 {
        push_dec(out, n / 10);
    }
    out.push(digit_of(n % 10));
    assert(out@ =~= old(out)@ + dec_seq(n as nat));
}

/// Appends the decimal representation of a signed `n` to `out`.
pub fn push_dec_signed(out: &mut Vec<char>, n: i64)
    ensures
        final(out)@ == old(out)@ + dec_int_seq(n as int),
{
    if n < 0 {
        out.push('-');
        let m: u128 = if n == i64::MIN {
            9223372036854775808u128
        } else {
            (-n) as u128
        };
        push_dec(out, m);
        assert(out@ =~= old(out)@ + dec_int_seq(n as int));
    } else {
        push_dec(out, n as u128);
    }
}

/// The value of a string of decimal digits (0 for the empty string).
pub open spec fn digits_value(s: Seq<char>) -> nat
    decreases s.len(),
{
    if s.len() == 0 {
        0
    } else {
        digits_value(s.drop_last()) * 10 + digit_value(s.last())
    }
}

/// Every character of `s` is a decimal digit.
pub open spec fn all_digits(s: Seq<char>) -> bool {
    forall|i: int| 0 <= i < s.len() ==> is_digit(#[trigger] s[i])
}

/// What `str::parse` gives for an unsigned integer type whose largest
/// value is `max`: an optional `+`, then at least one digit, and no
/// overflow.
pub open spec fn parse_nat_seq(s: Seq<char>, max: nat) -> Option<nat> {
    let body = if s.len() > 0 && s[0] == '+' {
        s.drop_first()
    } else {
        s
    };
    if body.len() > 0 && all_digits(body) && digits_value(body) <= max {
        Some(digits_value(body))
    } else {
        None
    }
}

/// What `str::parse` gives for a signed integer type from `min` to `max`:
/// an optional `+` or `-`, then at least one digit, and no overflow.
pub open spec fn parse_int_seq(s: Seq<char>, min: int, max: int) -> Option<int> {
    if s.len() > 0 && s[0] == '-' {
        let body = s.drop_first();
        if body.len() > 0 && all_digits(body) && -digits_value(body) >= min {
            Some(-digits_value(body))
        } else {
            None
        }
    } else {
        match parse_nat_seq(s, max as nat) {
            Some(v) => Some(v as int),
            None => None,
        }
    }
}

/// A longer run of digits is worth at least as much as its prefix.
proof fn lemma_digits_value_prefix(s: Seq<char>, k: int)
    requires
        0 <= k <= s.len(),
    ensures
        digits_value(s.take(k)) <= digits_value(s),
    decreases s.len() - k,
{
    if k < s.len() {
        lemma_digits_value_prefix(s, k + 1);
        assert(s.take(k + 1).drop_last() =~= s.take(k));
    } else {
        assert(s.take(k) =~= s);
    }
}

proof fn lemma_mul10_bound(v: nat, d: nat, max: nat)
    requires
        d < 10,
    ensures
        (v * 10 + d <= max) <==> (v < max / 10 || (v == max / 10 && d <= max % 10)),
{
    assert((v * 10 + d <= max) <==> (v < max / 10 || (v == max / 10 && d <= max % 10)))
        by (nonlinear_arith)
        requires
            d < 10,
    ;
}

/// Parses the digits `s[start..]` as a number no larger than `max`.
fn parse_digits(s: &Vec<char>, start: usize, max: u128) -> (r: Option<u128>)
    requires
        start <= s@.len(),
    ensures
        ({
            let body = s@.subrange(start as int, s@.len() as int);
            match r {
                Some(v) => body.len() > 0 && all_digits(body) && digits_value(body) <= max
                    && v == digits_value(body),
                None => !(body.len() > 0 && all_digits(body) && digits_value(body) <= max),
            }
        }),
{
    let n = s.len();
    let ghost body = s@.subrange(start as int, n as int);
    if start == n {
        return None;
    }
    let mut v: u128 = 0;
    let mut i: usize = start;
    assert(body.take(0) =~= Seq::<char>::empty());
    while i < n
        invariant
            start <= i <= n,
            n == s@.len(),
            body == s@.subrange(start as int, n as int),
            all_digits(body.take(i - start)),
            v == digits_value(body.take(i - start)),
            v <= max,
        decreases n - i,
    {
        let c = s[i];
        assert(body[i - start] == c);
        let cu = c as u32;
        if !(48 <= cu && cu <= 57) {
            assert(!is_digit(body[i - start]));
            assert(!all_digits(body));
            return None;
        }
        let d: u128 = (cu - 48) as u128;
        assert(body.take(i - start + 1).drop_last() =~= body.take(i - start));
        proof {
            lemma_mul10_bound(v as nat, d as nat, max as nat);
        }
        if v > max / 10 || (v == max / 10 && d > max % 10) {
            proof {
                lemma_digits_value_prefix(body, i - start + 1);
            }
            return None;
        }
        v = v * 10 + d;
        i = i + 1;
        assert(all_digits(body.take(i - start)));
    }
    assert(body.take(n - start) =~= body);
    Some(v)
}

/// `str::parse::<T>` for an unsigned integer type `T` whose largest value is `max`.
pub fn parse_unsigned(s: &Vec<char>, max: u128) -> (r: Option<u128>)
    ensures
        match r {
            Some(v) => parse_nat_seq(s@, max as nat) == Some(v as nat),
            None => parse_nat_seq(s@, max as nat) is None,
        },
{
    let start: usize = if s.len() > 0 && s[0] == '+' {
        1
    } else {
        0
    };
    assert(s@.subrange(start as int, s@.len() as int) =~= (if s@.len() > 0 && s@[0] == '+' {
        s@.drop_first()
    } else {
        s@
    }));
    parse_digits(s, start, max)
}

/// `str::parse::<T>` for a signed integer type `T` whose values lie
/// between `-(max + 1)` and `max`.
pub fn parse_signed(s: &Vec<char>, max: u128) -> (r: Option<(bool, u128)>)
    requires
        max < u128::MAX,
    ensures
        match r {
            Some((neg, v)) => parse_int_seq(s@, -(max + 1), max as int) == Some(
                if neg {
                    -(v as int)
                } else {
                    v as int
                },
            ),
            None => parse_int_seq(s@, -(max + 1), max as int) is None,
        },
{
    if s.len() > 0 && s[0] == '-' {
        assert(s@.subrange(1, s@.len() as int) =~= s@.drop_first());
        match parse_digits(s, 1, max + 1) {
            Some(v) => Some((true, v)),
            None => None,
        }
    } else {
        match parse_unsigned(s, max) {
            Some(v) => Some((false, v)),
            None => None,
        }
    }
}

} // verus!
