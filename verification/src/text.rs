//! Text helpers: comparison, searching and decimal rendering, each stated over the
//! characters (or, where order matters, the bytes) of the strings involved.

use vstd::prelude::*;
use vstd::string::*;
use vstd::utf8::encode_utf8_decode_utf8;

verus! {

/// Whether two strings hold the same characters.
pub fn same(a: &str, b: &str) -> (r: bool)
    ensures
        r == (a@ == b@),
{
    let x: &[u8] = a.as_bytes();
    let y: &[u8] = b.as_bytes();
    proof {
        encode_utf8_decode_utf8(a@);
        encode_utf8_decode_utf8(b@);
    }
    if x.len() != y.len() {
        return false;
    }
    let mut i: usize = 0;
    while i < x.len()
        invariant
            x.len() == y.len(),
            x@ == a.spec_bytes(),
            y@ == b.spec_bytes(),
            i <= x.len(),
            forall|k: int| 0 <= k < i ==> x@[k] == y@[k],
        decreases x.len() - i,
    {
        if x[i] != y[i] {
            return false;
        }
        i = i + 1;
    }
    assert(x@ =~= y@);
    true
}

/// Whether an optional string is present and holds exactly these characters.
pub fn is_some_text(a: &Option<String>, b: &str) -> (r: bool)
    ensures
        r == (a matches Some(t) && t@ == b@),
{
    match a {
        Some(t) => same(t.as_str(), b),
        None => false,
    }
}

/// Byte-wise lexicographic order, the order in which `str` values compare.
pub open spec fn lex_less(a: Seq<u8>, b: Seq<u8>) -> bool
    decreases a.len(),
{
    if b.len() == 0 {
        false
    } else if a.len() == 0 {
        true
    } else if a[0] != b[0] {
        a[0] < b[0]
    } else {
        lex_less(a.skip(1), b.skip(1))
    }
}

/// Whether `a` sorts strictly before `b`.
pub fn less(a: &str, b: &str) -> (r: bool)
    ensures
        r == lex_less(a.spec_bytes(), b.spec_bytes()),
{
    let x: &[u8] = a.as_bytes();
    let y: &[u8] = b.as_bytes();
    let mut i: usize = 0;
    assert(x@.skip(0) =~= x@ && y@.skip(0) =~= y@);
    while i < x.len() && i < y.len()
        invariant
            x@ == a.spec_bytes(),
            y@ == b.spec_bytes(),
            i <= x.len(),
            i <= y.len(),
            lex_less(a.spec_bytes(), b.spec_bytes()) == lex_less(
                x@.skip(i as int),
                y@.skip(i as int),
            ),
        decreases x.len() - i,
    {
        assert(x@.skip(i as int)[0] == x@[i as int]);
        assert(y@.skip(i as int)[0] == y@[i as int]);
        if x[i] != y[i] {
            return x[i] < y[i];
        }
        assert(x@.skip(i as int).skip(1) =~= x@.skip(i + 1));
        assert(y@.skip(i as int).skip(1) =~= y@.skip(i + 1));
        i = i + 1;
    }
    i < y.len()
}

/// Of two different keys exactly one sorts first; no key sorts before itself.
pub proof fn lemma_lex_less_total(a: Seq<u8>, b: Seq<u8>)
    ensures
        !lex_less(a, a),
        a != b ==> (lex_less(a, b) <==> !lex_less(b, a)),
    decreases a.len(),
{
    if a.len() > 0 {
        lemma_lex_less_total(a.skip(1), b.skip(1));
        if b.len() > 0 && a[0] == b[0] {
            if a.skip(1) == b.skip(1) {
                assert(a =~= seq![a[0]] + a.skip(1));
                assert(b =~= seq![b[0]] + b.skip(1));
            }
        }
    } else if b.len() == 0 {
        assert(a =~= b);
    }
}

/// What sorts first is decided where two texts first differ: the smaller byte sorts first, and a
/// text that ends there sorts before one that goes on.
pub proof fn lemma_the_first_difference_decides(a: Seq<u8>, b: Seq<u8>, k: int)
    requires
        0 <= k <= a.len(),
        k < b.len(),
        forall|i: int| 0 <= i < k ==> a[i] == b[i],
        k == a.len() || a[k] < b[k],
    ensures
        lex_less(a, b),
        !lex_less(b, a),
    decreases k,
{
    if k > 0 {
        lemma_the_first_difference_decides(a.skip(1), b.skip(1), k - 1);
    }
}

/// The characters of a string, in order.
pub fn chars_of(s: &str) -> (out: Vec<char>)
    ensures
        out@ == s@,
{
    let n: usize = s.unicode_len();
    let mut out: Vec<char> = Vec::new();
    let mut i: usize = 0;
    while i < n
        invariant
            n == s@.len(),
            i <= n,
            out@ == s@.take(i as int),
        decreases n - i,
    {
        out.push(s.get_char(i));
        i = i + 1;
    }
    out
}

/// Whether `part` stands in `s` at position `at`.
pub open spec fn stands_at(s: Seq<char>, part: Seq<char>, at: int) -> bool {
    0 <= at && at + part.len() <= s.len() && s.subrange(at, at + part.len()) == part
}

fn stands_at_exec(s: &Vec<char>, part: &Vec<char>, at: usize) -> (r: bool)
    requires
        at + part@.len() <= s@.len(),
    ensures
        r == stands_at(s@, part@, at as int),
{
    let n: usize = s.len();
    let mut i: usize = 0;
    while i < part.len()
        invariant
            n == s@.len(),
            at + part@.len() <= n,
            i <= part.len(),
            forall|k: int| 0 <= k < i ==> s@[at + k] == part@[k],
        decreases part.len() - i,
    {
        if s[at + i] != part[i] {
            proof {
                let sub = s@.subrange(at as int, at + part@.len());
                assert(sub[i as int] == s@[at + i]);
            }
            return false;
        }
        i = i + 1;
    }
    assert(s@.subrange(at as int, at + part@.len()) =~= part@);
    true
}

/// Whether `s` begins with `part`.
pub fn starts_with(s: &str, part: &str) -> (r: bool)
    ensures
        r == stands_at(s@, part@, 0),
{
    let a: Vec<char> = chars_of(s);
    let b: Vec<char> = chars_of(part);
    if b.len() <= a.len() {
        stands_at_exec(&a, &b, 0)
    } else {
        false
    }
}

/// Whether `s` ends with `part`.
pub fn ends_with(s: &str, part: &str) -> (r: bool)
    ensures
        r == stands_at(s@, part@, s@.len() - part@.len()),
{
    let a: Vec<char> = chars_of(s);
    let b: Vec<char> = chars_of(part);
    if b.len() <= a.len() {
        stands_at_exec(&a, &b, a.len() - b.len())
    } else {
        false
    }
}

/// Whether `part` stands anywhere in `s`.
pub open spec fn occurs_in(s: Seq<char>, part: Seq<char>) -> bool {
    exists|at: int| stands_at(s, part, at)
}

/// Whether `part` occurs in `s`.
pub fn contains(s: &str, part: &str) -> (r: bool)
    ensures
        r == occurs_in(s@, part@),
{
    let a: Vec<char> = chars_of(s);
    let b: Vec<char> = chars_of(part);
    if b.len() > a.len() {
        return false;
    }
    let last: usize = a.len() - b.len();
    let mut at: usize = 0;
    while at <= last
        invariant
            a@ == s@,
            b@ == part@,
            last == a@.len() - b@.len(),
            at <= last + 1,
            forall|k: int| 0 <= k < at ==> !stands_at(s@, part@, k),
        decreases last + 1 - at,
    {
        if stands_at_exec(&a, &b, at) {
            return true;
        }
        if at == last {
            return false;
        }
        at = at + 1;
    }
    false
}

/// The first `n` characters of `s`, or all of it.
pub fn first_chars(s: &str, n: usize) -> (r: String)
    ensures
        r@ == s@.take(if n < s@.len() { n as int } else { s@.len() as int }),
{
    let len: usize = s.unicode_len();
    let end: usize = if n < len { n } else { len };
    s.substring_char(0, end).to_owned()
}

/// A decimal digit as a character.
pub open spec fn digit(d: nat) -> char {
    (48 + d) as char
}

/// The decimal numeral of `n`, without leading zeroes.
pub open spec fn decimal(n: nat) -> Seq<char>
    decreases n,
{
    if n < 10 {
        seq![digit(n)]
    } else {
        decimal(n / 10).push(digit(n % 10))
    }
}

fn push_digit(out: &mut String, d: u64)
    requires
        d < 10,
    ensures
        final(out)@ == old(out)@.push(digit(d as nat)),
{
    proof {
        reveal_strlit("0");
        reveal_strlit("1");
        reveal_strlit("2");
        reveal_strlit("3");
        reveal_strlit("4");
        reveal_strlit("5");
        reveal_strlit("6");
        reveal_strlit("7");
        reveal_strlit("8");
        reveal_strlit("9");
    }
    let text: &str = if d == 0 {
        "0"
    } else if d == 1 {
        "1"
    } else if d == 2 {
        "2"
    } else if d == 3 {
        "3"
    } else if d == 4 {
        "4"
    } else if d == 5 {
        "5"
    } else if d == 6 {
        "6"
    } else if d == 7 {
        "7"
    } else if d == 8 {
        "8"
    } else {
        "9"
    };
    assert(text@ =~= seq![digit(d as nat)]);
    out.append(text);
}

/// Append the decimal numeral of `n`.
pub fn push_decimal(out: &mut String, n: u64)
    ensures
        final(out)@ == old(out)@ + decimal(n as nat),
    decreases n,
{
    if n >= 10 {
        push_decimal(out, n / 10);
    }
    let ghost before = out@;
    push_digit(out, n % 10);
    proof {
        if n >= 10 {
            assert(old(out)@ + decimal((n / 10) as nat).push(digit((n % 10) as nat)) =~= before.push(
                digit((n % 10) as nat),
            ));
        } else {
            assert(old(out)@ + seq![digit(n as nat)] =~= before.push(digit(n as nat)));
        }
    }
}

/// Append `n` as at least two decimal digits.
pub fn push_two_digits(out: &mut String, n: u64)
    requires
        n < 100,
    ensures
        final(out)@ == old(out)@ + seq![digit((n / 10) as nat), digit((n % 10) as nat)],
{
    push_digit(out, n / 10);
    push_digit(out, n % 10);
    assert(final(out)@ =~= old(out)@ + seq![digit((n / 10) as nat), digit((n % 10) as nat)]);
}

/// What `str::to_lowercase` makes of a text.
pub uninterp spec fn lowercase_of(s: Seq<char>) -> Seq<char>;

/// Calls `str::to_lowercase`. The contract claims that the result depends on the
/// characters of the argument alone; which characters map to which is left to the
/// standard library's Unicode tables.
#[verifier::external_body]
pub(crate) fn to_lowercase(s: &str) -> (r: String)
    ensures
        r@ == lowercase_of(s@),
{
    s.to_lowercase()
}

/// Unicode has the character down as white space (the property `White_Space`).
pub open spec fn white_space(c: char) -> bool {
    let n = c as int;
    ||| 0x09 <= n <= 0x0d
    ||| n == 0x20
    ||| n == 0x85
    ||| n == 0xa0
    ||| n == 0x1680
    ||| 0x2000 <= n <= 0x200a
    ||| n == 0x2028
    ||| n == 0x2029
    ||| n == 0x202f
    ||| n == 0x205f
    ||| n == 0x3000
}

/// A text without the white space around it.
pub open spec fn trimmed_of(s: Seq<char>) -> Seq<char>
    decreases s.len(),
{
    if s.len() == 0 {
        s
    } else if white_space(s[0]) {
        trimmed_of(s.skip(1))
    } else if white_space(s.last()) {
        trimmed_of(s.drop_last())
    } else {
        s
    }
}

/// Calls `str::trim`, which gives the text without leading and trailing white space: the
/// characters that have the Unicode property `White_Space`. The contract claims exactly that.
#[verifier::external_body]
pub(crate) fn trim(s: &str) -> (r: String)
    ensures
        r@ == trimmed_of(s@),
{
    s.trim().to_string()
}

/// The number a numeral stands for, read from its first digit to its last.
pub open spec fn number_of(numeral: Seq<char>) -> int
    decreases numeral.len(),
{
    if numeral.len() == 0 {
        0
    } else {
        10 * number_of(numeral.drop_last()) + (numeral.last() as int - '0' as int)
    }
}

/// A numeral says its number, in digits alone and without a zero before it.
pub proof fn lemma_a_numeral_says_its_number(n: nat)
    ensures
        number_of(decimal(n)) == n,
        decimal(n).len() > 0,
        forall|i: int| 0 <= i < decimal(n).len() ==> '0' <= #[trigger] decimal(n)[i] && decimal(n)[i] <= '9',
        decimal(n)[0] == '0' ==> n == 0,
    decreases n,
{
    if n < 10 {
        assert(decimal(n).drop_last() =~= Seq::<char>::empty());
        assert(number_of(decimal(n).drop_last()) == 0);
    } else {
        lemma_a_numeral_says_its_number(n / 10);
        let head = decimal(n / 10);
        assert(decimal(n).drop_last() =~= head);
        assert forall|i: int| 0 <= i < decimal(n).len() implies '0' <= #[trigger] decimal(n)[i] && decimal(n)[i]
            <= '9' by {
            if i < head.len() {
                assert(decimal(n)[i] == head[i]);
            }
        }
        assert(decimal(n)[0] == head[0]);
    }
}

/// A text stands in another where it agrees with it character for character.
pub proof fn lemma_where_a_text_stands(s: Seq<char>, part: Seq<char>, at: int)
    ensures
        stands_at(s, part, at) <==> 0 <= at && at + part.len() <= s.len() && forall|k: int|
            0 <= k < part.len() ==> s[at + k] == #[trigger] part[k],
        stands_at(s, part, at) ==> occurs_in(s, part),
{
    if 0 <= at && at + part.len() <= s.len() {
        let sub = s.subrange(at, at + part.len());
        assert forall|k: int| 0 <= k < part.len() implies #[trigger] sub[k] == s[at + k] by {}
        if forall|k: int| 0 <= k < part.len() ==> s[at + k] == #[trigger] part[k] {
            assert(sub =~= part);
        }
        if sub == part {
            assert forall|k: int| 0 <= k < part.len() implies s[at + k] == #[trigger] part[k] by {
                assert(sub[k] == part[k]);
            }
        }
    }
}

/// A trimmed text is the text between the white space around it: it neither begins nor ends with
/// any, and only white space is gone.
pub proof fn lemma_only_white_space_is_trimmed(s: Seq<char>) -> (at: int)
    ensures
        0 <= at,
        at + trimmed_of(s).len() <= s.len(),
        trimmed_of(s) == s.subrange(at, at + trimmed_of(s).len()),
        forall|i: int| 0 <= i < at ==> white_space(#[trigger] s[i]),
        forall|i: int| at + trimmed_of(s).len() <= i < s.len() ==> white_space(#[trigger] s[i]),
        trimmed_of(s).len() > 0 ==> !white_space(trimmed_of(s)[0]) && !white_space(trimmed_of(s).last()),
    decreases s.len(),
{
    let r = trimmed_of(s);
    if s.len() == 0 {
        assert(r =~= s.subrange(0, 0));
        0
    } else if white_space(s[0]) {
        let rest = s.skip(1);
        let inner = lemma_only_white_space_is_trimmed(rest);
        assert(rest.subrange(inner, inner + r.len()) =~= s.subrange(inner + 1, inner + 1 + r.len()));
        assert forall|i: int| 0 <= i < inner + 1 implies white_space(#[trigger] s[i]) by {
            if i > 0 {
                assert(rest[i - 1] == s[i]);
            }
        }
        assert forall|i: int| inner + 1 + r.len() <= i < s.len() implies white_space(#[trigger] s[i]) by {
            assert(rest[i - 1] == s[i]);
        }
        inner + 1
    } else if white_space(s.last()) {
        let rest = s.drop_last();
        let inner = lemma_only_white_space_is_trimmed(rest);
        assert(rest.subrange(inner, inner + r.len()) =~= s.subrange(inner, inner + r.len()));
        assert forall|i: int| 0 <= i < inner implies white_space(#[trigger] s[i]) by {
            assert(rest[i] == s[i]);
        }
        assert forall|i: int| inner + r.len() <= i < s.len() implies white_space(#[trigger] s[i]) by {
            if i < rest.len() {
                assert(rest[i] == s[i]);
            }
        }
        inner
    } else {
        assert(r =~= s.subrange(0, s.len() as int));
        0
    }
}

} // verus!
