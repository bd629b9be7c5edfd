//! Text helpers shared by the messages of the library: decimal numbers,
//! substring search and the quoted form of an argument.
use vstd::prelude::*;

verus! {

/// The ASCII digit of `d`, for `d < 10`.
pub open spec fn digit_char(d: nat) -> char {
    if d == 0 {
        '0'
    } else if d == 1 {
        '1'
    } else if d == 2 {
        '2'
    } else if d == 3 {
        '3'
    } else if d == 4 {
        '4'
    } else if d == 5 {
        '5'
    } else if d == 6 {
        '6'
    } else if d == 7 {
        '7'
    } else if d == 8 {
        '8'
    } else {
        '9'
    }
}

/// The decimal text of `n`, without sign or leading zeros.
pub open spec fn decimal(n: nat) -> Seq<char>
    decreases n,
{
    if n < 10 {
        seq![digit_char(n)]
    } else {
        decimal(n / 10).push(digit_char(n % 10))
    }
}

fn digit_str(d: u64) -> (r: &'static str)
    requires
        d < 10,
    ensures
        r@ == seq![digit_char(d as nat)],
{
    proof {
        reveal_strlit("0");
        reveal_strlit("1");
        reveal_strlit("2");
        reveal_strlit("3");
        reveal_strlit("4");
        reveal_strlit("5");
        reveal_strlit("6");
        reveal_strlit("7");
        reveal_strlit("8");
        reveal_strlit("9");
    }
    if d == 0 {
        "0"
    } else if d == 1 {
        "1"
    } else if d == 2 {
        "2"
    } else if d == 3 {
        "3"
    } else if d == 4 {
        "4"
    } else if d == 5 {
        "5"
    } else if d == 6 {
        "6"
    } else if d == 7 {
        "7"
    } else if d == 8 {
        "8"
    } else {
        "9"
    }
}

/// Appends the decimal text of `n` to `s`.
pub fn push_decimal(s: &mut String, n: u64)
    ensures
        final(s)@ == old(s)@ + decimal(n as nat),
    decreases n,
{
    if n >= 10 {
        push_decimal(s, n / 10);
    }
    let d = digit_str(n % 10);
    s.append(d);
    proof {
        if n >= 10 {
            assert(decimal(n as nat) == decimal((n / 10) as nat).push(digit_char((n % 10) as nat)));
        }
    }
    assert(final(s)@ =~= old(s)@ + decimal(n as nat)) by {
        if n < 10 {
            assert(decimal(n as nat) == seq![digit_char(n as nat)]);
        }
    }
}

proof fn lemma_decimal_len(n: nat)
    ensures
        decimal(n).len() >= 1,
        n >= 10 ==> decimal(n).len() >= 2,
    decreases n,
{
    if n >= 10 {
        lemma_decimal_len(n / 10);
    }
}

/// Different numbers have different decimal texts.
pub proof fn lemma_decimal_injective(a: nat, b: nat)
    requires
        decimal(a) == decimal(b),
    ensures
        a == b,
    decreases a,
{
    lemma_decimal_len(a);
    lemma_decimal_len(b);
    if a >= 10 && b >= 10 {
        let da = decimal(a);
        let db = decimal(b);
        assert(da.last() == digit_char(a % 10));
        assert(db.last() == digit_char(b % 10));
        assert(da.drop_last() =~= decimal(a / 10));
        assert(db.drop_last() =~= decimal(b / 10));
        lemma_decimal_injective(a / 10, b / 10);
    } else if a < 10 && b < 10 {
        assert(decimal(a)[0] == digit_char(a));
        assert(decimal(b)[0] == digit_char(b));
    }
}

/// `pat` occurs in `hay` as a run of consecutive characters (the empty
/// pattern occurs in every text).
pub open spec fn contains_sub(hay: Seq<char>, pat: Seq<char>) -> bool {
    exists|i: int| 0 <= i <= hay.len() - pat.len() && #[trigger] hay.subrange(i, i + pat.len()) == pat
}

/// A pattern occurs in any text that holds it somewhere, at the start, in the
/// middle or at the very end.
pub proof fn lemma_contains_placed(x: Seq<char>, pat: Seq<char>, y: Seq<char>)
    ensures
        contains_sub(x + pat + y, pat),
{
    let h = x + pat + y;
    assert(h.subrange(x.len() as int, x.len() + pat.len() as int) =~= pat);
}

/// A text that contains a pattern is the pattern with some text before and
/// some after it.
pub proof fn lemma_contains_split(hay: Seq<char>, pat: Seq<char>)
    requires
        contains_sub(hay, pat),
    ensures
        exists|x: Seq<char>, y: Seq<char>| hay == #[trigger] (x + pat + y),
{
    let i = choose|i: int|
        0 <= i <= hay.len() - pat.len() && #[trigger] hay.subrange(i, i + pat.len()) == pat;
    let x = hay.subrange(0, i);
    let y = hay.subrange(i + pat.len(), hay.len() as int);
    assert(hay =~= x + pat + y);
}

fn chars_of(s: &str) -> (r: Vec<char>)
    ensures
        r@ == s@,
{
    let n = s.unicode_len();
    let mut v: Vec<char> = Vec::new();
    let mut i: usize = 0;
    while i < n
        invariant
            n == s@.len(),
            i <= n,
            v@ == s@.subrange(0, i as int),
        decreases n - i,
    {
        v.push(s.get_char(i));
        i = i + 1;
        assert(v@ =~= s@.subrange(0, i as int));
    }
    assert(v@ =~= s@);
    v
}

fn occurs_at(hay: &Vec<char>, pat: &Vec<char>, i: usize) -> (r: bool)
    requires
        i + pat.len() <= hay.len(),
    ensures
        r == (hay@.subrange(i as int, i + pat.len()) == pat@),
{
    let mut k: usize = 0;
    while k < pat.len()
        invariant
            i + pat.len() <= hay.len(),
            k <= pat.len(),
            forall|j: int| 0 <= j < k ==> hay@[i + j] == pat@[j],
        decreases pat.len() - k,
    {
        if hay[i + k] != pat[k] {
            assert(hay@.subrange(i as int, i + pat.len())[k as int] != pat@[k as int]);
            return false;
        }
        k = k + 1;
    }
    assert(hay@.subrange(i as int, i + pat.len()) =~= pat@);
    true
}

/// Whether `pat` occurs in `hay`, as `str::contains` answers it.
pub fn str_contains(hay: &str, pat: &str) -> (r: bool)
    ensures
        r == contains_sub(hay@, pat@),
{
    let h = chars_of(hay);
    let p = chars_of(pat);
    if p.len() > h.len() {
        return false;
    }
    let last = h.len() - p.len();
    let mut i: usize = 0;
    loop
        invariant
            last == h.len() - p.len(),
            i <= last,
            h@ == hay@,
            p@ == pat@,
            forall|j: int| 0 <= j < i ==> #[trigger] hay@.subrange(j, j + pat@.len()) != pat@,
        decreases last - i,
    {
        if occurs_at(&h, &p, i) {
            return true;
        }
        if i == last {
            assert(forall|j: int|
                0 <= j <= last ==> #[trigger] hay@.subrange(j, j + pat@.len()) != pat@);
            return false;
        }
        i = i + 1;
    }
}

/// `a` comes no later than `b` in the order of their characters' code points,
/// a prefix first. On UTF-8 strings this is the byte order that `str` sorts by.
pub open spec fn lex_le(a: Seq<char>, b: Seq<char>) -> bool
    decreases a.len(),
{
    if a.len() == 0 {
        true
    } else if b.len() == 0 {
        false
    } else if a[0] == b[0] {
        lex_le(a.drop_first(), b.drop_first())
    } else {
        (a[0] as u32) < (b[0] as u32)
    }
}

/// Where two texts first differ, the one with the smaller code point there
/// comes first.
pub proof fn lemma_lex_first_difference(a: Seq<char>, b: Seq<char>, i: int)
    requires
        0 <= i < a.len(),
        i < b.len(),
        a.subrange(0, i) == b.subrange(0, i),
        a[i] != b[i],
    ensures
        lex_le(a, b) <==> (a[i] as u32) < (b[i] as u32),
    decreases i,
{
    if i > 0 {
        assert(a[0] == a.subrange(0, i)[0]);
        assert(b[0] == b.subrange(0, i)[0]);
        assert(a.drop_first().subrange(0, i - 1) =~= a.subrange(0, i).drop_first());
        assert(b.drop_first().subrange(0, i - 1) =~= b.subrange(0, i).drop_first());
        lemma_lex_first_difference(a.drop_first(), b.drop_first(), i - 1);
    }
}

/// A text comes no later than any text that extends it.
pub proof fn lemma_lex_prefix(a: Seq<char>, b: Seq<char>)
    requires
        a.len() <= b.len(),
        b.subrange(0, a.len() as int) == a,
    ensures
        lex_le(a, b),
    decreases a.len(),
{
    if a.len() > 0 {
        assert(a[0] == b.subrange(0, a.len() as int)[0]);
        assert(b.drop_first().subrange(0, a.len() - 1) =~= a.drop_first());
        lemma_lex_prefix(a.drop_first(), b.drop_first());
    }
}

/// A text comes after every proper prefix of it.
pub proof fn lemma_lex_longer(a: Seq<char>, b: Seq<char>)
    requires
        b.len() < a.len(),
        a.subrange(0, b.len() as int) == b,
    ensures
        !lex_le(a, b),
    decreases b.len(),
{
    if b.len() > 0 {
        assert(b[0] == a.subrange(0, b.len() as int)[0]);
        assert(a.drop_first().subrange(0, b.len() - 1) =~= b.drop_first());
        lemma_lex_longer(a.drop_first(), b.drop_first());
    }
}

/// Any two texts are ordered one way or the other.
pub proof fn lemma_lex_total(a: Seq<char>, b: Seq<char>)
    ensures
        lex_le(a, b) || lex_le(b, a),
    decreases a.len(),
{
    if a.len() > 0 && b.len() > 0 {
        if a[0] == b[0] {
            lemma_lex_total(a.drop_first(), b.drop_first());
        } else {
            vstd::utf8::char_u32_cast(a[0], a[0] as u32);
            vstd::utf8::char_u32_cast(b[0], b[0] as u32);
        }
    }
}

/// The order is transitive.
pub proof fn lemma_lex_transitive(a: Seq<char>, b: Seq<char>, c: Seq<char>)
    requires
        lex_le(a, b),
        lex_le(b, c),
    ensures
        lex_le(a, c),
    decreases a.len(),
{
    if a.len() > 0 && b.len() > 0 && c.len() > 0 && a[0] == b[0] && b[0] == c[0] {
        lemma_lex_transitive(a.drop_first(), b.drop_first(), c.drop_first());
    }
}

fn lex_le_from(a: &Vec<char>, b: &Vec<char>, i: usize) -> (r: bool)
    requires
        i <= a@.len(),
        i <= b@.len(),
    ensures
        r == lex_le(a@.skip(i as int), b@.skip(i as int)),
    decreases a@.len() - i,
{
    let ghost sa = a@.skip(i as int);
    let ghost sb = b@.skip(i as int);
    if i == a.len() {
        return true;
    }
    if i == b.len() {
        return false;
    }
    assert(sa[0] == a@[i as int] && sb[0] == b@[i as int]);
    if a[i] == b[i] {
        assert(sa.drop_first() =~= a@.skip(i + 1));
        assert(sb.drop_first() =~= b@.skip(i + 1));
        lex_le_from(a, b, i + 1)
    } else {
        (a[i] as u32) < (b[i] as u32)
    }
}

/// Whether `a` sorts no later than `b`, as `str`'s order says.
pub fn str_lex_le(a: &str, b: &str) -> (r: bool)
    ensures
        r == lex_le(a@, b@),
{
    let x = chars_of(a);
    let y = chars_of(b);
    assert(x@.skip(0) =~= x@);
    assert(y@.skip(0) =~= y@);
    lex_le_from(&x, &y, 0)
}

/// Whether two strings hold the same characters.
pub fn str_eq(a: &str, b: &str) -> (r: bool)
    ensures
        r == (a@ == b@),
{
    let x = chars_of(a);
    let y = chars_of(b);
    if x.len() != y.len() {
        return false;
    }
    let r = occurs_at(&x, &y, 0);
    assert(x@.subrange(0, y@.len() as int) =~= x@);
    r
}

/// The text that `{:?}` gives for a string: in double quotes, with escapes.
pub uninterp spec fn debug_text(s: Seq<char>) -> Seq<char>;

/// Writes `s` as `{:?}` formats a `str`, quoted and escaped as the standard
/// library's `Debug` for `str` does. Claimed: the result is `debug_text` of the
/// characters of `s`, a function of them alone.
#[verifier::external_body]
pub(crate) fn debug_str(s: &str) -> (r: String)
    ensures
        r@ == debug_text(s@),
{
    format!("{:?}", s)
}

} // verus!
