//! Character-level building blocks of the request line grammar: cutting a line
//! at single spaces, and reading and writing unsigned decimal numerals.
//!
//! Everything is stated over `Seq<char>`, the view of `str` and `String`.

use vstd::prelude::*;
use vstd::string::*;

verus! {

// ---------------------------------------------------------------------------
// Words
// ---------------------------------------------------------------------------

/// Number of characters in front of the first space of `s`; `s.len()` when `s`
/// holds no space.
pub open spec fn first_word_len(s: Seq<char>) -> int
    decreases s.len(),
{
    if s.len() == 0 || s[0] == ' ' {
        0
    } else {
        1 + first_word_len(s.drop_first())
    }
}

/// `s` holds no space at all.
pub open spec fn spaceless(s: Seq<char>) -> bool {
    forall|i: int| 0 <= i < s.len() ==> s[i] != ' '
}

/// `s` cut at single spaces into at most `limit` pieces. Each space ends a
/// piece (so two spaces in a row enclose an empty piece); once `limit - 1`
/// pieces are cut, the remainder is the last piece, spaces included.
pub open spec fn split_words(s: Seq<char>, limit: nat) -> Seq<Seq<char>>
    decreases limit,
{
    if limit == 0 {
        Seq::empty()
    } else if limit == 1 || first_word_len(s) == s.len() {
        seq![s]
    } else {
        seq![s.take(first_word_len(s))] + split_words(
            s.skip(first_word_len(s) + 1),
            (limit - 1) as nat,
        )
    }
}

/// The texts of a list of string slices.
pub open spec fn texts(pieces: Seq<&str>) -> Seq<Seq<char>> {
    Seq::new(pieces.len(), |i: int| pieces[i]@)
}

/// `first_word_len` stops at the first space and nowhere before it.
pub proof fn lemma_first_word_len(s: Seq<char>)
    ensures
        0 <= first_word_len(s) <= s.len(),
        spaceless(s.take(first_word_len(s))),
        first_word_len(s) < s.len() ==> s[first_word_len(s)] == ' ',
        first_word_len(s) == s.len() <==> spaceless(s),
    decreases s.len(),
{
    if s.len() == 0 || s[0] == ' ' {
    } else {
        let t = s.drop_first();
        lemma_first_word_len(t);
        let k = first_word_len(s);
        assert forall|i: int| 0 <= i < k implies s.take(k)[i] != ' ' by {
            if i > 0 {
                assert(t.take(k - 1)[i - 1] == s[i]);
            }
        }
        if k == s.len() {
            assert(s.take(k) =~= s);
        }
    }
}

/// A position `k` that ends a spaceless prefix, and is the end of `s` or holds
/// a space, is where the first word ends.
pub proof fn lemma_first_word_ends_at(s: Seq<char>, k: int)
    requires
        0 <= k <= s.len(),
        forall|i: int| 0 <= i < k ==> s[i] != ' ',
        k == s.len() || s[k] == ' ',
    ensures
        first_word_len(s) == k,
    decreases s.len(),
{
    if k > 0 {
        lemma_first_word_ends_at(s.drop_first(), k - 1);
    }
}

/// A spaceless text is a single piece, whatever the limit.
pub proof fn lemma_split_spaceless(s: Seq<char>, limit: nat)
    requires
        spaceless(s),
        limit >= 1,
    ensures
        split_words(s, limit) == seq![s],
{
    lemma_first_word_ends_at(s, s.len() as int);
}

/// Cutting `head + " " + tail`, where `head` is spaceless, splits off `head`
/// and goes on with `tail`.
pub proof fn lemma_split_after_word(head: Seq<char>, tail: Seq<char>, limit: nat)
    requires
        spaceless(head),
        limit >= 2,
    ensures
        split_words(head + seq![' '] + tail, limit) == seq![head] + split_words(
            tail,
            (limit - 1) as nat,
        ),
{
    let s = head + seq![' '] + tail;
    let k = head.len() as int;
    assert(s[k] == ' ');
    lemma_first_word_ends_at(s, k);
    assert(s.take(k) =~= head);
    assert(s.skip(k + 1) =~= tail);
}

/// The characters of a string slice, in a vector.
pub fn chars_of(s: &str) -> (v: Vec<char>)
    ensures
        v@ == s@,
{
    let mut v: Vec<char> = Vec::new();
    for c in it: s.chars()
        invariant
            v@ == it.seq().take(it.index()),
            it.seq() == s@,
    {
        v.push(c);
    }
    v
}

/// Whether two string slices hold the same text.
pub fn same_text(a: &str, b: &str) -> (same: bool)
    ensures
        same == (a@ == b@),
{
    let x = chars_of(a);
    let y = chars_of(b);
    if x.len() != y.len() {
        return false;
    }
    let mut i: usize = 0;
    while i < x.len()
        invariant
            i <= x.len(),
            x.len() == y.len(),
            x@ == a@,
            y@ == b@,
            forall|j: int| 0 <= j < i ==> x@[j] == y@[j],
        decreases x.len() - i,
    {
        if x[i] != y[i] {
            return false;
        }
        i = i + 1;
    }
    assert(x@ =~= y@);
    true
}

/// Cuts a line at single spaces into at most `limit` pieces; the last piece
/// keeps whatever is left of the line, spaces included.
pub fn split_line<'a>(line: &'a str, limit: usize) -> (pieces: Vec<&'a str>)
    ensures
        texts(pieces@) == split_words(line@, limit as nat),
        pieces.len() <= limit,
        limit >= 1 ==> pieces.len() >= 1,
{
    let mut pieces: Vec<&'a str> = Vec::new();
    if limit == 0 {
        assert(texts(pieces@) =~= split_words(line@, 0));
        return pieces;
    }
    let chars = chars_of(line);
    let n = chars.len();
    let mut start: usize = 0;
    let mut i: usize = 0;
    proof {
        assert(line@.skip(0) =~= line@);
        assert(texts(pieces@) + split_words(line@, limit as nat) =~= split_words(
            line@,
            limit as nat,
        ));
    }
    while i < n && pieces.len() + 1 < limit
        invariant
            chars@ == line@,
            n == chars.len(),
            start <= i <= n,
            pieces.len() < limit,
            forall|j: int| start <= j < i ==> line@[j] != ' ',
            split_words(line@, limit as nat) == texts(pieces@) + split_words(
                line@.skip(start as int),
                (limit - pieces.len()) as nat,
            ),
        decreases n - i,
    {
        if chars[i] == ' ' {
            let piece = line.substring_char(start, i);
            proof {
                let rest = line@.skip(start as int);
                let k = (i - start) as int;
                lemma_first_word_ends_at(rest, k);
                assert(rest.take(k) =~= piece@);
                assert(rest.skip(k + 1) =~= line@.skip(i + 1));
                assert(texts(pieces@.push(piece)) =~= texts(pieces@) + seq![piece@]);
            }
            pieces.push(piece);
            start = i + 1;
        }
        i = i + 1;
    }
    let last = line.substring_char(start, n);
    proof {
        let rest = line@.skip(start as int);
        assert(rest =~= last@);
        if pieces.len() + 1 < limit {
            lemma_first_word_ends_at(rest, rest.len() as int);
        }
        assert(texts(pieces@.push(last)) =~= texts(pieces@) + seq![last@]);
    }
    pieces.push(last);
    pieces
}

// ---------------------------------------------------------------------------
// Numerals
// ---------------------------------------------------------------------------

/// The ten decimal digits, in order.
pub open spec fn digits() -> Seq<char> {
    seq!['0', '1', '2', '3', '4', '5', '6', '7', '8', '9']
}

/// `c` is one of the ASCII digits `0` to `9`.
pub open spec fn is_digit(c: char) -> bool {
    digits().contains(c)
}

/// The number a digit stands for.
pub open spec fn digit_value(c: char) -> nat {
    (c as nat - '0' as nat) as nat
}

/// Every character of `s` is a digit.
pub open spec fn all_digits(s: Seq<char>) -> bool {
    forall|i: int| 0 <= i < s.len() ==> is_digit(#[trigger] s[i])
}

/// The number that a run of digits denotes in base ten (0 for the empty run).
pub open spec fn digits_value(s: Seq<char>) -> nat
    decreases s.len(),
{
    if s.len() == 0 {
        0
    } else {
        10 * digits_value(s.drop_last()) + digit_value(s.last())
    }
}

/// The value of `s` read as an unsigned 64-bit decimal numeral: an optional
/// `+`, then one or more digits whose value fits in 64 bits. Leading zeros are
/// allowed; anything else (the empty text, a sign alone, `-`, blanks, letters,
/// a value past `u64::MAX`) is no numeral.
pub open spec fn numeral_value(s: Seq<char>) -> Option<u64> {
    let body = if s.len() > 0 && s[0] == '+' {
        s.drop_first()
    } else {
        s
    };
    if body.len() > 0 && all_digits(body) && digits_value(body) <= u64::MAX {
        Some(digits_value(body) as u64)
    } else {
        None
    }
}

/// The shortest decimal numeral of `n`: no sign, no leading zero (but `0`
/// itself).
pub open spec fn decimal(n: nat) -> Seq<char>
    decreases n,
{
    if n < 10 {
        seq![digits()[n as int]]
    } else {
        decimal(n / 10).push(digits()[(n % 10) as int])
    }
}

/// The digits are the characters from `'0'` (48) to `'9'` (57).
pub proof fn lemma_digit_codes(c: char)
    ensures
        is_digit(c) <==> 48 <= c as nat <= 57,
        is_digit(c) ==> digit_value(c) < 10 && digits()[digit_value(c) as int] == c,
        c == ' ' || c == '+' ==> !is_digit(c),
{
    let d = digits();
    if 48 <= c as nat <= 57 {
        let k = c as nat - 48;
        assert(d[k as int] == c);
    }
}

/// A longer run of digits denotes at least as much as any of its prefixes.
pub proof fn lemma_digits_value_prefix(s: Seq<char>, k: int)
    requires
        0 <= k <= s.len(),
    ensures
        digits_value(s.take(k)) <= digits_value(s),
    decreases s.len(),
{
    if k == s.len() {
        assert(s.take(k) =~= s);
    } else {
        lemma_digits_value_prefix(s.drop_last(), k);
        assert(s.drop_last().take(k) =~= s.take(k));
    }
}

/// `decimal(n)` is a non-empty run of digits without space or sign, and
/// denotes `n`.
pub proof fn lemma_decimal(n: nat)
    ensures
        decimal(n).len() >= 1,
        all_digits(decimal(n)),
        spaceless(decimal(n)),
        decimal(n)[0] != '+',
        digits_value(decimal(n)) == n,
    decreases n,
{
    let d = digits();
    let last = d[(n % 10) as int];
    assert(is_digit(last));
    lemma_digit_codes(last);
    if n < 10 {
        let s = seq![last];
        assert(s.drop_last() =~= Seq::<char>::empty());
        assert(digits_value(s) == 10 * digits_value(s.drop_last()) + digit_value(s.last()));
    } else {
        lemma_decimal(n / 10);
        let s = decimal(n);
        let front = decimal(n / 10);
        assert(s.drop_last() =~= front);
        assert forall|i: int| 0 <= i < s.len() implies is_digit(#[trigger] s[i]) by {
            if i < front.len() {
                assert(s[i] == front[i]);
            }
        }
    }
    assert forall|i: int| 0 <= i < decimal(n).len() implies decimal(n)[i] != ' ' by {
        lemma_digit_codes(decimal(n)[i]);
    }
    lemma_digit_codes(decimal(n)[0]);
}

/// Reading back what `decimal` wrote gives the number again.
pub proof fn lemma_numeral_of_decimal(n: u64)
    ensures
        numeral_value(decimal(n as nat)) == Some(n),
{
    lemma_decimal(n as nat);
}

/// Reads a string slice as an unsigned 64-bit decimal numeral.
pub fn parse_u64(token: &str) -> (value: Option<u64>)
    ensures
        value == numeral_value(token@),
{
    let chars = chars_of(token);
    let n = chars.len();
    let first: usize = if n > 0 && chars[0] == '+' {
        1
    } else {
        0
    };
    if first == n {
        return None;
    }
    let ghost body = chars@.skip(first as int);
    assert(body =~= if token@.len() > 0 && token@[0] == '+' {
        token@.drop_first()
    } else {
        token@
    });
    let mut acc: u64 = 0;
    let mut i: usize = first;
    while i < n
        invariant
            n == chars.len(),
            first <= i <= n,
            first < n,
            body == chars@.skip(first as int),
            body == if token@.len() > 0 && token@[0] == '+' {
                token@.drop_first()
            } else {
                token@
            },
            all_digits(body.take(i - first)),
            acc == digits_value(body.take(i - first)),
        decreases n - i,
    {
        let c = chars[i];
        let ghost k = (i - first) as int;
        proof {
            lemma_digit_codes(c);
            assert(body[k] == c);
            assert(body.take(k + 1).drop_last() =~= body.take(k));
            assert(body.take(k + 1).last() == c);
        }
        if !('0' <= c && c <= '9') {
            assert(!all_digits(body));
            return None;
        }
        let d: u64 = (c as u32 - '0' as u32) as u64;
        let next = match acc.checked_mul(10) {
            Some(tens) => tens.checked_add(d),
            None => None,
        };
        match next {
            Some(v) => {
                acc = v;
            },
            None => {
                proof {
                    lemma_digits_value_prefix(body, k + 1);
                }
                return None;
            },
        }
        proof {
            assert forall|j: int| 0 <= j < k + 1 implies is_digit(
                #[trigger] body.take(k + 1)[j],
            ) by {
                if j < k {
                    assert(body.take(k)[j] == body[j]);
                }
            }
        }
        i = i + 1;
    }
    assert(body.take(n - first) =~= body);
    Some(acc)
}

/// The one-character text of a digit.
fn digit_text(d: u64) -> (text: &'static str)
    requires
        d < 10,
    ensures
        text@ == seq![digits()[d as int]],
{
    proof {
        reveal_strlit("0");
        reveal_strlit("1");
        reveal_strlit("2");
        reveal_strlit("3");
        reveal_strlit("4");
        reveal_strlit("5");
        reveal_strlit("6");
        reveal_strlit("7");
        reveal_strlit("8");
        reveal_strlit("9");
    }
    let text = if d == 0 {
        "0"
    } else if d == 1 {
        "1"
    } else if d == 2 {
        "2"
    } else if d == 3 {
        "3"
    } else if d == 4 {
        "4"
    } else if d == 5 {
        "5"
    } else if d == 6 {
        "6"
    } else if d == 7 {
        "7"
    } else if d == 8 {
        "8"
    } else {
        "9"
    };
    assert(text@ =~= seq![digits()[d as int]]);
    text
}

/// Appends the shortest decimal numeral of `n` to `out`.
pub fn push_decimal(out: &mut String, n: u64)
    ensures
        final(out)@ == old(out)@ + decimal(n as nat),
    decreases n,
{
    if n >= 10 {
        push_decimal(out, n / 10);
    }
    out.append(digit_text(n % 10));
    assert(final(out)@ =~= old(out)@ + decimal(n as nat));
}

/// The shortest decimal numeral of `n` as a string.
pub fn decimal_string(n: u64) -> (s: String)
    ensures
        s@ == decimal(n as nat),
{
    let mut s = String::new();
    push_decimal(&mut s, n);
    assert(s@ =~= decimal(n as nat));
    s
}

} // verus!
