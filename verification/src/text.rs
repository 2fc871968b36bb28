use vstd::prelude::*;
use vstd::string::*;
use vstd::utf8::encode_utf8;

verus! {

/// Characters with the Unicode `White_Space` property, which is what
/// `char::is_whitespace` tests for and what `str::trim` removes.
pub open spec fn is_white_space(c: char) -> bool {
    ||| '\t' <= c <= '\r'
    ||| c == ' '
    ||| c == '\u{85}'
    ||| c == '\u{A0}'
    ||| c == '\u{1680}'
    ||| '\u{2000}' <= c <= '\u{200A}'
    ||| c == '\u{2028}'
    ||| c == '\u{2029}'
    ||| c == '\u{202F}'
    ||| c == '\u{205F}'
    ||| c == '\u{3000}'
}

pub fn char_is_white_space(c: char) -> (r: bool)
    ensures
        r == is_white_space(c),
{
    ('\t' <= c && c <= '\r') || c == ' ' || c == '\u{85}' || c == '\u{A0}' || c == '\u{1680}' || (
    '\u{2000}' <= c && c <= '\u{200A}') || c == '\u{2028}' || c == '\u{2029}' || c == '\u{202F}'
        || c == '\u{205F}' || c == '\u{3000}'
}

/// How many white-space characters open `s`.
pub open spec fn leading_white_space(s: Seq<char>) -> nat
    decreases s.len(),
{
    if s.len() > 0 && is_white_space(s[0]) {
        1 + leading_white_space(s.drop_first())
    } else {
        0
    }
}

/// How many white-space characters close `s`.
pub open spec fn trailing_white_space(s: Seq<char>) -> nat
    decreases s.len(),
{
    if s.len() > 0 && is_white_space(s.last()) {
        1 + trailing_white_space(s.drop_last())
    } else {
        0
    }
}

/// `s` with white space removed from both ends.
pub open spec fn trimmed(s: Seq<char>) -> Seq<char> {
    let t = s.skip(leading_white_space(s) as int);
    t.take(t.len() - trailing_white_space(t))
}

/// The value of a run of ASCII decimal digits.
pub open spec fn digits_value(d: Seq<char>) -> nat
    decreases d.len(),
{
    if d.len() == 0 {
        0
    } else {
        10 * digits_value(d.drop_last()) + ((d.last() as nat) - ('0' as nat)) as nat
    }
}

pub open spec fn is_ascii_digit(c: char) -> bool {
    '0' <= c <= '9'
}

pub open spec fn all_ascii_digits(d: Seq<char>) -> bool {
    forall|i: int| 0 <= i < d.len() ==> is_ascii_digit(#[trigger] d[i])
}

/// What parsing `s` as an `i32` gives: an optional `+` or `-`, then one or more
/// ASCII digits, whose value must fit.
pub open spec fn parsed_i32(s: Seq<char>) -> Option<i32> {
    if s.len() == 0 {
        None
    } else {
        let negative = s[0] == '-';
        let digits = if s[0] == '-' || s[0] == '+' { s.drop_first() } else { s };
        if digits.len() == 0 || !all_ascii_digits(digits) {
            None
        } else {
            let v: int = if negative { -digits_value(digits) } else { digits_value(digits) as int };
            if i32::MIN <= v <= i32::MAX {
                Some(v as i32)
            } else {
                None
            }
        }
    }
}

proof fn lemma_leading_step(s: Seq<char>, i: int)
    requires
        0 <= i < s.len(),
        is_white_space(s[i]),
    ensures
        leading_white_space(s.skip(i)) == 1 + leading_white_space(s.skip(i + 1)),
{
    assert(s.skip(i).drop_first() =~= s.skip(i + 1));
}

proof fn lemma_trailing_step(s: Seq<char>, j: int)
    requires
        0 < j <= s.len(),
        is_white_space(s[j - 1]),
    ensures
        trailing_white_space(s.take(j)) == 1 + trailing_white_space(s.take(j - 1)),
{
    assert(s.take(j).drop_last() =~= s.take(j - 1));
}

/// The bounds `start..end` within `chars[from..to]` of the text that
/// `str::trim` leaves of it.
pub fn trim_bounds(chars: &Vec<char>, from: usize, to: usize) -> (r: (usize, usize))
    requires
        from <= to <= chars@.len(),
    ensures
        from <= r.0 <= r.1 <= to,
        chars@.subrange(r.0 as int, r.1 as int) == trimmed(chars@.subrange(from as int, to as int)),
{
    let ghost s = chars@.subrange(from as int, to as int);
    let mut i = from;
    assert(s.skip(0) =~= s);
    while i < to && char_is_white_space(chars[i])
        invariant
            from <= i <= to <= chars@.len(),
            s == chars@.subrange(from as int, to as int),
            leading_white_space(s) == (i - from) + leading_white_space(s.skip(i - from)),
        decreases to - i,
    {
        proof {
            lemma_leading_step(s, i - from);
        }
        i = i + 1;
    }
    proof {
        let k = (i - from) as int;
        if k < s.len() {
            assert(s.skip(k)[0] == s[k]);
        }
        assert(leading_white_space(s.skip(k)) == 0);
    }
    let ghost t = s.skip(i - from);
    assert(t =~= chars@.subrange(i as int, to as int));
    let mut j = to;
    assert(t.take(t.len() as int) =~= t);
    while j > i && char_is_white_space(chars[j - 1])
        invariant
            from <= i <= j <= to <= chars@.len(),
            t == chars@.subrange(i as int, to as int),
            trailing_white_space(t) == (to - j) + trailing_white_space(t.take(j - i)),
        decreases j - i,
    {
        proof {
            lemma_trailing_step(t, j - i);
        }
        j = j - 1;
    }
    proof {
        let k = (j - i) as int;
        if k > 0 {
            assert(t.take(k).last() == t[k - 1]);
        }
        assert(trailing_white_space(t.take(k)) == 0);
        assert(t.take(t.len() - trailing_white_space(t)) =~= chars@.subrange(i as int, j as int));
    }
    (i, j)
}

proof fn lemma_digits_value_step(d: Seq<char>, i: int)
    requires
        0 <= i < d.len(),
    ensures
        digits_value(d.take(i + 1)) == 10 * digits_value(d.take(i)) + ((d[i] as nat) - ('0' as nat)) as nat,
{
    assert(d.take(i + 1).drop_last() =~= d.take(i));
}

/// Parses `chars[from..to]` as `str::parse::<i32>` does.
pub fn parse_i32(chars: &Vec<char>, from: usize, to: usize) -> (r: Option<i32>)
    requires
        from <= to <= chars@.len(),
    ensures
        r == parsed_i32(chars@.subrange(from as int, to as int)),
{
    let ghost s = chars@.subrange(from as int, to as int);
    if from == to {
        return None;
    }
    let first = chars[from];
    let negative = first == '-';
    let start = if first == '-' || first == '+' { from + 1 } else { from };
    let ghost d = chars@.subrange(start as int, to as int);
    assert(d =~= (if s[0] == '-' || s[0] == '+' { s.drop_first() } else { s }));
    if start == to {
        return None;
    }
    // The magnitude is accumulated until it passes the largest one an i32 can
    // take; past that only the digits are checked.
    let mut acc: u64 = 0;
    let mut too_big = false;
    let mut k = start;
    while k < to
        invariant
            start <= k <= to <= chars@.len(),
            d == chars@.subrange(start as int, to as int),
            s == chars@.subrange(from as int, to as int),
            s.len() > 0,
            d.len() > 0,
            d == (if s[0] == '-' || s[0] == '+' { s.drop_first() } else { s }),
            negative == (s[0] == '-'),
            all_ascii_digits(d.take(k - start)),
            !too_big ==> acc == digits_value(d.take(k - start)) && acc <= 2_147_483_648,
            too_big ==> digits_value(d.take(k - start)) > 2_147_483_648,
        decreases to - k,
    {
        let c = chars[k];
        if !('0' <= c && c <= '9') {
            proof {
                assert(d[k - start] == c);
                assert(!all_ascii_digits(d));
            }
            return None;
        }
        proof {
            lemma_digits_value_step(d, k - start);
            assert forall|i: int| 0 <= i < (k + 1 - start) implies is_ascii_digit(
                #[trigger] d.take(k + 1 - start)[i],
            ) by {
                if i < k - start {
                    assert(d.take(k + 1 - start)[i] == d.take(k - start)[i]);
                }
            }
        }
        if !too_big {
            let digit = (c as u32 - '0' as u32) as u64;
            let next = acc * 10 + digit;
            if next > 2_147_483_648 {
                too_big = true;
            } else {
                acc = next;
            }
        }
        k = k + 1;
    }
    assert(d.take(d.len() as int) =~= d);
    if too_big {
        proof {
            if negative {
                assert(-digits_value(d) < i32::MIN);
            }
        }
        return None;
    }
    if negative {
        let v: i64 = -(acc as i64);
        Some(v as i32)
    } else {
        if acc > 2_147_483_647 {
            None
        } else {
            Some(acc as i32)
        }
    }
}

/// The text that writing `frags` one after another into a buffer with `room`
/// bytes left keeps: whole pieces, up to the first that does not fit, after
/// which nothing more is written.
pub open spec fn fitted(frags: Seq<Seq<char>>, room: int) -> Seq<char>
    decreases frags.len(),
{
    if frags.len() == 0 {
        Seq::empty()
    } else if encode_utf8(frags[0]).len() <= room {
        frags[0] + fitted(frags.drop_first(), room - encode_utf8(frags[0]).len())
    } else {
        Seq::empty()
    }
}

/// The UTF-8 bytes of joined text are the bytes of its parts, joined.
pub proof fn lemma_encode_utf8_concat(a: Seq<char>, b: Seq<char>)
    ensures
        encode_utf8(a + b) == encode_utf8(a) + encode_utf8(b),
    decreases a.len(),
{
    if a.len() == 0 {
        assert(a + b =~= b);
        assert(encode_utf8(a) + encode_utf8(b) =~= encode_utf8(b));
    } else {
        assert((a + b)[0] == a[0]);
        assert((a + b).drop_first() =~= a.drop_first() + b);
        lemma_encode_utf8_concat(a.drop_first(), b);
        let head = vstd::utf8::encode_scalar(a[0] as u32);
        assert(head + (encode_utf8(a.drop_first()) + encode_utf8(b)) =~= (head + encode_utf8(
            a.drop_first(),
        )) + encode_utf8(b));
    }
}

/// What is kept of the pieces never takes more bytes than the room there was.
pub proof fn lemma_fitted_within_room(frags: Seq<Seq<char>>, room: int)
    requires
        room >= 0,
    ensures
        encode_utf8(fitted(frags, room)).len() <= room,
    decreases frags.len(),
{
    if frags.len() > 0 && encode_utf8(frags[0]).len() <= room {
        let rest_room = room - encode_utf8(frags[0]).len();
        lemma_fitted_within_room(frags.drop_first(), rest_room);
        lemma_encode_utf8_concat(frags[0], fitted(frags.drop_first(), rest_room));
    }
}

/// The UTF-8 bytes that the pieces take together.
pub open spec fn total_bytes(frags: Seq<Seq<char>>) -> int
    decreases frags.len(),
{
    if frags.len() == 0 {
        0
    } else {
        encode_utf8(frags[0]).len() + total_bytes(frags.drop_first())
    }
}

/// When all the pieces fit, the buffer keeps the whole text, in order; when
/// they do not, what it keeps is a start of the whole text.
pub proof fn law_fitted_keeps_what_fits(frags: Seq<Seq<char>>, room: int)
    ensures
        total_bytes(frags) <= room ==> fitted(frags, room) == frags.flatten(),
        fitted(frags, room).len() <= frags.flatten().len(),
        frags.flatten().take(fitted(frags, room).len() as int) == fitted(frags, room),
        total_bytes(frags) >= 0,
    decreases frags.len(),
{
    if frags.len() > 0 {
        assert(frags.first() == frags[0]);
        let n = encode_utf8(frags[0]).len();
        law_fitted_keeps_what_fits(frags.drop_first(), room - n);
        let rest = fitted(frags.drop_first(), room - n);
        let whole = frags.drop_first().flatten();
        assert(frags.flatten() == frags[0] + whole);
        if n <= room {
            assert((frags[0] + whole).take((frags[0].len() + rest.len()) as int) =~= frags[0] + whole.take(
                rest.len() as int,
            ));
        } else {
            assert(frags.flatten().take(0) =~= Seq::<char>::empty());
        }
    } else {
        assert(frags.flatten().take(0) =~= Seq::<char>::empty());
    }
}

/// The characters of each string.
pub open spec fn views(frags: Seq<String>) -> Seq<Seq<char>> {
    frags.map_values(|s: String| s@)
}

/// Writes the pieces `frags` in order into a text of at most `capacity` bytes,
/// stopping at the first piece that does not fit.
pub fn fit_fragments(frags: &Vec<String>, capacity: usize) -> (r: String)
    ensures
        r@ == fitted(views(frags@), capacity as int),
{
    let ghost all = views(frags@);
    let mut out = String::new();
    let mut room = capacity;
    let mut i: usize = 0;
    let mut stopped = false;
    assert(all.skip(0) =~= all);
    while i < frags.len() && !stopped
        invariant
            i <= frags@.len(),
            all == views(frags@),
            stopped ==> fitted(all.skip(i as int), room as int) == Seq::<char>::empty(),
            out@ + fitted(all.skip(i as int), room as int) == fitted(all, capacity as int),
        decreases frags@.len() - i, if stopped { 0int } else { 1int },
    {
        let piece = frags[i].as_str();
        let n = piece.as_bytes().len();
        let ghost rest = all.skip(i as int);
        assert(rest[0] == piece@);
        assert(rest.drop_first() =~= all.skip(i + 1));
        if n > room {
            stopped = true;
        } else {
            let ghost old_out = out@;
            let ghost old_room = room as int;
            assert(n == encode_utf8(rest[0]).len());
            assert(fitted(rest, old_room) == rest[0] + fitted(rest.drop_first(), old_room - n));
            out.append(piece);
            room = room - n;
            i = i + 1;
            assert(out@ + fitted(all.skip(i as int), room as int) =~= old_out + fitted(
                rest,
                old_room,
            ));
        }
    }
    if !stopped {
        assert(all.skip(i as int) =~= Seq::<Seq<char>>::empty());
    }
    assert(out@ =~= fitted(all, capacity as int));
    out
}

/// The ASCII digit for `d`.
pub open spec fn digit_char(d: nat) -> char {
    (48 + d) as char
}

/// `n` written in decimal, as `{}` formats it.
pub open spec fn decimal(n: nat) -> Seq<char>
    decreases n,
{
    if n < 10 {
        seq![digit_char(n)]
    } else {
        decimal(n / 10).push(digit_char(n % 10))
    }
}

/// `n` written in decimal with at least two digits, as `{:02}` formats it.
pub open spec fn two_digits(n: nat) -> Seq<char> {
    if n < 10 {
        seq!['0', digit_char(n)]
    } else {
        decimal(n)
    }
}

proof fn lemma_digit_char(d: nat)
    requires
        d < 10,
    ensures
        digit_char(d) as nat == 48 + d,
        is_ascii_digit(digit_char(d)),
{
    assert((48 + d) as char as nat == 48 + d);
}

/// The digits of `n` are ASCII digits worth `n`, and none is white space.
pub proof fn lemma_decimal_digits(n: nat)
    ensures
        decimal(n).len() > 0,
        all_ascii_digits(decimal(n)),
        digits_value(decimal(n)) == n,
        forall|i: int| 0 <= i < decimal(n).len() ==> !is_white_space(#[trigger] decimal(n)[i]),
    decreases n,
{
    lemma_digit_char(n % 10);
    if n < 10 {
        let s = decimal(n);
        assert(s.drop_last() =~= Seq::<char>::empty());
        assert(digits_value(Seq::<char>::empty()) == 0);
    } else {
        lemma_decimal_digits(n / 10);
        let s = decimal(n);
        let p = decimal(n / 10);
        assert(s.drop_last() =~= p);
        assert(s.last() == digit_char(n % 10));
        assert forall|i: int| 0 <= i < s.len() implies is_ascii_digit(#[trigger] s[i]) && !is_white_space(s[i]) by {
            if i < p.len() {
                assert(s[i] == p[i]);
            }
        }
    }
}

/// A byte written with at least two digits takes two or three ASCII digits.
pub proof fn lemma_two_digits_of_byte(n: nat)
    requires
        n < 256,
    ensures
        2 <= two_digits(n).len() <= 3,
        vstd::utf8::is_ascii_chars(two_digits(n)),
{
    lemma_decimal_digits(n);
    if n >= 10 {
        assert(decimal(n / 10).len() <= 2) by {
            if n / 10 >= 10 {
                assert(decimal(n / 100).len() == 1);
            }
        }
    }
    let s = two_digits(n);
    assert forall|i: int| 0 <= i < s.len() implies '\0' <= #[trigger] s[i] <= '\u{7f}' by {
        if n < 10 {
            lemma_digit_char(n);
        } else {
            assert(is_ascii_digit(decimal(n)[i]));
        }
    }
}

/// A number below 100 is written as exactly two ASCII digits worth it.
pub proof fn lemma_two_digits_value(n: nat)
    requires
        n < 100,
    ensures
        two_digits(n).len() == 2,
        all_ascii_digits(two_digits(n)),
        digits_value(two_digits(n)) == n,
{
    lemma_decimal_digits(n);
    if n < 10 {
        lemma_digit_char(n);
        lemma_digit_char(0);
        let s = two_digits(n);
        assert(s.drop_last() =~= seq!['0']);
        assert(seq!['0'].drop_last() =~= Seq::<char>::empty());
        assert(digits_value(Seq::<char>::empty()) == 0);
        assert(digits_value(seq!['0']) == 0);
    } else {
        assert(decimal(n / 10).len() == 1);
    }
}

/// `String::push`: appends one character.
#[verifier::external_body]
pub(crate) fn string_push(s: &mut String, c: char)
    ensures
        final(s)@ == old(s)@.push(c),
{
    s.push(c);
}

fn digit(d: u8) -> (c: char)
    requires
        d < 10,
    ensures
        c == digit_char(d as nat),
{
    (48u8 + d) as char
}

/// Appends `n` in decimal.
pub fn push_decimal(s: &mut String, n: u8)
    ensures
        final(s)@ == old(s)@ + decimal(n as nat),
{
    let ghost start = s@;
    let ghost v = n as nat;
    if n >= 100 {
        string_push(s, digit(n / 100));
    }
    if n >= 10 {
        string_push(s, digit((n / 10) % 10));
    }
    string_push(s, digit(n % 10));
    proof {
        if v >= 100 {
            assert(decimal(v / 100) == seq![digit_char(v / 100)]);
            assert(decimal(v / 10) =~= seq![digit_char(v / 100), digit_char((v / 10) % 10)]);
            assert(decimal(v) =~= seq![digit_char(v / 100), digit_char((v / 10) % 10), digit_char(v % 10)]);
        } else if v >= 10 {
            assert(decimal(v / 10) == seq![digit_char(v / 10)]);
            assert(decimal(v) =~= seq![digit_char(v / 10), digit_char(v % 10)]);
        }
        assert(s@ =~= start + decimal(v));
    }
}

/// Appends `n` in decimal with at least two digits.
pub fn push_two_digits(s: &mut String, n: u8)
    ensures
        final(s)@ == old(s)@ + two_digits(n as nat),
{
    let ghost start = s@;
    if n < 10 {
        string_push(s, '0');
    }
    push_decimal(s, n);
    assert(s@ =~= start + two_digits(n as nat));
}

} // verus!
