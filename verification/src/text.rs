use vstd::prelude::*;

verus! {

/// The character of a decimal digit `d` (`0 <= d < 10`).
pub open spec fn digit_char(d: int) -> char {
    (48 + d) as char
}

/// Decimal digits of a natural number, most significant first, no leading zeros.
pub open spec fn digits(n: nat) -> Seq<char>
    decreases n,
{
    if n < 10 {
        seq![digit_char(n as int)]
    } else {
        digits(n / 10) + seq![digit_char((n % 10) as int)]
    }
}

/// Decimal text of an integer as Rust's `Display` writes it: a minus sign for
/// negative values, then the digits.
pub open spec fn decimal(n: int) -> Seq<char> {
    if n < 0 {
        seq!['-'] + digits((-n) as nat)
    } else {
        digits(n as nat)
    }
}

fn digit_text(d: u64) -> (t: &'static str)
    requires
        d < 10,
    ensures
        t@ == seq![digit_char(d as int)],
{
    proof {
        reveal_strlit("0");
        reveal_strlit("1");
        reveal_strlit("2");
        reveal_strlit("3");
        reveal_strlit("4");
        reveal_strlit("5");
        reveal_strlit("6");
        reveal_strlit("7");
        reveal_strlit("8");
        reveal_strlit("9");
    }
    let t = if d == 0 {
        "0"
    } else if d == 1 {
        "1"
    } else if d == 2 {
        "2"
    } else if d == 3 {
        "3"
    } else if d == 4 {
        "4"
    } else if d == 5 {
        "5"
    } else if d == 6 {
        "6"
    } else if d == 7 {
        "7"
    } else if d == 8 {
        "8"
    } else {
        "9"
    };
    assert(t@ =~= seq![digit_char(d as int)]);
    t
}

/// Appends the decimal digits of `n`.
pub fn push_unsigned(buf: &mut String, n: u64)
    ensures
        final(buf)@ == old(buf)@ + digits(n as nat),
    decreases n,
{
    if n >= 10 {
        push_unsigned(buf, n / 10);
    }
    buf.append(digit_text(n % 10));
    proof {
        if n >= 10 {
            assert(final(buf)@ =~= old(buf)@ + digits(n as nat));
        } else {
            assert(final(buf)@ =~= old(buf)@ + digits(n as nat));
        }
    }
}

/// The number a text of decimal digits stands for.
pub open spec fn digits_value(s: Seq<char>) -> int
    decreases s.len(),
{
    if s.len() == 0 {
        0
    } else {
        digits_value(s.drop_last()) * 10 + (s.last() as int - 48)
    }
}

/// The digits of `n` are nonempty, have no leading zero unless `n` is zero,
/// and read back as `n`.
pub proof fn lemma_digits_read_back(n: nat)
    ensures
        digits(n).len() > 0,
        digits_value(digits(n)) == n,
        n > 0 ==> digits(n)[0] != '0',
    decreases n,
{
    if n >= 10 {
        lemma_digits_read_back(n / 10);
        let d = digits(n);
        let r = (n % 10) as int;
        assert(d.drop_last() =~= digits(n / 10));
        assert(d.last() == digit_char(r));
        assert(digit_char(r) as int == 48 + r);
        assert(d[0] == digits(n / 10)[0]);
        assert((n / 10) * 10 + n % 10 == n) by (nonlinear_arith);
        assert(digits_value(d.drop_last()) == n / 10);
        assert(digits_value(d) == digits_value(d.drop_last()) * 10 + (d.last() as int - 48));
    } else {
        assert(digit_char(n as int) as int == 48 + n);
        assert(digits(n).drop_last() =~= Seq::<char>::empty());
        assert(digits_value(digits(n)) == digits_value(digits(n).drop_last()) * 10 + (digits(n).last() as int - 48));
    }
}

/// Appends the decimal text of `n`, with a leading minus sign when negative.
pub fn push_signed(buf: &mut String, n: i64)
    ensures
        final(buf)@ == old(buf)@ + decimal(n as int),
{
    if n < 0 {
        proof {
            reveal_strlit("-");
        }
        buf.append("-");
        let m: u64 = ((-(n + 1)) as u64) + 1;
        push_unsigned(buf, m);
        assert(final(buf)@ =~= old(buf)@ + decimal(n as int));
    } else {
        push_unsigned(buf, n as u64);
    }
}

/// What HTML escaping writes for one character: `&`, `<`, `>` and `"` become
/// entities, every other character stands for itself.
pub open spec fn escape_char(c: char) -> Seq<char> {
    if c == '&' {
        seq!['&', 'a', 'm', 'p', ';']
    } else if c == '<' {
        seq!['&', 'l', 't', ';']
    } else if c == '>' {
        seq!['&', 'g', 't', ';']
    } else if c == '"' {
        seq!['&', 'q', 'u', 'o', 't', ';']
    } else {
        seq![c]
    }
}

/// HTML escaping of a whole text, character by character.
pub open spec fn html_escape(s: Seq<char>) -> Seq<char>
    decreases s.len(),
{
    if s.len() == 0 {
        Seq::empty()
    } else {
        html_escape(s.drop_last()) + escape_char(s.last())
    }
}

/// Escaping a joined text escapes each part: `html_escape(a + b)` is
/// `html_escape(a) + html_escape(b)`.
pub proof fn lemma_escape_concat(a: Seq<char>, b: Seq<char>)
    ensures
        html_escape(a + b) == html_escape(a) + html_escape(b),
    decreases b.len(),
{
    if b.len() == 0 {
        assert(a + b =~= a);
        assert(html_escape(a) + html_escape(b) =~= html_escape(a));
    } else {
        lemma_escape_concat(a, b.drop_last());
        assert((a + b).drop_last() =~= a + b.drop_last());
        assert((a + b).last() == b.last());
        assert(html_escape(a) + html_escape(b) =~= html_escape(a) + html_escape(b.drop_last()) + escape_char(b.last()));
    }
}

/// An escaped text holds no `<`, `>` or `"`: whatever it came from, it cannot
/// open or close a tag or end an attribute value.
pub proof fn lemma_escaped_text_is_inert(s: Seq<char>)
    ensures
        forall|i: int| 0 <= i < html_escape(s).len() ==> {
            let c = #[trigger] html_escape(s)[i];
            c != '<' && c != '>' && c != '"'
        },
    decreases s.len(),
{
    if s.len() > 0 {
        lemma_escaped_text_is_inert(s.drop_last());
        let e = escape_char(s.last());
        assert forall|i: int| 0 <= i < html_escape(s).len() implies {
            let c = #[trigger] html_escape(s)[i];
            c != '<' && c != '>' && c != '"'
        } by {
            let p = html_escape(s.drop_last());
            if i >= p.len() {
                assert(html_escape(s)[i] == e[i - p.len()]);
            } else {
                assert(html_escape(s)[i] == p[i]);
            }
        }
    }
}

/// `c` is one of the characters that escaping rewrites.
pub open spec fn is_html_special(c: char) -> bool {
    c == '&' || c == '<' || c == '>' || c == '"'
}

/// A text without `&`, `<`, `>` and `"` is its own escape.
pub proof fn lemma_escape_keeps_plain_text(s: Seq<char>)
    requires
        forall|i: int| 0 <= i < s.len() ==> !is_html_special(#[trigger] s[i]),
    ensures
        html_escape(s) == s,
    decreases s.len(),
{
    if s.len() > 0 {
        lemma_escape_keeps_plain_text(s.drop_last());
        assert(!is_html_special(s[s.len() - 1]));
        assert(s.drop_last() + seq![s.last()] =~= s);
    }
}

/// Decimal digits are plain text: every character is one of `0` to `9`.
pub proof fn lemma_digits_are_digits(n: nat)
    ensures
        forall|i: int| 0 <= i < digits(n).len() ==> '0' <= #[trigger] digits(n)[i] <= '9',
    decreases n,
{
    if n >= 10 {
        lemma_digits_are_digits(n / 10);
        assert forall|i: int| 0 <= i < digits(n).len() implies '0' <= #[trigger] digits(n)[i] <= '9' by {
            if i < digits(n / 10).len() {
                assert(digits(n)[i] == digits(n / 10)[i]);
            }
        }
    }
}

/// A number written in decimal needs no escaping.
pub proof fn lemma_decimal_needs_no_escape(n: int)
    ensures
        html_escape(decimal(n)) == decimal(n),
{
    let m: nat = if n < 0 { (-n) as nat } else { n as nat };
    lemma_digits_are_digits(m);
    assert forall|i: int| 0 <= i < decimal(n).len() implies !is_html_special(#[trigger] decimal(n)[i]) by {
        if n < 0 {
            if i > 0 {
                assert(decimal(n)[i] == digits(m)[i - 1]);
            }
        } else {
            assert(decimal(n)[i] == digits(m)[i]);
        }
    }
    lemma_escape_keeps_plain_text(decimal(n));
}

/// `part` occurs somewhere in `whole` as a contiguous piece.
pub open spec fn is_infix(part: Seq<char>, whole: Seq<char>) -> bool {
    exists|i: int| 0 <= i && i + part.len() <= whole.len() && #[trigger] whole.subrange(i, i + part.len()) == part
}

/// A text occurs in any text that has it between some prefix and suffix.
pub proof fn lemma_infix_middle(before: Seq<char>, part: Seq<char>, after: Seq<char>)
    ensures
        is_infix(part, before + part + after),
{
    let whole = before + part + after;
    let i = before.len() as int;
    assert(whole.subrange(i, i + part.len()) =~= part);
}

/// A piece of a piece of a text is a piece of the text.
pub proof fn lemma_infix_transitive(a: Seq<char>, b: Seq<char>, c: Seq<char>)
    requires
        is_infix(a, b),
        is_infix(b, c),
    ensures
        is_infix(a, c),
{
    let i = choose|i: int| 0 <= i && i + a.len() <= b.len() && #[trigger] b.subrange(i, i + a.len()) == a;
    let j = choose|j: int| 0 <= j && j + b.len() <= c.len() && #[trigger] c.subrange(j, j + b.len()) == b;
    assert(c.subrange(i + j, i + j + a.len()) =~= a);
}

/// `s` ends with `suffix`.
pub open spec fn has_suffix(s: Seq<char>, suffix: Seq<char>) -> bool {
    suffix.len() <= s.len() && s.subrange(s.len() - suffix.len(), s.len() as int) == suffix
}

/// `s` with every trailing repetition of `pattern` removed (what
/// `str::trim_end_matches` returns for a text pattern).
pub open spec fn without_trailing(s: Seq<char>, pattern: Seq<char>) -> Seq<char>
    decreases s.len(),
{
    if pattern.len() > 0 && has_suffix(s, pattern) {
        without_trailing(s.subrange(0, s.len() - pattern.len()), pattern)
    } else {
        s
    }
}

/// Removing the trailing repetitions of a nonempty pattern leaves a prefix of
/// the text that no longer ends with the pattern, and doing it again changes
/// nothing.
pub proof fn lemma_without_trailing(s: Seq<char>, pattern: Seq<char>)
    requires
        pattern.len() > 0,
    ensures
        !has_suffix(without_trailing(s, pattern), pattern),
        without_trailing(s, pattern).len() <= s.len(),
        s.subrange(0, without_trailing(s, pattern).len() as int) == without_trailing(s, pattern),
        without_trailing(without_trailing(s, pattern), pattern) == without_trailing(s, pattern),
    decreases s.len(),
{
    if has_suffix(s, pattern) {
        let shorter = s.subrange(0, s.len() - pattern.len());
        lemma_without_trailing(shorter, pattern);
        let r = without_trailing(shorter, pattern);
        assert(s.subrange(0, r.len() as int) =~= shorter.subrange(0, r.len() as int));
    } else {
        assert(s.subrange(0, s.len() as int) =~= s);
    }
}

/// The first `end` characters of `s` end with `pattern`.
fn prefix_ends_with(s: &str, end: usize, pattern: &str) -> (r: bool)
    requires
        end <= s@.len(),
    ensures
        r == has_suffix(s@.subrange(0, end as int), pattern@),
{
    let plen = pattern.unicode_len();
    if plen > end {
        return false;
    }
    let start = end - plen;
    let mut i: usize = 0;
    while i < plen
        invariant
            plen == pattern@.len(),
            start + plen == end,
            end <= s@.len(),
            i <= plen,
            forall|j: int| 0 <= j < i ==> s@[start + j] == pattern@[j],
        decreases plen - i,
    {
        if s.get_char(start + i) != pattern.get_char(i) {
            assert(s@.subrange(0, end as int).subrange(start as int, end as int)[i as int]
                != pattern@[i as int]);
            return false;
        }
        i = i + 1;
    }
    assert(s@.subrange(0, end as int).subrange(start as int, end as int) =~= pattern@);
    true
}

/// `s` ends with `suffix`.
pub fn ends_with(s: &str, suffix: &str) -> (r: bool)
    ensures
        r == has_suffix(s@, suffix@),
{
    let n = s.unicode_len();
    assert(s@.subrange(0, n as int) =~= s@);
    prefix_ends_with(s, n, suffix)
}

/// `s` with every trailing repetition of `pattern` removed.
pub fn trim_end_matches(s: &str, pattern: &str) -> (r: String)
    ensures
        r@ == without_trailing(s@, pattern@),
{
    let plen = pattern.unicode_len();
    let mut end = s.unicode_len();
    assert(s@.subrange(0, end as int) =~= s@);
    if plen == 0 {
        return String::from_str(s);
    }
    while prefix_ends_with(s, end, pattern)
        invariant
            plen == pattern@.len(),
            plen > 0,
            end <= s@.len(),
            without_trailing(s@, pattern@) == without_trailing(s@.subrange(0, end as int), pattern@),
        decreases end,
    {
        assert(s@.subrange(0, end as int).subrange(0, end - plen) =~= s@.subrange(0, end - plen));
        end = end - plen;
    }
    String::from_str(s.substring_char(0, end))
}

/// The text an optional string holds, if any.
pub open spec fn opt_view(o: Option<String>) -> Option<Seq<char>> {
    match o {
        Some(s) => Some(s@),
        None => None,
    }
}

} // verus!
