//! Shared text primitives: decimal numbers, character classes, splitting,
//! and markup escaping for text and attribute values.

use vstd::prelude::*;
use vstd::string::*;

verus! {

/// Relies on std's `String::push`: appends exactly one character at the end.
#[verifier::external_body]
pub(crate) fn push_char(s: &mut String, c: char)
    ensures
        final(s)@ == old(s)@ + seq![c],
{
    s.push(c);
}

/// Whether `c` is a decimal digit.
pub open spec fn is_digit(c: char) -> bool {
    '0' as int <= c as int <= '9' as int
}

/// The numeric value of a digit character (zero for non-digits).
pub open spec fn digit_val(c: char) -> nat {
    (c as int - '0' as int) as nat
}

/// Whether every character of `s` is a decimal digit.
pub open spec fn all_digits(s: Seq<char>) -> bool {
    forall|i: int| 0 <= i < s.len() ==> is_digit(#[trigger] s[i])
}

/// The value of `s` read as a decimal numeral.
pub open spec fn dec_value(s: Seq<char>) -> nat
    decreases s.len(),
{
    if s.len() == 0 {
        0
    } else {
        dec_value(s.drop_last()) * 10 + digit_val(s.last())
    }
}

/// The digit character for a value below ten.
pub open spec fn digit_char(d: nat) -> char {
    if d == 0 {
        '0'
    } else if d == 1 {
        '1'
    } else if d == 2 {
        '2'
    } else if d == 3 {
        '3'
    } else if d == 4 {
        '4'
    } else if d == 5 {
        '5'
    } else if d == 6 {
        '6'
    } else if d == 7 {
        '7'
    } else if d == 8 {
        '8'
    } else {
        '9'
    }
}

/// The decimal numeral for `n`, without leading zeros.
pub open spec fn dec_rep(n: nat) -> Seq<char>
    decreases n,
{
    if n < 10 {
        seq![digit_char(n)]
    } else {
        dec_rep(n / 10).push(digit_char(n % 10))
    }
}

/// A prefix of a digit string never reads as more than the whole string.
proof fn lemma_dec_value_prefix(s: Seq<char>, i: int)
    requires
        0 <= i <= s.len(),
    ensures
        dec_value(s.subrange(0, i)) <= dec_value(s),
    decreases s.len() - i,
{
    if i == s.len() {
        assert(s.subrange(0, i) =~= s);
    } else {
        assert(s.subrange(0, i + 1).drop_last() =~= s.subrange(0, i));
        assert(s.subrange(0, i + 1).last() == s[i]);
        assert(dec_value(s.subrange(0, i)) <= dec_value(s.subrange(0, i + 1)));
        lemma_dec_value_prefix(s, i + 1);
    }
}

/// Parses a non-empty, all-digit string into a number, or reports that the
/// string is not such a numeral or does not fit.
pub fn parse_u32(s: &str) -> (r: Option<u32>)
    ensures
        match r {
            Some(n) => s@.len() > 0 && all_digits(s@) && dec_value(s@) == n as nat,
            None => !(s@.len() > 0 && all_digits(s@) && dec_value(s@) <= u32::MAX as nat),
        },
{
    let n = s.unicode_len();
    if n == 0 {
        return None;
    }
    let mut i: usize = 0;
    let mut acc: u64 = 0;
    while i < n
        invariant
            0 <= i <= n,
            n == s@.len(),
            all_digits(s@.subrange(0, i as int)),
            acc as nat == dec_value(s@.subrange(0, i as int)),
            acc <= u32::MAX as u64,
        decreases n - i,
    {
        let c = s.get_char(i);
        let d = c as u32;
        if d < 48 || d > 57 {
            assert(!is_digit(s@[i as int]));
            return None;
        }
        assert(s@.subrange(0, i as int + 1).drop_last() =~= s@.subrange(0, i as int));
        assert(s@.subrange(0, i as int + 1).last() == s@[i as int]);
        acc = acc * 10 + (d - 48) as u64;
        i = i + 1;
        if acc > u32::MAX as u64 {
            proof {
                if all_digits(s@) {
                    lemma_dec_value_prefix(s@, i as int);
                }
            }
            return None;
        }
    }
    assert(s@.subrange(0, n as int) =~= s@);
    Some(acc as u32)
}

/// Appends the decimal numeral of `n` to `out`.
pub fn append_u32(out: &mut String, n: u32)
    ensures
        final(out)@ == old(out)@ + dec_rep(n as nat),
    decreases n,
{
    if n < 10 {
        let c = match n {
            0 => '0',
            1 => '1',
            2 => '2',
            3 => '3',
            4 => '4',
            5 => '5',
            6 => '6',
            7 => '7',
            8 => '8',
            _ => '9',
        };
        assert(c == digit_char(n as nat));
        push_char(out, c);
    } else {
        append_u32(out, n / 10);
        let d = n % 10;
        let c = match d {
            0 => '0',
            1 => '1',
            2 => '2',
            3 => '3',
            4 => '4',
            5 => '5',
            6 => '6',
            7 => '7',
            8 => '8',
            _ => '9',
        };
        assert(c == digit_char((n % 10) as nat));
        push_char(out, c);
    }
}

/// The index of the first occurrence of `sep` in `s`, or the length of `s`
/// when it does not occur.
pub open spec fn find_idx(s: Seq<char>, sep: char) -> nat
    decreases s.len(),
{
    if s.len() == 0 {
        0
    } else if s[0] == sep {
        0
    } else {
        1 + find_idx(s.drop_first(), sep)
    }
}

/// `find_idx` returns the position of the first occurrence, or the length.
pub proof fn lemma_find_idx(s: Seq<char>, sep: char)
    ensures
        find_idx(s, sep) <= s.len(),
        find_idx(s, sep) < s.len() ==> s[find_idx(s, sep) as int] == sep,
        forall|j: int| 0 <= j < find_idx(s, sep) ==> s[j] != sep,
    decreases s.len(),
{
    if s.len() > 0 && s[0] != sep {
        lemma_find_idx(s.drop_first(), sep);
        assert forall|j: int| 0 <= j < find_idx(s, sep) implies s[j] != sep by {
            if j > 0 {
                assert(s.drop_first()[j - 1] == s[j]);
            }
        }
    }
}

/// Finds the first occurrence of `sep` in `s`, or the length of `s`.
pub fn find_char(s: &str, sep: char) -> (r: usize)
    ensures
        r as nat == find_idx(s@, sep),
{
    let n = s.unicode_len();
    let mut i: usize = 0;
    proof {
        lemma_find_idx(s@, sep);
    }
    while i < n
        invariant
            0 <= i <= n,
            n == s@.len(),
            forall|j: int| 0 <= j < i ==> s@[j] != sep,
            find_idx(s@, sep) <= s@.len(),
            find_idx(s@, sep) < s@.len() ==> s@[find_idx(s@, sep) as int] == sep,
            forall|j: int| 0 <= j < find_idx(s@, sep) ==> s@[j] != sep,
        decreases n - i,
    {
        let c = s.get_char(i);
        if c == sep {
            return i;
        }
        i = i + 1;
    }
    i
}

/// Splits `s` at every occurrence of `sep`. The result always has at least
/// one (possibly empty) part.
pub open spec fn spec_split(s: Seq<char>, sep: char) -> Seq<Seq<char>>
    decreases s.len(),
{
    let i = find_idx(s, sep) as int;
    if i >= s.len() {
        seq![s]
    } else {
        seq![s.subrange(0, i)] + spec_split(s.subrange(i + 1, s.len() as int), sep)
    }
}

/// Splits `s` at every occurrence of `sep`.
pub fn split_char(s: &str, sep: char) -> (r: Vec<String>)
    ensures
        r.deep_view() == spec_split(s@, sep),
    decreases s@.len(),
{
    proof {
        lemma_find_idx(s@, sep);
    }
    let n = s.unicode_len();
    let i = find_char(s, sep);
    if i == n {
        let part = s.to_owned();
        let mut r: Vec<String> = Vec::new();
        r.push(part);
        assert(r.deep_view() =~= spec_split(s@, sep));
        r
    } else {
        let head = s.substring_char(0, i).to_owned();
        let rest = s.substring_char(i + 1, n);
        let mut r = split_char(rest, sep);
        r.insert(0, head);
        assert(r.deep_view() =~= spec_split(s@, sep));
        r
    }
}

/// Whether two string slices hold the same characters.
pub fn str_eq(a: &str, b: &str) -> (r: bool)
    ensures
        r == (a@ == b@),
{
    let an = a.unicode_len();
    let bn = b.unicode_len();
    if an != bn {
        return false;
    }
    let mut i: usize = 0;
    while i < an
        invariant
            0 <= i <= an,
            an == a@.len(),
            an == b@.len(),
            forall|j: int| 0 <= j < i ==> a@[j] == b@[j],
        decreases an - i,
    {
        if a.get_char(i) != b.get_char(i) {
            return false;
        }
        i = i + 1;
    }
    proof {
        assert(a@ =~= b@);
    }
    true
}

/// Whether `c` may start an identifier: an ASCII letter or an underscore.
pub open spec fn is_id_start(c: char) -> bool {
    ('a' as int <= c as int <= 'z' as int) || ('A' as int <= c as int <= 'Z' as int) || c == '_'
}

/// Whether `c` may continue an identifier: a start character, a digit, or a
/// hyphen.
pub open spec fn is_id_continue(c: char) -> bool {
    is_id_start(c) || is_digit(c) || c == '-'
}

/// Whether `s` is a valid identifier: non-empty, starting with a letter or
/// underscore, continuing with letters, digits, underscores, or hyphens.
pub open spec fn is_ident(s: Seq<char>) -> bool {
    &&& s.len() > 0
    &&& is_id_start(s[0])
    &&& forall|i: int| 1 <= i < s.len() ==> is_id_continue(#[trigger] s[i])
}

/// Decides whether `s` is a valid identifier.
pub fn is_ident_str(s: &str) -> (r: bool)
    ensures
        r == is_ident(s@),
{
    let n = s.unicode_len();
    if n == 0 {
        return false;
    }
    let c0 = s.get_char(0);
    let d0 = c0 as u32;
    let start_ok = (97 <= d0 && d0 <= 122) || (65 <= d0 && d0 <= 90) || c0 == '_';
    if !start_ok {
        assert(!is_id_start(s@[0]));
        return false;
    }
    let mut i: usize = 1;
    while i < n
        invariant
            1 <= i <= n,
            n == s@.len(),
            is_id_start(s@[0]),
            forall|j: int| 1 <= j < i ==> is_id_continue(#[trigger] s@[j]),
        decreases n - i,
    {
        let c = s.get_char(i);
        let d = c as u32;
        let ok = (97 <= d && d <= 122) || (65 <= d && d <= 90) || c == '_' || (48 <= d && d <= 57)
            || c == '-';
        if !ok {
            assert(!is_id_continue(s@[i as int]));
            return false;
        }
        i = i + 1;
    }
    true
}

/// The escape of one character in text content: the reserved markup
/// characters become named character references.
pub open spec fn escape_text_char(c: char) -> Seq<char> {
    if c == '&' {
        "&amp;"@
    } else if c == '<' {
        "&lt;"@
    } else if c == '>' {
        "&gt;"@
    } else {
        seq![c]
    }
}

/// The escape of one character in an attribute value: quotes are escaped in
/// addition to the text escapes.
pub open spec fn escape_attr_char(c: char) -> Seq<char> {
    if c == '"' {
        "&quot;"@
    } else if c == '\'' {
        "&#39;"@
    } else {
        escape_text_char(c)
    }
}

/// The escape of text content.
pub open spec fn escape_text(s: Seq<char>) -> Seq<char>
    decreases s.len(),
{
    if s.len() == 0 {
        Seq::empty()
    } else {
        escape_text(s.drop_last()) + escape_text_char(s.last())
    }
}

/// The escape of an attribute value.
pub open spec fn escape_attr(s: Seq<char>) -> Seq<char>
    decreases s.len(),
{
    if s.len() == 0 {
        Seq::empty()
    } else {
        escape_attr(s.drop_last()) + escape_attr_char(s.last())
    }
}

/// Whether position `i` of `e` starts one of the named character references
/// that text escaping emits.
pub open spec fn entity_at(e: Seq<char>, i: int) -> bool {
    ||| (i + 5 <= e.len() && e.subrange(i, i + 5) == "&amp;"@)
    ||| (i + 4 <= e.len() && e.subrange(i, i + 4) == "&lt;"@)
    ||| (i + 4 <= e.len() && e.subrange(i, i + 4) == "&gt;"@)
}

/// Law: escaped text contains no raw `<` or `>`, and every `&` in it begins
/// a named character reference.
pub proof fn lemma_escape_text_safe(s: Seq<char>)
    ensures
        forall|i: int|
            0 <= i < escape_text(s).len() ==> escape_text(s)[i] != '<' && escape_text(s)[i] != '>',
        forall|i: int|
            0 <= i < escape_text(s).len() && escape_text(s)[i] == '&' ==> entity_at(
                escape_text(s),
                i,
            ),
    decreases s.len(),
{
    reveal_strlit("&amp;");
    reveal_strlit("&lt;");
    reveal_strlit("&gt;");
    if s.len() > 0 {
        lemma_escape_text_safe(s.drop_last());
        let p = escape_text(s.drop_last());
        let b = escape_text_char(s.last());
        let e = escape_text(s);
        assert(e == p + b);
        assert forall|i: int| 0 <= i < e.len() implies e[i] != '<' && e[i] != '>' by {
            if i < p.len() {
                assert(e[i] == p[i]);
            } else {
                assert(e[i] == b[i - p.len()]);
            }
        }
        assert forall|i: int| 0 <= i < e.len() && e[i] == '&' implies entity_at(e, i) by {
            if i < p.len() {
                assert(p[i] == e[i]);
                assert(entity_at(p, i));
                if i + 5 <= p.len() && p.subrange(i, i + 5) == "&amp;"@ {
                    assert(e.subrange(i, i + 5) =~= p.subrange(i, i + 5));
                } else if i + 4 <= p.len() && p.subrange(i, i + 4) == "&lt;"@ {
                    assert(e.subrange(i, i + 4) =~= p.subrange(i, i + 4));
                } else {
                    assert(i + 4 <= p.len() && p.subrange(i, i + 4) == "&gt;"@);
                    assert(e.subrange(i, i + 4) =~= p.subrange(i, i + 4));
                }
            } else {
                let k = i - p.len();
                assert(e[i] == b[k]);
                if s.last() == '&' {
                    assert(b == "&amp;"@);
                    assert(k == 0);
                    assert(e.subrange(i, i + 5) =~= b);
                } else if s.last() == '<' {
                    assert(b == "&lt;"@);
                    assert(k == 0);
                    assert(e.subrange(i, i + 4) =~= b);
                } else if s.last() == '>' {
                    assert(b == "&gt;"@);
                    assert(k == 0);
                    assert(e.subrange(i, i + 4) =~= b);
                } else {
                    assert(b == seq![s.last()]);
                    assert(b[k] == s.last());
                    assert(s.last() != '&');
                    assert(false);
                }
            }
        }
    }
}

/// Law: an escaped attribute value contains no raw `<`, `>`, `"`, or `'`.
pub proof fn lemma_escape_attr_safe(s: Seq<char>)
    ensures
        forall|i: int|
            0 <= i < escape_attr(s).len() ==> escape_attr(s)[i] != '<' && escape_attr(s)[i] != '>'
                && escape_attr(s)[i] != '"' && escape_attr(s)[i] != '\'',
    decreases s.len(),
{
    reveal_strlit("&amp;");
    reveal_strlit("&lt;");
    reveal_strlit("&gt;");
    reveal_strlit("&quot;");
    reveal_strlit("&#39;");
    if s.len() > 0 {
        lemma_escape_attr_safe(s.drop_last());
        let p = escape_attr(s.drop_last());
        let b = escape_attr_char(s.last());
        let e = escape_attr(s);
        assert(e == p + b);
        assert forall|i: int| 0 <= i < e.len() implies e[i] != '<' && e[i] != '>' && e[i] != '"'
            && e[i] != '\'' by {
            if i < p.len() {
                assert(e[i] == p[i]);
            } else {
                assert(e[i] == b[i - p.len()]);
            }
        }
    }
}

/// The inverse of text escaping: reads named character references back into
/// the characters they stand for.
pub open spec fn unescape_text(s: Seq<char>) -> Seq<char>
    decreases s.len(),
{
    if s.len() == 0 {
        Seq::empty()
    } else if s.len() >= 5 && s.subrange(0, 5) == "&amp;"@ {
        seq!['&'] + unescape_text(s.subrange(5, s.len() as int))
    } else if s.len() >= 4 && s.subrange(0, 4) == "&lt;"@ {
        seq!['<'] + unescape_text(s.subrange(4, s.len() as int))
    } else if s.len() >= 4 && s.subrange(0, 4) == "&gt;"@ {
        seq!['>'] + unescape_text(s.subrange(4, s.len() as int))
    } else {
        seq![s[0]] + unescape_text(s.subrange(1, s.len() as int))
    }
}

/// Escaping distributes over concatenation.
pub proof fn lemma_escape_text_concat(a: Seq<char>, b: Seq<char>)
    ensures
        escape_text(a + b) == escape_text(a) + escape_text(b),
    decreases b.len(),
{
    if b.len() == 0 {
        assert(a + b =~= a);
        assert(escape_text(a) + escape_text(b) =~= escape_text(a));
    } else {
        lemma_escape_text_concat(a, b.drop_last());
        assert((a + b).drop_last() =~= a + b.drop_last());
        assert((a + b).last() == b.last());
        assert(escape_text(a) + escape_text(b) =~= escape_text(a) + (escape_text(b.drop_last())
            + escape_text_char(b.last())));
    }
}

/// Escaping unfolds at the front: the first character's escape, then the
/// escape of the rest.
pub proof fn lemma_escape_text_head(s: Seq<char>)
    requires
        s.len() > 0,
    ensures
        escape_text(s) == escape_text_char(s[0]) + escape_text(s.drop_first()),
{
    assert(s =~= seq![s[0]] + s.drop_first());
    lemma_escape_text_concat(seq![s[0]], s.drop_first());
    assert(seq![s[0]].drop_last() =~= Seq::<char>::empty());
    assert(escape_text(Seq::<char>::empty()) =~= Seq::<char>::empty());
    assert(escape_text(seq![s[0]]) == escape_text(seq![s[0]].drop_last()) + escape_text_char(
        seq![s[0]].last(),
    ));
    assert(escape_text(seq![s[0]]) =~= escape_text_char(s[0]));
}

/// Law: text escaping is reversible — reading the character references of an
/// escaped text back yields the original text.
pub proof fn lemma_unescape_escape_text(s: Seq<char>)
    ensures
        unescape_text(escape_text(s)) == s,
    decreases s.len(),
{
    reveal_strlit("&amp;");
    reveal_strlit("&lt;");
    reveal_strlit("&gt;");
    if s.len() == 0 {
        assert(unescape_text(escape_text(s)) =~= s);
    } else {
        lemma_escape_text_head(s);
        lemma_unescape_escape_text(s.drop_first());
        let c = s[0];
        let rest = escape_text(s.drop_first());
        let e = escape_text(s);
        assert(e == escape_text_char(c) + rest);
        if c == '&' {
            assert(e.subrange(0, 5) =~= "&amp;"@);
            assert(e.subrange(5, e.len() as int) =~= rest);
            assert(unescape_text(e) =~= seq![c] + s.drop_first());
            assert(seq![c] + s.drop_first() =~= s);
        } else if c == '<' {
            assert(e[1] == 'l');
            if e.len() >= 5 && e.subrange(0, 5) == "&amp;"@ {
                assert(e.subrange(0, 5)[1] == e[1]);
                assert(false);
            }
            assert(e.subrange(0, 4) =~= "&lt;"@);
            assert(e.subrange(4, e.len() as int) =~= rest);
            assert(unescape_text(e) =~= seq![c] + s.drop_first());
            assert(seq![c] + s.drop_first() =~= s);
        } else if c == '>' {
            assert(e[1] == 'g');
            if e.len() >= 5 && e.subrange(0, 5) == "&amp;"@ {
                assert(e.subrange(0, 5)[1] == e[1]);
                assert(false);
            }
            if e.len() >= 4 && e.subrange(0, 4) == "&lt;"@ {
                assert(e.subrange(0, 4)[1] == e[1]);
                assert(false);
            }
            assert(e.subrange(0, 4) =~= "&gt;"@);
            assert(e.subrange(4, e.len() as int) =~= rest);
            assert(unescape_text(e) =~= seq![c] + s.drop_first());
            assert(seq![c] + s.drop_first() =~= s);
        } else {
            assert(e[0] == c);
            if e.len() >= 5 && e.subrange(0, 5) == "&amp;"@ {
                assert(e.subrange(0, 5)[0] == e[0]);
                assert(false);
            }
            if e.len() >= 4 && e.subrange(0, 4) == "&lt;"@ {
                assert(e.subrange(0, 4)[0] == e[0]);
                assert(false);
            }
            if e.len() >= 4 && e.subrange(0, 4) == "&gt;"@ {
                assert(e.subrange(0, 4)[0] == e[0]);
                assert(false);
            }
            assert(e.subrange(1, e.len() as int) =~= rest);
            assert(unescape_text(e) =~= seq![c] + s.drop_first());
            assert(seq![c] + s.drop_first() =~= s);
        }
    }
}

/// The inverse of attribute-value escaping.
pub open spec fn unescape_attr(s: Seq<char>) -> Seq<char>
    decreases s.len(),
{
    if s.len() == 0 {
        Seq::empty()
    } else if s.len() >= 6 && s.subrange(0, 6) == "&quot;"@ {
        seq!['"'] + unescape_attr(s.subrange(6, s.len() as int))
    } else if s.len() >= 5 && s.subrange(0, 5) == "&#39;"@ {
        seq!['\''] + unescape_attr(s.subrange(5, s.len() as int))
    } else if s.len() >= 5 && s.subrange(0, 5) == "&amp;"@ {
        seq!['&'] + unescape_attr(s.subrange(5, s.len() as int))
    } else if s.len() >= 4 && s.subrange(0, 4) == "&lt;"@ {
        seq!['<'] + unescape_attr(s.subrange(4, s.len() as int))
    } else if s.len() >= 4 && s.subrange(0, 4) == "&gt;"@ {
        seq!['>'] + unescape_attr(s.subrange(4, s.len() as int))
    } else {
        seq![s[0]] + unescape_attr(s.subrange(1, s.len() as int))
    }
}

/// Attribute escaping distributes over concatenation.
pub proof fn lemma_escape_attr_concat(a: Seq<char>, b: Seq<char>)
    ensures
        escape_attr(a + b) == escape_attr(a) + escape_attr(b),
    decreases b.len(),
{
    if b.len() == 0 {
        assert(a + b =~= a);
        assert(escape_attr(a) + escape_attr(b) =~= escape_attr(a));
    } else {
        lemma_escape_attr_concat(a, b.drop_last());
        assert((a + b).drop_last() =~= a + b.drop_last());
        assert((a + b).last() == b.last());
        assert(escape_attr(a) + escape_attr(b) =~= escape_attr(a) + (escape_attr(b.drop_last())
            + escape_attr_char(b.last())));
    }
}

/// Attribute escaping unfolds at the front.
pub proof fn lemma_escape_attr_head(s: Seq<char>)
    requires
        s.len() > 0,
    ensures
        escape_attr(s) == escape_attr_char(s[0]) + escape_attr(s.drop_first()),
{
    assert(s =~= seq![s[0]] + s.drop_first());
    lemma_escape_attr_concat(seq![s[0]], s.drop_first());
    assert(seq![s[0]].drop_last() =~= Seq::<char>::empty());
    assert(escape_attr(Seq::<char>::empty()) =~= Seq::<char>::empty());
    assert(escape_attr(seq![s[0]]) == escape_attr(seq![s[0]].drop_last()) + escape_attr_char(
        seq![s[0]].last(),
    ));
    assert(escape_attr(seq![s[0]]) =~= escape_attr_char(s[0]));
}

/// Law: attribute-value escaping is reversible — reading the character
/// references of an escaped value back yields the original value.
pub proof fn lemma_unescape_escape_attr(s: Seq<char>)
    ensures
        unescape_attr(escape_attr(s)) == s,
    decreases s.len(),
{
    reveal_strlit("&quot;");
    reveal_strlit("&#39;");
    reveal_strlit("&amp;");
    reveal_strlit("&lt;");
    reveal_strlit("&gt;");
    if s.len() == 0 {
        assert(unescape_attr(escape_attr(s)) =~= s);
    } else {
        lemma_escape_attr_head(s);
        lemma_unescape_escape_attr(s.drop_first());
        let c = s[0];
        let rest = escape_attr(s.drop_first());
        let e = escape_attr(s);
        assert(e == escape_attr_char(c) + rest);
        // The five references are told apart by their second character, and
        // a plain first character is never `&`.
        if c == '"' {
            assert(e.subrange(0, 6) =~= "&quot;"@);
            assert(e.subrange(6, e.len() as int) =~= rest);
            assert(unescape_attr(e) =~= seq![c] + s.drop_first());
        } else if c == '\'' {
            assert(e[1] == '#');
            if e.len() >= 6 && e.subrange(0, 6) == "&quot;"@ {
                assert(e.subrange(0, 6)[1] == e[1]);
                assert(false);
            }
            assert(e.subrange(0, 5) =~= "&#39;"@);
            assert(e.subrange(5, e.len() as int) =~= rest);
            assert(unescape_attr(e) =~= seq![c] + s.drop_first());
        } else if c == '&' {
            assert(e[1] == 'a');
            if e.len() >= 6 && e.subrange(0, 6) == "&quot;"@ {
                assert(e.subrange(0, 6)[1] == e[1]);
                assert(false);
            }
            if e.len() >= 5 && e.subrange(0, 5) == "&#39;"@ {
                assert(e.subrange(0, 5)[1] == e[1]);
                assert(false);
            }
            assert(e.subrange(0, 5) =~= "&amp;"@);
            assert(e.subrange(5, e.len() as int) =~= rest);
            assert(unescape_attr(e) =~= seq![c] + s.drop_first());
        } else if c == '<' {
            assert(e[1] == 'l');
            if e.len() >= 6 && e.subrange(0, 6) == "&quot;"@ {
                assert(e.subrange(0, 6)[1] == e[1]);
                assert(false);
            }
            if e.len() >= 5 && e.subrange(0, 5) == "&#39;"@ {
                assert(e.subrange(0, 5)[1] == e[1]);
                assert(false);
            }
            if e.len() >= 5 && e.subrange(0, 5) == "&amp;"@ {
                assert(e.subrange(0, 5)[1] == e[1]);
                assert(false);
            }
            assert(e.subrange(0, 4) =~= "&lt;"@);
            assert(e.subrange(4, e.len() as int) =~= rest);
            assert(unescape_attr(e) =~= seq![c] + s.drop_first());
        } else if c == '>' {
            assert(e[1] == 'g');
            if e.len() >= 6 && e.subrange(0, 6) == "&quot;"@ {
                assert(e.subrange(0, 6)[1] == e[1]);
                assert(false);
            }
            if e.len() >= 5 && e.subrange(0, 5) == "&#39;"@ {
                assert(e.subrange(0, 5)[1] == e[1]);
                assert(false);
            }
            if e.len() >= 5 && e.subrange(0, 5) == "&amp;"@ {
                assert(e.subrange(0, 5)[1] == e[1]);
                assert(false);
            }
            if e.len() >= 4 && e.subrange(0, 4) == "&lt;"@ {
                assert(e.subrange(0, 4)[1] == e[1]);
                assert(false);
            }
            assert(e.subrange(0, 4) =~= "&gt;"@);
            assert(e.subrange(4, e.len() as int) =~= rest);
            assert(unescape_attr(e) =~= seq![c] + s.drop_first());
        } else {
            assert(e[0] == c);
            if e.len() >= 6 && e.subrange(0, 6) == "&quot;"@ {
                assert(e.subrange(0, 6)[0] == e[0]);
                assert(false);
            }
            if e.len() >= 5 && e.subrange(0, 5) == "&#39;"@ {
                assert(e.subrange(0, 5)[0] == e[0]);
                assert(false);
            }
            if e.len() >= 5 && e.subrange(0, 5) == "&amp;"@ {
                assert(e.subrange(0, 5)[0] == e[0]);
                assert(false);
            }
            if e.len() >= 4 && e.subrange(0, 4) == "&lt;"@ {
                assert(e.subrange(0, 4)[0] == e[0]);
                assert(false);
            }
            if e.len() >= 4 && e.subrange(0, 4) == "&gt;"@ {
                assert(e.subrange(0, 4)[0] == e[0]);
                assert(false);
            }
            assert(e.subrange(1, e.len() as int) =~= rest);
            assert(unescape_attr(e) =~= seq![c] + s.drop_first());
        }
        assert(seq![c] + s.drop_first() =~= s);
    }
}

/// Appends the text-content escape of `s` to `out`.
pub fn escape_text_into(s: &str, out: &mut String)
    ensures
        final(out)@ == old(out)@ + escape_text(s@),
{
    let n = s.unicode_len();
    let mut i: usize = 0;
    while i < n
        invariant
            0 <= i <= n,
            n == s@.len(),
            out@ == old(out)@ + escape_text(s@.subrange(0, i as int)),
        decreases n - i,
    {
        let c = s.get_char(i);
        proof {
            assert(s@.subrange(0, i as int + 1).drop_last() =~= s@.subrange(0, i as int));
            assert(s@.subrange(0, i as int + 1).last() == s@[i as int]);
        }
        if c == '&' {
            out.append("&amp;");
        } else if c == '<' {
            out.append("&lt;");
        } else if c == '>' {
            out.append("&gt;");
        } else {
            push_char(out, c);
        }
        i = i + 1;
    }
    proof {
        assert(s@.subrange(0, n as int) =~= s@);
    }
}

/// Appends the attribute-value escape of `s` to `out`.
pub fn escape_attr_into(s: &str, out: &mut String)
    ensures
        final(out)@ == old(out)@ + escape_attr(s@),
{
    let n = s.unicode_len();
    let mut i: usize = 0;
    while i < n
        invariant
            0 <= i <= n,
            n == s@.len(),
            out@ == old(out)@ + escape_attr(s@.subrange(0, i as int)),
        decreases n - i,
    {
        let c = s.get_char(i);
        proof {
            assert(s@.subrange(0, i as int + 1).drop_last() =~= s@.subrange(0, i as int));
            assert(s@.subrange(0, i as int + 1).last() == s@[i as int]);
        }
        if c == '"' {
            out.append("&quot;");
        } else if c == '\'' {
            out.append("&#39;");
        } else if c == '&' {
            out.append("&amp;");
        } else if c == '<' {
            out.append("&lt;");
        } else if c == '>' {
            out.append("&gt;");
        } else {
            push_char(out, c);
        }
        i = i + 1;
    }
    proof {
        assert(s@.subrange(0, n as int) =~= s@);
    }
}

} // verus!
