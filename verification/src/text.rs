//! Small string operations on characters: the pieces that the parsers and
//! page builders are made of.
use vstd::prelude::*;
use vstd::string::*;

verus! {

/// `String::push` adds one character at the end.
pub assume_specification[ String::push ](s: &mut String, c: char)
    ensures
        final(s)@ == old(s)@.push(c),
;

/// The characters of `s`, in order.
pub(crate) fn chars_of(s: &str) -> (chars: Vec<char>)
    ensures
        chars@ == s@,
{
    let mut chars: Vec<char> = Vec::new();
    for c in it: s.chars()
        invariant
            chars@ == it.seq().take(it.index()),
            it.seq() == s@,
    {
        chars.push(c);
    }
    assert(chars@ =~= s@);
    chars
}

/// The string made of `chars[from..to]`.
pub(crate) fn string_between(chars: &Vec<char>, from: usize, to: usize) -> (s: String)
    requires
        from <= to <= chars@.len(),
    ensures
        s@ == chars@.subrange(from as int, to as int),
{
    let mut s = String::new();
    let mut i: usize = from;
    while i < to
        invariant
            from <= i <= to <= chars@.len(),
            s@ == chars@.subrange(from as int, i as int),
        decreases to - i,
    {
        s.push(chars[i]);
        i = i + 1;
        assert(chars@.subrange(from as int, i as int) =~= chars@.subrange(
            from as int,
            i - 1,
        ).push(chars@[i - 1]));
    }
    assert(chars@.subrange(from as int, from as int) =~= Seq::<char>::empty());
    s
}

/// Unicode's `White_Space` property.
pub open spec fn is_white_space(c: char) -> bool {
    let n = c as u32;
    ||| 0x09 <= n <= 0x0D
    ||| n == 0x20
    ||| n == 0x85
    ||| n == 0xA0
    ||| n == 0x1680
    ||| 0x2000 <= n <= 0x200A
    ||| n == 0x2028
    ||| n == 0x2029
    ||| n == 0x202F
    ||| n == 0x205F
    ||| n == 0x3000
}

/// Whether `c` has Unicode's `White_Space` property.
pub fn is_whitespace(c: char) -> (white: bool)
    ensures
        white == is_white_space(c),
{
    let n: u32 = c as u32;
    (0x09 <= n && n <= 0x0D) || n == 0x20 || n == 0x85 || n == 0xA0 || n == 0x1680 || (0x2000 <= n
        && n <= 0x200A) || n == 0x2028 || n == 0x2029 || n == 0x202F || n == 0x205F || n == 0x3000
}

/// Whether `s` holds nothing but white space.
pub open spec fn is_blank_text(s: Seq<char>) -> bool {
    forall|i: int| 0 <= i < s.len() ==> is_white_space(#[trigger] s[i])
}

/// Whether `s` holds nothing but white space.
pub fn is_blank(s: &str) -> (blank: bool)
    ensures
        blank == is_blank_text(s@),
{
    let chars: Vec<char> = chars_of(s);
    let mut i: usize = 0;
    while i < chars.len()
        invariant
            chars@ == s@,
            0 <= i <= chars@.len(),
            forall|j: int| 0 <= j < i ==> is_white_space(#[trigger] chars@[j]),
        decreases chars@.len() - i,
    {
        if !is_whitespace(chars[i]) {
            assert(!is_white_space(s@[i as int]));
            return false;
        }
        i = i + 1;
    }
    true
}

/// An ASCII digit.
pub open spec fn is_digit(c: char) -> bool {
    '0' <= c <= '9'
}

/// The decimal digit for `n`.
pub open spec fn digit(n: nat) -> char {
    ('0' as nat + n) as char
}

/// `n` written in decimal, without leading zeros.
pub open spec fn decimal_text(n: nat) -> Seq<char>
    decreases n,
{
    if n < 10 {
        seq![digit(n)]
    } else {
        decimal_text(n / 10).push(digit(n % 10))
    }
}

/// `n` written in decimal.
pub fn decimal(n: u32) -> (s: String)
    ensures
        s@ == decimal_text(n as nat),
    decreases n,
{
    let mut s: String = if n < 10 {
        String::new()
    } else {
        decimal(n / 10)
    };
    let d: u8 = 48u8 + (n % 10) as u8;
    s.push(d as char);
    assert(s@ =~= decimal_text(n as nat));
    s
}

/// Whether `chars` continues with `prefix` from index `at` on.
pub(crate) fn has_prefix_at(chars: &Vec<char>, at: usize, prefix: &str) -> (found: bool)
    requires
        at <= chars@.len(),
    ensures
        found == prefix@.is_prefix_of(chars@.skip(at as int)),
{
    let wanted: Vec<char> = chars_of(prefix);
    if chars.len() - at < wanted.len() {
        return false;
    }
    let mut i: usize = 0;
    while i < wanted.len()
        invariant
            wanted@ == prefix@,
            0 <= i <= wanted@.len(),
            at + wanted@.len() <= chars@.len() <= usize::MAX,
            forall|j: int| 0 <= j < i ==> #[trigger] wanted@[j] == chars@[at + j],
        decreases wanted@.len() - i,
    {
        if chars[at + i] != wanted[i] {
            assert(prefix@[i as int] != chars@.skip(at as int)[i as int]);
            return false;
        }
        i = i + 1;
    }
    assert(prefix@ =~= chars@.skip(at as int).take(prefix@.len() as int));
    true
}

/// How many characters at the start of `s` satisfy `p`.
pub open spec fn span(s: Seq<char>, p: spec_fn(char) -> bool) -> nat
    decreases s.len(),
{
    if s.len() == 0 || !p(s[0]) {
        0
    } else {
        1 + span(s.skip(1), p)
    }
}

/// A run of characters that satisfy `p`, up to one that does not or to the
/// end, is the span.
pub(crate) proof fn lemma_span(s: Seq<char>, p: spec_fn(char) -> bool, n: int)
    requires
        0 <= n <= s.len(),
        forall|j: int| 0 <= j < n ==> p(#[trigger] s[j]),
        n < s.len() ==> !p(s[n]),
    ensures
        span(s, p) == n,
    decreases n,
{
    if n > 0 {
        assert(p(s[0]));
        assert forall|j: int| 0 <= j < n - 1 implies p(#[trigger] s.skip(1)[j]) by {
            assert(s.skip(1)[j] == s[j + 1]);
        }
        lemma_span(s.skip(1), p, n - 1);
    }
}

/// The first word of `s`: what is left of `s` without leading white space, up
/// to the next white space. Empty where `s` is blank.
pub open spec fn first_word(s: Seq<char>) -> Seq<char> {
    let trimmed = s.skip(span(s, |c: char| is_white_space(c)) as int);
    trimmed.take(span(trimmed, |c: char| !is_white_space(c)) as int)
}

/// The first word of `chars[from..]`.
pub(crate) fn first_word_from(chars: &Vec<char>, from: usize) -> (word: String)
    requires
        from <= chars@.len(),
    ensures
        word@ == first_word(chars@.skip(from as int)),
{
    let ghost s = chars@.skip(from as int);
    let mut start: usize = from;
    while start < chars.len() && is_whitespace(chars[start])
        invariant
            from <= start <= chars@.len(),
            forall|j: int| from <= j < start ==> is_white_space(#[trigger] chars@[j]),
        decreases chars@.len() - start,
    {
        start = start + 1;
    }
    let mut end: usize = start;
    while end < chars.len() && !is_whitespace(chars[end])
        invariant
            start <= end <= chars@.len(),
            forall|j: int| start <= j < end ==> !is_white_space(#[trigger] chars@[j]),
        decreases chars@.len() - end,
    {
        end = end + 1;
    }
    proof {
        lemma_span(s, |c: char| is_white_space(c), start - from);
        let trimmed = s.skip(start - from);
        assert(trimmed =~= chars@.skip(start as int));
        lemma_span(trimmed, |c: char| !is_white_space(c), end - start);
        assert(trimmed.take(end - start) =~= chars@.subrange(start as int, end as int));
    }
    string_between(chars, start, end)
}

/// White space is these 25 characters and no other.
pub proof fn law_white_space_is_unicodes(c: char)
    ensures
        is_white_space(c) <==> {
            ||| c == '\t' || c == '\n' || c == '\u{B}' || c == '\u{C}' || c == '\r'
            ||| c == ' ' || c == '\u{85}' || c == '\u{A0}' || c == '\u{1680}'
            ||| c == '\u{2000}' || c == '\u{2001}' || c == '\u{2002}' || c == '\u{2003}'
            ||| c == '\u{2004}' || c == '\u{2005}' || c == '\u{2006}' || c == '\u{2007}'
            ||| c == '\u{2008}' || c == '\u{2009}' || c == '\u{200A}'
            ||| c == '\u{2028}' || c == '\u{2029}' || c == '\u{202F}' || c == '\u{205F}'
            ||| c == '\u{3000}'
        },
{
    vstd::utf8::char_u32_cast(c, c as u32);
}

/// Nothing is blank, a character is if it is white space, and a text is if
/// both parts of it are, wherever it is parted.
pub proof fn law_blank_text_is_all_white_space(c: char, a: Seq<char>, b: Seq<char>)
    ensures
        is_blank_text(seq![]),
        is_blank_text(seq![c]) == is_white_space(c),
        is_blank_text(a + b) == (is_blank_text(a) && is_blank_text(b)),
{
    if is_blank_text(seq![c]) {
        assert(is_white_space(seq![c][0]));
    }
    let whole = a + b;
    if is_blank_text(whole) {
        assert forall|i: int| 0 <= i < a.len() implies is_white_space(#[trigger] a[i]) by {
            assert(whole[i] == a[i]);
        }
        assert forall|i: int| 0 <= i < b.len() implies is_white_space(#[trigger] b[i]) by {
            assert(whole[a.len() + i] == b[i]);
        }
    }
}

/// The number that decimal digits stand for.
pub open spec fn number_read(digits: Seq<char>) -> int
    decreases digits.len(),
{
    if digits.len() == 0 {
        0
    } else {
        10 * number_read(digits.drop_last()) + (digits.last() as int - '0' as int)
    }
}

/// Whether `text` is the number `n` as a reader of decimal digits takes it:
/// digits and nothing else, at least one, none of them a needless zero, and
/// worth `n` together.
pub open spec fn reads_as_number(text: Seq<char>, n: nat) -> bool {
    &&& text.len() > 0
    &&& forall|i: int| 0 <= i < text.len() ==> '0' <= #[trigger] text[i] <= '9'
    &&& text[0] == '0' ==> text.len() == 1
    &&& number_read(text) == n
}

/// A number written in decimal reads back as itself.
pub proof fn law_decimal_reads_back(n: nat)
    ensures
        reads_as_number(decimal_text(n), n),
    decreases n,
{
    reveal_with_fuel(number_read, 2);
    if n < 10 {
        assert(decimal_text(n).drop_last() =~= seq![]);
    } else {
        let shorter = decimal_text(n / 10);
        law_decimal_reads_back(n / 10);
        assert(decimal_text(n).drop_last() =~= shorter);
        assert(decimal_text(n)[0] == shorter[0]);
        if shorter[0] == '0' {
            assert(shorter.drop_last() =~= seq![]);
            assert(number_read(shorter) == 0);
        }
    }
}

/// The first word of a text is what stands between its leading white space and
/// the next, whole; where there is nothing but white space it is empty.
pub proof fn law_first_word_is_found(gap: Seq<char>, word: Seq<char>, tail: Seq<char>)
    requires
        forall|i: int| 0 <= i < gap.len() ==> is_white_space(#[trigger] gap[i]),
        forall|i: int| 0 <= i < word.len() ==> !is_white_space(#[trigger] word[i]),
        tail.len() == 0 || (word.len() > 0 && is_white_space(tail[0])),
    ensures
        first_word(gap + word + tail) == word,
{
    let s = gap + word + tail;
    let white = |c: char| is_white_space(c);
    let black = |c: char| !is_white_space(c);
    assert forall|j: int| 0 <= j < gap.len() implies white(#[trigger] s[j]) by {
        assert(s[j] == gap[j]);
    }
    if word.len() > 0 {
        assert(s[gap.len() as int] == word[0]);
    }
    lemma_span(s, white, gap.len() as int);
    let trimmed = s.skip(gap.len() as int);
    assert(trimmed =~= word + tail);
    assert forall|j: int| 0 <= j < word.len() implies black(#[trigger] trimmed[j]) by {
        assert(trimmed[j] == word[j]);
    }
    if tail.len() > 0 {
        assert(trimmed[word.len() as int] == tail[0]);
    }
    lemma_span(trimmed, black, word.len() as int);
    assert(trimmed.take(word.len() as int) =~= word);
}

/// The span is where the characters that satisfy `p` end.
proof fn lemma_span_ends(s: Seq<char>, p: spec_fn(char) -> bool)
    ensures
        span(s, p) <= s.len(),
        forall|j: int| 0 <= j < span(s, p) ==> p(#[trigger] s[j]),
        span(s, p) < s.len() ==> !p(s[span(s, p) as int]),
    decreases s.len(),
{
    if s.len() > 0 && p(s[0]) {
        let rest = s.skip(1);
        lemma_span_ends(rest, p);
        assert forall|j: int| 0 <= j < span(s, p) implies p(#[trigger] s[j]) by {
            if j > 0 {
                assert(s[j] == rest[j - 1]);
            }
        }
        if span(s, p) < s.len() {
            assert(s[span(s, p) as int] == rest[span(rest, p) as int]);
        }
    }
}

/// Every text is some white space, its first word, and a tail that is empty or
/// begins with white space.
pub(crate) proof fn lemma_first_word_splits(s: Seq<char>) -> (split: (Seq<char>, Seq<char>))
    ensures
        s == split.0 + first_word(s) + split.1,
        forall|i: int| 0 <= i < split.0.len() ==> is_white_space(#[trigger] split.0[i]),
        forall|i: int|
            0 <= i < first_word(s).len() ==> !is_white_space(#[trigger] first_word(s)[i]),
        split.1.len() == 0 || is_white_space(split.1[0]),
{
    let white = |c: char| is_white_space(c);
    let black = |c: char| !is_white_space(c);
    lemma_span_ends(s, white);
    let gap = s.take(span(s, white) as int);
    let trimmed = s.skip(span(s, white) as int);
    lemma_span_ends(trimmed, black);
    let tail = trimmed.skip(span(trimmed, black) as int);
    assert(first_word(s) == trimmed.take(span(trimmed, black) as int));
    assert(s =~= gap + first_word(s) + tail);
    assert forall|i: int| 0 <= i < gap.len() implies is_white_space(#[trigger] gap[i]) by {
        assert(white(s[i]));
    }
    assert forall|i: int| 0 <= i < first_word(s).len() implies !is_white_space(
        #[trigger] first_word(s)[i],
    ) by {
        assert(black(trimmed[i]));
    }
    if tail.len() > 0 {
        assert(!black(trimmed[span(trimmed, black) as int]));
    }
    (gap, tail)
}

} // verus!
