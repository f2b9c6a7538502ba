//! Text, read as sequences of characters: order, search and comparison.

use vstd::prelude::*;
use vstd::string::*;

verus! {

/// The first `n` characters of `a` and `b` exist and are the same.
pub open spec fn agree(a: Seq<char>, b: Seq<char>, n: int) -> bool {
    &&& 0 <= n <= a.len()
    &&& n <= b.len()
    &&& forall|i: int| 0 <= i < n ==> a[i] == b[i]
}

/// `a` comes strictly before `b`: after a common beginning, `a` either ends first or goes on
/// with the smaller code point.
pub open spec fn text_less(a: Seq<char>, b: Seq<char>) -> bool {
    exists|n: int| #[trigger]
        agree(a, b, n) && n < b.len() && (n == a.len() || a[n] < b[n])
}

/// Nothing comes before itself.
pub proof fn less_is_irreflexive(a: Seq<char>)
    ensures
        !text_less(a, a),
{
}

/// The order of texts is transitive.
pub proof fn less_is_transitive(a: Seq<char>, b: Seq<char>, c: Seq<char>)
    requires
        text_less(a, b),
        text_less(b, c),
    ensures
        text_less(a, c),
{
    let n = choose|n: int| #[trigger]
        agree(a, b, n) && n < b.len() && (n == a.len() || a[n] < b[n]);
    let m = choose|m: int| #[trigger]
        agree(b, c, m) && m < c.len() && (m == b.len() || b[m] < c[m]);
    let k = if n <= m {
        n
    } else {
        m
    };
    assert(agree(a, c, k));
}

/// Of two different texts, one comes before the other.
pub proof fn less_is_total(a: Seq<char>, b: Seq<char>)
    ensures
        a == b || text_less(a, b) || text_less(b, a),
{
    less_is_total_from(a, b, 0);
}

proof fn less_is_total_from(a: Seq<char>, b: Seq<char>, n: int)
    requires
        agree(a, b, n),
    ensures
        a == b || text_less(a, b) || text_less(b, a),
    decreases a.len() - n,
{
    assert(agree(b, a, n));
    if n == a.len() && n == b.len() {
        assert(a =~= b);
    } else if n < a.len() && n < b.len() && a[n] == b[n] {
        less_is_total_from(a, b, n + 1);
    }
}

/// `needle` stands in `text` at position `i`.
pub open spec fn occurs_at(text: Seq<char>, needle: Seq<char>, i: int) -> bool {
    &&& 0 <= i
    &&& i + needle.len() <= text.len()
    &&& text.subrange(i, i + needle.len()) == needle
}

/// `needle` stands somewhere in `text`.
pub open spec fn contains_text(text: Seq<char>, needle: Seq<char>) -> bool {
    exists|i: int| occurs_at(text, needle, i)
}

/// `i` is the first position of `needle` in `text`.
pub open spec fn first_at(text: Seq<char>, needle: Seq<char>, i: int) -> bool {
    &&& occurs_at(text, needle, i)
    &&& forall|j: int| 0 <= j < i ==> !occurs_at(text, needle, j)
}

/// The first position of `c` in `text` that is not before `from`, or the length of `text`.
pub open spec fn next_char(text: Seq<char>, c: char, from: int) -> int
    decreases text.len() - from,
{
    if from >= text.len() {
        text.len() as int
    } else if text[from] == c {
        from
    } else {
        next_char(text, c, from + 1)
    }
}

/// What `next_char` finds is the character, and nothing before it is.
pub proof fn next_char_is_first(text: Seq<char>, c: char, from: int)
    requires
        0 <= from <= text.len(),
    ensures
        from <= next_char(text, c, from) <= text.len(),
        next_char(text, c, from) < text.len() ==> text[next_char(text, c, from)] == c,
        forall|i: int| from <= i < next_char(text, c, from) ==> text[i] != c,
    decreases text.len() - from,
{
    if from < text.len() && text[from] != c {
        next_char_is_first(text, c, from + 1);
    }
}

/// The ASCII lower case of a character; any other character is itself.
pub open spec fn ascii_lower(c: char) -> char {
    if 'A' <= c <= 'Z' {
        ((c as u32) + 32) as char
    } else {
        c
    }
}

/// A text with its ASCII letters in lower case.
pub open spec fn lowered(text: Seq<char>) -> Seq<char> {
    text.map_values(|c: char| ascii_lower(c))
}

/// The characters of a text.
pub fn chars_of(text: &str) -> (chars: Vec<char>)
    ensures
        chars@ == text@,
{
    let mut chars: Vec<char> = Vec::new();
    for c in it: text.chars()
        invariant
            it.seq() == text@,
            chars@ == text@.take(it.index() as int),
    {
        chars.push(c);
    }
    chars
}

/// Whether two texts are the same.
pub fn same_text(a: &str, b: &str) -> (same: bool)
    ensures
        same == (a@ == b@),
{
    let left = chars_of(a);
    let right = chars_of(b);
    if left.len() != right.len() {
        return false;
    }
    let mut i: usize = 0;
    while i < left.len()
        invariant
            left@ == a@,
            right@ == b@,
            left.len() == right.len(),
            i <= left.len(),
            agree(a@, b@, i as int),
        decreases left.len() - i,
    {
        if left[i] != right[i] {
            return false;
        }
        i = i + 1;
    }
    assert(a@ =~= b@);
    true
}

/// Whether `a` comes strictly before `b`.
pub fn text_before(a: &str, b: &str) -> (before: bool)
    ensures
        before == text_less(a@, b@),
{
    let left = chars_of(a);
    let right = chars_of(b);
    let mut i: usize = 0;
    while i < left.len() && i < right.len() && left[i] == right[i]
        invariant
            left@ == a@,
            right@ == b@,
            i <= left.len(),
            i <= right.len(),
            agree(a@, b@, i as int),
        decreases left.len() - i,
    {
        i = i + 1;
    }
    i < right.len() && (i == left.len() || left[i] < right[i])
}

/// The first position of `needle` in `text`.
pub fn find_text(text: &str, needle: &str) -> (found: Option<usize>)
    ensures
        match found {
            Some(i) => first_at(text@, needle@, i as int),
            None => !contains_text(text@, needle@),
        },
{
    let hay = chars_of(text);
    let pin = chars_of(needle);
    if pin.len() > hay.len() {
        return None;
    }
    let last: usize = hay.len() - pin.len();
    let mut i: usize = 0;
    while i <= last
        invariant
            hay@ == text@,
            pin@ == needle@,
            last == hay.len() - pin.len(),
            i <= last + 1,
            forall|j: int| 0 <= j < i ==> !occurs_at(text@, needle@, j),
        decreases last + 1 - i,
    {
        let mut k: usize = 0;
        while k < pin.len() && hay[(i + k) as usize] == pin[k]
            invariant
                hay@ == text@,
                pin@ == needle@,
                last == hay.len() - pin.len(),
                i <= last,
                k <= pin.len(),
                forall|m: int| 0 <= m < k ==> text@[i + m] == needle@[m],
            decreases pin.len() - k,
        {
            k = k + 1;
        }
        if k == pin.len() {
            assert(text@.subrange(i as int, i + needle@.len()) =~= needle@);
            return Some(i);
        }
        proof {
            if occurs_at(text@, needle@, i as int) {
                assert(text@.subrange(i as int, i + needle@.len())[k as int] == needle@[k as int]);
            }
        }
        if i == last {
            return None;
        }
        i = i + 1;
    }
    None
}

/// Whether `needle` stands somewhere in `text`.
pub fn has_text(text: &str, needle: &str) -> (has: bool)
    ensures
        has == contains_text(text@, needle@),
{
    find_text(text, needle).is_some()
}

/// The first position of `c` at or after `from`, or the length.
pub fn find_char(chars: &Vec<char>, c: char, from: usize) -> (at: usize)
    requires
        from <= chars.len(),
    ensures
        at == next_char(chars@, c, from as int),
        from <= at <= chars.len(),
{
    let mut i: usize = from;
    while i < chars.len() && chars[i] != c
        invariant
            from <= i <= chars.len(),
            next_char(chars@, c, from as int) == next_char(chars@, c, i as int),
        decreases chars.len() - i,
    {
        i = i + 1;
    }
    i
}

/// The code of the ASCII lower case of a character.
fn lower_code(c: char) -> (code: u32)
    ensures
        code == ascii_lower(c) as u32,
{
    if 'A' <= c && c <= 'Z' {
        c as u32 + 32
    } else {
        c as u32
    }
}

/// Whether two texts are the same but for the case of ASCII letters.
pub fn same_ignoring_case(a: &str, b: &str) -> (same: bool)
    ensures
        same == (lowered(a@) == lowered(b@)),
{
    let left = chars_of(a);
    let right = chars_of(b);
    if left.len() != right.len() {
        assert(lowered(a@).len() != lowered(b@).len());
        return false;
    }
    let mut i: usize = 0;
    while i < left.len()
        invariant
            left@ == a@,
            right@ == b@,
            left.len() == right.len(),
            i <= left.len(),
            agree(lowered(a@), lowered(b@), i as int),
        decreases left.len() - i,
    {
        if lower_code(left[i]) != lower_code(right[i]) {
            assert(lowered(a@)[i as int] != lowered(b@)[i as int]);
            return false;
        }
        assert(lowered(a@)[i as int] == lowered(b@)[i as int]);
        i = i + 1;
    }
    assert(lowered(a@) =~= lowered(b@));
    true
}

/// Two texts, one after the other.
pub fn joined(a: &str, b: &str) -> (text: String)
    ensures
        text@ == a@ + b@,
{
    let mut text = a.to_owned();
    text.append(b);
    text
}

/// A text comes before each longer one that begins with it, and not the other way round.
pub proof fn beginning_comes_first(text: Seq<char>, more: Seq<char>)
    requires
        more.len() > 0,
    ensures
        text_less(text, text + more),
        !text_less(text + more, text),
{
    assert(agree(text, text + more, text.len() as int));
    if text_less(text + more, text) {
        let n = choose|n: int| #[trigger]
            agree(text + more, text, n) && n < text.len() && (n == (text + more).len() || (text
                + more)[n] < text[n]);
        assert((text + more)[n] == text[n]);
    }
}

/// The first characters in which two texts differ decide which of them comes first, whatever
/// follows.
pub proof fn first_difference_decides(
    common: Seq<char>,
    c: char,
    d: char,
    x: Seq<char>,
    y: Seq<char>,
)
    requires
        c != d,
    ensures
        text_less(common + seq![c] + x, common + seq![d] + y) <==> c < d,
{
    let a = common + seq![c] + x;
    let b = common + seq![d] + y;
    let at = common.len() as int;
    assert(a[at] == c && b[at] == d);
    assert(agree(a, b, at));
    if text_less(a, b) {
        let n = choose|n: int| #[trigger]
            agree(a, b, n) && n < b.len() && (n == a.len() || a[n] < b[n]);
        if n > at {
            assert(a[at] == b[at]);
        }
        if n < at {
            assert(a[n] == common[n] && b[n] == common[n]);
        }
    }
}

/// A text contains another exactly where it is made of something, the other, and something more.
pub proof fn containing_is_having_in_the_middle(
    text: Seq<char>,
    needle: Seq<char>,
    before: Seq<char>,
    after: Seq<char>,
)
    ensures
        contains_text(before + needle + after, needle),
        contains_text(text, needle) ==> exists|x: Seq<char>, y: Seq<char>|
            text == #[trigger] (x + needle + y),
{
    let whole = before + needle + after;
    let at = before.len() as int;
    assert(whole.subrange(at, at + needle.len()) =~= needle);
    assert(occurs_at(whole, needle, at));
    if contains_text(text, needle) {
        let i = choose|i: int| occurs_at(text, needle, i);
        let x = text.take(i);
        let y = text.skip(i + needle.len());
        assert(text =~= x + text.subrange(i, i + needle.len()) + y);
        assert(text == x + needle + y);
    }
}

/// Lower case concerns the letters from A to Z only, each of which becomes the letter 32 places
/// behind it; all else stays as it is and where it is.
pub proof fn lower_case_is_for_ascii_letters(text: Seq<char>, i: int)
    requires
        0 <= i < text.len(),
    ensures
        lowered(text).len() == text.len(),
        'A' <= text[i] <= 'Z' ==> lowered(text)[i] as int == text[i] as int + 32,
        !('A' <= text[i] <= 'Z') ==> lowered(text)[i] == text[i],
{
}

} // verus!
