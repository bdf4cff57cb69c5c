//! Text helpers shared by the parsers and the argument builders.

use vstd::prelude::*;

verus! {

/// `String::push` appends one character and leaves the rest of the string as it was.
pub assume_specification[ String::push ](s: &mut String, ch: char)
    ensures
        final(s)@ == old(s)@.push(ch),
;

/// The characters that count as white space: the Unicode `White_Space` set.
pub open spec fn is_white_space(c: char) -> bool {
    let code = c as u32;
    ||| 0x09 <= code <= 0x0D
    ||| code == 0x20
    ||| code == 0x85
    ||| code == 0xA0
    ||| code == 0x1680
    ||| 0x2000 <= code <= 0x200A
    ||| code == 0x2028
    ||| code == 0x2029
    ||| code == 0x202F
    ||| code == 0x205F
    ||| code == 0x3000
}

/// `text` without its white space.
pub open spec fn without_white_space(text: Seq<char>) -> Seq<char> {
    text.filter(|c: char| !is_white_space(c))
}

/// Whether `c` is white space.
pub fn is_whitespace(c: char) -> (white: bool)
    ensures
        white == is_white_space(c),
{
    let code: u32 = c as u32;
    (0x09 <= code && code <= 0x0D) || code == 0x20 || code == 0x85 || code == 0xA0 || code
        == 0x1680 || (0x2000 <= code && code <= 0x200A) || code == 0x2028 || code == 0x2029
        || code == 0x202F || code == 0x205F || code == 0x3000
}

/// Adding one character to a text adds it to the stripped text exactly when it is not white
/// space.
pub proof fn lemma_without_white_space_push(text: Seq<char>, c: char)
    ensures
        without_white_space(text.push(c)) == if is_white_space(c) {
            without_white_space(text)
        } else {
            without_white_space(text).push(c)
        },
{
    reveal(Seq::filter);
    assert(text.push(c).drop_last() =~= text);
}

/// The characters of `text`, in order.
pub fn chars_of(text: &str) -> (chars: Vec<char>)
    ensures
        chars@ == text@,
{
    let mut chars: Vec<char> = Vec::new();
    for c in it: text.chars()
        invariant
            it.seq() == text@,
            chars@ == text@.subrange(0, it.index() as int),
    {
        chars.push(c);
        assert(text@.subrange(0, it.index() + 1) =~= text@.subrange(0, it.index() as int).push(
            c,
        ));
    }
    assert(text@.subrange(0, text@.len() as int) =~= text@);
    chars
}

/// Whether two texts hold the same characters.
pub fn same_text(left: &str, right: &str) -> (same: bool)
    ensures
        same == (left@ == right@),
{
    let a = chars_of(left);
    let b = chars_of(right);
    if a.len() != b.len() {
        return false;
    }
    let mut i: usize = 0;
    while i < a.len()
        invariant
            a@ == left@,
            b@ == right@,
            a.len() == b.len(),
            i <= a.len(),
            a@.subrange(0, i as int) == b@.subrange(0, i as int),
        decreases a.len() - i,
    {
        if a[i] != b[i] {
            return false;
        }
        assert(a@.subrange(0, i + 1) =~= a@.subrange(0, i as int).push(a@[i as int]));
        assert(b@.subrange(0, i + 1) =~= b@.subrange(0, i as int).push(b@[i as int]));
        i += 1;
    }
    assert(a@.subrange(0, a.len() as int) =~= a@);
    assert(b@.subrange(0, b.len() as int) =~= b@);
    true
}

/// Appends `piece` to the argument list.
pub fn push_text(list: &mut Vec<String>, piece: &str)
    ensures
        final(list).deep_view() == old(list).deep_view().push(piece@),
{
    list.push(piece.to_owned());
    assert(list.deep_view() =~= old(list).deep_view().push(piece@));
}

/// Appends an owned `piece` to the argument list.
pub fn push_owned(list: &mut Vec<String>, piece: String)
    ensures
        final(list).deep_view() == old(list).deep_view().push(piece@),
{
    list.push(piece);
    assert(list.deep_view() =~= old(list).deep_view().push(piece@));
}

/// Whether `pattern` stands in `text` at position `at`.
pub open spec fn occurs_at(text: Seq<char>, pattern: Seq<char>, at: int) -> bool {
    0 <= at && at + pattern.len() <= text.len() && text.subrange(at, at + pattern.len())
        == pattern
}

/// `text` without the occurrences of `pattern`, taken from left to right, none overlapping
/// the one before. An empty pattern takes nothing away.
pub open spec fn without_pattern(text: Seq<char>, pattern: Seq<char>) -> Seq<char>
    decreases text.len(),
{
    if text.len() == 0 || pattern.len() == 0 {
        text
    } else if occurs_at(text, pattern, 0) {
        without_pattern(text.skip(pattern.len() as int), pattern)
    } else {
        seq![text[0]] + without_pattern(text.drop_first(), pattern)
    }
}

/// What stands in `text` before the first occurrence of `pattern`; all of it if there is
/// none.
pub open spec fn before_pattern(text: Seq<char>, pattern: Seq<char>) -> Seq<char>
    decreases text.len(),
{
    if text.len() == 0 || occurs_at(text, pattern, 0) {
        Seq::empty()
    } else {
        seq![text[0]] + before_pattern(text.drop_first(), pattern)
    }
}

/// An occurrence at a position is an occurrence at the head of what begins there.
pub proof fn lemma_occurs_at_skip(text: Seq<char>, pattern: Seq<char>, at: int)
    requires
        0 <= at <= text.len(),
    ensures
        occurs_at(text, pattern, at) == occurs_at(text.skip(at), pattern, 0),
{
    if at + pattern.len() <= text.len() {
        assert(text.skip(at).subrange(0, pattern.len() as int) =~= text.subrange(
            at,
            at + pattern.len(),
        ));
    }
}

/// Tells whether `pattern` stands in `text` at position `at`.
pub fn matches_at(text: &Vec<char>, pattern: &Vec<char>, at: usize) -> (found: bool)
    ensures
        found == occurs_at(text@, pattern@, at as int),
{
    let m = pattern.len();
    if at > text.len() || m > text.len() - at {
        return false;
    }
    let mut i: usize = 0;
    while i < m
        invariant
            m == pattern.len(),
            at + m <= text.len(),
            i <= m,
            forall|j: int| 0 <= j < i ==> text@[at + j] == pattern@[j],
        decreases m - i,
    {
        if text[at + i] != pattern[i] {
            assert(text@.subrange(at as int, at + m)[i as int] != pattern@[i as int]);
            return false;
        }
        i += 1;
    }
    assert(text@.subrange(at as int, at + m) =~= pattern@);
    true
}

/// Removes every occurrence of `pattern` from `text`.
pub fn remove_pattern(text: &str, pattern: &str) -> (rest: String)
    ensures
        rest@ == without_pattern(text@, pattern@),
{
    let chars = chars_of(text);
    let wanted = chars_of(pattern);
    let n = chars.len();
    if wanted.len() == 0 {
        return text.to_owned();
    }
    let mut rest = String::new();
    let mut i: usize = 0;
    assert(chars@.skip(0) =~= chars@);
    while i < n
        invariant
            chars@ == text@,
            wanted@ == pattern@,
            wanted@.len() > 0,
            n == chars.len(),
            i <= n,
            rest@ + without_pattern(chars@.skip(i as int), wanted@) == without_pattern(
                chars@,
                wanted@,
            ),
        decreases n - i,
    {
        let ghost tail = chars@.skip(i as int);
        proof {
            lemma_occurs_at_skip(chars@, wanted@, i as int);
        }
        if matches_at(&chars, &wanted, i) {
            assert(tail.skip(wanted@.len() as int) =~= chars@.skip(i + wanted@.len()));
            i += wanted.len();
        } else {
            assert(tail.drop_first() =~= chars@.skip(i + 1));
            assert(tail[0] == chars@[i as int]);
            let ghost before = rest@;
            rest.push(chars[i]);
            assert(rest@ + without_pattern(chars@.skip(i + 1), wanted@) =~= before
                + without_pattern(tail, wanted@));
            i += 1;
        }
    }
    assert(chars@.skip(n as int) =~= Seq::<char>::empty());
    assert(rest@ + Seq::<char>::empty() =~= rest@);
    rest
}

/// What stands in `text` before the first occurrence of `pattern`.
pub fn take_before(text: &str, pattern: &str) -> (head: String)
    ensures
        head@ == before_pattern(text@, pattern@),
{
    let chars = chars_of(text);
    let wanted = chars_of(pattern);
    let n = chars.len();
    let mut head = String::new();
    let mut i: usize = 0;
    assert(chars@.skip(0) =~= chars@);
    while i < n && !matches_at(&chars, &wanted, i)
        invariant
            chars@ == text@,
            wanted@ == pattern@,
            n == chars.len(),
            i <= n,
            head@ + before_pattern(chars@.skip(i as int), wanted@) == before_pattern(
                chars@,
                wanted@,
            ),
        decreases n - i,
    {
        let ghost tail = chars@.skip(i as int);
        proof {
            lemma_occurs_at_skip(chars@, wanted@, i as int);
        }
        assert(tail.drop_first() =~= chars@.skip(i + 1));
        assert(tail[0] == chars@[i as int]);
        let ghost before = head@;
        head.push(chars[i]);
        assert(head@ + before_pattern(chars@.skip(i + 1), wanted@) =~= before + before_pattern(
            tail,
            wanted@,
        ));
        i += 1;
    }
    proof {
        lemma_occurs_at_skip(chars@, wanted@, i as int);
    }
    assert(before_pattern(chars@.skip(i as int), wanted@) =~= Seq::<char>::empty());
    assert(head@ + Seq::<char>::empty() =~= head@);
    head
}

} // verus!
