//! The character-level rules of the pattern text format: what counts as
//! white space, how a text is trimmed and how it falls into lines.
use vstd::prelude::*;

verus! {

/// The characters with the Unicode property `White_Space`.
pub open spec fn is_whitespace(c: char) -> bool {
    let code = c as u32;
    ||| 0x09 <= code <= 0x0D
    ||| code == 0x20
    ||| code == 0x85
    ||| code == 0xA0
    ||| code == 0x1680
    ||| 0x2000 <= code <= 0x200A
    ||| code == 0x2028
    ||| code == 0x2029
    ||| code == 0x202F
    ||| code == 0x205F
    ||| code == 0x3000
}

/// `text` without its leading white space.
pub open spec fn trim_start(text: Seq<char>) -> Seq<char>
    decreases text.len(),
{
    if text.len() > 0 && is_whitespace(text[0]) {
        trim_start(text.drop_first())
    } else {
        text
    }
}

/// `text` without its trailing white space.
pub open spec fn trim_end(text: Seq<char>) -> Seq<char>
    decreases text.len(),
{
    if text.len() > 0 && is_whitespace(text.last()) {
        trim_end(text.drop_last())
    } else {
        text
    }
}

/// `text` without its leading and trailing white space.
pub open spec fn trim(text: Seq<char>) -> Seq<char> {
    trim_end(trim_start(text))
}

/// The lines of `text`: a line feed ends one line and starts the next, so a
/// text of `n` line feeds has `n + 1` lines, the last of them possibly empty.
pub open spec fn split_lines(text: Seq<char>) -> Seq<Seq<char>>
    decreases text.len(),
{
    if text.len() == 0 {
        seq![Seq::empty()]
    } else {
        let before = split_lines(text.drop_last());
        if text.last() == '\n' {
            before.push(Seq::empty())
        } else {
            before.drop_last().push(before.last().push(text.last()))
        }
    }
}

/// Whether `c` is white space.
pub fn is_whitespace_char(c: char) -> (white: bool)
    ensures
        white == is_whitespace(c),
{
    let code: u32 = c as u32;
    (0x09 <= code && code <= 0x0D) || code == 0x20 || code == 0x85 || code == 0xA0 || code
        == 0x1680 || (0x2000 <= code && code <= 0x200A) || code == 0x2028 || code == 0x2029
        || code == 0x202F || code == 0x205F || code == 0x3000
}

/// The characters of `text`, in order.
pub fn chars_of(text: &str) -> (chars: Vec<char>)
    ensures
        chars@ == text@,
{
    let mut chars: Vec<char> = Vec::new();
    for c in it: text.chars()
        invariant
            it.seq() == text@,
            chars@ == text@.take(it.index() as int),
    {
        chars.push(c);
        assert(text@.take(it.index() + 1) =~= text@.take(it.index() as int).push(c));
    }
    assert(text@.take(text@.len() as int) =~= text@);
    chars
}

/// `trim_start` drops exactly the first `k` characters when they are white
/// space and the one after them is not.
pub proof fn lemma_trim_start_drops(text: Seq<char>, k: int)
    requires
        0 <= k <= text.len(),
        forall|i: int| 0 <= i < k ==> is_whitespace(#[trigger] text[i]),
        k == text.len() || !is_whitespace(text[k]),
    ensures
        trim_start(text) == text.subrange(k, text.len() as int),
    decreases k,
{
    if k == 0 {
        assert(text.subrange(0, text.len() as int) =~= text);
    } else {
        let rest = text.drop_first();
        assert forall|i: int| 0 <= i < k - 1 implies is_whitespace(#[trigger] rest[i]) by {
            assert(rest[i] == text[i + 1]);
        }
        lemma_trim_start_drops(rest, k - 1);
        assert(rest.subrange(k - 1, rest.len() as int) =~= text.subrange(k, text.len() as int));
    }
}

/// `trim_end` keeps exactly the first `k` characters when all after them are
/// white space and the one before them is not.
pub proof fn lemma_trim_end_keeps(text: Seq<char>, k: int)
    requires
        0 <= k <= text.len(),
        forall|i: int| k <= i < text.len() ==> is_whitespace(#[trigger] text[i]),
        k == 0 || !is_whitespace(text[k - 1]),
    ensures
        trim_end(text) == text.take(k),
    decreases text.len() - k,
{
    if k == text.len() {
        assert(text.take(k) =~= text);
    } else {
        let rest = text.drop_last();
        lemma_trim_end_keeps(rest, k);
        assert(rest.take(k) =~= text.take(k));
    }
}

/// The bounds of `chars[from..to]` without its leading and trailing white space.
pub fn trim_bounds(chars: &Vec<char>, from: usize, to: usize) -> (bounds: (usize, usize))
    requires
        from <= to <= chars.len(),
    ensures
        from <= bounds.0 <= bounds.1 <= to,
        chars@.subrange(bounds.0 as int, bounds.1 as int) == trim(
            chars@.subrange(from as int, to as int),
        ),
{
    let ghost piece = chars@.subrange(from as int, to as int);
    let mut lo: usize = from;
    while lo < to && is_whitespace_char(chars[lo])
        invariant
            from <= lo <= to <= chars.len(),
            forall|i: int| from <= i < lo ==> is_whitespace(#[trigger] chars@[i]),
        decreases to - lo,
    {
        lo += 1;
    }
    let mut hi: usize = to;
    while hi > lo && is_whitespace_char(chars[hi - 1])
        invariant
            lo <= hi <= to <= chars.len(),
            forall|i: int| hi <= i < to ==> is_whitespace(#[trigger] chars@[i]),
        decreases hi - lo,
    {
        hi -= 1;
    }
    proof {
        let front = chars@.subrange(lo as int, to as int);
        assert forall|i: int| 0 <= i < lo - from implies is_whitespace(#[trigger] piece[i]) by {
            assert(piece[i] == chars@[from + i]);
        }
        lemma_trim_start_drops(piece, lo - from);
        assert(piece.subrange(lo - from, piece.len() as int) =~= front);
        assert forall|i: int| hi - lo <= i < front.len() implies is_whitespace(
            #[trigger] front[i],
        ) by {
            assert(front[i] == chars@[lo + i]);
        }
        lemma_trim_end_keeps(front, hi - lo);
        assert(front.take(hi - lo) =~= chars@.subrange(lo as int, hi as int));
    }
    (lo, hi)
}

} // verus!
