//! Character sequences: cutting at a separator and joining again.

use vstd::prelude::*;

verus! {

/// The texts of a list of strings.
pub open spec fn texts(strings: Seq<String>) -> Seq<Seq<char>> {
    strings.map_values(|s: String| s@)
}

/// Index of the first `sep` in `s`, or `s.len()` where `s` holds none.
pub open spec fn first_position(s: Seq<char>, sep: char) -> int
    decreases s.len(),
{
    if s.len() == 0 || s[0] == sep {
        0
    } else {
        1 + first_position(s.drop_first(), sep)
    }
}

/// `s` cut at its first `sep`: the part before it and the part after it, or
/// `s` alone where it holds no `sep`.
pub open spec fn split_at_first(s: Seq<char>, sep: char) -> Seq<Seq<char>> {
    let cut = first_position(s, sep);
    if cut == s.len() {
        seq![s]
    } else {
        seq![s.subrange(0, cut), s.subrange(cut + 1, s.len() as int)]
    }
}

/// `s` cut at every `sep`: the part before the first one, then the pieces of
/// what follows it. A text without `sep` is one piece.
pub open spec fn split_on(s: Seq<char>, sep: char) -> Seq<Seq<char>>
    decreases s.len(),
{
    let cut = first_position(s, sep);
    if 0 <= cut < s.len() {
        seq![s.subrange(0, cut)] + split_on(s.subrange(cut + 1, s.len() as int), sep)
    } else {
        seq![s]
    }
}

/// The `parts` in order with one `sep` between neighbours.
pub open spec fn join(parts: Seq<Seq<char>>, sep: char) -> Seq<char>
    decreases parts.len(),
{
    if parts.len() == 0 {
        Seq::empty()
    } else if parts.len() == 1 {
        parts[0]
    } else {
        join(parts.drop_last(), sep).push(sep) + parts.last()
    }
}

/// `first_position` is in range, nothing before it is the separator, and the
/// separator stands at it unless it is the length.
pub proof fn lemma_first_position(s: Seq<char>, sep: char)
    ensures
        0 <= first_position(s, sep) <= s.len(),
        forall|j: int| 0 <= j < first_position(s, sep) ==> s[j] != sep,
        first_position(s, sep) < s.len() ==> s[first_position(s, sep)] == sep,
    decreases s.len(),
{
    if s.len() != 0 && s[0] != sep {
        let rest = s.drop_first();
        lemma_first_position(rest, sep);
        assert forall|j: int| 0 <= j < first_position(s, sep) implies s[j] != sep by {
            if j > 0 {
                assert(s[j] == rest[j - 1]);
            }
        }
    }
}

/// An index with the three properties of `first_position` is it.
pub proof fn lemma_first_position_unique(s: Seq<char>, sep: char, cut: int)
    requires
        0 <= cut <= s.len(),
        forall|j: int| 0 <= j < cut ==> s[j] != sep,
        cut < s.len() ==> s[cut] == sep,
    ensures
        first_position(s, sep) == cut,
{
    lemma_first_position(s, sep);
}

/// Joining one more part appends a separator and the part.
pub proof fn lemma_join_push(parts: Seq<Seq<char>>, last: Seq<char>, sep: char)
    requires
        parts.len() > 0,
    ensures
        join(parts.push(last), sep) == join(parts, sep).push(sep) + last,
{
    assert(parts.push(last).drop_last() == parts);
}

/// Joining a list that starts with `head` puts `head` and a separator before
/// the rest joined.
pub proof fn lemma_join_front(head: Seq<char>, rest: Seq<Seq<char>>, sep: char)
    requires
        rest.len() > 0,
    ensures
        join(seq![head] + rest, sep) == head.push(sep) + join(rest, sep),
    decreases rest.len(),
{
    let all = seq![head] + rest;
    if rest.len() == 1 {
        assert(all.drop_last() == seq![head]);
        assert(join(seq![head], sep) == head);
    } else {
        let shorter = rest.drop_last();
        lemma_join_front(head, shorter, sep);
        assert(all.drop_last() == seq![head] + shorter);
        assert(all.last() == rest.last());
        assert(join(all, sep) == (head.push(sep) + join(shorter, sep)).push(sep) + rest.last());
        assert(join(rest, sep) == join(shorter, sep).push(sep) + rest.last());
    }
}

/// Cutting at the first separator loses nothing: the parts joined are the
/// text again.
pub proof fn lemma_split_at_first_rejoins(s: Seq<char>, sep: char)
    ensures
        1 <= split_at_first(s, sep).len() <= 2,
        join(split_at_first(s, sep), sep) == s,
{
    lemma_first_position(s, sep);
    let cut = first_position(s, sep);
    if cut < s.len() {
        let parts = split_at_first(s, sep);
        assert(parts.drop_last() == seq![s.subrange(0, cut)]);
        assert(join(parts.drop_last(), sep) == s.subrange(0, cut));
        assert(s.subrange(0, cut).push(sep) + s.subrange(cut + 1, s.len() as int) == s);
    }
}

/// Cutting at every separator loses nothing, and no piece holds a separator.
pub proof fn lemma_split_on_rejoins(s: Seq<char>, sep: char)
    ensures
        split_on(s, sep).len() >= 1,
        join(split_on(s, sep), sep) == s,
        forall|k: int, j: int|
            0 <= k < split_on(s, sep).len() && 0 <= j < split_on(s, sep)[k].len() ==> split_on(
                s,
                sep,
            )[k][j] != sep,
    decreases s.len(),
{
    lemma_first_position(s, sep);
    let cut = first_position(s, sep);
    if cut < s.len() {
        let head = s.subrange(0, cut);
        let tail = s.subrange(cut + 1, s.len() as int);
        lemma_split_on_rejoins(tail, sep);
        let rest = split_on(tail, sep);
        lemma_join_front(head, rest, sep);
        assert(head.push(sep) + tail == s);
        let pieces = split_on(s, sep);
        assert forall|k: int, j: int|
            0 <= k < pieces.len() && 0 <= j < pieces[k].len() implies pieces[k][j] != sep by {
            if k > 0 {
                assert(pieces[k] == rest[k - 1]);
            }
        }
    }
}

/// `part` stands in `whole` as one contiguous run of characters.
pub open spec fn is_slice_of(part: Seq<char>, whole: Seq<char>) -> bool {
    exists|start: int|
        0 <= start && start + part.len() <= whole.len() && #[trigger] whole.subrange(
            start,
            start + part.len(),
        ) == part
}

/// A part of a part is a part of the whole.
pub proof fn lemma_slice_of_slice(part: Seq<char>, middle: Seq<char>, whole: Seq<char>)
    requires
        is_slice_of(part, middle),
        is_slice_of(middle, whole),
    ensures
        is_slice_of(part, whole),
{
    let inner = choose|start: int|
        0 <= start && start + part.len() <= middle.len() && #[trigger] middle.subrange(
            start,
            start + part.len(),
        ) == part;
    let outer = choose|start: int|
        0 <= start && start + middle.len() <= whole.len() && #[trigger] whole.subrange(
            start,
            start + middle.len(),
        ) == middle;
    assert(whole.subrange(outer + inner, outer + inner + part.len()) == part);
}

/// Calls `String::push`, which appends one character to the string.
#[verifier::external_body]
pub(crate) fn push_char(text: &mut String, c: char)
    ensures
        final(text)@ == old(text)@.push(c),
{
    text.push(c)
}

/// The characters of `text`, in order.
pub(crate) fn chars_of(text: &str) -> (chars: Vec<char>)
    ensures
        chars@ == text@,
{
    let mut chars: Vec<char> = Vec::new();
    for c in it: text.chars()
        invariant
            it.seq() == text@,
            chars@ == text@.take(it.index() as int),
    {
        chars.push(c);
    }
    chars
}

/// The string of the characters `chars[from..to]`.
pub(crate) fn string_of(chars: &Vec<char>, from: usize, to: usize) -> (text: String)
    requires
        from <= to <= chars.len(),
    ensures
        text@ == chars@.subrange(from as int, to as int),
{
    let mut text = String::new();
    let mut i: usize = from;
    while i < to
        invariant
            from <= i <= to <= chars.len(),
            text@ == chars@.subrange(from as int, i as int),
        decreases to - i,
    {
        push_char(&mut text, chars[i]);
        i += 1;
    }
    text
}

/// Index of the first `sep` in `chars[from..to]`, counted from `from`; the
/// length of the range where it holds none.
pub(crate) fn find_first(chars: &Vec<char>, from: usize, to: usize, sep: char) -> (cut: usize)
    requires
        from <= to <= chars.len(),
    ensures
        cut == first_position(chars@.subrange(from as int, to as int), sep),
        cut <= to - from,
{
    let ghost range = chars@.subrange(from as int, to as int);
    let mut i: usize = from;
    while i < to && chars[i] != sep
        invariant
            from <= i <= to <= chars.len(),
            range == chars@.subrange(from as int, to as int),
            forall|j: int| 0 <= j < i - from ==> range[j] != sep,
        decreases to - i,
    {
        i += 1;
    }
    proof {
        lemma_first_position_unique(range, sep, i - from);
    }
    i - from
}

/// The lines of `content`: its pieces between line feeds. A text that ends in
/// a line feed has an empty last line.
pub fn split_lines(content: &str) -> (lines: Vec<String>)
    ensures
        texts(lines@) == split_on(content@, '\n'),
{
    let mut lines: Vec<String> = Vec::new();
    let mut current = String::new();
    let ghost mut start: int = 0;
    assert(content@.subrange(0, content@.len() as int) == content@);
    for c in it: content.chars()
        invariant
            it.seq() == content@,
            0 <= start <= it.index() <= content@.len(),
            current@ == content@.subrange(start, it.index() as int),
            forall|j: int| start <= j < it.index() ==> content@[j] != '\n',
            split_on(content@, '\n') == texts(lines@) + split_on(
                content@.subrange(start, content@.len() as int),
                '\n',
            ),
    {
        let ghost at = it.index() as int;
        let ghost open = content@.subrange(start, content@.len() as int);
        assert(c == content@[at]);
        if c == '\n' {
            proof {
                lemma_first_position_unique(open, '\n', at - start);
                assert(open.subrange(0, at - start) == current@);
                assert(open.subrange(at - start + 1, open.len() as int) == content@.subrange(
                    at + 1,
                    content@.len() as int,
                ));
                assert(texts(lines@.push(current)) == texts(lines@) + seq![current@]);
            }
            lines.push(current);
            current = String::new();
            proof {
                start = at + 1;
            }
        } else {
            push_char(&mut current, c);
        }
    }
    proof {
        let open = content@.subrange(start, content@.len() as int);
        lemma_first_position_unique(open, '\n', open.len() as int);
        assert(open == current@);
        assert(texts(lines@.push(current)) == texts(lines@) + seq![current@]);
    }
    lines.push(current);
    lines
}

} // verus!
