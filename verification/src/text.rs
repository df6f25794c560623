//! Strings as sequences of characters.

use vstd::prelude::*;

verus! {

/// `String::push` appends one character to the string.
pub assume_specification[ String::push ](s: &mut String, c: char)
    ensures
        final(s)@ == old(s)@.push(c),
;

/// `str::eq` compares two string slices character by character.
pub assume_specification[ <str as PartialEq>::eq ](a: &str, b: &str) -> (r: bool)
    ensures
        r == (a@ == b@),
;

/// `str::to_lowercase` gives the lowercase form of each character, by the
/// rules of Unicode, which depend on nothing but the text.
pub uninterp spec fn lowercase(text: Seq<char>) -> Seq<char>;

/// Calls `str::to_lowercase`: the result is the lowercase form of `text`.
#[verifier::external_body]
pub(crate) fn to_lowercase(text: &str) -> (lower: String)
    ensures
        lower@ == lowercase(text@),
{
    text.to_lowercase()
}

/// `str::trim_end` gives the text without the white space at its end, by
/// the rules of Unicode, which depend on nothing but the text.
pub uninterp spec fn trimmed_end(text: Seq<char>) -> Seq<char>;

/// Calls `str::trim_end`: the result is `text` without the white space at
/// its end.
#[verifier::external_body]
pub(crate) fn trim_end(text: &str) -> (trimmed: &str)
    ensures
        trimmed@ == trimmed_end(text@),
{
    text.trim_end()
}

/// `str::parse::<u32>` reads a decimal number; what it accepts and what it
/// finds depend on nothing but the text.
pub uninterp spec fn parsed_u32(text: Seq<char>) -> Option<u32>;

/// Calls `str::parse::<u32>`: the result is the number that `text` spells,
/// if it spells one.
#[verifier::external_body]
pub(crate) fn parse_u32(text: &str) -> (number: Option<u32>)
    ensures
        number == parsed_u32(text@),
{
    text.parse::<u32>().ok()
}

/// An optional string as plain values.
pub open spec fn option_view(text: Option<String>) -> Option<Seq<char>> {
    match text {
        Some(s) => Some(s@),
        None => None,
    }
}

/// An optional string slice as plain values.
pub open spec fn option_str_view(text: Option<&str>) -> Option<Seq<char>> {
    match text {
        Some(s) => Some(s@),
        None => None,
    }
}

/// The characters of a string.
pub fn chars(s: &str) -> (v: Vec<char>)
    ensures
        v@ == s@,
{
    let mut v: Vec<char> = Vec::new();
    for c in it: s.chars()
        invariant
            it.seq() == s@,
            v@ =~= s@.take(it.index()),
    {
        v.push(c);
    }
    assert(v@ =~= s@);
    v
}

/// The string made of the characters of `v` from `from` up to `to`.
pub fn string_of(v: &Vec<char>, from: usize, to: usize) -> (s: String)
    requires
        from <= to <= v.len(),
    ensures
        s@ == v@.subrange(from as int, to as int),
{
    let mut s = String::new();
    let mut i: usize = from;
    while i < to
        invariant
            from <= i <= to <= v.len(),
            s@ =~= v@.subrange(from as int, i as int),
        decreases to - i,
    {
        s.push(v[i]);
        i = i + 1;
    }
    s
}

/// The string made of all the characters of `v`.
pub fn string(v: &Vec<char>) -> (s: String)
    ensures
        s@ == v@,
{
    let s = string_of(v, 0, v.len());
    assert(v@.subrange(0, v.len() as int) =~= v@);
    s
}

/// Where `c` first stands in `s`; the length of `s` where it never does.
pub open spec fn first_of(s: Seq<char>, c: char) -> int
    decreases s.len(),
{
    if s.len() == 0 {
        0
    } else if s[0] == c {
        0
    } else {
        1 + first_of(s.skip(1), c)
    }
}

/// `first_of` is the first place of `c`: no place before it holds `c`.
pub proof fn lemma_first_of(s: Seq<char>, c: char, k: int)
    requires
        0 <= k <= s.len(),
        forall|j: int| 0 <= j < k ==> s[j] != c,
        k < s.len() ==> s[k] == c,
    ensures
        first_of(s, c) == k,
    decreases s.len(),
{
    if s.len() > 0 && k > 0 {
        let rest = s.skip(1);
        assert forall|j: int| 0 <= j < k - 1 implies rest[j] != c by {
            assert(rest[j] == s[j + 1]);
        }
        lemma_first_of(rest, c, k - 1);
    }
}

/// The pieces of `s` between the occurrences of `sep`: one more piece than
/// there are occurrences, empty pieces included.
pub open spec fn split_spec(s: Seq<char>, sep: char) -> Seq<Seq<char>>
    decreases s.len(),
{
    let i = first_of(s, sep);
    if 0 <= i < s.len() {
        seq![s.take(i)] + split_spec(s.skip(i + 1), sep)
    } else {
        seq![s]
    }
}

/// The pieces put together with `sep` between them.
pub open spec fn join_spec(parts: Seq<Seq<char>>, sep: Seq<char>) -> Seq<char>
    decreases parts.len(),
{
    if parts.len() == 0 {
        Seq::empty()
    } else if parts.len() == 1 {
        parts[0]
    } else {
        join_spec(parts.drop_last(), sep) + sep + parts.last()
    }
}

/// `needle` stands in `hay` at place `i`.
pub open spec fn stands_at(hay: Seq<char>, i: int, needle: Seq<char>) -> bool {
    0 <= i && i + needle.len() <= hay.len() && hay.subrange(i, i + needle.len()) == needle
}

/// `needle` stands somewhere in `hay`.
pub open spec fn contains_spec(hay: Seq<char>, needle: Seq<char>) -> bool {
    exists|i: int| stands_at(hay, i, needle)
}

/// `hay` begins with `needle`.
pub open spec fn starts_with_spec(hay: Seq<char>, needle: Seq<char>) -> bool {
    stands_at(hay, 0, needle)
}

/// `hay` ends with `needle`.
pub open spec fn ends_with_spec(hay: Seq<char>, needle: Seq<char>) -> bool {
    stands_at(hay, hay.len() - needle.len(), needle)
}

/// Whether `needle` stands in `hay` at place `i`.
pub fn matches_at(hay: &Vec<char>, i: usize, needle: &Vec<char>) -> (found: bool)
    ensures
        found == stands_at(hay@, i as int, needle@),
{
    if needle.len() > hay.len() || i > hay.len() - needle.len() {
        return false;
    }
    let mut k: usize = 0;
    while k < needle.len()
        invariant
            k <= needle.len(),
            i + needle.len() <= hay.len(),
            forall|j: int| 0 <= j < k ==> hay@[i + j] == needle@[j],
        decreases needle.len() - k,
    {
        if hay[i + k] != needle[k] {
            assert(hay@.subrange(i as int, i + needle.len())[k as int] != needle@[k as int]);
            return false;
        }
        k = k + 1;
    }
    assert(hay@.subrange(i as int, i + needle.len()) =~= needle@);
    true
}

/// Whether `needle` stands somewhere in `hay`.
pub fn contains(hay: &Vec<char>, needle: &Vec<char>) -> (found: bool)
    ensures
        found == contains_spec(hay@, needle@),
{
    let mut i: usize = 0;
    while i < hay.len()
        invariant
            i <= hay.len(),
            forall|j: int| 0 <= j < i ==> !stands_at(hay@, j, needle@),
        decreases hay.len() - i,
    {
        if matches_at(hay, i, needle) {
            return true;
        }
        i = i + 1;
    }
    matches_at(hay, i, needle)
}

/// Whether `hay` begins with `needle`.
pub fn starts_with(hay: &Vec<char>, needle: &Vec<char>) -> (found: bool)
    ensures
        found == starts_with_spec(hay@, needle@),
{
    matches_at(hay, 0, needle)
}

/// Whether `hay` ends with `needle`.
pub fn ends_with(hay: &Vec<char>, needle: &Vec<char>) -> (found: bool)
    ensures
        found == ends_with_spec(hay@, needle@),
{
    if needle.len() > hay.len() {
        return false;
    }
    matches_at(hay, hay.len() - needle.len(), needle)
}

/// A copy of the characters of `v` from `from` up to `to`.
pub fn slice(v: &Vec<char>, from: usize, to: usize) -> (piece: Vec<char>)
    requires
        from <= to <= v.len(),
    ensures
        piece@ == v@.subrange(from as int, to as int),
{
    let mut piece: Vec<char> = Vec::new();
    let mut i: usize = from;
    while i < to
        invariant
            from <= i <= to <= v.len(),
            piece@ =~= v@.subrange(from as int, i as int),
        decreases to - i,
    {
        piece.push(v[i]);
        i = i + 1;
    }
    piece
}

/// Appends the characters of `tail` to `head`.
pub fn append(head: &mut Vec<char>, tail: &Vec<char>)
    ensures
        final(head)@ == old(head)@ + tail@,
{
    let mut i: usize = 0;
    while i < tail.len()
        invariant
            i <= tail.len(),
            head@ =~= old(head)@ + tail@.take(i as int),
        decreases tail.len() - i,
    {
        head.push(tail[i]);
        i = i + 1;
    }
    assert(tail@.take(i as int) =~= tail@);
}

/// The pieces as sequences.
pub open spec fn pieces_view(pieces: Seq<Vec<char>>) -> Seq<Seq<char>> {
    Seq::new(pieces.len(), |i: int| pieces[i]@)
}

/// Splits `s` at every `sep`.
pub fn split(s: &Vec<char>, sep: char) -> (pieces: Vec<Vec<char>>)
    ensures
        pieces_view(pieces@) == split_spec(s@, sep),
        pieces@.len() >= 1,
{
    let mut pieces: Vec<Vec<char>> = Vec::new();
    let mut start: usize = 0;
    let mut i: usize = 0;
    assert(s@.skip(0) =~= s@);
    assert(pieces_view(pieces@) + split_spec(s@.skip(0), sep) =~= split_spec(s@, sep));
    while i < s.len()
        invariant
            start <= i <= s.len(),
            forall|j: int| start <= j < i ==> s@[j] != sep,
            pieces_view(pieces@) + split_spec(s@.skip(start as int), sep) == split_spec(s@, sep),
        decreases s.len() - i,
    {
        if s[i] == sep {
            let piece = slice(s, start, i);
            proof {
                let rest = s@.skip(start as int);
                assert forall|j: int| 0 <= j < i - start implies rest[j] != sep by {
                    assert(rest[j] == s@[start + j]);
                }
                lemma_first_of(rest, sep, i - start);
                assert(rest.take(i - start) =~= s@.subrange(start as int, i as int));
                assert(rest.skip(i - start + 1) =~= s@.skip(i + 1));
                assert(pieces_view(pieces@.push(piece)) =~= pieces_view(pieces@) + seq![piece@]);
            }
            pieces.push(piece);
            start = i + 1;
        }
        i = i + 1;
    }
    let piece = slice(s, start, s.len());
    proof {
        let rest = s@.skip(start as int);
        assert forall|j: int| 0 <= j < rest.len() implies rest[j] != sep by {
            assert(rest[j] == s@[start + j]);
        }
        lemma_first_of(rest, sep, rest.len() as int);
        assert(rest =~= s@.subrange(start as int, s.len() as int));
        assert(pieces_view(pieces@.push(piece)) =~= pieces_view(pieces@) + seq![piece@]);
    }
    pieces.push(piece);
    pieces
}

/// Puts the pieces from `from` on together, with `sep` between them.
pub fn join(pieces: &Vec<Vec<char>>, from: usize, sep: &Vec<char>) -> (joined: Vec<char>)
    requires
        from <= pieces.len(),
    ensures
        joined@ == join_spec(pieces_view(pieces@).skip(from as int), sep@),
{
    let mut joined: Vec<char> = Vec::new();
    let mut i: usize = from;
    let ghost parts = pieces_view(pieces@).skip(from as int);
    assert(parts.take(0) =~= Seq::empty());
    while i < pieces.len()
        invariant
            from <= i <= pieces.len(),
            parts == pieces_view(pieces@).skip(from as int),
            joined@ == join_spec(parts.take(i - from), sep@),
        decreases pieces.len() - i,
    {
        proof {
            let upto = parts.take(i - from + 1);
            assert(upto.drop_last() =~= parts.take(i - from));
            assert(upto.last() == pieces@[i as int]@);
            if i > from {
                assert(upto.len() > 1);
            } else {
                assert(upto.len() == 1);
                assert(upto[0] == pieces@[i as int]@);
            }
        }
        if i > from {
            append(&mut joined, sep);
        }
        append(&mut joined, &pieces[i]);
        proof {
            if i == from {
                assert(joined@ =~= pieces@[i as int]@);
            }
        }
        i = i + 1;
    }
    assert(parts.take(i - from) =~= parts);
    joined
}

/// The text without the characters `c` at its beginning.
pub open spec fn without_leading(text: Seq<char>, c: char) -> Seq<char>
    decreases text.len(),
{
    if text.len() > 0 && text[0] == c {
        without_leading(text.skip(1), c)
    } else {
        text
    }
}

/// Takes the characters `c` off the beginning of the text.
pub fn strip_leading(text: &Vec<char>, c: char) -> (rest: Vec<char>)
    ensures
        rest@ == without_leading(text@, c),
{
    let mut i: usize = 0;
    assert(text@.skip(0) =~= text@);
    while i < text.len() && text[i] == c
        invariant
            i <= text.len(),
            without_leading(text@, c) == without_leading(text@.skip(i as int), c),
        decreases text.len() - i,
    {
        proof {
            assert(text@.skip(i as int)[0] == text@[i as int]);
            assert(text@.skip(i as int).skip(1) =~= text@.skip(i + 1));
        }
        i = i + 1;
    }
    proof {
        if i < text.len() {
            assert(text@.skip(i as int)[0] == text@[i as int]);
        }
    }
    let rest = slice(text, i, text.len());
    assert(rest@ =~= text@.skip(i as int));
    rest
}

/// A line without the carriage return at its end, if it has one.
pub open spec fn without_return(line: Seq<char>) -> Seq<char> {
    if line.len() > 0 && line.last() == '\r' {
        line.drop_last()
    } else {
        line
    }
}

/// The lines of a text. A line ends with a line feed, or with a carriage
/// return and a line feed; what follows the last line feed is a line too,
/// unless nothing follows it.
pub open spec fn lines_spec(text: Seq<char>) -> Seq<Seq<char>> {
    let pieces = split_spec(text, '\n');
    let ended = pieces.drop_last().map_values(|line: Seq<char>| without_return(line));
    if pieces.last().len() > 0 {
        ended.push(pieces.last())
    } else {
        ended
    }
}

/// Splits a text into its lines.
pub fn lines(text: &Vec<char>) -> (list: Vec<Vec<char>>)
    ensures
        pieces_view(list@) == lines_spec(text@),
{
    let mut pieces = split(text, '\n');
    let ghost all = pieces_view(pieces@);
    let last = match pieces.pop() {
        Some(last) => last,
        None => Vec::new(),
    };
    assert(pieces_view(pieces@) =~= all.drop_last());
    let mut list: Vec<Vec<char>> = Vec::new();
    let mut i: usize = 0;
    while i < pieces.len()
        invariant
            i <= pieces.len(),
            list@.len() == i,
            forall|j: int| 0 <= j < i ==> list@[j]@ == without_return(pieces@[j]@),
        decreases pieces.len() - i,
    {
        let piece = &pieces[i];
        let line = if piece.len() > 0 && piece[piece.len() - 1] == '\r' {
            slice(piece, 0, piece.len() - 1)
        } else {
            slice(piece, 0, piece.len())
        };
        proof {
            assert(piece@.subrange(0, piece@.len() as int) =~= piece@);
            assert(piece@.subrange(0, piece@.len() - 1) =~= piece@.drop_last());
        }
        list.push(line);
        i = i + 1;
    }
    let ghost ended = all.drop_last().map_values(|line: Seq<char>| without_return(line));
    assert(pieces_view(list@) =~= ended);
    if last.len() > 0 {
        list.push(last);
        assert(pieces_view(list@) =~= ended.push(all.last()));
    }
    list
}

} // verus!
