//! Texts as sequences of characters: lines, words and blanks.

use vstd::prelude::*;

verus! {

/// Whether a character is white space, as Unicode defines the property.
pub open spec fn is_space(c: char) -> bool {
    let n = c as u32;
    ||| 0x09 <= n <= 0x0D
    ||| n == 0x20
    ||| n == 0x85
    ||| n == 0xA0
    ||| n == 0x1680
    ||| 0x2000 <= n <= 0x200A
    ||| n == 0x2028
    ||| n == 0x2029
    ||| n == 0x202F
    ||| n == 0x205F
    ||| n == 0x3000
}

/// Whether a character is white space.
pub fn is_space_char(c: char) -> (b: bool)
    ensures
        b == is_space(c),
{
    let n: u32 = c as u32;
    (0x09 <= n && n <= 0x0D) || n == 0x20 || n == 0x85 || n == 0xA0 || n == 0x1680 || (0x2000 <= n
        && n <= 0x200A) || n == 0x2028 || n == 0x2029 || n == 0x202F || n == 0x205F || n == 0x3000
}

/// The characters of a text, in order.
pub fn to_chars(s: &str) -> (v: Vec<char>)
    ensures
        v@ == s@,
{
    let mut v: Vec<char> = Vec::new();
    for c in it: s.chars()
        invariant
            v@ == it.seq().take(it.index()),
            it.seq() == s@,
    {
        v.push(c);
    }
    v
}

/// A text made of the given characters.
pub fn to_text(chars: &Vec<char>) -> (s: String)
    ensures
        s@ == chars@,
{
    let mut s = String::new();
    let mut i: usize = 0;
    while i < chars.len()
        invariant
            i <= chars.len(),
            s@ == chars@.take(i as int),
        decreases chars.len() - i,
    {
        s.push(chars[i]);
        assert(chars@.take(i + 1) == chars@.take(i as int).push(chars@[i as int]));
        i += 1;
    }
    s
}

/// The views of the texts in a list.
pub open spec fn views(list: Seq<Vec<char>>) -> Seq<Seq<char>> {
    list.map_values(|v: Vec<char>| v@)
}

/// The pieces of a text that lie between the occurrences of a separator. A
/// text without the separator is one piece; an empty piece stands where two
/// separators meet and at either end.
pub open spec fn split(s: Seq<char>, sep: char) -> Seq<Seq<char>>
    decreases s.len(),
{
    if s.len() == 0 {
        seq![Seq::<char>::empty()]
    } else {
        let before = split(s.drop_last(), sep);
        if s.last() == sep {
            before.push(Seq::<char>::empty())
        } else {
            before.drop_last().push(before.last().push(s.last()))
        }
    }
}

/// How often a character occurs in a text.
pub open spec fn count(s: Seq<char>, c: char) -> nat
    decreases s.len(),
{
    if s.len() == 0 {
        0
    } else {
        count(s.drop_last(), c) + if s.last() == c {
            1nat
        } else {
            0nat
        }
    }
}

/// A text always splits into one piece more than it holds separators.
pub proof fn lemma_split_len(s: Seq<char>, sep: char)
    ensures
        split(s, sep).len() == count(s, sep) + 1,
    decreases s.len(),
{
    if s.len() > 0 {
        lemma_split_len(s.drop_last(), sep);
    }
}

/// Splits a text at every occurrence of a separator.
pub fn split_at(text: &Vec<char>, sep: char) -> (pieces: Vec<Vec<char>>)
    ensures
        views(pieces@) == split(text@, sep),
{
    let mut done: Vec<Vec<char>> = Vec::new();
    let mut piece: Vec<char> = Vec::new();
    let mut i: usize = 0;
    assert(views(done@).push(piece@) == split(text@.take(0), sep));
    while i < text.len()
        invariant
            i <= text.len(),
            views(done@).push(piece@) == split(text@.take(i as int), sep),
        decreases text.len() - i,
    {
        let ghost before = split(text@.take(i as int), sep);
        assert(text@.take(i + 1).drop_last() == text@.take(i as int));
        assert(before.last() == piece@);
        assert(before.drop_last() == views(done@));
        let c = text[i];
        if c == sep {
            let ghost old_done = done@;
            done.push(piece);
            piece = Vec::new();
            assert(views(done@) == views(old_done).push(before.last()));
        } else {
            piece.push(c);
        }
        i += 1;
    }
    assert(text@.take(i as int) == text@);
    let ghost old_done = done@;
    done.push(piece);
    assert(views(done@) == views(old_done).push(piece@));
    done
}

/// The pieces of a list that are not empty, in order.
pub open spec fn nonempty(pieces: Seq<Seq<char>>) -> Seq<Seq<char>>
    decreases pieces.len(),
{
    if pieces.len() == 0 {
        Seq::empty()
    } else if pieces.last().len() > 0 {
        nonempty(pieces.drop_last()).push(pieces.last())
    } else {
        nonempty(pieces.drop_last())
    }
}

/// Every piece that is kept holds at least one character.
pub proof fn lemma_nonempty_holds(pieces: Seq<Seq<char>>)
    ensures
        forall|i: int| 0 <= i < nonempty(pieces).len() ==> (#[trigger] nonempty(pieces)[i]).len() > 0,
    decreases pieces.len(),
{
    if pieces.len() > 0 {
        lemma_nonempty_holds(pieces.drop_last());
        assert forall|i: int| 0 <= i < nonempty(pieces).len() implies (#[trigger] nonempty(
            pieces,
        )[i]).len() > 0 by {
            if i < nonempty(pieces.drop_last()).len() {
                assert(nonempty(pieces)[i] == nonempty(pieces.drop_last())[i]);
            }
        }
    }
}

/// The words of a text: what lies between its space characters, without the
/// empty pieces. Only the space character separates words; a tab does not.
pub open spec fn words(s: Seq<char>) -> Seq<Seq<char>> {
    nonempty(split(s, ' '))
}

/// Splits a text into its words.
pub fn split_words(text: &Vec<char>) -> (list: Vec<Vec<char>>)
    ensures
        views(list@) == words(text@),
{
    let pieces = split_at(text, ' ');
    let mut list: Vec<Vec<char>> = Vec::new();
    let mut i: usize = 0;
    while i < pieces.len()
        invariant
            i <= pieces.len(),
            views(list@) == nonempty(views(pieces@).take(i as int)),
        decreases pieces.len() - i,
    {
        assert(views(pieces@).take(i + 1).drop_last() == views(pieces@).take(i as int));
        if pieces[i].len() > 0 {
            let ghost old_list = list@;
            list.push(pieces[i].clone());
            assert(views(list@) == views(old_list).push(pieces@[i as int]@));
        }
        i += 1;
    }
    assert(views(pieces@).take(i as int) == views(pieces@));
    list
}

/// A line without the carriage return at its end, if it has one.
pub open spec fn strip_cr(s: Seq<char>) -> Seq<char> {
    if s.len() > 0 && s.last() == '\r' {
        s.drop_last()
    } else {
        s
    }
}

/// The lines of a text: the pieces that its line feeds separate, every one
/// of them, so that a text that ends in a line feed has an empty last line.
/// Only the empty text has no line. A carriage return at the end of a line
/// is not part of the line.
pub open spec fn lines(s: Seq<char>) -> Seq<Seq<char>> {
    if s.len() == 0 {
        Seq::empty()
    } else {
        split(s, '\n').map_values(|p: Seq<char>| strip_cr(p))
    }
}

/// Splits a text into its lines.
pub fn split_lines(text: &Vec<char>) -> (list: Vec<Vec<char>>)
    ensures
        views(list@) == lines(text@),
{
    let mut list: Vec<Vec<char>> = Vec::new();
    if text.len() == 0 {
        assert(views(list@) == Seq::<Seq<char>>::empty());
        return list;
    }
    let pieces = split_at(text, '\n');
    let ghost all = views(pieces@);
    let mut i: usize = 0;
    while i < pieces.len()
        invariant
            i <= pieces.len(),
            all == views(pieces@),
            views(list@) == all.take(i as int).map_values(|p: Seq<char>| strip_cr(p)),
        decreases pieces.len() - i,
    {
        let mut line = pieces[i].clone();
        let n = line.len();
        if n > 0 && line[n - 1] == '\r' {
            line.pop();
        }
        let ghost old_list = list@;
        list.push(line);
        assert(views(list@) == views(old_list).push(strip_cr(all[i as int])));
        assert(all.take(i + 1).map_values(|p: Seq<char>| strip_cr(p)) == all.take(
            i as int,
        ).map_values(|p: Seq<char>| strip_cr(p)).push(strip_cr(all[i as int])));
        i += 1;
    }
    assert(all.take(i as int) == all);
    list
}

/// Whether a text holds nothing but white space.
pub open spec fn is_blank(s: Seq<char>) -> bool {
    forall|i: int| 0 <= i < s.len() ==> is_space(#[trigger] s[i])
}

/// Whether a text holds nothing but white space.
pub fn blank(text: &Vec<char>) -> (b: bool)
    ensures
        b == is_blank(text@),
{
    let mut i: usize = 0;
    while i < text.len()
        invariant
            i <= text.len(),
            forall|j: int| 0 <= j < i ==> is_space(#[trigger] text@[j]),
        decreases text.len() - i,
    {
        if !is_space_char(text[i]) {
            return false;
        }
        i += 1;
    }
    true
}

/// A text without the white space at its end.
pub open spec fn trim_end(s: Seq<char>) -> Seq<char>
    decreases s.len(),
{
    if s.len() > 0 && is_space(s.last()) {
        trim_end(s.drop_last())
    } else {
        s
    }
}

/// Removes the white space at the end of a text.
pub fn trimmed_end(text: &Vec<char>) -> (out: Vec<char>)
    ensures
        out@ == trim_end(text@),
{
    let mut out = text.clone();
    assert(out@ == text@);
    while out.len() > 0 && is_space_char(out[out.len() - 1])
        invariant
            trim_end(out@) == trim_end(text@),
        decreases out.len(),
    {
        out.pop();
    }
    out
}

/// Whether a character occurs in a text.
pub fn has_char(text: &Vec<char>, c: char) -> (b: bool)
    ensures
        b == text@.contains(c),
{
    let mut i: usize = 0;
    while i < text.len()
        invariant
            i <= text.len(),
            forall|j: int| 0 <= j < i ==> text@[j] != c,
        decreases text.len() - i,
    {
        if text[i] == c {
            return true;
        }
        i += 1;
    }
    false
}

} // verus!
