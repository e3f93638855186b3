//! Words, and lines of limited width.
use vstd::prelude::*;
use vstd::string::*;

use crate::seqs::{keep_when, lemma_filter_nothing, lemma_filter_step};
use crate::strings::{
    chars_of, is_whitespace, lemma_split_when_nonempty, split_text, split_when, text_between, texts, whitespace,
};

verus! {

pub open spec fn is_space() -> spec_fn(char) -> bool {
    |c: char| whitespace(c)
}

pub open spec fn is_newline() -> spec_fn(char) -> bool {
    |c: char| c == '\n'
}

pub open spec fn not_empty() -> spec_fn(Seq<char>) -> bool {
    |s: Seq<char>| s.len() > 0
}

/// The words of a text: what stands between white space.
pub open spec fn words(s: Seq<char>) -> Seq<Seq<char>> {
    split_when(s, is_space()).filter(not_empty())
}

pub open spec fn string_not_empty() -> spec_fn(String) -> bool {
    |s: String| s@.len() > 0
}

proof fn lemma_texts_filter(v: Seq<String>)
    ensures
        texts(v.filter(string_not_empty())) == texts(v).filter(not_empty()),
    decreases v.len(),
{
    let p = string_not_empty();
    if v.len() == 0 {
        lemma_filter_nothing(v, p);
        lemma_filter_nothing(texts(v), not_empty());
        assert(texts(v.filter(p)) =~= texts(v).filter(not_empty()));
    } else {
        let n = v.len() - 1;
        lemma_texts_filter(v.drop_last());
        lemma_filter_step(v, p, n);
        lemma_filter_step(texts(v), not_empty(), n);
        assert(v.take(n) =~= v.drop_last());
        assert(v.take(n + 1) =~= v);
        assert(texts(v).take(n) =~= texts(v.drop_last()));
        assert(texts(v).take(n + 1) =~= texts(v));
        assert(texts(v.filter(p)) =~= texts(v).filter(not_empty()));
    }
}

/// The words of a text, in order.
pub fn split_whitespace(s: &str) -> (r: Vec<String>)
    ensures
        texts(r@) == words(s@),
{
    let pieces = split_text(s, is_whitespace, Ghost(is_space()));
    proof {
        lemma_texts_filter(pieces@);
    }
    let ghost p = string_not_empty();
    let wanted = |piece: &String| -> (b: bool)
        ensures
            b == p(*piece),
        { !piece.as_str().is_empty() };
    keep_when(pieces, wanted, Ghost(p))
}

fn is_line_end(c: char) -> (r: bool)
    ensures
        r == (c == '\n'),
{
    c == '\n'
}

/// The parts of a text between line ends.
pub fn split_lines(s: &str) -> (r: Vec<String>)
    ensures
        texts(r@) == split_when(s@, is_newline()),
        r@.len() > 0,
{
    split_text(s, is_line_end, Ghost(is_newline()))
}

/// A word cut into pieces of `width` characters; the last may be shorter.
pub open spec fn cut(word: Seq<char>, width: nat) -> Seq<Seq<char>>
    decreases word.len(),
{
    if word.len() <= width || width == 0 {
        seq![word]
    } else {
        seq![word.take(width as int)] + cut(word.skip(width as int), width)
    }
}

/// Lines that are full, and the one that words are still added to.
pub struct Wrapping {
    pub full: Seq<Seq<char>>,
    pub current: Seq<char>,
}

impl Wrapping {
    /// The word begins a line; one that is too long fills lines.
    pub open spec fn place(self, word: Seq<char>, width: nat) -> Wrapping {
        let pieces = cut(word, width);
        Wrapping { full: self.full + pieces.drop_last(), current: pieces.last() }
    }

    /// The word goes to the end of the line where it fits there, else to a new one.
    pub open spec fn add_word(self, word: Seq<char>, width: nat) -> Wrapping {
        if self.current.len() == 0 {
            self.place(word, width)
        } else if self.current.len() + 1 + word.len() <= width {
            Wrapping { full: self.full, current: self.current + seq![' '] + word }
        } else {
            Wrapping { full: self.full.push(self.current), current: Seq::empty() }.place(word, width)
        }
    }

    pub open spec fn add_words(self, more: Seq<Seq<char>>, width: nat) -> Wrapping
        decreases more.len(),
    {
        if more.len() == 0 {
            self
        } else {
            self.add_words(more.drop_last(), width).add_word(more.last(), width)
        }
    }
}

/// The lines of one paragraph.
pub open spec fn wrapped_paragraph(paragraph: Seq<char>, width: nat) -> Seq<Seq<char>> {
    let end = Wrapping { full: Seq::empty(), current: Seq::empty() }.add_words(words(paragraph), width);
    end.full.push(end.current)
}

pub open spec fn wrapped_paragraphs(paragraphs: Seq<Seq<char>>, width: nat) -> Seq<Seq<char>>
    decreases paragraphs.len(),
{
    if paragraphs.len() == 0 {
        Seq::empty()
    } else {
        wrapped_paragraphs(paragraphs.drop_last(), width) + wrapped_paragraph(paragraphs.last(), width)
    }
}

/// A text in lines of at most `width` characters: it breaks where it has line ends, and between
/// words as late as possible. A width of zero leaves it as it is.
pub open spec fn wrapped(text: Seq<char>, width: nat) -> Seq<Seq<char>> {
    if width == 0 {
        seq![text]
    } else {
        wrapped_paragraphs(split_when(text, is_newline()), width)
    }
}

proof fn lemma_cut_nonempty(word: Seq<char>, width: nat)
    ensures
        cut(word, width).len() > 0,
{
}

/// Puts a word at the start of a line; `current` is empty before.
fn push_word(lines: &mut Vec<String>, current: &mut String, word: &str, width: usize)
    requires
        old(current)@.len() == 0,
        width > 0,
    ensures
        (Wrapping { full: texts(final(lines)@), current: final(current)@ }) == (Wrapping {
            full: texts(old(lines)@),
            current: old(current)@,
        }).place(word@, width as nat),
{
    let v = chars_of(word);
    let mut from: usize = 0;
    let ghost pieces = cut(word@, width as nat);
    let ghost before = texts(lines@);
    assert(word@.skip(0) =~= word@);
    assert(before + pieces =~= texts(lines@) + cut(word@.skip(0), width as nat));
    while v.len() - from > width
        invariant
            v@ == word@,
            width > 0,
            from <= v@.len(),
            pieces == cut(word@, width as nat),
            before + pieces == texts(lines@) + cut(word@.skip(from as int), width as nat),
        decreases v@.len() - from,
    {
        let ghost rest = word@.skip(from as int);
        let ghost old_lines = lines@;
        let piece = text_between(&v, from, from + width);
        assert(piece@ =~= rest.take(width as int));
        assert(rest.skip(width as int) =~= word@.skip(from + width));
        lines.push(piece);
        assert(texts(lines@) =~= texts(old_lines).push(piece@));
        assert(texts(old_lines) + cut(rest, width as nat) =~= texts(lines@) + cut(
            word@.skip(from + width),
            width as nat,
        ));
        from += width;
    }
    let ghost rest = word@.skip(from as int);
    assert(cut(rest, width as nat) =~= seq![rest]);
    *current = text_between(&v, from, v.len());
    assert(current@ =~= rest);
    assert((before + pieces).drop_last() =~= texts(lines@));
    assert((before + pieces).last() == rest);
    proof {
        lemma_cut_nonempty(word@, width as nat);
    }
    assert((before + pieces).drop_last() =~= before + pieces.drop_last());
}

fn wrap_paragraph(lines: &mut Vec<String>, paragraph: &str, width: usize)
    requires
        width > 0,
    ensures
        texts(final(lines)@) == texts(old(lines)@) + wrapped_paragraph(paragraph@, width as nat),
{
    let list = split_whitespace(paragraph);
    let ghost all = words(paragraph@);
    let ghost start = Wrapping { full: Seq::empty(), current: Seq::empty() };
    let mut full: Vec<String> = Vec::new();
    let mut current = String::new();
    let mut i: usize = 0;
    assert(texts(full@) =~= Seq::<Seq<char>>::empty());
    assert(current@ =~= Seq::<char>::empty());
    assert(all.take(0) =~= Seq::<Seq<char>>::empty());
    while i < list.len()
        invariant
            width > 0,
            texts(list@) == all,
            i <= list@.len(),
            start == (Wrapping { full: Seq::empty(), current: Seq::empty() }),
            (Wrapping { full: texts(full@), current: current@ }) == start.add_words(
                all.take(i as int),
                width as nat,
            ),
        decreases list@.len() - i,
    {
        let word = list[i].as_str();
        let ghost before = Wrapping { full: texts(full@), current: current@ };
        let ghost old_full = full@;
        assert(all.take(i + 1).drop_last() =~= all.take(i as int));
        assert(all.take(i + 1).last() == word@);
        if current.as_str().is_empty() {
            push_word(&mut full, &mut current, word, width);
        } else {
            let used: usize = current.as_str().unicode_len();
            let wanted: usize = word.unicode_len();
            if used < width && wanted <= width - used - 1 {
                current.push(' ');
                current.append(word);
                assert(current@ =~= before.current + seq![' '] + word@);
            } else {
                let mut done = String::new();
                std::mem::swap(&mut done, &mut current);
                full.push(done);
                assert(texts(full@) =~= texts(old_full).push(before.current));
                assert(current@ =~= Seq::<char>::empty());
                push_word(&mut full, &mut current, word, width);
            }
        }
        assert((Wrapping { full: texts(full@), current: current@ }) == before.add_word(
            word@,
            width as nat,
        ));
        i += 1;
    }
    assert(all.take(all.len() as int) =~= all);
    let ghost before = texts(lines@);
    let ghost full_before = full@;
    full.push(current);
    assert(texts(full@) =~= texts(full_before).push(current@));
    let ghost lines_before = lines@;
    lines.append(&mut full);
    assert(texts(lines@) =~= before + wrapped_paragraph(paragraph@, width as nat));
}

pub fn wrap_text(text: &str, width: usize) -> (r: Vec<String>)
    ensures
        texts(r@) == wrapped(text@, width as nat),
        r@.len() > 0,
{
    let mut lines: Vec<String> = Vec::new();
    if width == 0 {
        lines.push(text.to_owned());
        assert(texts(lines@) =~= seq![text@]);
        return lines;
    }
    let paragraphs = split_lines(text);
    let ghost all = split_when(text@, is_newline());
    let mut i: usize = 0;
    assert(all.take(0) =~= Seq::<Seq<char>>::empty());
    assert(texts(lines@) =~= Seq::<Seq<char>>::empty());
    while i < paragraphs.len()
        invariant
            width > 0,
            texts(paragraphs@) == all,
            i <= paragraphs@.len(),
            texts(lines@) == wrapped_paragraphs(all.take(i as int), width as nat),
            i > 0 ==> lines@.len() > 0,
        decreases paragraphs@.len() - i,
    {
        assert(all.take(i + 1).drop_last() =~= all.take(i as int));
        assert(all.take(i + 1).last() == paragraphs@[i as int]@);
        wrap_paragraph(&mut lines, paragraphs[i].as_str(), width);
        assert(texts(lines@).len() > 0);
        i += 1;
    }
    assert(all.take(all.len() as int) =~= all);
    lines
}

/// Whether no line is wider than that.
pub open spec fn within(lines: Seq<Seq<char>>, width: nat) -> bool {
    forall|i: int| 0 <= i < lines.len() ==> (#[trigger] lines[i]).len() <= width
}

proof fn lemma_cut_within(word: Seq<char>, width: nat)
    requires
        width > 0,
    ensures
        within(cut(word, width), width),
    decreases word.len(),
{
    if word.len() > width {
        lemma_cut_within(word.skip(width as int), width);
    }
}

proof fn lemma_add_words_within(start: Wrapping, more: Seq<Seq<char>>, width: nat)
    requires
        width > 0,
        within(start.full, width),
        start.current.len() <= width,
    ensures
        within(start.add_words(more, width).full, width),
        start.add_words(more, width).current.len() <= width,
    decreases more.len(),
{
    if more.len() > 0 {
        lemma_add_words_within(start, more.drop_last(), width);
        lemma_cut_within(more.last(), width);
    }
}

proof fn lemma_paragraphs_within(paragraphs: Seq<Seq<char>>, width: nat)
    requires
        width > 0,
    ensures
        within(wrapped_paragraphs(paragraphs, width), width),
    decreases paragraphs.len(),
{
    if paragraphs.len() > 0 {
        lemma_paragraphs_within(paragraphs.drop_last(), width);
        lemma_add_words_within(
            Wrapping { full: Seq::empty(), current: Seq::empty() },
            words(paragraphs.last()),
            width,
        );
    }
}

/// No line of a wrapped text is wider than the width asked for.
pub proof fn law_wrapped_lines_fit(text: Seq<char>, width: nat)
    requires
        width > 0,
    ensures
        within(wrapped(text, width), width),
{
    lemma_paragraphs_within(split_when(text, is_newline()), width);
}

/// What a text holds besides white space.
pub open spec fn ink(s: Seq<char>) -> Seq<char> {
    s.filter(|c: char| !whitespace(c))
}

/// What the lines of a text hold besides white space, one after the other.
pub open spec fn ink_of(lines: Seq<Seq<char>>) -> Seq<char>
    decreases lines.len(),
{
    if lines.len() == 0 {
        Seq::empty()
    } else {
        ink_of(lines.drop_last()) + ink(lines.last())
    }
}

proof fn lemma_ink_concat(a: Seq<char>, b: Seq<char>)
    ensures
        ink(a + b) == ink(a) + ink(b),
{
    Seq::filter_distributes_over_add(a, b, |c: char| !whitespace(c));
}

proof fn lemma_ink_empty()
    ensures
        ink(Seq::empty()) == Seq::<char>::empty(),
{
    lemma_filter_nothing(Seq::<char>::empty(), |c: char| !whitespace(c));
}

proof fn lemma_ink_of_concat(a: Seq<Seq<char>>, b: Seq<Seq<char>>)
    ensures
        ink_of(a + b) == ink_of(a) + ink_of(b),
    decreases b.len(),
{
    if b.len() == 0 {
        assert(a + b =~= a);
        assert(ink_of(a) + Seq::<char>::empty() =~= ink_of(a));
    } else {
        assert((a + b).drop_last() =~= a + b.drop_last());
        lemma_ink_of_concat(a, b.drop_last());
        assert(ink_of(a) + (ink_of(b.drop_last()) + ink(b.last())) =~= ink_of(a) + ink_of(b.drop_last())
            + ink(b.last()));
    }
}

proof fn lemma_ink_of_one(s: Seq<char>)
    ensures
        ink_of(seq![s]) == ink(s),
{
    reveal_with_fuel(ink_of, 2);
    assert(seq![s].drop_last() =~= Seq::<Seq<char>>::empty());
    assert(seq![s].last() == s);
    assert(Seq::<char>::empty() + ink(s) =~= ink(s));
}

/// Cutting at single characters of white space loses no ink.
proof fn lemma_split_keeps_ink(s: Seq<char>, p: spec_fn(char) -> bool)
    requires
        forall|c: char| #[trigger] p(c) ==> whitespace(c),
    ensures
        ink_of(split_when(s, p)) == ink(s),
    decreases s.len(),
{
    if s.len() == 0 {
        assert(s =~= Seq::<char>::empty());
        lemma_ink_of_one(s);
    } else {
        let before = split_when(s.drop_last(), p);
        let c = s.last();
        lemma_split_keeps_ink(s.drop_last(), p);
        lemma_split_when_nonempty(s.drop_last(), p);
        assert(s =~= s.drop_last() + seq![c]);
        lemma_ink_concat(s.drop_last(), seq![c]);
        lemma_ink_empty();
        assert(seq![c] =~= Seq::<char>::empty().push(c));
        Seq::<char>::empty().lemma_filter_push(c, |c: char| !whitespace(c));
        if p(c) {
            let now = before.push(Seq::<char>::empty());
            assert(now.drop_last() =~= before);
            assert(ink(s.drop_last()) + Seq::<char>::empty() =~= ink(s.drop_last()));
        } else {
            let now = before.drop_last().push(before.last().push(c));
            assert(now.drop_last() =~= before.drop_last());
            assert(before.last().push(c) =~= before.last() + seq![c]);
            lemma_ink_concat(before.last(), seq![c]);
            assert(ink_of(before.drop_last()) + (ink(before.last()) + ink(seq![c])) =~= ink_of(
                before.drop_last(),
            ) + ink(before.last()) + ink(seq![c]));
        }
    }
}

/// Leaving out empty pieces loses no ink.
proof fn lemma_filter_keeps_ink(v: Seq<Seq<char>>)
    ensures
        ink_of(v.filter(not_empty())) == ink_of(v),
    decreases v.len(),
{
    if v.len() == 0 {
        lemma_filter_nothing(v, not_empty());
        assert(v.filter(not_empty()) =~= v);
    } else {
        let n = v.len() - 1;
        lemma_filter_keeps_ink(v.drop_last());
        lemma_filter_step(v, not_empty(), n);
        assert(v.take(n) =~= v.drop_last());
        assert(v.take(n + 1) =~= v);
        if v.last().len() > 0 {
            assert(v.drop_last().filter(not_empty()).push(v.last()).drop_last() =~= v.drop_last().filter(
                not_empty(),
            ));
        } else {
            assert(v.last() =~= Seq::<char>::empty());
            lemma_ink_empty();
            assert(ink_of(v.drop_last()) + Seq::<char>::empty() =~= ink_of(v.drop_last()));
        }
    }
}

proof fn lemma_cut_keeps_ink(word: Seq<char>, width: nat)
    ensures
        ink_of(cut(word, width)) == ink(word),
    decreases word.len(),
{
    if word.len() <= width || width == 0 {
        lemma_ink_of_one(word);
    } else {
        let head = word.take(width as int);
        let tail = word.skip(width as int);
        lemma_cut_keeps_ink(tail, width);
        lemma_ink_of_concat(seq![head], cut(tail, width));
        lemma_ink_of_one(head);
        lemma_ink_concat(head, tail);
        assert(word =~= head + tail);
    }
}

pub open spec fn ink_so_far(w: Wrapping) -> Seq<char> {
    ink_of(w.full) + ink(w.current)
}

proof fn lemma_place_keeps_ink(w: Wrapping, word: Seq<char>, width: nat)
    requires
        w.current.len() == 0,
    ensures
        ink_so_far(w.place(word, width)) == ink_so_far(w) + ink(word),
{
    let pieces = cut(word, width);
    assert(w.current =~= Seq::<char>::empty());
    lemma_ink_empty();
    lemma_cut_keeps_ink(word, width);
    lemma_ink_of_concat(w.full, pieces.drop_last());
    assert(ink_of(w.full) + ink_of(pieces.drop_last()) + ink(pieces.last()) =~= ink_of(w.full) + (
    ink_of(pieces.drop_last()) + ink(pieces.last())));
    assert(ink_of(w.full) + Seq::<char>::empty() =~= ink_of(w.full));
}

proof fn lemma_add_words_keep_ink(w: Wrapping, more: Seq<Seq<char>>, width: nat)
    ensures
        ink_so_far(w.add_words(more, width)) == ink_so_far(w) + ink_of(more),
    decreases more.len(),
{
    if more.len() == 0 {
        assert(ink_so_far(w) + Seq::<char>::empty() =~= ink_so_far(w));
    } else {
        let before = w.add_words(more.drop_last(), width);
        let word = more.last();
        lemma_add_words_keep_ink(w, more.drop_last(), width);
        if before.current.len() == 0 {
            lemma_place_keeps_ink(before, word, width);
        } else if before.current.len() + 1 + word.len() <= width {
            lemma_ink_concat(before.current + seq![' '], word);
            lemma_ink_concat(before.current, seq![' ']);
            lemma_ink_empty();
            assert(seq![' '] =~= Seq::<char>::empty().push(' '));
            Seq::<char>::empty().lemma_filter_push(' ', |c: char| !whitespace(c));
            assert(ink(before.current) + Seq::<char>::empty() =~= ink(before.current));
            assert(ink_of(before.full) + (ink(before.current) + ink(word)) =~= ink_of(before.full) + ink(
                before.current,
            ) + ink(word));
        } else {
            let fresh = Wrapping { full: before.full.push(before.current), current: Seq::empty() };
            lemma_place_keeps_ink(fresh, word, width);
            lemma_ink_empty();
            assert(before.full.push(before.current).drop_last() =~= before.full);
            assert(ink_so_far(fresh) =~= ink_so_far(before));
        }
        assert(ink_so_far(w) + ink_of(more.drop_last()) + ink(word) =~= ink_so_far(w) + (ink_of(
            more.drop_last(),
        ) + ink(word)));
    }
}

proof fn lemma_paragraphs_keep_ink(paragraphs: Seq<Seq<char>>, width: nat)
    ensures
        ink_of(wrapped_paragraphs(paragraphs, width)) == ink_of(paragraphs),
    decreases paragraphs.len(),
{
    if paragraphs.len() > 0 {
        let last = paragraphs.last();
        let start = Wrapping { full: Seq::empty(), current: Seq::empty() };
        let end = start.add_words(words(last), width);
        lemma_paragraphs_keep_ink(paragraphs.drop_last(), width);
        lemma_add_words_keep_ink(start, words(last), width);
        lemma_split_keeps_ink(last, is_space());
        lemma_filter_keeps_ink(split_when(last, is_space()));
        lemma_ink_empty();
        assert(ink_so_far(start) =~= Seq::<char>::empty());
        assert(Seq::<char>::empty() + ink(last) =~= ink(last));
        assert(end.full.push(end.current).drop_last() =~= end.full);
        lemma_ink_of_concat(
            wrapped_paragraphs(paragraphs.drop_last(), width),
            wrapped_paragraph(last, width),
        );
    }
}

/// Wrapping changes nothing but white space: the other characters stay, in their order.
pub proof fn law_wrapping_keeps_the_text(text: Seq<char>, width: nat)
    ensures
        ink_of(wrapped(text, width)) == ink(text),
{
    if width == 0 {
        lemma_ink_of_one(text);
    } else {
        lemma_paragraphs_keep_ink(split_when(text, is_newline()), width);
        lemma_split_keeps_ink(text, is_newline());
    }
}

/// Cutting at a character in the middle of a text is cutting what is before and what is after it.
proof fn lemma_split_at(a: Seq<char>, c: char, b: Seq<char>, p: spec_fn(char) -> bool)
    requires
        p(c),
    ensures
        split_when(a + seq![c] + b, p) == split_when(a, p) + split_when(b, p),
    decreases b.len(),
{
    let s = a + seq![c] + b;
    lemma_split_when_nonempty(a, p);
    lemma_split_when_nonempty(b, p);
    if b.len() == 0 {
        assert(s.drop_last() =~= a);
        assert(s.last() == c);
        assert(b =~= Seq::<char>::empty());
        assert(split_when(b, p) =~= seq![Seq::<char>::empty()]);
        assert(split_when(s, p) =~= split_when(a, p) + split_when(b, p));
    } else {
        let rest = b.drop_last();
        lemma_split_at(a, c, rest, p);
        lemma_split_when_nonempty(rest, p);
        assert(s.drop_last() =~= a + seq![c] + rest);
        assert(s.last() == b.last());
        let before = split_when(a, p) + split_when(rest, p);
        assert(before.last() == split_when(rest, p).last());
        assert(before.drop_last() =~= split_when(a, p) + split_when(rest, p).drop_last());
        assert(split_when(s, p) =~= split_when(a, p) + split_when(b, p));
    }
}

/// A text without the characters to cut at is one piece.
proof fn lemma_split_none(s: Seq<char>, p: spec_fn(char) -> bool)
    requires
        forall|i: int| 0 <= i < s.len() ==> !p(#[trigger] s[i]),
    ensures
        split_when(s, p) == seq![s],
    decreases s.len(),
{
    if s.len() == 0 {
        assert(s =~= Seq::<char>::empty());
    } else {
        let rest = s.drop_last();
        assert forall|i: int| 0 <= i < rest.len() implies !p(#[trigger] rest[i]) by {
            assert(rest[i] == s[i]);
        }
        lemma_split_none(rest, p);
        assert(s.last() == s[s.len() - 1]);
        assert(rest.push(s.last()) =~= s);
        assert(split_when(s, p) =~= seq![s]);
    }
}

proof fn lemma_words_at(a: Seq<char>, c: char, b: Seq<char>)
    requires
        whitespace(c),
    ensures
        words(a + seq![c] + b) == words(a) + words(b),
{
    lemma_split_at(a, c, b, is_space());
    Seq::filter_distributes_over_add(
        split_when(a, is_space()),
        split_when(b, is_space()),
        not_empty(),
    );
}

proof fn lemma_one_word(s: Seq<char>)
    requires
        s.len() > 0,
        forall|i: int| 0 <= i < s.len() ==> !whitespace(#[trigger] s[i]),
    ensures
        words(s) == seq![s],
{
    lemma_split_none(s, is_space());
    let none = Seq::<Seq<char>>::empty();
    lemma_filter_nothing(none, not_empty());
    none.lemma_filter_push(s, not_empty());
    assert(none.push(s) =~= seq![s]);
    assert(words(s) =~= seq![s]);
}

/// White space parts words, and nothing else does: the words of two texts with white space
/// between them are those of the one and those of the other, a text without white space is one
/// word, and the empty text is none.
pub proof fn law_white_space_parts_words(
    text: &str,
    a: &str,
    c: char,
    b: &str,
    all: Vec<String>,
    first: Vec<String>,
    second: Vec<String>,
)
    requires
        call_ensures(split_whitespace, (text,), all),
        call_ensures(split_whitespace, (a,), first),
        call_ensures(split_whitespace, (b,), second),
        text@ == a@ + seq![c] + b@,
        whitespace(c),
    ensures
        texts(all@) == texts(first@) + texts(second@),
        a@.len() > 0 && (forall|i: int| 0 <= i < a@.len() ==> !whitespace(#[trigger] a@[i])) ==> texts(
            first@,
        ) == seq![a@],
        a@.len() == 0 ==> first@.len() == 0,
{
    lemma_words_at(a@, c, b@);
    if a@.len() > 0 && (forall|i: int| 0 <= i < a@.len() ==> !whitespace(#[trigger] a@[i])) {
        lemma_one_word(a@);
    }
    if a@.len() == 0 {
        assert(a@ =~= Seq::<char>::empty());
        let pieces = split_when(a@, is_space());
        let none = Seq::<Seq<char>>::empty();
        assert(pieces =~= none.push(Seq::<char>::empty()));
        lemma_filter_nothing(none, not_empty());
        none.lemma_filter_push(Seq::<char>::empty(), not_empty());
        assert(words(a@).len() == 0);
        assert(texts(first@).len() == first@.len());
    }
}

/// A line end parts lines, and nothing else does.
pub proof fn law_line_ends_part_lines(
    text: &str,
    a: &str,
    b: &str,
    all: Vec<String>,
    first: Vec<String>,
    second: Vec<String>,
)
    requires
        call_ensures(split_lines, (text,), all),
        call_ensures(split_lines, (a,), first),
        call_ensures(split_lines, (b,), second),
        text@ == a@ + seq!['\n'] + b@,
    ensures
        texts(all@) == texts(first@) + texts(second@),
        (forall|i: int| 0 <= i < a@.len() ==> #[trigger] a@[i] != '\n') ==> texts(first@) == seq![a@],
{
    lemma_split_at(a@, '\n', b@, is_newline());
    if forall|i: int| 0 <= i < a@.len() ==> #[trigger] a@[i] != '\n' {
        lemma_split_none(a@, is_newline());
    }
}

proof fn lemma_paragraphs_concat(a: Seq<Seq<char>>, b: Seq<Seq<char>>, width: nat)
    ensures
        wrapped_paragraphs(a + b, width) == wrapped_paragraphs(a, width) + wrapped_paragraphs(b, width),
    decreases b.len(),
{
    if b.len() == 0 {
        assert(a + b =~= a);
        assert(wrapped_paragraphs(a + b, width) =~= wrapped_paragraphs(a, width) + wrapped_paragraphs(
            b,
            width,
        ));
    } else {
        lemma_paragraphs_concat(a, b.drop_last(), width);
        assert((a + b).drop_last() =~= a + b.drop_last());
        assert(wrapped_paragraphs(a + b, width) =~= wrapped_paragraphs(a, width) + wrapped_paragraphs(
            b,
            width,
        ));
    }
}

/// A line end stays one: what is before it and what is after it are wrapped each on its own.
pub proof fn law_line_ends_stay(
    text: &str,
    a: &str,
    b: &str,
    width: usize,
    all: Vec<String>,
    first: Vec<String>,
    second: Vec<String>,
)
    requires
        call_ensures(wrap_text, (text, width), all),
        call_ensures(wrap_text, (a, width), first),
        call_ensures(wrap_text, (b, width), second),
        width > 0,
        text@ == a@ + seq!['\n'] + b@,
    ensures
        texts(all@) == texts(first@) + texts(second@),
{
    lemma_split_at(a@, '\n', b@, is_newline());
    lemma_paragraphs_concat(
        split_when(a@, is_newline()),
        split_when(b@, is_newline()),
        width as nat,
    );
}

/// A width of zero leaves a text as it is.
pub proof fn law_no_width_leaves_a_text_whole(text: &str, r: Vec<String>)
    requires
        call_ensures(wrap_text, (text, 0usize), r),
    ensures
        r@.len() == 1,
        r@[0]@ == text@,
{
    assert(texts(r@).len() == r@.len());
    assert(texts(r@)[0] == r@[0]@);
}

proof fn lemma_one_paragraph(text: Seq<char>, width: nat)
    requires
        width > 0,
        forall|i: int| 0 <= i < text.len() ==> #[trigger] text[i] != '\n',
    ensures
        wrapped(text, width) == wrapped_paragraph(text, width),
{
    lemma_split_none(text, is_newline());
    reveal_with_fuel(wrapped_paragraphs, 2);
    assert(seq![text].drop_last() =~= Seq::<Seq<char>>::empty());
    assert(Seq::<Seq<char>>::empty() + wrapped_paragraph(text, width) =~= wrapped_paragraph(text, width));
}

/// Two words stand on one line, a space between them, where there is room for both and the
/// space; else each that fits stands on a line of its own.
pub proof fn law_words_share_a_line_that_has_room(
    text: &str,
    a: Seq<char>,
    c: char,
    b: Seq<char>,
    width: usize,
    r: Vec<String>,
)
    requires
        call_ensures(wrap_text, (text, width), r),
        text@ == a + seq![c] + b,
        whitespace(c),
        c != '\n',
        0 < a.len() <= width,
        0 < b.len() <= width,
        forall|i: int| 0 <= i < a.len() ==> !whitespace(#[trigger] a[i]),
        forall|i: int| 0 <= i < b.len() ==> !whitespace(#[trigger] b[i]),
    ensures
        a.len() + 1 + b.len() <= width ==> texts(r@) == seq![a + seq![' '] + b],
        a.len() + 1 + b.len() > width ==> texts(r@) == seq![a, b],
{
    let w = width as nat;
    assert(whitespace('\n'));
    assert forall|i: int| 0 <= i < text@.len() implies #[trigger] text@[i] != '\n' by {
        if i < a.len() {
            assert(text@[i] == a[i]);
        } else if i > a.len() {
            assert(text@[i] == b[i - a.len() - 1]);
        }
    }
    lemma_one_paragraph(text@, w);
    lemma_words_at(a, c, b);
    lemma_one_word(a);
    lemma_one_word(b);
    let all = words(text@);
    assert(all =~= seq![a, b]);
    let start = Wrapping { full: Seq::empty(), current: Seq::empty() };
    assert(all.drop_last() =~= seq![a]);
    assert(seq![a].drop_last() =~= Seq::<Seq<char>>::empty());
    reveal_with_fuel(Wrapping::add_words, 3);
    assert(cut(a, w) =~= seq![a]);
    assert(cut(b, w) =~= seq![b]);
    let first = start.add_words(seq![a], w);
    assert(first == start.add_word(a, w));
    assert(first.full =~= Seq::<Seq<char>>::empty());
    assert(first.current == a);
    let end = start.add_words(all, w);
    assert(end == first.add_word(b, w));
    if a.len() + 1 + b.len() <= width {
        assert(end.full.push(end.current) =~= seq![a + seq![' '] + b]);
    } else {
        assert(end.full =~= seq![a]);
        assert(end.full.push(end.current) =~= seq![a, b]);
    }
}

/// A word that is wider than the lines fills them: all but the last are full, and together they
/// are the word.
pub proof fn law_a_long_word_fills_lines(text: &str, width: usize, r: Vec<String>)
    requires
        call_ensures(wrap_text, (text, width), r),
        width > 0,
        text@.len() > 0,
        forall|i: int| 0 <= i < text@.len() ==> !whitespace(#[trigger] text@[i]),
    ensures
        forall|i: int| 0 <= i < r@.len() - 1 ==> (#[trigger] r@[i])@.len() == width,
        0 < r@.last()@.len() <= width,
        texts(r@).flatten() == text@,
{
    let w = width as nat;
    assert(whitespace('\n'));
    assert forall|i: int| 0 <= i < text@.len() implies #[trigger] text@[i] != '\n' by {
        assert(!whitespace(text@[i]));
    }
    lemma_one_paragraph(text@, w);
    lemma_one_word(text@);
    let start = Wrapping { full: Seq::empty(), current: Seq::empty() };
    reveal_with_fuel(Wrapping::add_words, 2);
    assert(seq![text@].drop_last() =~= Seq::<Seq<char>>::empty());
    let end = start.add_words(seq![text@], w);
    assert(end == start.add_word(text@, w));
    let pieces = cut(text@, w);
    lemma_cut_nonempty(text@, w);
    assert(end.full =~= pieces.drop_last());
    assert(end.full.push(end.current) =~= pieces);
    assert(texts(r@) == pieces);
    lemma_cut_fills(text@, w);
    assert(texts(r@).len() == r@.len());
    assert forall|i: int| 0 <= i < r@.len() - 1 implies (#[trigger] r@[i])@.len() == width by {
        assert(texts(r@)[i] == r@[i]@);
    }
    assert(texts(r@).last() == r@.last()@);
}

proof fn lemma_cut_fills(word: Seq<char>, width: nat)
    requires
        width > 0,
        word.len() > 0,
    ensures
        forall|i: int| 0 <= i < cut(word, width).len() - 1 ==> (#[trigger] cut(word, width)[i]).len() == width,
        cut(word, width).len() > 0,
        0 < cut(word, width).last().len() <= width,
        cut(word, width).flatten() == word,
    decreases word.len(),
{
    let pieces = cut(word, width);
    if word.len() <= width {
        assert(pieces =~= seq![word]);
        assert(pieces.drop_first() =~= Seq::<Seq<char>>::empty());
        reveal_with_fuel(Seq::flatten, 2);
        assert(pieces.flatten() =~= word);
    } else {
        let head = word.take(width as int);
        let tail = word.skip(width as int);
        lemma_cut_fills(tail, width);
        let rest = cut(tail, width);
        assert(pieces =~= seq![head] + rest);
        assert(pieces.drop_first() =~= rest);
        assert(pieces.first() == head);
        assert(pieces.last() == rest.last());
        assert(pieces.flatten() =~= head + rest.flatten());
        assert(pieces.flatten() =~= word);
        assert forall|i: int| 0 <= i < pieces.len() - 1 implies (#[trigger] pieces[i]).len() == width by {
            if i > 0 {
                assert(pieces[i] == rest[i - 1]);
            }
        }
    }
}

} // verus!
