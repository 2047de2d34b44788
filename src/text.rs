//! The mathematical model of counting: what the counts of a text are.
use vstd::prelude::*;

verus! {

/// Unicode White_Space, the set that `char::is_whitespace` tests.
pub open spec fn is_white_space(c: char) -> bool {
    let u = c as u32;
    ||| 0x09 <= u <= 0x0d
    ||| u == 0x20
    ||| u == 0x85
    ||| u == 0xa0
    ||| u == 0x1680
    ||| 0x2000 <= u <= 0x200a
    ||| u == 0x2028
    ||| u == 0x2029
    ||| u == 0x202f
    ||| u == 0x205f
    ||| u == 0x3000
}

/// A word begins at `i`: a non-whitespace character that is first or follows whitespace.
pub open spec fn starts_word(s: Seq<char>, i: int) -> bool {
    &&& !is_white_space(s[i])
    &&& (i == 0 || is_white_space(s[i - 1]))
}

/// Number of maximal runs of non-whitespace characters.
pub open spec fn word_count(s: Seq<char>) -> nat
    decreases s.len(),
{
    if s.len() == 0 {
        0
    } else {
        word_count(s.drop_last()) + if starts_word(s, s.len() - 1) { 1nat } else { 0nat }
    }
}

/// Bytes that UTF-8 takes for one character.
pub open spec fn utf8_width(c: char) -> nat {
    let u = c as u32;
    if u < 0x80 {
        1
    } else if u < 0x800 {
        2
    } else if u < 0x10000 {
        3
    } else {
        4
    }
}

/// Bytes that UTF-8 takes for a text.
pub open spec fn utf8_len(s: Seq<char>) -> nat
    decreases s.len(),
{
    if s.len() == 0 {
        0
    } else {
        utf8_len(s.drop_last()) + utf8_width(s.last())
    }
}

/// Number of line terminators.
pub open spec fn newline_count(s: Seq<char>) -> nat
    decreases s.len(),
{
    if s.len() == 0 {
        0
    } else {
        newline_count(s.drop_last()) + if s.last() == '\n' { 1nat } else { 0nat }
    }
}

/// Number of lines: each terminator ends one, and unterminated text at the end makes one more.
pub open spec fn line_count(s: Seq<char>) -> nat {
    newline_count(s) + if s.len() > 0 && s.last() != '\n' { 1nat } else { 0nat }
}

/// The four counts of one text or of several.
pub struct Counts {
    pub lines: nat,
    pub words: nat,
    pub bytes: nat,
    pub chars: nat,
}

impl Counts {
    pub open spec fn zero() -> Counts {
        Counts { lines: 0, words: 0, bytes: 0, chars: 0 }
    }

    pub open spec fn plus(self, o: Counts) -> Counts {
        Counts {
            lines: self.lines + o.lines,
            words: self.words + o.words,
            bytes: self.bytes + o.bytes,
            chars: self.chars + o.chars,
        }
    }

    /// Words never outnumber characters, characters never outnumber bytes,
    /// and each line holds at least one byte.
    pub open spec fn consistent(self) -> bool {
        &&& self.words <= self.chars
        &&& self.chars <= self.bytes
        &&& self.lines <= self.bytes
    }
}

/// The counts of a whole text.
pub open spec fn text_counts(s: Seq<char>) -> Counts {
    Counts { lines: line_count(s), words: word_count(s), bytes: utf8_len(s), chars: s.len() }
}

/// A line as one read returns it: not empty, with a terminator at most at its end.
pub open spec fn is_line(l: Seq<char>) -> bool {
    &&& l.len() > 0
    &&& forall|i: int| 0 <= i < l.len() - 1 ==> l[i] != '\n'
}

pub open spec fn all_lines(ls: Seq<Seq<char>>) -> bool {
    forall|i: int| 0 <= i < ls.len() ==> is_line(#[trigger] ls[i])
}

/// Every line but the last ends with a terminator: the lines of one text, in order.
pub open spec fn split_at_terminators(ls: Seq<Seq<char>>) -> bool {
    &&& all_lines(ls)
    &&& forall|i: int| 0 <= i < ls.len() - 1 ==> (#[trigger] ls[i]).last() == '\n'
}

/// The lines put back together.
pub open spec fn joined(ls: Seq<Seq<char>>) -> Seq<char>
    decreases ls.len(),
{
    if ls.len() == 0 {
        Seq::empty()
    } else {
        joined(ls.drop_last()) + ls.last()
    }
}

/// Counts of a sequence of lines, each line counted on its own.
pub open spec fn lines_counts(ls: Seq<Seq<char>>) -> Counts
    decreases ls.len(),
{
    if ls.len() == 0 {
        Counts::zero()
    } else {
        lines_counts(ls.drop_last()).plus(text_counts(ls.last()))
    }
}


proof fn lemma_word_count_concat(a: Seq<char>, b: Seq<char>)
    requires
        a.len() == 0 || is_white_space(a.last()),
    ensures
        word_count(a + b) == word_count(a) + word_count(b),
    decreases b.len(),
{
    if b.len() == 0 {
        assert(a + b =~= a);
    } else {
        let ab = a + b;
        assert(ab.drop_last() =~= a + b.drop_last());
        lemma_word_count_concat(a, b.drop_last());
        let k = ab.len() - 1;
        if b.len() == 1 {
            assert(starts_word(ab, k) == starts_word(b, 0));
        } else {
            assert(ab[k - 1] == b[b.len() - 2]);
            assert(starts_word(ab, k) == starts_word(b, b.len() - 1));
        }
    }
}

pub proof fn lemma_utf8_len_concat(a: Seq<char>, b: Seq<char>)
    ensures
        utf8_len(a + b) == utf8_len(a) + utf8_len(b),
    decreases b.len(),
{
    if b.len() == 0 {
        assert(a + b =~= a);
    } else {
        assert((a + b).drop_last() =~= a + b.drop_last());
        lemma_utf8_len_concat(a, b.drop_last());
    }
}

proof fn lemma_newline_count_concat(a: Seq<char>, b: Seq<char>)
    ensures
        newline_count(a + b) == newline_count(a) + newline_count(b),
    decreases b.len(),
{
    if b.len() == 0 {
        assert(a + b =~= a);
    } else {
        assert((a + b).drop_last() =~= a + b.drop_last());
        lemma_newline_count_concat(a, b.drop_last());
    }
}

/// Counting a text in two pieces and adding the counts gives the counts of the
/// whole, provided the cut falls right after a line terminator (or at the start):
/// a cut inside a line would make two lines of one.
pub proof fn law_counts_of_concatenation(a: Seq<char>, b: Seq<char>)
    requires
        a.len() == 0 || a.last() == '\n',
    ensures
        text_counts(a + b) == text_counts(a).plus(text_counts(b)),
{
    lemma_word_count_concat(a, b);
    lemma_utf8_len_concat(a, b);
    lemma_newline_count_concat(a, b);
    if b.len() > 0 {
        assert((a + b).last() == b.last());
    } else {
        assert(a + b =~= a);
    }
}

/// The empty text has no lines, words, bytes or characters.
pub proof fn law_empty_text()
    ensures
        text_counts(Seq::<char>::empty()) == Counts::zero(),
{
}

/// A text of characters below U+0080 has as many bytes as characters.
pub proof fn law_single_byte_text(s: Seq<char>)
    requires
        forall|i: int| 0 <= i < s.len() ==> (#[trigger] s[i] as u32) < 0x80,
    ensures
        text_counts(s).bytes == text_counts(s).chars,
    decreases s.len(),
{
    if s.len() > 0 {
        let t = s.drop_last();
        assert forall|i: int| 0 <= i < t.len() implies (#[trigger] t[i] as u32) < 0x80 by {
            assert(t[i] == s[i]);
        }
        law_single_byte_text(t);
        assert((s[s.len() - 1] as u32) < 0x80);
    }
}

/// Of every text: words never outnumber characters, characters never outnumber
/// bytes, and lines never outnumber characters.
pub proof fn law_text_counts_consistent(s: Seq<char>)
    ensures
        text_counts(s).consistent(),
        line_count(s) <= s.len(),
    decreases s.len(),
{
    if s.len() > 0 {
        let t = s.drop_last();
        law_text_counts_consistent(t);
        assert(newline_count(t) <= t.len());
    }
}

proof fn lemma_no_newline(s: Seq<char>)
    requires
        forall|i: int| 0 <= i < s.len() ==> s[i] != '\n',
    ensures
        newline_count(s) == 0,
    decreases s.len(),
{
    if s.len() > 0 {
        let t = s.drop_last();
        assert forall|i: int| 0 <= i < t.len() implies t[i] != '\n' by {
            assert(t[i] == s[i]);
        }
        lemma_no_newline(t);
    }
}

/// A line as one read returns it counts as exactly one line.
pub proof fn lemma_line_counts_one(l: Seq<char>)
    requires
        is_line(l),
    ensures
        line_count(l) == 1,
{
    let t = l.drop_last();
    assert forall|i: int| 0 <= i < t.len() implies t[i] != '\n' by {
        assert(t[i] == l[i]);
    }
    lemma_no_newline(t);
}

/// Lines, each counted on their own, add up to consistent counts.
pub proof fn law_lines_counts_consistent(ls: Seq<Seq<char>>)
    requires
        all_lines(ls),
    ensures
        lines_counts(ls).consistent(),
    decreases ls.len(),
{
    if ls.len() > 0 {
        let init = ls.drop_last();
        assert forall|i: int| 0 <= i < init.len() implies is_line(#[trigger] init[i]) by {
            assert(init[i] == ls[i]);
        }
        law_lines_counts_consistent(init);
        law_text_counts_consistent(ls.last());
        lemma_line_counts_one(ls.last());
    }
}

/// Counting the lines of a text one by one and adding up gives the counts of
/// the whole text.
pub proof fn law_lines_add_up_to_text(ls: Seq<Seq<char>>)
    requires
        split_at_terminators(ls),
    ensures
        lines_counts(ls) == text_counts(joined(ls)),
    decreases ls.len(),
{
    if ls.len() > 0 {
        let init = ls.drop_last();
        assert forall|i: int| 0 <= i < init.len() implies is_line(#[trigger] init[i]) by {
            assert(init[i] == ls[i]);
        }
        assert forall|i: int| 0 <= i < init.len() - 1 implies (#[trigger] init[i]).last() == '\n' by {
            assert(init[i] == ls[i]);
        }
        law_lines_add_up_to_text(init);
        if init.len() > 0 {
            let prev = joined(init.drop_last());
            assert(joined(init) == prev + init.last());
            assert(is_line(ls[init.len() - 1]));
            assert(init.last().last() == '\n');
            assert(joined(init).last() == init.last().last());
        }
        law_counts_of_concatenation(joined(init), ls.last());
    }
}

/// Counts of several texts, each counted on its own, added field by field.
pub open spec fn sum_of_counts(ts: Seq<Seq<char>>) -> Counts
    decreases ts.len(),
{
    if ts.len() == 0 {
        Counts::zero()
    } else {
        sum_of_counts(ts.drop_last()).plus(text_counts(ts.last()))
    }
}

/// Counting sources one by one and adding up the counts field by field gives
/// the counts of all of them put together in one stream, provided no source
/// but the last ends inside a line (else its last line and the next source's
/// first would be one line of the whole).
pub proof fn law_sources_add_up(ts: Seq<Seq<char>>)
    requires
        forall|i: int| 0 <= i < ts.len() - 1 ==> (#[trigger] ts[i]).len() == 0 || ts[i].last() == '\n',
    ensures
        sum_of_counts(ts) == text_counts(joined(ts)),
    decreases ts.len(),
{
    if ts.len() > 0 {
        let init = ts.drop_last();
        assert forall|i: int| 0 <= i < init.len() - 1 implies (#[trigger] init[i]).len() == 0
            || init[i].last() == '\n' by {
            assert(init[i] == ts[i]);
        }
        law_sources_add_up(init);
        lemma_joined_ends_with_terminator(init);
        law_counts_of_concatenation(joined(init), ts.last());
    }
}

/// Texts that each end with a terminator, or are empty, put together end with
/// one, or are empty.
proof fn lemma_joined_ends_with_terminator(ts: Seq<Seq<char>>)
    requires
        forall|i: int| 0 <= i < ts.len() ==> (#[trigger] ts[i]).len() == 0 || ts[i].last() == '\n',
    ensures
        joined(ts).len() == 0 || joined(ts).last() == '\n',
    decreases ts.len(),
{
    if ts.len() > 0 {
        let init = ts.drop_last();
        assert forall|i: int| 0 <= i < init.len() implies (#[trigger] init[i]).len() == 0
            || init[i].last() == '\n' by {
            assert(init[i] == ts[i]);
        }
        lemma_joined_ends_with_terminator(init);
        assert(ts[ts.len() - 1] == ts.last());
        if ts.last().len() == 0 {
            assert(joined(ts) =~= joined(init));
        }
    }
}

} // verus!
