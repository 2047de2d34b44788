//! Counting one stream, line by line, in a single pass.
use vstd::prelude::*;
use crate::text::{
    all_lines, is_line, is_white_space, law_text_counts_consistent, lemma_line_counts_one,
    lemma_utf8_len_concat, lines_counts, starts_word, text_counts, utf8_len, utf8_width,
    word_count, Counts,
};

verus! {

#[verifier::external_type_specification]
#[verifier::external_body]
pub struct ExIoError(std::io::Error);

/// The counts of one named source.
#[derive(Debug, PartialEq)]
pub struct FileInfo {
    pub name: String,
    pub num_lines: usize,
    pub num_words: usize,
    pub num_bytes: usize,
    pub num_chars: usize,
}

impl FileInfo {
    pub open spec fn counts(&self) -> Counts {
        Counts {
            lines: self.num_lines as nat,
            words: self.num_words as nat,
            bytes: self.num_bytes as nat,
            chars: self.num_chars as nat,
        }
    }

    /// The counts could be those of some text.
    pub open spec fn wf(&self) -> bool {
        self.counts().consistent()
    }

    pub fn new(
        name: String,
        num_lines: usize,
        num_words: usize,
        num_bytes: usize,
        num_chars: usize,
    ) -> (r: Self)
        requires
            num_words <= num_chars <= num_bytes,
            num_lines <= num_bytes,
        ensures
            r.name == name,
            r.num_lines == num_lines,
            r.num_words == num_words,
            r.num_bytes == num_bytes,
            r.num_chars == num_chars,
            r.wf(),
    {
        FileInfo { name, num_lines, num_words, num_bytes, num_chars }
    }
}

/// Why a stream could not be counted.
#[derive(Debug)]
pub enum CountError {
    /// Reading failed, or what was read is not UTF-8.
    Read(std::io::Error),
    /// The stream holds more bytes than a `usize` counts.
    TooLarge,
}

/// Relies on `char::is_whitespace`: true exactly of the characters with the
/// Unicode White_Space property.
#[verifier::external_body]
fn is_whitespace(c: char) -> (r: bool)
    ensures
        r == is_white_space(c),
{
    c.is_whitespace()
}

/// Relies on `BufRead::read_line`: on success it has appended to `buf` the
/// bytes up to and including the next `b'\n'`, or up to the end of the stream
/// if none comes first, and returns how many bytes that was; 0 only at the end
/// of the stream.
#[verifier::external_body]
fn read_line<R: std::io::BufRead>(reader: &mut R, buf: &mut String) -> (r: Result<
    usize,
    std::io::Error,
>)
    ensures
        r is Ok ==> {
            let l = final(buf)@.subrange(old(buf)@.len() as int, final(buf)@.len() as int);
            &&& old(buf)@.len() <= final(buf)@.len()
            &&& final(buf)@.subrange(0, old(buf)@.len() as int) == old(buf)@
            &&& r->Ok_0 == utf8_len(l)
            &&& forall|i: int| 0 <= i < l.len() - 1 ==> l[i] != '\n'
        },
{
    reader.read_line(buf)
}

/// Bytes that UTF-8 takes for `c`.
fn utf8_width_of(c: char) -> (w: usize)
    ensures
        w == utf8_width(c),
{
    let u = c as u32;
    if u < 0x80 {
        1
    } else if u < 0x800 {
        2
    } else if u < 0x10000 {
        3
    } else {
        4
    }
}

impl FileInfo {
    /// Adds the counts of one line as one read returns it: one line, its
    /// words, its bytes in UTF-8 and its characters. Fails, and changes
    /// nothing, when the byte count would not fit in a `usize`.
    pub fn add_line(&mut self, line: &str) -> (ok: bool)
        requires
            old(self).wf(),
            is_line(line@),
        ensures
            ok == (old(self).num_bytes + utf8_len(line@) <= usize::MAX),
            ok ==> final(self).counts() == old(self).counts().plus(text_counts(line@)),
            !ok ==> *final(self) == *old(self),
            final(self).name == old(self).name,
            final(self).wf(),
    {
        proof {
            law_text_counts_consistent(line@);
            lemma_line_counts_one(line@);
        }
        let ghost text = line@;
        let mut words: usize = 0;
        let mut bytes: usize = 0;
        let mut chars: usize = 0;
        let mut after_space = true;
        for c in it: line.chars()
            invariant
                it.seq() == text,
                text == line@,
                bytes == utf8_len(text.take(it.index() as int)),
                words == word_count(text.take(it.index() as int)),
                chars == it.index(),
                words <= chars <= bytes,
                self.num_bytes + bytes <= usize::MAX,
                self == old(self),
                old(self).wf(),
                after_space == (it.index() == 0 || is_white_space(text[it.index() - 1])),
        {
            let ghost i = it.index();
            let ghost prefix = text.take(i + 1);
            proof {
                assert(prefix.drop_last() =~= text.take(i as int));
                assert(prefix[i as int] == c);
            }
            let w = utf8_width_of(c);
            if w > usize::MAX - self.num_bytes - bytes {
                proof {
                    lemma_utf8_len_concat(prefix, text.skip(i + 1));
                    assert(prefix + text.skip(i + 1) =~= text);
                }
                return false;
            }
            bytes = bytes + w;
            let space = is_whitespace(c);
            if !space && after_space {
                assert(starts_word(prefix, i as int));
                words = words + 1;
            } else {
                assert(!starts_word(prefix, i as int));
            }
            after_space = space;
            chars = chars + 1;
        }
        proof {
            assert(text.take(text.len() as int) =~= text);
        }
        self.num_bytes = self.num_bytes + bytes;
        self.num_lines = self.num_lines + 1;
        self.num_words = self.num_words + words;
        self.num_chars = self.num_chars + chars;
        true
    }
}

/// Counts the lines, words, bytes and characters of a stream, reading it once
/// to its end. Each line is what one read up to a terminator returns; the
/// counts are the sums of the counts of the lines that were read.
pub fn count<R: std::io::BufRead>(mut file: R, name: String) -> (r: Result<FileInfo, CountError>)
    ensures
        r matches Ok(info) ==> {
            &&& info.name == name
            &&& info.wf()
            &&& exists|ls: Seq<Seq<char>>| all_lines(ls) && info.counts() == lines_counts(ls)
        },
        r matches Err(CountError::TooLarge) ==> exists|ls: Seq<Seq<char>>|
            all_lines(ls) && lines_counts(ls).bytes > usize::MAX,
{
    let mut info = FileInfo::new(name, 0, 0, 0, 0);
    let ghost mut ls: Seq<Seq<char>> = Seq::empty();
    loop
        invariant
            info.name == name,
            info.wf(),
            all_lines(ls),
            lines_counts(ls) == info.counts(),
        decreases usize::MAX - info.num_bytes,
    {
        let mut buf = String::new();
        let n = match read_line(&mut file, &mut buf) {
            Ok(n) => n,
            Err(e) => {
                return Err(CountError::Read(e));
            },
        };
        if n == 0 {
            return Ok(info);
        }
        let ghost line = buf@;
        proof {
            assert(buf@.subrange(0, buf@.len() as int) =~= buf@);
            assert(is_line(line));
        }
        let ghost next = ls.push(line);
        proof {
            assert(next.drop_last() =~= ls);
            assert(next.last() == line);
            assert forall|i: int| 0 <= i < next.len() implies is_line(#[trigger] next[i]) by {
                if i < ls.len() {
                    assert(next[i] == ls[i]);
                }
            }
        }
        if !info.add_line(buf.as_str()) {
            assert(all_lines(next) && lines_counts(next).bytes > usize::MAX);
            return Err(CountError::TooLarge);
        }
        proof {
            ls = next;
        }
    }
}

} // verus!
