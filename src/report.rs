//! Display flags, the formatting of one record, and the running totals.
use vstd::prelude::*;
use crate::counter::FileInfo;
use crate::text::Counts;

verus! {

/// The sources to count and which counts to show.
#[derive(Debug, Clone)]
pub struct Args {
    pub files: Vec<String>,
    pub lines: bool,
    pub words: bool,
    pub bytes: bool,
    pub chars: bool,
}

impl Args {
    /// No count was asked for.
    pub open spec fn none_selected(&self) -> bool {
        !self.lines && !self.words && !self.bytes && !self.chars
    }

    /// Bytes and characters are alternative displays: at most one is on.
    pub open spec fn bytes_chars_exclusive(&self) -> bool {
        !(self.bytes && self.chars)
    }
}

/// `resolved` is `raw` with its flags resolved: the same sources, and lines,
/// words and bytes shown when no count was asked for.
pub open spec fn resolves_to(raw: Args, resolved: Args) -> bool {
    &&& resolved.files@ == raw.files@
    &&& if raw.none_selected() {
        resolved.lines && resolved.words && resolved.bytes && !resolved.chars
    } else {
        &&& resolved.lines == raw.lines
        &&& resolved.words == raw.words
        &&& resolved.bytes == raw.bytes
        &&& resolved.chars == raw.chars
    }
}

/// Flags that cannot go together.
#[derive(Debug, PartialEq, Eq)]
pub enum ArgsError {
    BytesAndChars,
}

/// Resolves the flags as given: bytes together with characters is refused;
/// when none is given, lines, words and bytes are shown.
pub fn get_args(args: Args) -> (r: Result<Args, ArgsError>)
    ensures
        r is Err <==> args.bytes && args.chars,
        r matches Ok(a) ==> resolves_to(args, a) && a.bytes_chars_exclusive(),
{
    if args.bytes && args.chars {
        return Err(ArgsError::BytesAndChars);
    }
    let mut args = args;
    if !args.lines && !args.words && !args.bytes && !args.chars {
        args.lines = true;
        args.words = true;
        args.bytes = true;
    }
    Ok(args)
}

pub open spec fn digit(d: nat) -> char {
    seq!['0', '1', '2', '3', '4', '5', '6', '7', '8', '9'][d as int]
}

/// The decimal digits of `n`, without leading zeros.
pub open spec fn decimal(n: nat) -> Seq<char>
    decreases n,
{
    if n < 10 {
        seq![digit(n)]
    } else {
        decimal(n / 10).push(digit(n % 10))
    }
}

/// `s` right-aligned in `width` columns: spaces in front up to that width.
pub open spec fn padded(s: Seq<char>, width: nat) -> Seq<char> {
    if s.len() < width {
        Seq::new((width - s.len()) as nat, |_i: int| ' ') + s
    } else {
        s
    }
}

/// One count as shown: right-aligned in 8 columns, or nothing when it is off.
pub open spec fn field_text(show: bool, value: nat) -> Seq<char> {
    if show {
        padded(decimal(value), 8)
    } else {
        Seq::empty()
    }
}

/// What follows the counts: a space and the name, unless it is "-".
pub open spec fn name_suffix(name: Seq<char>) -> Seq<char> {
    if name == seq!['-'] {
        Seq::empty()
    } else {
        seq![' '] + name
    }
}

/// The line that shows one record under the given flags.
pub open spec fn record_line(info: FileInfo, args: Args) -> Seq<char> {
    field_text(args.lines, info.num_lines as nat) + field_text(args.words, info.num_words as nat)
        + field_text(args.bytes, info.num_bytes as nat) + field_text(args.chars, info.num_chars as nat)
        + name_suffix(info.name@)
}

/// Under flags resolved from a selection that does not ask for both bytes and
/// characters (the only ones `get_args` accepts), a record's line never shows both its
/// byte count and its character count.
pub proof fn law_bytes_or_chars_shown(raw: Args, resolved: Args, info: FileInfo)
    requires
        !(raw.bytes && raw.chars),
        resolves_to(raw, resolved),
    ensures
        field_text(resolved.bytes, info.num_bytes as nat).len() == 0 || field_text(
            resolved.chars,
            info.num_chars as nat,
        ).len() == 0,
{
}

/// Relies on `format!("{:>8}", _)` on a `usize`: its decimal digits, with
/// spaces in front up to 8 columns.
#[verifier::external_body]
fn right_aligned(value: usize) -> (r: String)
    ensures
        r@ == padded(decimal(value as nat), 8),
{
    format!("{:>8}", value)
}

/// One count as shown: right-aligned in 8 columns, or nothing when it is off.
pub fn format_field(show: bool, value: usize) -> (r: String)
    ensures
        r@ == field_text(show, value as nat),
{
    if show {
        right_aligned(value)
    } else {
        String::new()
    }
}

impl FileInfo {
    /// The line that shows this record: the counts that `args` selects, in the
    /// order lines, words, bytes, characters, then the name unless it is "-".
    pub fn to_line(&self, args: &Args) -> (r: String)
        requires
            args.bytes_chars_exclusive(),
        ensures
            r@ == record_line(*self, *args),
    {
        let mut line = format_field(args.lines, self.num_lines);
        line.append(format_field(args.words, self.num_words).as_str());
        line.append(format_field(args.bytes, self.num_bytes).as_str());
        line.append(format_field(args.chars, self.num_chars).as_str());
        let name = self.name.as_str();
        if name.unicode_len() == 1 && name.get_char(0) == '-' {
            assert(self.name@ =~= seq!['-']);
        } else {
            proof {
                reveal_strlit(" ");
            }
            line.append(" ");
            line.append(name);
        }
        proof {
            assert(line@ =~= record_line(*self, *args));
        }
        line
    }
}

/// The message that reports a source that could not be counted: its name, a
/// colon, a space and the cause.
pub fn diagnostic_line(name: &str, cause: &str) -> (r: String)
    ensures
        r@ == name@ + seq![':', ' '] + cause@,
{
    let mut line = String::new();
    line.append(name);
    proof {
        reveal_strlit(": ");
    }
    line.append(": ");
    line.append(cause);
    proof {
        assert(line@ =~= name@ + seq![':', ' '] + cause@);
    }
    line
}

/// Running totals over the sources counted so far.
#[derive(Debug, PartialEq, Eq)]
pub struct Tally {
    pub num_lines: usize,
    pub num_words: usize,
    pub num_bytes: usize,
    pub num_chars: usize,
}

impl Tally {
    pub open spec fn counts(&self) -> Counts {
        Counts {
            lines: self.num_lines as nat,
            words: self.num_words as nat,
            bytes: self.num_bytes as nat,
            chars: self.num_chars as nat,
        }
    }

    pub fn new() -> (r: Tally)
        ensures
            r.counts() == Counts::zero(),
    {
        Tally { num_lines: 0, num_words: 0, num_bytes: 0, num_chars: 0 }
    }

    /// Adds one record's counts. Fails, and changes nothing, when the byte
    /// total would not fit in a `usize`; the other totals then fit too.
    pub fn add(&mut self, info: &FileInfo) -> (ok: bool)
        requires
            old(self).counts().consistent(),
            info.wf(),
        ensures
            ok == (old(self).num_bytes + info.num_bytes <= usize::MAX),
            ok ==> final(self).counts() == old(self).counts().plus(info.counts()),
            !ok ==> *final(self) == *old(self),
            final(self).counts().consistent(),
    {
        if info.num_bytes > usize::MAX - self.num_bytes {
            return false;
        }
        self.num_bytes = self.num_bytes + info.num_bytes;
        self.num_chars = self.num_chars + info.num_chars;
        self.num_words = self.num_words + info.num_words;
        self.num_lines = self.num_lines + info.num_lines;
        true
    }

    /// The record named "total", when more than one source was asked for.
    pub fn total(&self, num_sources: usize) -> (r: Option<FileInfo>)
        requires
            self.counts().consistent(),
        ensures
            r is Some <==> num_sources > 1,
            r matches Some(t) ==> t.name@ == seq!['t', 'o', 't', 'a', 'l'] && t.counts()
                == self.counts(),
    {
        if num_sources > 1 {
            proof {
                reveal_strlit("total");
            }
            Some(
                FileInfo::new(
                    String::from_str("total"),
                    self.num_lines,
                    self.num_words,
                    self.num_bytes,
                    self.num_chars,
                ),
            )
        } else {
            None
        }
    }
}

} // verus!
