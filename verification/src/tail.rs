//! Turning what is read from a followed file, locally or over SSH, into log
//! lines: holding an unterminated line until its newline arrives, detecting
//! rotation and truncation, and the remote `tail` command. The reading itself
//! is done by the caller.
use vstd::prelude::*;
use crate::models::SourceInfo;
use crate::text::{
    first_index_of, concat, copy_str, ends_with_char, is_blank, is_ws, split_char, split_on, trim, trim_end,
    trim_end_string, string_views,
};
use vstd::utf8::{decode_utf8, valid_utf8};
use vstd::string::StrSliceExecFns;

verus! {

/// The line reported when a followed file was replaced or truncated.
pub const ROTATION_NOTICE: &'static str = "--- Log rotation detected, continuing with new file ---";

/// How often a local file is polled for new content, in milliseconds.
pub const POLL_INTERVAL_MS: u64 = 100;

/// Length in bytes of the UTF-8 encoding of `s`.
pub open spec fn utf8_len(s: Seq<char>) -> nat {
    vstd::utf8::encode_utf8(s).len()
}

/// What a poll of a followed file finds.
pub enum RotationCheck {
    /// The file was replaced or truncated: reopen it from the start.
    Rotated,
    /// The file is the same and has grown to this size (or stayed).
    Size(u64),
    /// The file could not be examined; try again next time.
    Unknown,
}

/// What is known of a followed local file: its identity, size, how far it has
/// been read, and the unterminated line read so far.
pub struct FileState {
    pub inode: u64,
    pub last_size: u64,
    pub last_position: u64,
    /// The unterminated line held back until its newline arrives.
    pub partial: String,
}

impl FileState {
    /// The unterminated line held back until its newline arrives.
    pub open spec fn partial(&self) -> Seq<char> {
        self.partial@
    }

    /// The state of a file just opened.
    pub fn new(inode: u64, size: u64) -> (r: FileState)
        ensures
            r.inode == inode,
            r.last_size == size,
            r.last_position == 0,
            r.partial() == Seq::<char>::empty(),
    {
        FileState { inode, last_size: size, last_position: 0, partial: String::new() }
    }

    /// Takes in one chunk read up to and including a newline, or up to the end
    /// of the file. A newline-terminated chunk completes the held line: the
    /// whole line, without trailing whitespace, is returned unless blank. A
    /// chunk without a newline is held back.
    pub fn take_chunk(&mut self, chunk: &str) -> (r: Option<String>)
        requires
            old(self).last_position + utf8_len(chunk@) <= u64::MAX,
        ensures
            final(self).last_position == old(self).last_position + utf8_len(chunk@),
            final(self).inode == old(self).inode,
            final(self).last_size == old(self).last_size,
            ends_with_char(chunk@, '\n') ==> {
                &&& final(self).partial() == Seq::<char>::empty()
                &&& crate::alert::opt_view(r) == completed_line(old(self).partial() + chunk@)
            },
            !ends_with_char(chunk@, '\n') ==> {
                &&& final(self).partial() == old(self).partial() + chunk@
                &&& r is None
            },
    {
        let n = chunk.as_bytes().len();
        self.last_position = self.last_position + n as u64;
        let cs = crate::text::chars_of(chunk);
        if cs.len() > 0 && cs[cs.len() - 1] == '\n' {
            let full = concat(self.partial.as_str(), chunk);
            self.partial = String::new();
            let trimmed = trim_end_string(full.as_str());
            if trimmed.as_str().is_empty() {
                None
            } else {
                Some(trimmed)
            }
        } else {
            self.partial.append(chunk);
            None
        }
    }

    /// Gives up the held line, without trailing whitespace, unless blank; the
    /// held line is then empty.
    pub fn flush_partial(&mut self) -> (r: Option<String>)
        ensures
            final(self).partial() == Seq::<char>::empty(),
            crate::alert::opt_view(r) == completed_line(old(self).partial()),
            final(self).inode == old(self).inode,
            final(self).last_size == old(self).last_size,
            final(self).last_position == old(self).last_position,
    {
        let trimmed = trim_end_string(self.partial.as_str());
        self.partial = String::new();
        if trimmed.as_str().is_empty() {
            None
        } else {
            Some(trimmed)
        }
    }

    /// Decides, from the file's current identity and size (each when it could
    /// be read), whether it was rotated: a new identity, or a size below what
    /// has been read. Otherwise the new size is recorded.
    pub fn check_rotation(&mut self, current_inode: Option<u64>, current_size: Option<u64>) -> (r:
        RotationCheck)
        ensures
            r == (match current_inode {
                None => RotationCheck::Unknown,
                Some(i) => if i != old(self).inode {
                    RotationCheck::Rotated
                } else {
                    match current_size {
                        None => RotationCheck::Unknown,
                        Some(s) => if s < old(self).last_position {
                            RotationCheck::Rotated
                        } else {
                            RotationCheck::Size(s)
                        },
                    }
                },
            }),
            final(self).last_size == (match r {
                RotationCheck::Size(s) => s,
                _ => old(self).last_size,
            }),
            final(self).inode == old(self).inode,
            final(self).last_position == old(self).last_position,
            final(self).partial() == old(self).partial(),
    {
        match current_inode {
            None => RotationCheck::Unknown,
            Some(i) => {
                if i != self.inode {
                    RotationCheck::Rotated
                } else {
                    match current_size {
                        None => RotationCheck::Unknown,
                        Some(s) => {
                            if s < self.last_position {
                                RotationCheck::Rotated
                            } else {
                                self.last_size = s;
                                RotationCheck::Size(s)
                            }
                        },
                    }
                }
            },
        }
    }

    /// Starts over on a reopened file.
    pub fn reopen(&mut self, inode: u64, size: u64)
        ensures
            final(self).inode == inode,
            final(self).last_size == size,
            final(self).last_position == 0,
            final(self).partial() == Seq::<char>::empty(),
    {
        self.inode = inode;
        self.last_size = size;
        self.last_position = 0;
        self.partial = String::new();
    }
}

/// The line a completed piece of text gives: the text without trailing
/// whitespace, unless nothing is left.
pub open spec fn completed_line(text: Seq<char>) -> Option<Seq<char>> {
    if trim_end(text).len() == 0 {
        None
    } else {
        Some(trim_end(text))
    }
}

proof fn lemma_trim_end_rest(s: Seq<char>)
    ensures
        trim_end(s).len() <= s.len(),
        trim_end(s) == s.subrange(0, trim_end(s).len() as int),
        forall|i: int| trim_end(s).len() <= i < s.len() ==> is_ws(#[trigger] s[i]),
        trim_end(s).len() > 0 ==> !is_ws(trim_end(s).last()),
    decreases s.len(),
{
    if s.len() > 0 && is_ws(s.last()) {
        lemma_trim_end_rest(s.drop_last());
        assert forall|i: int| trim_end(s).len() <= i < s.len() implies is_ws(#[trigger] s[i]) by {
            if i < s.len() - 1 {
                assert(s[i] == s.drop_last()[i]);
            }
        }
        assert(trim_end(s) == s.drop_last().subrange(0, trim_end(s).len() as int));
        assert(trim_end(s) =~= s.subrange(0, trim_end(s).len() as int));
    } else {
        assert(s =~= s.subrange(0, s.len() as int));
    }
}

/// A completed line keeps the text as it was read, indentation included,
/// and drops only the whitespace at its end: the line is the text's start,
/// everything after it is whitespace, and it does not itself end in
/// whitespace. A text with any other character gives a line; only a blank
/// text gives none.
pub proof fn lemma_completed_line_keeps_start(text: Seq<char>)
    ensures
        completed_line(text) matches Some(l) ==> {
            &&& 0 < l.len() <= text.len()
            &&& l == text.subrange(0, l.len() as int)
            &&& l[0] == text[0]
            &&& forall|i: int| l.len() <= i < text.len() ==> is_ws(#[trigger] text[i])
            &&& !is_ws(l.last())
        },
        (exists|i: int| 0 <= i < text.len() && !is_ws(#[trigger] text[i])) ==> completed_line(text) is Some,
        (forall|i: int| 0 <= i < text.len() ==> is_ws(#[trigger] text[i])) ==> completed_line(text) is None,
{
    lemma_trim_end_rest(text);
    let t = trim_end(text);
    if t.len() > 0 {
        assert(t[0] == text.subrange(0, t.len() as int)[0]);
    }
    if exists|i: int| 0 <= i < text.len() && !is_ws(#[trigger] text[i]) {
        let i = choose|i: int| 0 <= i < text.len() && !is_ws(#[trigger] text[i]);
        if t.len() == 0 {
            assert(is_ws(text[i]));
        }
    }
    if forall|i: int| 0 <= i < text.len() ==> is_ws(#[trigger] text[i]) {
        if t.len() > 0 {
            assert(t.last() == text[t.len() - 1]);
        }
    }
}

} // verus!

verus! {

/// The complete lines of `pieces` that are kept: those with something other
/// than whitespace, without trailing whitespace.
pub open spec fn kept_lines(pieces: Seq<Seq<char>>) -> Seq<Seq<char>>
    decreases pieces.len(),
{
    if pieces.len() == 0 {
        seq![]
    } else {
        let rest = kept_lines(pieces.drop_last());
        if trim(pieces.last()).len() == 0 {
            rest
        } else {
            rest.push(trim_end(pieces.last()))
        }
    }
}

/// Text received from a remote `tail`, cut into lines at each newline; the
/// text after the last newline waits for more.
pub struct SshLineBuffer {
    /// The text after the last newline received.
    pub buffer: String,
    /// How many lines have been given out.
    pub line_count: u64,
}

impl SshLineBuffer {
    /// An empty buffer.
    pub fn new() -> (r: SshLineBuffer)
        ensures
            r.buffer@ == Seq::<char>::empty(),
            r.line_count == 0,
    {
        SshLineBuffer { buffer: String::new(), line_count: 0 }
    }

    /// Adds received text; gives the lines it completes that are not blank,
    /// without trailing whitespace, and keeps the rest.
    pub fn feed(&mut self, text: &str) -> (r: Vec<String>)
        requires
            old(self).line_count + split_on(old(self).buffer@ + text@, '\n').len() <= u64::MAX,
        ensures
            string_views(r@) == kept_lines(split_on(old(self).buffer@ + text@, '\n').drop_last()),
            final(self).buffer@ == split_on(old(self).buffer@ + text@, '\n').last(),
            final(self).line_count == old(self).line_count + r@.len(),
    {
        let all = concat(self.buffer.as_str(), text);
        let pieces = split_char(all.as_str(), '\n');
        let ghost ps = split_on(all@, '\n');
        proof {
            lemma_split_nonempty(all@, '\n');
        }
        let last = pieces.len() - 1;
        let mut out: Vec<String> = Vec::new();
        let mut k: usize = 0;
        while k < last
            invariant
                ps == split_on(all@, '\n'),
                pieces@.len() == ps.len(),
                forall|j: int| 0 <= j < pieces@.len() ==> #[trigger] pieces@[j]@ == ps[j],
                last == ps.len() - 1,
                k <= last,
                string_views(out@) == kept_lines(ps.take(k as int)),
                out@.len() <= k,
            decreases last - k,
        {
            assert(ps.take(k + 1).drop_last() =~= ps.take(k as int));
            if !is_blank(pieces[k].as_str()) {
                out.push(trim_end_string(pieces[k].as_str()));
                proof {
                    assert(string_views(out@) =~= kept_lines(ps.take(k as int)).push(trim_end(ps[k as int])));
                }
            }
            k += 1;
        }
        assert(ps.take(last as int) =~= ps.drop_last());
        self.buffer = copy_str(pieces[last].as_str());
        self.line_count = self.line_count + out.len() as u64;
        out
    }
}

/// A line written in two parts, the first without a newline, is given out
/// once, whole: holding `first` and then completing it with `second` gives
/// what the two written at once give.
pub proof fn lemma_split_write_joined(held: Seq<char>, first: Seq<char>, second: Seq<char>)
    ensures
        completed_line((held + first) + second) == completed_line(held + (first + second)),
{
    assert((held + first) + second =~= held + (first + second));
}

/// The nul character, which no shell word can hold.
pub open spec fn nul_char() -> char {
    '\u{0}'
}

/// How an empty word is quoted: two single quotes.
pub open spec fn quoted_empty_word() -> Seq<char> {
    seq!['\u{27}', '\u{27}']
}

/// How `shlex::try_quote` quotes `s` as one shell word.
pub uninterp spec fn shell_quoted(s: Seq<char>) -> Seq<char>;

/// Calls `shlex::try_quote`: `None` exactly when `s` holds a nul character
/// (the only error it reports); an empty word is quoted as `''`.
#[verifier::external_body]
fn shell_quote(s: &str) -> (r: Option<String>)
    ensures
        r is None <==> s@.contains(nul_char()),
        r matches Some(q) ==> q@ == shell_quoted(s@),
        r matches Some(q) ==> (s@.len() == 0 ==> q@ == quoted_empty_word()),
{
    shlex::try_quote(s).ok().map(|q| q.into_owned())
}

/// The remote command that prints a file from its start and follows it.
pub open spec fn tail_command_text(path: Seq<char>) -> Seq<char> {
    "tail -n +1 -F "@ + shell_quoted(path)
}

/// The remote command that prints `path` from its start and follows it
/// (across rotation), with the path quoted for the shell; an error for a path
/// holding a nul character.
pub fn tail_command(path: &str) -> (r: Result<String, String>)
    ensures
        r is Err <==> path@.contains(nul_char()),
        r matches Ok(c) ==> c@ == tail_command_text(path@),
        r matches Err(e) ==> e@ == "Invalid path: contains null bytes"@,
{
    match shell_quote(path) {
        Some(q) => Ok(concat("tail -n +1 -F ", q.as_str())),
        None => Err(copy_str("Invalid path: contains null bytes")),
    }
}

/// What `String::from_utf8_lossy` makes of `bytes`.
pub uninterp spec fn lossy_text(bytes: Seq<u8>) -> Seq<char>;

/// Calls `String::from_utf8_lossy`: valid UTF-8 is decoded as it is; invalid
/// sequences become replacement characters (named by `lossy_text`).
#[verifier::external_body]
pub(crate) fn utf8_lossy(bytes: &[u8]) -> (r: String)
    ensures
        r@ == lossy_text(bytes@),
        valid_utf8(bytes@) ==> r@ == decode_utf8(bytes@),
{
    String::from_utf8_lossy(bytes).into_owned()
}

impl SshLineBuffer {
    /// Adds received bytes (decoded as UTF-8, invalid sequences replaced);
    /// gives the lines they complete, as [`SshLineBuffer::feed`] does. `None`,
    /// with nothing changed, where the line count could pass `u64::MAX`: when
    /// the count, the held text and the decoded text together pass it.
    pub fn feed_bytes(&mut self, data: &[u8]) -> (r: Option<Vec<String>>)
        ensures
            r is None <==> old(self).line_count + old(self).buffer@.len() + lossy_text(data@).len() + 1
                > u64::MAX,
            r is None ==> *final(self) == *old(self),
            r matches Some(lines) ==> string_views(lines@) == kept_lines(
                split_on(old(self).buffer@ + lossy_text(data@), '\n').drop_last(),
            ),
            r is Some ==> final(self).buffer@ == split_on(old(self).buffer@ + lossy_text(data@), '\n').last(),
            r matches Some(lines) ==> final(self).line_count == old(self).line_count + lines@.len(),
            valid_utf8(data@) ==> lossy_text(data@) == decode_utf8(data@),
    {
        let text = utf8_lossy(data);
        let held: u128 = self.buffer.as_str().unicode_len() as u128;
        let added: u128 = text.as_str().unicode_len() as u128;
        if self.line_count as u128 + held + added + 1 > u64::MAX as u128 {
            return None;
        }
        proof {
            lemma_split_count_bound(self.buffer@ + text@, '\n');
        }
        Some(self.feed(text.as_str()))
    }
}

/// Cutting text at a separator gives at most one piece more than it has
/// characters.
proof fn lemma_split_count_bound(s: Seq<char>, sep: char)
    ensures
        split_on(s, sep).len() <= s.len() + 1,
    decreases s.len(),
{
    match first_index_of(s, sep) {
        Some(i) => {
            if 0 <= i < s.len() {
                lemma_split_count_bound(s.skip(i + 1), sep);
            }
        },
        None => {},
    }
}

/// Records received data on a source's status: the lines given out so far
/// and the bytes received, added to the size.
pub fn record_received(info: &mut SourceInfo, line_count: u64, bytes: u64)
    requires
        (match old(info).file_size {
            Some(n) => n as int,
            None => 0,
        }) + bytes <= u64::MAX,
    ensures
        final(info).line_count == line_count,
        final(info).file_size == Some(((match old(info).file_size {
            Some(n) => n as int,
            None => 0,
        }) + bytes) as u64),
        final(info).name == old(info).name,
        final(info).path == old(info).path,
        final(info).status == old(info).status,
        final(info).source_type == old(info).source_type,
        final(info).enabled == old(info).enabled,
{
    info.line_count = line_count;
    let current = match info.file_size {
        Some(n) => n,
        None => 0,
    };
    info.file_size = Some(current + bytes);
}


/// The first separator of `s` is where `first_index_of` says.
proof fn lemma_first_index_bounds(s: Seq<char>, sep: char)
    ensures
        first_index_of(s, sep) matches Some(i) ==> 0 <= i < s.len() && s[i] == sep,
    decreases s.len(),
{
    if s.len() > 0 && s[0] != sep {
        lemma_first_index_bounds(s.drop_first(), sep);
    }
}

/// Text after the first separator does not move it.
proof fn lemma_first_index_concat(s: Seq<char>, t: Seq<char>, sep: char)
    ensures
        first_index_of(s, sep) is Some ==> first_index_of(s + t, sep) == first_index_of(s, sep),
        first_index_of(s, sep) is None ==> (first_index_of(s + t, sep) matches Some(j) ==> j >= s.len()),
    decreases s.len(),
{
    if s.len() > 0 {
        assert((s + t)[0] == s[0]);
        if s[0] != sep {
            assert((s + t).drop_first() =~= s.drop_first() + t);
            lemma_first_index_concat(s.drop_first(), t, sep);
        }
    } else {
        assert(s + t =~= t);
        lemma_first_index_bounds(t, sep);
    }
}

/// Splitting `s + t` splits `s` up to its last separator, then the rest of
/// `s` together with `t`.
proof fn lemma_split_concat(s: Seq<char>, t: Seq<char>, sep: char)
    ensures
        split_on(s + t, sep) == split_on(s, sep).drop_last() + split_on(split_on(s, sep).last() + t, sep),
    decreases s.len(),
{
    lemma_first_index_bounds(s, sep);
    lemma_first_index_concat(s, t, sep);
    match first_index_of(s, sep) {
        Some(i) => {
            let rest = s.skip(i + 1);
            lemma_split_concat(rest, t, sep);
            lemma_first_index_bounds(s + t, sep);
            assert((s + t).take(i) =~= s.take(i));
            assert((s + t).skip(i + 1) =~= rest + t);
            let sr = split_on(rest, sep);
            crate::tail::lemma_split_nonempty(rest, sep);
            assert(split_on(s, sep) == seq![s.take(i)] + sr);
            assert(split_on(s, sep).drop_last() =~= seq![s.take(i)] + sr.drop_last());
            assert(split_on(s, sep).last() == sr.last());
            assert(split_on(s + t, sep) == seq![s.take(i)] + split_on(rest + t, sep));
            assert(split_on(s + t, sep) =~= split_on(s, sep).drop_last() + split_on(split_on(s, sep).last() + t, sep));
        },
        None => {
            assert(split_on(s, sep) == seq![s]);
            assert(split_on(s, sep).drop_last() =~= Seq::<Seq<char>>::empty());
            assert(split_on(s, sep).drop_last() + split_on(split_on(s, sep).last() + t, sep) =~= split_on(s + t, sep));
        },
    }
}

proof fn lemma_split_nonempty(s: Seq<char>, sep: char)
    ensures
        split_on(s, sep).len() >= 1,
{
}

/// Keeping lines piece by piece distributes over joining lists of pieces.
proof fn lemma_kept_lines_concat(x: Seq<Seq<char>>, y: Seq<Seq<char>>)
    ensures
        kept_lines(x + y) == kept_lines(x) + kept_lines(y),
    decreases y.len(),
{
    if y.len() == 0 {
        assert(x + y =~= x);
        assert(kept_lines(x) + kept_lines(y) =~= kept_lines(x));
    } else {
        lemma_kept_lines_concat(x, y.drop_last());
        assert((x + y).drop_last() =~= x + y.drop_last());
        assert((x + y).last() == y.last());
        if trim(y.last()).len() == 0 {
        } else {
            assert(kept_lines(x) + kept_lines(y.drop_last()).push(trim_end(y.last())) =~= (kept_lines(x)
                + kept_lines(y.drop_last())).push(trim_end(y.last())));
        }
    }
}

/// Text received in two parts gives the same lines, and leaves the same text
/// waiting, as the two parts received at once: a line cut between two
/// packets is given out once, whole.
pub proof fn lemma_received_in_parts(buffer: Seq<char>, a: Seq<char>, b: Seq<char>)
    ensures
        ({
            let first = split_on(buffer + a, '\n');
            let second = split_on(first.last() + b, '\n');
            let once = split_on(buffer + a + b, '\n');
            &&& kept_lines(first.drop_last()) + kept_lines(second.drop_last()) == kept_lines(once.drop_last())
            &&& second.last() == once.last()
        }),
{
    let first = split_on(buffer + a, '\n');
    let second = split_on(first.last() + b, '\n');
    let once = split_on(buffer + a + b, '\n');
    lemma_split_concat(buffer + a, b, '\n');
    lemma_split_nonempty(first.last() + b, '\n');
    assert(once == first.drop_last() + second);
    assert(once.drop_last() =~= first.drop_last() + second.drop_last());
    lemma_kept_lines_concat(first.drop_last(), second.drop_last());
}

} // verus!
