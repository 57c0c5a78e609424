//! Text rules for the lines exchanged with a child process: how a line read
//! from its output becomes a message, how input is framed for its standard
//! input, and how a working directory is normalised before a launch.
use vstd::prelude::*;
use vstd::string::*;

verus! {

/// Unicode `White_Space`: the characters that `char::is_whitespace` accepts.
pub open spec fn is_whitespace(c: char) -> bool {
    let u = c as u32;
    ||| u == 0x20
    ||| 0x09 <= u <= 0x0d
    ||| u == 0x85
    ||| u == 0xa0
    ||| u == 0x1680
    ||| 0x2000 <= u <= 0x200a
    ||| u == 0x2028
    ||| u == 0x2029
    ||| u == 0x202f
    ||| u == 0x205f
    ||| u == 0x3000
}

/// `s` without its trailing whitespace.
pub open spec fn trim_end(s: Seq<char>) -> Seq<char>
    decreases s.len(),
{
    if s.len() > 0 && is_whitespace(s.last()) {
        trim_end(s.drop_last())
    } else {
        s
    }
}

/// The prefix that marks a line that came from the standard error stream.
pub open spec fn stderr_tag() -> Seq<char> {
    seq!['S', 'T', 'D', 'E', 'R', 'R', ':', ' ']
}

/// The prefix by which Windows marks a verbatim path.
pub open spec fn verbatim_prefix() -> Seq<char> {
    seq!['\\', '\\', '?', '\\']
}

/// Whether a character is whitespace.
pub fn char_is_whitespace(c: char) -> (b: bool)
    ensures
        b == is_whitespace(c),
{
    let u: u32 = c as u32;
    u == 0x20 || (0x09 <= u && u <= 0x0d) || u == 0x85 || u == 0xa0 || u == 0x1680 || (0x2000
        <= u && u <= 0x200a) || u == 0x2028 || u == 0x2029 || u == 0x202f || u == 0x205f || u
        == 0x3000
}

proof fn lemma_trim_end_take(s: Seq<char>, i: int)
    requires
        0 < i <= s.len(),
        is_whitespace(s[i - 1]),
    ensures
        trim_end(s.take(i)) == trim_end(s.take(i - 1)),
{
    assert(s.take(i).drop_last() =~= s.take(i - 1));
}

/// The line with its trailing whitespace removed.
pub fn trim_end_str(line: &str) -> (r: String)
    ensures
        r@ == trim_end(line@),
{
    let n: usize = line.unicode_len();
    let mut i: usize = n;
    assert(line@.take(n as int) =~= line@);
    while i > 0 && char_is_whitespace(line.get_char(i - 1))
        invariant
            n == line@.len(),
            i <= n,
            trim_end(line@) == trim_end(line@.take(i as int)),
        decreases i,
    {
        proof {
            lemma_trim_end_take(line@, i as int);
        }
        i = i - 1;
    }
    let r = String::from_str(line.substring_char(0, i));
    proof {
        assert(line@.subrange(0, i as int) =~= line@.take(i as int));
        if i > 0 {
            assert(line@.take(i as int).last() == line@[i - 1]);
        }
    }
    r
}

/// The message that a line read from the child's standard output becomes.
pub fn stdout_message(line: &str) -> (r: String)
    ensures
        r@ == trim_end(line@),
{
    trim_end_str(line)
}

/// The message that a line read from the child's standard error becomes: the
/// trimmed line behind the tag `STDERR: `.
pub fn stderr_message(line: &str) -> (r: String)
    ensures
        r@ == stderr_tag() + trim_end(line@),
{
    let tag = "STDERR: ";
    proof {
        reveal_strlit("STDERR: ");
    }
    let trimmed = trim_end_str(line);
    let r = String::from_str(tag).concat(trimmed.as_str());
    proof {
        assert(tag@ =~= stderr_tag());
    }
    r
}

/// The text written to the child's standard input for one input: the input
/// followed by a newline.
pub fn stdin_line(input: &str) -> (r: String)
    ensures
        r@ == input@.push('\n'),
{
    let nl = "\n";
    proof {
        reveal_strlit("\n");
    }
    let r = String::from_str(input).concat(nl);
    proof {
        assert(input@ + nl@ =~= input@.push('\n'));
    }
    r
}

/// The directory in which a process is launched: on Windows a verbatim prefix
/// `\\?\` is removed; everywhere else the directory is kept as it is.
pub fn resolve_working_directory(dir: &str, windows: bool) -> (r: String)
    ensures
        r@ == if windows && dir@.len() >= 4 && dir@.take(4) == verbatim_prefix() {
            dir@.skip(4)
        } else {
            dir@
        },
{
    let n: usize = dir.unicode_len();
    if windows && n >= 4 {
        let c0 = dir.get_char(0);
        let c1 = dir.get_char(1);
        let c2 = dir.get_char(2);
        let c3 = dir.get_char(3);
        if c0 == '\\' && c1 == '\\' && c2 == '?' && c3 == '\\' {
            let r = String::from_str(dir.substring_char(4, n));
            proof {
                assert(dir@.take(4) =~= verbatim_prefix());
                assert(dir@.subrange(4, n as int) =~= dir@.skip(4));
            }
            return r;
        } else {
            proof {
                if dir@.take(4) == verbatim_prefix() {
                    assert(dir@.take(4)[0] == dir@[0]);
                    assert(dir@.take(4)[1] == dir@[1]);
                    assert(dir@.take(4)[2] == dir@[2]);
                    assert(dir@.take(4)[3] == dir@[3]);
                }
            }
        }
    }
    String::from_str(dir)
}

/// Trimming is idempotent: a message read back from a trimmed line is that
/// line unchanged.
pub proof fn lemma_trim_end_idempotent(s: Seq<char>)
    ensures
        trim_end(trim_end(s)) == trim_end(s),
    decreases s.len(),
{
    if s.len() > 0 && is_whitespace(s.last()) {
        lemma_trim_end_idempotent(s.drop_last());
    }
}

/// Trimming keeps a prefix of the line, drops only whitespace, and leaves no
/// whitespace at the end.
pub proof fn lemma_trim_end_shape(s: Seq<char>)
    ensures
        trim_end(s).len() <= s.len(),
        trim_end(s) == s.take(trim_end(s).len() as int),
        forall|i: int| trim_end(s).len() <= i < s.len() ==> is_whitespace(#[trigger] s[i]),
        trim_end(s).len() > 0 ==> !is_whitespace(trim_end(s).last()),
    decreases s.len(),
{
    if s.len() > 0 && is_whitespace(s.last()) {
        let d = s.drop_last();
        lemma_trim_end_shape(d);
        let t = trim_end(d);
        assert(s.take(t.len() as int) =~= d.take(t.len() as int));
        assert forall|i: int| t.len() <= i < s.len() implies is_whitespace(#[trigger] s[i]) by {
            if i < d.len() {
                assert(s[i] == d[i]);
            }
        }
    } else {
        assert(s.take(s.len() as int) =~= s);
    }
}

/// An input framed for the child's standard input and read back as an output
/// message comes back as the input without its trailing whitespace.
pub proof fn lemma_framed_input_reads_back(input: Seq<char>)
    ensures
        trim_end(input.push('\n')) == trim_end(input),
{
    assert(is_whitespace('\n'));
    assert(input.push('\n').drop_last() =~= input);
}

} // verus!
