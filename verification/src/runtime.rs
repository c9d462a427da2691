//! What a front end decides before it opens a store: where things live, which ids it was
//! given, and which commands it is to run.
use vstd::prelude::*;
use crate::error::StoreError;
use crate::storeid::{is_absolute, join, join_paths, normalized, StoreId};
use crate::text::{chars_of, is_white, slice_of, white_space};

verus! {

/// The view of optional borrowed text.
pub open spec fn arg_view(s: Option<&str>) -> Option<Seq<char>> {
    match s {
        Some(t) => Some(t@),
        None => None,
    }
}

/// Where the runtime lives: where the command line says; else where the variable
/// `IMAG_RTP` says; else in `.imag` in the home directory.
pub open spec fn rtp_of(
    cli: Option<Seq<char>>,
    imag_rtp: Option<Seq<char>>,
    home: Option<Seq<char>>,
) -> Seq<char> {
    match cli {
        Some(p) => p,
        None => match imag_rtp {
            Some(p) => p,
            None => join(home->Some_0, ".imag"@),
        },
    }
}

/// Where the runtime lives, given what the command line, the variable `IMAG_RTP` and the
/// variable `HOME` say. One of them has to say something.
pub fn get_rtp_match(cli: Option<&str>, imag_rtp: Option<&str>, home: Option<&str>) -> (r: String)
    requires
        cli is Some || imag_rtp is Some || home is Some,
    ensures
        r@ == rtp_of(arg_view(cli), arg_view(imag_rtp), arg_view(home)),
{
    match cli {
        Some(p) => p.to_owned(),
        None => match imag_rtp {
            Some(p) => p.to_owned(),
            None => match home {
                Some(h) => join_paths(h, ".imag"),
                None => String::new(),
            },
        },
    }
}

/// Where the configuration lives: where the command line says, else where the runtime
/// lives.
pub fn config_path(cli: Option<&str>, rtp: &str) -> (r: String)
    ensures
        r@ == match cli {
            Some(p) => p@,
            None => rtp@,
        },
{
    match cli {
        Some(p) => p.to_owned(),
        None => rtp.to_owned(),
    }
}

/// Where the store lives: where the command line says, else in `store` where the runtime
/// lives.
pub fn store_path(cli: Option<&str>, rtp: &str) -> (r: String)
    ensures
        r@ == match cli {
            Some(p) => p@,
            None => join(rtp@, "store"@),
        },
{
    match cli {
        Some(p) => p.to_owned(),
        None => join_paths(rtp, "store"),
    }
}

/// The name of the program that stands for the subcommand `subcommand` of `command`.
pub fn subcommand_binary(command: &str, subcommand: &str) -> (r: String)
    ensures
        r@ == command@ + seq!['-'] + subcommand@,
{
    let mut name = command.to_owned();
    proof {
        reveal_strlit("-");
        assert("-"@ =~= seq!['-']);
    }
    name.append("-");
    name.append(subcommand);
    name
}

/// Which stream a front end writes its results to: where its output is piped, the ids that
/// it touched go to the standard output, and its results to the standard error.
#[derive(Debug, Clone, Copy, PartialEq, Eq, Structural)]
pub enum OutputStream {
    /// The standard output.
    StandardOutput,
    /// The standard error.
    StandardError,
}

/// The stream for results.
pub fn stdout_stream(output_is_pipe: bool) -> (r: OutputStream)
    ensures
        r == if output_is_pipe {
            OutputStream::StandardError
        } else {
            OutputStream::StandardOutput
        },
{
    if output_is_pipe {
        OutputStream::StandardError
    } else {
        OutputStream::StandardOutput
    }
}

/// Whether an override of the configuration is of the form that is applied: it holds `=`.
pub open spec fn is_override(s: Seq<char>) -> bool {
    s.contains('=')
}

/// Whether `s` holds `=`.
fn holds_equals(s: &str) -> (r: bool)
    ensures
        r == is_override(s@),
{
    let chars = chars_of(s);
    let mut i: usize = 0;
    while i < chars.len()
        invariant
            i <= chars@.len(),
            chars@ == s@,
            forall|j: int| 0 <= j < i ==> chars@[j] != '=',
        decreases chars@.len() - i,
    {
        if chars[i] == '=' {
            return true;
        }
        i = i + 1;
    }
    false
}

/// The overrides of the configuration that are applied: those among `values`, in order,
/// that hold `=`.
pub fn get_override_specs(values: &Vec<String>) -> (r: Vec<String>)
    ensures
        texts(r@) == texts(values@).filter(|s: Seq<char>| is_override(s)),
{
    let mut out: Vec<String> = Vec::new();
    let mut i: usize = 0;
    let ghost pred = |s: Seq<char>| is_override(s);
    proof {
        assert(texts(values@).take(0) =~= Seq::<Seq<char>>::empty());
        assert(texts(out@) =~= Seq::<Seq<char>>::empty());
        reveal(Seq::filter);
    }
    while i < values.len()
        invariant
            i <= values@.len(),
            pred == (|s: Seq<char>| is_override(s)),
            texts(out@) == texts(values@).take(i as int).filter(pred),
        decreases values@.len() - i,
    {
        let ghost before = texts(values@).take(i as int);
        let ghost after = texts(values@).take(i as int + 1);
        proof {
            assert(after =~= before.push(values@[i as int]@));
            assert(after.drop_last() =~= before);
            assert(after.last() == values@[i as int]@);
            reveal(Seq::filter);
        }
        if holds_equals(values[i].as_str()) {
            let ghost held = texts(out@);
            out.push(values[i].clone());
            proof {
                assert(texts(out@) =~= held.push(values@[i as int]@));
            }
        }
        i = i + 1;
    }
    proof {
        assert(texts(values@).take(values@.len() as int) =~= texts(values@));
    }
    out
}

/// The views of a list of texts.
pub open spec fn texts(v: Seq<String>) -> Seq<Seq<char>> {
    Seq::new(v.len(), |i: int| v[i]@)
}

/// The line between `start` and `end`, without the carriage return at its end if it has one.
pub open spec fn line_between(s: Seq<char>, start: int, end: int) -> Seq<char> {
    if start < end && s[end - 1] == '\r' {
        s.subrange(start, end - 1)
    } else {
        s.subrange(start, end)
    }
}

/// The lines of `s` from position `pos` on, where the line that `pos` lies in began at
/// `start`. A line ends at a line feed; what follows the last line feed is a line if it is
/// not empty.
pub open spec fn lines_from(s: Seq<char>, start: int, pos: int) -> Seq<Seq<char>>
    decreases s.len() - pos,
{
    if pos >= s.len() {
        if start < s.len() {
            seq![s.subrange(start, s.len() as int)]
        } else {
            seq![]
        }
    } else if s[pos] == '\n' {
        seq![line_between(s, start, pos)] + lines_from(s, pos + 1, pos + 1)
    } else {
        lines_from(s, start, pos + 1)
    }
}

/// The lines of `s`.
pub open spec fn lines_of(s: Seq<char>) -> Seq<Seq<char>> {
    lines_from(s, 0, 0)
}

/// The lines of `buf`.
pub fn lines(buf: &str) -> (r: Vec<String>)
    ensures
        texts(r@) == lines_of(buf@),
{
    let chars = chars_of(buf);
    let n = chars.len();
    let mut out: Vec<String> = Vec::new();
    let mut start: usize = 0;
    let mut pos: usize = 0;
    proof {
        assert(texts(out@) =~= Seq::<Seq<char>>::empty());
    }
    while pos < n
        invariant
            chars@ == buf@,
            n == chars@.len(),
            start <= pos <= n,
            lines_of(buf@) == texts(out@) + lines_from(buf@, start as int, pos as int),
        decreases n - pos,
    {
        if chars[pos] == '\n' {
            let ghost held = texts(out@);
            let end: usize = if start < pos && chars[pos - 1] == '\r' {
                pos - 1
            } else {
                pos
            };
            out.push(slice_of(buf, start, end));
            proof {
                assert(texts(out@) =~= held.push(line_between(buf@, start as int, pos as int)));
                assert(lines_of(buf@) =~= texts(out@) + lines_from(
                    buf@,
                    pos as int + 1,
                    pos as int + 1,
                ));
            }
            start = pos + 1;
        }
        pos = pos + 1;
    }
    if start < n {
        let ghost held = texts(out@);
        out.push(slice_of(buf, start, n));
        proof {
            assert(texts(out@) =~= held.push(buf@.subrange(start as int, n as int)));
        }
    } else {
        proof {
            assert(texts(out@) + Seq::<Seq<char>>::empty() =~= texts(out@));
        }
    }
    out
}

/// The ids that `buf` names, one on each line. It is an error if a line holds an absolute
/// path.
pub fn ids_from_text(buf: &str) -> (r: Result<Vec<StoreId>, StoreError>)
    ensures
        match r {
            Ok(ids) => ids@.len() == lines_of(buf@).len() && forall|i: int|
                0 <= i < ids@.len() ==> !is_absolute(lines_of(buf@)[i]) && (#[trigger] ids@[i])@
                    == normalized(lines_of(buf@)[i]),
            Err(e) => e == StoreError::InvalidId && exists|i: int|
                0 <= i < lines_of(buf@).len() && is_absolute(#[trigger] lines_of(buf@)[i]),
        },
{
    let all = lines(buf);
    let mut out: Vec<StoreId> = Vec::new();
    let mut i: usize = 0;
    while i < all.len()
        invariant
            i <= all@.len(),
            out@.len() == i,
            texts(all@) == lines_of(buf@),
            forall|j: int| 0 <= j < i ==> !is_absolute(#[trigger] lines_of(buf@)[j]),
            forall|j: int| 0 <= j < i ==> (#[trigger] out@[j])@ == normalized(lines_of(buf@)[j]),
        decreases all@.len() - i,
    {
        assert(texts(all@)[i as int] == all@[i as int]@);
        assert(lines_of(buf@)[i as int] == all@[i as int]@);
        let line = all[i].clone();
        match StoreId::new(line) {
            Err(e) => {
                assert(is_absolute(lines_of(buf@)[i as int]));
                return Err(e);
            },
            Ok(id) => {
                out.push(id);
            },
        }
        i = i + 1;
    }
    assert(texts(all@).len() == all@.len());
    Ok(out)
}

/// The word between `start` and `end`, if there is one.
pub open spec fn word_between(s: Seq<char>, start: int, end: int) -> Seq<Seq<char>> {
    if start < end {
        seq![s.subrange(start, end)]
    } else {
        seq![]
    }
}

/// The words of `s` from position `pos` on, where the word that `pos` lies in began at
/// `start`. Words are what stands between white space.
pub open spec fn words_from(s: Seq<char>, start: int, pos: int) -> Seq<Seq<char>>
    decreases s.len() - pos,
{
    if pos >= s.len() {
        word_between(s, start, s.len() as int)
    } else if white_space(s[pos]) {
        word_between(s, start, pos) + words_from(s, pos + 1, pos + 1)
    } else {
        words_from(s, start, pos + 1)
    }
}

/// The words of `s`.
pub open spec fn words_of(s: Seq<char>) -> Seq<Seq<char>> {
    words_from(s, 0, 0)
}

/// The words of `text`: what stands between white space.
pub fn words(text: &str) -> (r: Vec<String>)
    ensures
        texts(r@) == words_of(text@),
{
    let chars = chars_of(text);
    let n = chars.len();
    let mut out: Vec<String> = Vec::new();
    let mut start: usize = 0;
    let mut pos: usize = 0;
    proof {
        assert(texts(out@) =~= Seq::<Seq<char>>::empty());
    }
    while pos < n
        invariant
            chars@ == text@,
            n == chars@.len(),
            start <= pos <= n,
            words_of(text@) == texts(out@) + words_from(text@, start as int, pos as int),
        decreases n - pos,
    {
        if is_white(chars[pos]) {
            let ghost held = texts(out@);
            if start < pos {
                out.push(slice_of(text, start, pos));
            }
            proof {
                assert(texts(out@) =~= held + word_between(text@, start as int, pos as int));
                assert(words_of(text@) =~= texts(out@) + words_from(
                    text@,
                    pos as int + 1,
                    pos as int + 1,
                ));
            }
            start = pos + 1;
        }
        pos = pos + 1;
    }
    let ghost held = texts(out@);
    if start < n {
        out.push(slice_of(text, start, n));
    }
    proof {
        assert(texts(out@) =~= held + word_between(text@, start as int, n as int));
    }
    out
}

/// Why there is no command for the editor.
#[derive(Debug, Clone, Copy, PartialEq, Eq, Structural)]
pub enum EditorError {
    /// Neither the command line nor the environment names an editor.
    NotConfigured,
}

/// The command that opens the editor, as its words: what the command line names, else what
/// the environment names. There is no command where what is named holds no word, and it is
/// an error if nothing is named.
pub open spec fn editor_words(cli: Option<Seq<char>>, env_editor: Option<Seq<char>>) -> Result<
    Option<Seq<Seq<char>>>,
    EditorError,
> {
    let named = match cli {
        Some(e) => Some(e),
        None => env_editor,
    };
    match named {
        None => Err(EditorError::NotConfigured),
        Some(e) => if words_of(e).len() == 0 {
            Ok(None)
        } else {
            Ok(Some(words_of(e)))
        },
    }
}

/// The view of the words of a command, or of the error in their place.
pub open spec fn command_view(r: Result<Option<Vec<String>>, EditorError>) -> Result<
    Option<Seq<Seq<char>>>,
    EditorError,
> {
    match r {
        Ok(Some(w)) => Ok(Some(texts(w@))),
        Ok(None) => Ok(None),
        Err(e) => Err(e),
    }
}

/// The command that opens the editor, as its words, given what the command line and the
/// variable `EDITOR` name.
pub fn editor_command(cli: Option<&str>, env_editor: Option<&str>) -> (r: Result<
    Option<Vec<String>>,
    EditorError,
>)
    ensures
        command_view(r) == editor_words(arg_view(cli), arg_view(env_editor)),
{
    let named = match cli {
        Some(e) => Some(e),
        None => env_editor,
    };
    match named {
        None => Err(EditorError::NotConfigured),
        Some(e) => {
            let w = words(e);
            assert(texts(w@).len() == w@.len());
            if w.len() == 0 {
                Ok(None)
            } else {
                Ok(Some(w))
            }
        },
    }
}

} // verus!
