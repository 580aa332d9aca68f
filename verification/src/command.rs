//! External commands described as data: a program and its arguments.
//!
//! Running them is the application's work; the library builds them and renders
//! them as shell text for dry runs and messages.
use vstd::prelude::*;
use crate::text::{texts, chars_of, is_alnum, is_ascii_alnum, push_char, owned, trim, trim_str, cat};

verus! {

#[derive(Debug)]
pub struct CommandSpec {
    pub program: String,
    pub args: Vec<String>,
}

/// Characters that need no quoting.
pub open spec fn safe_char(c: char) -> bool {
    is_ascii_alnum(c) || c == '-' || c == '_' || c == '.' || c == '/' || c == ':' || c == '=' || c
        == ','
}

pub open spec fn all_safe(v: Seq<char>) -> bool {
    forall|i: int| 0 <= i < v.len() ==> safe_char(#[trigger] v[i])
}

/// The inside of a single-quoted word: each `'` written as `'\''`.
pub open spec fn quoted_body(v: Seq<char>) -> Seq<char>
    decreases v.len(),
{
    if v.len() == 0 {
        seq![]
    } else {
        quoted_body(v.drop_last()) + if v.last() == '\'' {
            seq!['\'', '\\', '\'', '\'']
        } else {
            seq![v.last()]
        }
    }
}

/// A value as one shell word: as it is when every character is safe, else single-quoted.
pub open spec fn escaped(v: Seq<char>) -> Seq<char> {
    if all_safe(v) {
        v
    } else {
        seq!['\''] + quoted_body(v) + seq!['\'']
    }
}

/// The arguments rendered one by one, each after a space.
/// A command's shell text: the program, then each argument after a space, quoted when needed.
pub open spec fn command_line(c: CommandSpec) -> Seq<char> {
    command_text(c.program@, texts(c.args@))
}

pub open spec fn rendered_args(args: Seq<Seq<char>>) -> Seq<char>
    decreases args.len(),
{
    if args.len() == 0 {
        seq![]
    } else {
        rendered_args(args.drop_last()) + seq![' '] + escaped(args.last())
    }
}

/// A command as shell text: the program, then each argument escaped.
pub open spec fn command_text(program: Seq<char>, args: Seq<Seq<char>>) -> Seq<char> {
    program + rendered_args(args)
}

fn is_safe(c: char) -> (b: bool)
    ensures
        b == safe_char(c),
{
    is_alnum(c) || c == '-' || c == '_' || c == '.' || c == '/' || c == ':' || c == '=' || c == ','
}

/// Quotes a value for a POSIX shell when it holds anything but `[A-Za-z0-9-_./:=,]`.
pub fn shell_escape(value: &str) -> (r: String)
    ensures
        r@ == escaped(value@),
{
    let v = chars_of(value);
    let mut i: usize = 0;
    while i < v.len() && is_safe(v[i])
        invariant
            0 <= i <= v.len(),
            v@ == value@,
            forall|k: int| 0 <= k < i ==> safe_char(#[trigger] v@[k]),
        decreases v.len() - i,
    {
        i += 1;
    }
    if i == v.len() {
        return owned(value);
    }
    assert(!all_safe(value@)) by {
        assert(!safe_char(v@[i as int]));
    }
    let mut r = String::new();
    push_char(&mut r, '\'');
    let mut j: usize = 0;
    while j < v.len()
        invariant
            0 <= j <= v.len(),
            v@ == value@,
            r@ == seq!['\''] + quoted_body(v@.take(j as int)),
        decreases v.len() - j,
    {
        let c = v[j];
        assert(v@.take(j + 1).drop_last() == v@.take(j as int));
        assert(v@.take(j + 1).last() == c);
        if c == '\'' {
            push_char(&mut r, '\'');
            push_char(&mut r, '\\');
            push_char(&mut r, '\'');
            push_char(&mut r, '\'');
        } else {
            push_char(&mut r, c);
        }
        j += 1;
    }
    assert(v@.take(v.len() as int) == v@);
    push_char(&mut r, '\'');
    r
}

impl CommandSpec {
    /// The program and argument texts.
    pub open spec fn program_text(&self) -> Seq<char> {
        self.program@
    }

    pub open spec fn arg_seq(&self) -> Seq<Seq<char>> {
        texts(self.args@)
    }

    pub fn new(program: &str, args: Vec<String>) -> (c: Self)
        ensures
            c.program@ == program@,
            c.args@ == args@,
    {
        CommandSpec { program: owned(program), args }
    }

    /// The command as shell text, each argument quoted when it needs to be.
    pub fn to_string(&self) -> (s: String)
        ensures
            s@ == command_text(self.program@, texts(self.args@)),
    {
        let mut s = owned(self.program.as_str());
        let mut i: usize = 0;
        while i < self.args.len()
            invariant
                0 <= i <= self.args.len(),
                s@ == self.program@ + rendered_args(texts(self.args@).take(i as int)),
            decreases self.args.len() - i,
        {
            let ghost prev = texts(self.args@).take(i as int);
            let e = shell_escape(self.args[i].as_str());
            push_char(&mut s, ' ');
            s.append(e.as_str());
            proof {
                let next = texts(self.args@).take(i + 1);
                assert(next.drop_last() == prev);
                assert(next.last() == self.args@[i as int]@);
            }
            i += 1;
        }
        assert(texts(self.args@).take(self.args@.len() as int) == texts(self.args@));
        s
    }
}

impl Clone for CommandSpec {
    fn clone(&self) -> (r: Self)
        ensures
            r.program@ == self.program@,
            r.args@.len() == self.args@.len(),
            forall|i: int| 0 <= i < self.args@.len() ==> r.args@[i]@ == self.args@[i]@,
    {
        let args = self.args.clone();
        proof {
            assert forall|i: int| 0 <= i < self.args@.len() implies args@[i]@ == self.args@[i]@ by {
                assert(cloned::<String>(self.args@[i], args@[i]));
            }
        }
        CommandSpec { program: self.program.clone(), args }
    }
}

/// The message for a failed command: its standard error, else its standard output (both
/// trimmed), else its exit status (`status_text` is how the status displays).
pub open spec fn failure_message_spec(status_text: Seq<char>, stderr: Seq<char>, stdout: Seq<char>) -> Seq<
    char,
> {
    if trim(stderr).len() > 0 {
        trim(stderr)
    } else if trim(stdout).len() > 0 {
        trim(stdout)
    } else {
        "exited with status "@ + status_text
    }
}

pub fn failure_message(status_text: &str, stderr: &str, stdout: &str) -> (r: String)
    ensures
        r@ == failure_message_spec(status_text@, stderr@, stdout@),
{
    let e = trim_str(stderr);
    if e.as_str().is_empty() == false {
        return e;
    }
    let o = trim_str(stdout);
    if !o.as_str().is_empty() {
        return o;
    }
    cat("exited with status ", status_text)
}

} // verus!
