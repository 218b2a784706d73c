use vstd::prelude::*;
use vstd::string::StrSliceExecFns;
use vstd::string::StringExecFns;

verus! {

/// A value the assertion library can render into failure messages.
///
/// `render_spec` is the sequence of characters the rendering denotes;
/// `render` is its executable counterpart. Numbers render in decimal and
/// strings render quoted with their special characters escaped, so that a
/// failure message shows a value the way test code writes it.
pub trait Renderable {
    spec fn render_spec(&self) -> Seq<char>;

    fn render(&self) -> (r: String)
        ensures
            r@ == self.render_spec(),
    ;
}

/// Relies on String::push: appends exactly the given character.
#[verifier::external_body]
pub(crate) fn push_char(out: &mut String, c: char)
    ensures
        final(out)@ == old(out)@.push(c),
{
    out.push(c);
}

/// The character for one decimal digit.
pub open spec fn decimal_digit(d: int) -> char {
    if d == 0 {
        '0'
    } else if d == 1 {
        '1'
    } else if d == 2 {
        '2'
    } else if d == 3 {
        '3'
    } else if d == 4 {
        '4'
    } else if d == 5 {
        '5'
    } else if d == 6 {
        '6'
    } else if d == 7 {
        '7'
    } else if d == 8 {
        '8'
    } else {
        '9'
    }
}

/// The decimal rendering of a natural number, most significant digit first.
pub open spec fn decimal_rep(n: nat) -> Seq<char>
    decreases n,
{
    if n < 10 {
        seq![decimal_digit(n as int)]
    } else {
        decimal_rep(n / 10).push(decimal_digit((n % 10) as int))
    }
}

fn digit_char(d: u64) -> (c: char)
    requires
        d < 10,
    ensures
        c == decimal_digit(d as int),
{
    match d {
        0 => '0',
        1 => '1',
        2 => '2',
        3 => '3',
        4 => '4',
        5 => '5',
        6 => '6',
        7 => '7',
        8 => '8',
        _ => '9',
    }
}

/// Appends the decimal rendering of `n`.
fn push_decimal(out: &mut String, n: u64)
    ensures
        final(out)@ == old(out)@ + decimal_rep(n as nat),
    decreases n,
{
    if n >= 10 {
        push_decimal(out, n / 10);
    }
    let c = digit_char(n % 10);
    push_char(out, c);
    proof {
        assert(final(out)@ =~= old(out)@ + decimal_rep(n as nat));
    }
}

impl Renderable for u64 {
    open spec fn render_spec(&self) -> Seq<char> {
        decimal_rep(*self as nat)
    }

    fn render(&self) -> (r: String) {
        let mut out = String::new();
        push_decimal(&mut out, *self);
        proof {
            assert(out@ =~= self.render_spec());
        }
        out
    }
}

impl Renderable for usize {
    open spec fn render_spec(&self) -> Seq<char> {
        decimal_rep(*self as nat)
    }

    fn render(&self) -> (r: String) {
        let mut out = String::new();
        push_decimal(&mut out, *self as u64);
        proof {
            assert(out@ =~= self.render_spec());
        }
        out
    }
}

impl Renderable for i32 {
    open spec fn render_spec(&self) -> Seq<char> {
        if *self < 0 {
            seq!['-'] + decimal_rep((-(*self as int)) as nat)
        } else {
            decimal_rep(*self as nat)
        }
    }

    fn render(&self) -> (r: String) {
        let mut out = String::new();
        if *self < 0 {
            push_char(&mut out, '-');
            let magnitude = (-(*self as i64)) as u64;
            push_decimal(&mut out, magnitude);
            proof {
                assert(out@ =~= self.render_spec());
            }
        } else {
            push_decimal(&mut out, *self as u64);
            proof {
                assert(out@ =~= self.render_spec());
            }
        }
        out
    }
}

/// How one character appears inside a quoted string rendering: quotes,
/// backslashes and the common control characters are escaped, every other
/// character stands for itself.
pub open spec fn escape_char(c: char) -> Seq<char> {
    if c == '"' {
        seq!['\\', '"']
    } else if c == '\\' {
        seq!['\\', '\\']
    } else if c == '\n' {
        seq!['\\', 'n']
    } else if c == '\t' {
        seq!['\\', 't']
    } else if c == '\r' {
        seq!['\\', 'r']
    } else {
        seq![c]
    }
}

/// The escaped form of a character sequence.
pub open spec fn escape_seq(s: Seq<char>) -> Seq<char>
    decreases s.len(),
{
    if s.len() == 0 {
        Seq::empty()
    } else {
        escape_seq(s.drop_last()) + escape_char(s.last())
    }
}

/// The quoted rendering of a string: its escaped characters between quotes.
pub open spec fn quoted(s: Seq<char>) -> Seq<char> {
    seq!['"'] + escape_seq(s) + seq!['"']
}

fn push_escaped_char(out: &mut String, c: char)
    ensures
        final(out)@ == old(out)@ + escape_char(c),
{
    if c == '"' {
        push_char(out, '\\');
        push_char(out, '"');
    } else if c == '\\' {
        push_char(out, '\\');
        push_char(out, '\\');
    } else if c == '\n' {
        push_char(out, '\\');
        push_char(out, 'n');
    } else if c == '\t' {
        push_char(out, '\\');
        push_char(out, 't');
    } else if c == '\r' {
        push_char(out, '\\');
        push_char(out, 'r');
    } else {
        push_char(out, c);
    }
    proof {
        assert(final(out)@ =~= old(out)@ + escape_char(c));
    }
}

/// Appends the quoted rendering of `s`.
fn push_quoted(out: &mut String, s: &str)
    ensures
        final(out)@ == old(out)@ + quoted(s@),
{
    push_char(out, '"');
    let len = s.unicode_len();
    let mut i: usize = 0;
    while i < len
        invariant
            i <= len,
            len == s@.len(),
            out@ == old(out)@ + seq!['"'] + escape_seq(s@.subrange(0, i as int)),
        decreases len - i,
    {
        let c = s.get_char(i);
        push_escaped_char(out, c);
        proof {
            assert(s@.subrange(0, i + 1).drop_last() =~= s@.subrange(0, i as int));
            assert(s@.subrange(0, i + 1).last() == s@[i as int]);
            assert(out@ =~= old(out)@ + seq!['"'] + escape_seq(s@.subrange(0, i + 1)));
        }
        i += 1;
    }
    push_char(out, '"');
    proof {
        assert(s@.subrange(0, s@.len() as int) =~= s@);
        assert(out@ =~= old(out)@ + quoted(s@));
    }
}

/// A rendered value between angle brackets, the way failure messages quote
/// expected and observed values.
pub open spec fn angled<T: Renderable>(value: T) -> Seq<char> {
    seq!['<'] + value.render_spec() + seq!['>']
}

/// Appends a rendered value in angle brackets.
pub(crate) fn push_angled<T: Renderable>(out: &mut String, value: &T)
    ensures
        final(out)@ == old(out)@ + angled(*value),
{
    push_char(out, '<');
    let rendered = value.render();
    out.append(rendered.as_str());
    push_char(out, '>');
    proof {
        assert(final(out)@ =~= old(out)@ + angled(*value));
    }
}

impl<'a> Renderable for &'a str {
    open spec fn render_spec(&self) -> Seq<char> {
        quoted((*self)@)
    }

    fn render(&self) -> (r: String) {
        let mut out = String::new();
        push_quoted(&mut out, *self);
        proof {
            assert(out@ =~= self.render_spec());
        }
        out
    }
}

impl Renderable for String {
    open spec fn render_spec(&self) -> Seq<char> {
        quoted(self@)
    }

    fn render(&self) -> (r: String) {
        let mut out = String::new();
        push_quoted(&mut out, self.as_str());
        proof {
            assert(out@ =~= self.render_spec());
        }
        out
    }
}

} // verus!
