use crate::text::{push_str, string_push};
use vstd::prelude::*;
use vstd::std_specs::convert::FromSpecImpl;

verus! {

#[verifier::external_type_specification]
#[verifier::external_body]
pub struct ExIoError(std::io::Error);

/// The ways an editor operation fails.
#[derive(Debug)]
pub enum EditorError {
    IoError(std::io::Error),
    BufferError(String),
    InvalidPosition(usize, usize),
    ClipboardError(String),
    RenderError(String),
    WindowError(String),
    GpuError(String),
    ConfigError(String),
    SyntaxError(String),
    InvalidTheme(String),
}

pub type Result<T> = std::result::Result<T, EditorError>;

/// The decimal digits of `n`, most significant first.
pub open spec fn decimal(n: nat) -> Seq<char>
    decreases n,
{
    if n < 10 {
        seq![digit_char(n)]
    } else {
        decimal(n / 10).push(digit_char(n % 10))
    }
}

/// The char of a decimal digit.
pub open spec fn digit_char(d: nat) -> char {
    ((d + 48) as u32) as char
}

fn push_digit(s: &mut String, d: usize)
    requires
        d < 10,
    ensures
        final(s)@ == old(s)@.push(digit_char(d as nat)),
{
    let c: char = if d == 0 {
        '0'
    } else if d == 1 {
        '1'
    } else if d == 2 {
        '2'
    } else if d == 3 {
        '3'
    } else if d == 4 {
        '4'
    } else if d == 5 {
        '5'
    } else if d == 6 {
        '6'
    } else if d == 7 {
        '7'
    } else if d == 8 {
        '8'
    } else {
        '9'
    };
    string_push(s, c);
}

/// Appends the decimal digits of `n` to `s`.
fn push_decimal(s: &mut String, n: usize)
    ensures
        final(s)@ == old(s)@ + decimal(n as nat),
    decreases n,
{
    if n < 10 {
        push_digit(s, n);
        assert(old(s)@.push(digit_char(n as nat)) =~= old(s)@ + decimal(n as nat));
    } else {
        push_decimal(s, n / 10);
        push_digit(s, n % 10);
        assert(old(s)@ + decimal((n / 10) as nat) + seq![digit_char((n % 10) as nat)]
            =~= old(s)@ + decimal(n as nat));
    }
}

/// The text of `io::Error`'s `Display` (it comes from the operating system;
/// nothing is stated of it).
#[verifier::external_body]
fn io_error_text(e: &std::io::Error) -> String {
    format!("{}", e)
}

impl EditorError {
    /// The message of the error, as its `Display` would write it.
    pub fn to_string(&self) -> (s: String)
        ensures
            ({
                match self {
                    EditorError::IoError(_) => s@.take(23) == "File operation failed: "@,
                    EditorError::BufferError(m) => s@ == "Buffer error: "@ + m@,
                    EditorError::InvalidPosition(l, c) => s@ == "Invalid position: line "@
                        + decimal(*l as nat) + ", column "@ + decimal(*c as nat),
                    EditorError::ClipboardError(m) => s@ == "Clipboard error: "@ + m@,
                    EditorError::RenderError(m) => s@ == "Render error: "@ + m@,
                    EditorError::WindowError(m) => s@ == "Window error: "@ + m@,
                    EditorError::GpuError(m) => s@ == "GPU error: "@ + m@,
                    EditorError::ConfigError(m) => s@ == "Configuration error: "@ + m@,
                    EditorError::SyntaxError(m) => s@ == "Syntax highlighting error: "@ + m@,
                    EditorError::InvalidTheme(m) => s@ == "Invalid theme: "@ + m@,
                }
            }),
    {
        let mut s = String::new();
        match self {
            EditorError::IoError(e) => {
                push_str(&mut s, "File operation failed: ");
                let t = io_error_text(e);
                proof {
                    reveal_strlit("File operation failed: ");
                }
                push_str(&mut s, t.as_str());
                assert(s@.take(23) =~= "File operation failed: "@);
            },
            EditorError::BufferError(m) => {
                push_str(&mut s, "Buffer error: ");
                push_str(&mut s, m.as_str());
            },
            EditorError::InvalidPosition(l, c) => {
                push_str(&mut s, "Invalid position: line ");
                push_decimal(&mut s, *l);
                push_str(&mut s, ", column ");
                push_decimal(&mut s, *c);
            },
            EditorError::ClipboardError(m) => {
                push_str(&mut s, "Clipboard error: ");
                push_str(&mut s, m.as_str());
            },
            EditorError::RenderError(m) => {
                push_str(&mut s, "Render error: ");
                push_str(&mut s, m.as_str());
            },
            EditorError::WindowError(m) => {
                push_str(&mut s, "Window error: ");
                push_str(&mut s, m.as_str());
            },
            EditorError::GpuError(m) => {
                push_str(&mut s, "GPU error: ");
                push_str(&mut s, m.as_str());
            },
            EditorError::ConfigError(m) => {
                push_str(&mut s, "Configuration error: ");
                push_str(&mut s, m.as_str());
            },
            EditorError::SyntaxError(m) => {
                push_str(&mut s, "Syntax highlighting error: ");
                push_str(&mut s, m.as_str());
            },
            EditorError::InvalidTheme(m) => {
                push_str(&mut s, "Invalid theme: ");
                push_str(&mut s, m.as_str());
            },
        }
        s
    }
}

impl From<std::io::Error> for EditorError {
    fn from(e: std::io::Error) -> (r: Self) {
        EditorError::IoError(e)
    }
}

impl FromSpecImpl<std::io::Error> for EditorError {
    open spec fn obeys_from_spec() -> bool {
        true
    }

    open spec fn from_spec(v: std::io::Error) -> Self {
        EditorError::IoError(v)
    }
}

} // verus!
