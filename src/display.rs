use vstd::prelude::*;

use crate::file::{preview_of, File, PREVIEW_CHARS};

verus! {

/// The character of the decimal digit `d`.
pub open spec fn digit_char(d: nat) -> char {
    (d + '0' as nat) as char
}

/// The decimal digits of `n`, most significant first, with no leading zero.
pub open spec fn decimal(n: nat) -> Seq<char>
    decreases n,
{
    if n < 10 {
        seq![digit_char(n)]
    } else {
        decimal(n / 10).push(digit_char(n % 10))
    }
}

fn digit_text(d: u64) -> (r: &'static str)
    requires
        d < 10,
    ensures
        r@ == seq![digit_char(d as nat)],
{
    proof {
        reveal_strlit("0");
        reveal_strlit("1");
        reveal_strlit("2");
        reveal_strlit("3");
        reveal_strlit("4");
        reveal_strlit("5");
        reveal_strlit("6");
        reveal_strlit("7");
        reveal_strlit("8");
        reveal_strlit("9");
    }
    match d {
        0 => "0",
        1 => "1",
        2 => "2",
        3 => "3",
        4 => "4",
        5 => "5",
        6 => "6",
        7 => "7",
        8 => "8",
        _ => "9",
    }
}

/// Appends the decimal digits of `n` to `out`.
pub fn push_decimal(out: &mut String, n: u64)
    ensures
        final(out)@ == old(out)@ + decimal(n as nat),
    decreases n,
{
    if n >= 10 {
        push_decimal(out, n / 10);
    }
    out.append(digit_text(n % 10));
    proof {
        if n >= 10 {
            assert(decimal(n as nat) == decimal((n / 10) as nat).push(digit_char((n % 10) as nat)));
        }
    }
}

/// The one-line summary of a file: `[id] name (size bytes)`.
pub open spec fn summary_text(id: u32, name: Seq<char>, size: usize) -> Seq<char> {
    "["@ + decimal(id as nat) + "] "@ + name + " ("@ + decimal(size as nat) + " bytes)"@
}

/// The detailed view of a file, given how long ago it was created.
pub open spec fn detailed_text(
    id: u32,
    name: Seq<char>,
    size: usize,
    age: Seq<char>,
    content: Seq<char>,
) -> Seq<char> {
    "ID: "@ + decimal(id as nat) + "\nName: "@ + name + "\nSize: "@ + decimal(size as nat)
        + " bytes\nCreated: "@ + age + " ago\nPreview: "@ + preview_of(content) + if content.len()
        > PREVIEW_CHARS {
        "..."@
    } else {
        ""@
    }
}

/// Text views of a file.
pub trait FileDisplay {
    spec fn summary_spec(&self) -> Seq<char>;

    spec fn detailed_spec(&self, age: Seq<char>) -> Seq<char>;

    /// One line with the identifier, the name and the size.
    fn display_summary(&self) -> (r: String)
        ensures
            r@ == self.summary_spec(),
    ;

    /// Several lines with the identifier, name, size, age and a preview of
    /// the content; `age` says how long ago the file was created.
    fn display_detailed(&self, age: &str) -> (r: String)
        ensures
            r@ == self.detailed_spec(age@),
    ;
}

impl FileDisplay for File {
    open spec fn summary_spec(&self) -> Seq<char> {
        summary_text(self.id, self.name@, self.size)
    }

    open spec fn detailed_spec(&self, age: Seq<char>) -> Seq<char> {
        detailed_text(self.id, self.name@, self.size, age, self.content@)
    }

    fn display_summary(&self) -> (r: String) {
        let mut out = "[".to_owned();
        push_decimal(&mut out, self.id as u64);
        out.append("] ");
        out.append(self.name.as_str());
        out.append(" (");
        push_decimal(&mut out, self.size as u64);
        out.append(" bytes)");
        out
    }

    fn display_detailed(&self, age: &str) -> (r: String) {
        let mut out = "ID: ".to_owned();
        push_decimal(&mut out, self.id as u64);
        out.append("\nName: ");
        out.append(self.name.as_str());
        out.append("\nSize: ");
        push_decimal(&mut out, self.size as u64);
        out.append(" bytes\nCreated: ");
        out.append(age);
        out.append(" ago\nPreview: ");
        out.append(self.preview());
        if self.is_truncated() {
            out.append("...");
        } else {
            out.append("");
        }
        out
    }
}

} // verus!
