//! The string `%` formatter: fills `%s` directives (and only `%s`) with
//! the given values, demanding exactly one value per directive.

use vstd::prelude::*;
use crate::text::{chars_of, append_chars, push_char};

verus! {

/// The error on a format call whose argument count does not match its
/// directive count.
#[derive(Debug, Clone, PartialEq, Eq, Structural)]
pub enum FormatterError {
    TooManyFormatArgs,
    NotEnoughFormatArgs,
}

/// Whether a `%s` directive starts at position `i`.
pub open spec fn directive_at(s: Seq<char>, i: int) -> bool {
    0 <= i && i + 1 < s.len() && s[i] == '%' && s[i + 1] == 's'
}

/// The number of `%s` directives at or after position `i`.
pub open spec fn count_directives(s: Seq<char>, i: int) -> int
    decreases s.len() - i,
{
    if i < 0 || i >= s.len() {
        0
    } else if directive_at(s, i) {
        1 + count_directives(s, i + 2)
    } else {
        count_directives(s, i + 1)
    }
}

/// The text produced from position `i` on, consuming arguments from
/// position `j` on.
pub open spec fn render(s: Seq<char>, i: int, args: Seq<Seq<char>>, j: int) -> Seq<char>
    decreases s.len() - i,
{
    if i < 0 || i >= s.len() {
        Seq::<char>::empty()
    } else if directive_at(s, i) {
        (if 0 <= j < args.len() {
            args[j]
        } else {
            Seq::<char>::empty()
        }) + render(s, i + 2, args, j + 1)
    } else {
        seq![s[i]] + render(s, i + 1, args, j)
    }
}

/// Fills each `%s` of `format_str` with the matching argument. Too many
/// or too few arguments is a hard error.
pub fn format_percent(format_str: &str, args: &Vec<String>) -> (r: Result<String, FormatterError>)
    ensures
        ({
            let s = format_str@;
            let vs = args@.map_values(|a: String| a@);
            match r {
                Ok(out) => args@.len() == count_directives(s, 0) && out@ == render(s, 0, vs, 0),
                Err(FormatterError::TooManyFormatArgs) => args@.len() > count_directives(s, 0),
                Err(FormatterError::NotEnoughFormatArgs) => args@.len() < count_directives(s, 0),
            }
        }),
{
    let ghost s = format_str@;
    let ghost vs = args@.map_values(|a: String| a@);
    let chars = chars_of(format_str);
    let n = chars.len();

    // First pass: count the directives.
    let mut count: usize = 0;
    let mut i: usize = 0;
    while i < n
        invariant
            i <= n == chars@.len(),
            chars@ == s,
            count <= i,
            count_directives(s, 0) == count + count_directives(s, i as int),
        decreases n - i,
    {
        if i + 1 < n && chars[i] == '%' && chars[i + 1] == 's' {
            count = count + 1;
            i = i + 2;
        } else {
            i = i + 1;
        }
    }
    if args.len() > count {
        return Err(FormatterError::TooManyFormatArgs);
    }
    if args.len() < count {
        return Err(FormatterError::NotEnoughFormatArgs);
    }

    // Second pass: substitute.
    let mut out = String::new();
    let mut j: usize = 0;
    let mut i: usize = 0;
    while i < n
        invariant
            i <= n == chars@.len(),
            chars@ == s,
            j <= i,
            vs == args@.map_values(|a: String| a@),
            render(s, 0, vs, 0) == out@ + render(s, i as int, vs, j as int),
        decreases n - i,
    {
        if i + 1 < n && chars[i] == '%' && chars[i + 1] == 's' {
            let ghost before = out@;
            if j < args.len() {
                let arg_chars = chars_of(args[j].as_str());
                proof {
                    assert(arg_chars@ == vs[j as int]);
                }
                append_chars(&mut out, &arg_chars);
            }
            proof {
                if j < args@.len() {
                    assert(before + (vs[j as int] + render(s, i + 2, vs, j + 1)) =~= out@ + render(
                        s,
                        i + 2,
                        vs,
                        j + 1,
                    ));
                } else {
                    assert(before + (Seq::<char>::empty() + render(s, i + 2, vs, j + 1)) =~= out@
                        + render(s, i + 2, vs, j + 1));
                }
            }
            j = j + 1;
            i = i + 2;
        } else {
            let ghost before = out@;
            push_char(&mut out, chars[i]);
            proof {
                assert(before + (seq![s[i as int]] + render(s, i + 1, vs, j as int)) =~= out@
                    + render(s, i + 1, vs, j as int));
            }
            i = i + 1;
        }
    }
    proof {
        assert(render(s, 0, vs, 0) =~= out@ + Seq::<char>::empty());
        assert(out@ + Seq::<char>::empty() =~= out@);
    }
    Ok(out)
}

} // verus!
