//! Snapshots: at which sizes one is taken of a geometry, and how the file
//! that holds one is named.

use crate::video_devices::device::FrameSizeType;
use vstd::prelude::*;
use vstd::string::StringExecFns;

verus! {

/// The sizes at which a snapshot of a geometry is taken, as width and
/// height: the size itself where it is exact, and for a range first its
/// largest and then its smallest size.
pub open spec fn snap_sizes(fz: FrameSizeType) -> Seq<(u32, u32)> {
    match fz {
        FrameSizeType::Discrete { width, height } => seq![(width, height)],
        FrameSizeType::Stepwise { min_width, max_width, min_height, max_height, .. } => seq![
            (max_width, max_height),
            (min_width, min_height),
        ],
    }
}

/// Lists the sizes at which a snapshot of the geometry is taken.
pub fn take_snaps(fz: FrameSizeType) -> (sizes: Vec<(u32, u32)>)
    ensures
        sizes@ == snap_sizes(fz),
{
    let mut sizes: Vec<(u32, u32)> = Vec::new();
    match fz {
        FrameSizeType::Discrete { width, height } => {
            sizes.push((width, height));
        },
        FrameSizeType::Stepwise { min_width, max_width, min_height, max_height, .. } => {
            sizes.push((max_width, max_height));
            sizes.push((min_width, min_height));
        },
    }
    sizes
}

/// The character that writes the digit `d`.
pub open spec fn digit_char(d: nat) -> char {
    if d == 0 {
        '0'
    } else if d == 1 {
        '1'
    } else if d == 2 {
        '2'
    } else if d == 3 {
        '3'
    } else if d == 4 {
        '4'
    } else if d == 5 {
        '5'
    } else if d == 6 {
        '6'
    } else if d == 7 {
        '7'
    } else if d == 8 {
        '8'
    } else {
        '9'
    }
}

/// The number `n` written in base ten, without leading zeros.
pub open spec fn decimal(n: nat) -> Seq<char>
    decreases n,
{
    if n < 10 {
        seq![digit_char(n)]
    } else {
        decimal(n / 10).push(digit_char(n % 10))
    }
}

/// The text of one digit.
fn digit_text(d: u32) -> (text: &'static str)
    requires
        d < 10,
    ensures
        text@ == seq![digit_char(d as nat)],
{
    proof {
        reveal_strlit("0");
        reveal_strlit("1");
        reveal_strlit("2");
        reveal_strlit("3");
        reveal_strlit("4");
        reveal_strlit("5");
        reveal_strlit("6");
        reveal_strlit("7");
        reveal_strlit("8");
        reveal_strlit("9");
    }
    let text = if d == 0 {
        "0"
    } else if d == 1 {
        "1"
    } else if d == 2 {
        "2"
    } else if d == 3 {
        "3"
    } else if d == 4 {
        "4"
    } else if d == 5 {
        "5"
    } else if d == 6 {
        "6"
    } else if d == 7 {
        "7"
    } else if d == 8 {
        "8"
    } else {
        "9"
    };
    assert(text@ =~= seq![digit_char(d as nat)]);
    text
}

/// Writes `n` in base ten at the end of `out`.
fn push_decimal(out: &mut String, n: u32)
    ensures
        final(out)@ == old(out)@ + decimal(n as nat),
    decreases n,
{
    if n >= 10 {
        push_decimal(out, n / 10);
    }
    out.append(digit_text(n % 10));
    proof {
        if n >= 10 {
            assert(out@ =~= old(out)@ + decimal((n / 10) as nat).push(digit_char((n % 10) as nat)));
        }
    }
}

/// The name of the file that holds a snapshot: the cleaned name of the
/// device between `img-` and the size, which is written as width, `x` and
/// height, with `.jpg` at the end.
pub open spec fn filename(cleaned_name: Seq<char>, width: u32, height: u32) -> Seq<char> {
    "img-"@ + cleaned_name + "-"@ + decimal(width as nat) + "x"@ + decimal(height as nat)
        + ".jpg"@
}

/// Names the file that holds a snapshot, from the cleaned name of the device
/// and the size.
pub fn filename_of(cleaned_name: &str, width: u32, height: u32) -> (name: String)
    ensures
        name@ == filename(cleaned_name@, width, height),
{
    let mut name = String::from_str("img-");
    name.append(cleaned_name);
    name.append("-");
    push_decimal(&mut name, width);
    name.append("x");
    push_decimal(&mut name, height);
    name.append(".jpg");
    name
}

/// The pattern of a character that does not belong in the name of a file:
/// anything but a letter of the English alphabet, a digit, `_`, `.` and `-`.
pub open spec fn cleaning_pattern() -> Seq<char> {
    "[^a-zA-Z0-9_.-]"@
}

/// The text that regex makes of `haystack` by replacing each match of
/// `pattern` with `replacement`; nothing where regex does not take the
/// pattern.
pub uninterp spec fn regex_replaced(
    pattern: Seq<char>,
    haystack: Seq<char>,
    replacement: Seq<char>,
) -> Option<Seq<char>>;

#[verifier::external_type_specification]
#[verifier::external_body]
pub struct ExRegexError(regex::Error);

/// Calls regex: `Regex::new` makes the pattern a `Regex`, and
/// `Regex::replace_all` replaces each of its matches in the haystack. Trusted:
/// whether the pattern is taken, and the text that comes out, are functions
/// of the three texts.
#[verifier::external_body]
fn replace_all(pattern: &str, haystack: &str, replacement: &str) -> (r: Result<
    String,
    regex::Error,
>)
    ensures
        match r {
            Ok(text) => regex_replaced(pattern@, haystack@, replacement@) == Some(text@),
            Err(_) => regex_replaced(pattern@, haystack@, replacement@) is None,
        },
{
    match regex::Regex::new(pattern) {
        Ok(re) => Ok(re.replace_all(haystack, replacement).into_owned()),
        Err(e) => Err(e),
    }
}

/// Why a file could not be named.
#[derive(Clone, Copy, Debug, PartialEq, Eq, Structural)]
pub enum FilenameError {
    /// The pattern that cleans the name of the device was not taken.
    PatternRefused,
}

/// Names the file that holds a snapshot of a device at a size: the name of
/// the device is cleaned of what does not belong in the name of a file.
pub fn to_filename(device_name: &str, width: u32, height: u32) -> (r: Result<
    String,
    FilenameError,
>)
    ensures
        match regex_replaced(cleaning_pattern(), device_name@, ""@) {
            Some(cleaned_name) => r matches Ok(name) && name@ == filename(
                cleaned_name,
                width,
                height,
            ),
            None => r == Err::<String, FilenameError>(FilenameError::PatternRefused),
        },
{
    match replace_all("[^a-zA-Z0-9_.-]", device_name, "") {
        Ok(cleaned_name) => Ok(filename_of(cleaned_name.as_str(), width, height)),
        Err(_) => Err(FilenameError::PatternRefused),
    }
}

} // verus!
