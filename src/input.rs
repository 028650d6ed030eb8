//! Choosing where each source is read from.

use vstd::prelude::*;
use vstd::string::*;

verus! {

/// Where one source is read from.
pub enum ReadFrom {
    /// A named file.
    File(String),
    /// The standard input stream.
    Stdin,
}

/// Relies on std::path::Path::is_file: whether the name leads to a regular
/// file at the moment of the call. Nothing is promised of the answer.
#[verifier::external_body]
fn path_is_file(name: &str) -> (r: bool) {
    std::path::Path::new(name).is_file()
}

/// Whether `s` is the single dash that names the standard input stream.
fn is_dash(s: &str) -> (r: bool)
    ensures
        r == (s@ == seq!['-']),
{
    if s.unicode_len() == 1 {
        let c = s.get_char(0);
        if c == '-' {
            assert(s@ =~= seq!['-']);
            true
        } else {
            false
        }
    } else {
        false
    }
}

/// The read source that an input argument names, once whether it leads to a
/// regular file is known: no argument or "-" is the standard input stream, a
/// name that leads to a file is that file, any other name is no source.
pub fn classify_reader(r: Option<&str>, is_file: bool) -> (res: Option<ReadFrom>)
    ensures
        match r {
            None => res == Some(ReadFrom::Stdin),
            Some(s) => if s@ == seq!['-'] {
                res == Some(ReadFrom::Stdin)
            } else if is_file {
                match res {
                    Some(ReadFrom::File(p)) => p@ == s@,
                    _ => false,
                }
            } else {
                res is None
            },
        },
{
    match r {
        None => Some(ReadFrom::Stdin),
        Some(s) => {
            if is_dash(s) {
                Some(ReadFrom::Stdin)
            } else if is_file {
                Some(ReadFrom::File(s.to_owned()))
            } else {
                None
            }
        },
    }
}

/// The read source that an input argument names: no argument or "-" is the
/// standard input stream; another name is that file if it leads to a regular
/// file now, else no source.
pub fn get_reader(r: Option<&str>) -> (res: Option<ReadFrom>)
    ensures
        match r {
            None => res == Some(ReadFrom::Stdin),
            Some(s) => if s@ == seq!['-'] {
                res == Some(ReadFrom::Stdin)
            } else {
                match res {
                    Some(ReadFrom::File(p)) => p@ == s@,
                    None => true,
                    _ => false,
                }
            },
        },
{
    match r {
        None => classify_reader(r, false),
        Some(s) => {
            if is_dash(s) {
                classify_reader(r, false)
            } else {
                let is_file = path_is_file(s);
                classify_reader(r, is_file)
            }
        },
    }
}

} // verus!
