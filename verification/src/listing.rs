//! The listing document: the registry's answer to a listing request.
//!
//! The listing endpoint answers `{"files": [path, ...]}`: a flat, ordered
//! sequence of absolute remote file paths under the requested root. No
//! distinction between a file and a directory of one file is made here;
//! the downloader infers that from the root's name.

use crate::errors::RetrievalError;
use crate::json::{
    chars_of, parse_string, skip_value, skip_ws, spec_parse_string, spec_skip_value, spec_skip_ws,
};
use crate::utils::str_eq;
use vstd::prelude::*;

verus! {

/// The registry's answer to a listing request.
pub struct ListFileResponse {
    pub files: Vec<String>,
}

/// Decodes the elements of an array of strings from the first element at
/// `i` up to and over the closing bracket.
pub open spec fn spec_parse_str_elements(s: Seq<char>, i: int) -> Option<(Seq<Seq<char>>, int)>
    decreases s.len() - i when 0 <= i <= s.len()
{
    match spec_parse_string(s, i) {
        None => None,
        Some((v, e)) => if !(i < e <= s.len()) {
            None
        } else {
            let m = spec_skip_ws(s, e);
            if !(e <= m <= s.len()) {
                None
            } else if m < s.len() && s[m] == ',' {
                let n = spec_skip_ws(s, m + 1);
                if !(m + 1 <= n <= s.len()) {
                    None
                } else {
                    match spec_parse_str_elements(s, n) {
                        None => None,
                        Some((r, e2)) => Some((seq![v] + r, e2)),
                    }
                }
            } else if m < s.len() && s[m] == ']' {
                Some((seq![v], m + 1))
            } else {
                None
            }
        },
    }
}

/// Decodes a whole array of strings whose opening bracket stands at `i`.
pub open spec fn spec_parse_str_array(s: Seq<char>, i: int) -> Option<(Seq<Seq<char>>, int)> {
    if 0 <= i < s.len() && s[i] == '[' {
        let j = spec_skip_ws(s, i + 1);
        if !(i + 1 <= j <= s.len()) {
            None
        } else if j < s.len() && s[j] == ']' {
            Some((Seq::empty(), j + 1))
        } else {
            spec_parse_str_elements(s, j)
        }
    } else {
        None
    }
}

/// Reads the members of the listing object from the first member's key at
/// `i` up to and over the closing brace. `b` carries the file list once its
/// member was seen; a second `files` member is malformed, any other member
/// is stepped over.
pub open spec fn spec_parse_listing_members(
    s: Seq<char>,
    i: int,
    b: Option<Seq<Seq<char>>>,
) -> Option<(Option<Seq<Seq<char>>>, int)>
    decreases s.len() - i when 0 <= i <= s.len()
{
    match spec_parse_string(s, i) {
        None => None,
        Some((key, e)) => if !(i < e <= s.len()) {
            None
        } else {
            let j = spec_skip_ws(s, e);
            if !(e <= j <= s.len()) {
                None
            } else if j < s.len() && s[j] == ':' {
                let k = spec_skip_ws(s, j + 1);
                if !(j + 1 <= k <= s.len()) {
                    None
                } else {
                    let parsed = if key == "files"@ {
                        if b is Some {
                            None
                        } else {
                            match spec_parse_str_array(s, k) {
                                None => None,
                                Some((arr, ve)) => Some((Some(arr), ve)),
                            }
                        }
                    } else {
                        match spec_skip_value(s, k) {
                            None => None,
                            Some(ve) => Some((b, ve)),
                        }
                    };
                    match parsed {
                        None => None,
                        Some((b2, ve)) => if !(k <= ve <= s.len()) {
                            None
                        } else {
                            let m = spec_skip_ws(s, ve);
                            if !(ve <= m <= s.len()) {
                                None
                            } else if m < s.len() && s[m] == ',' {
                                let n = spec_skip_ws(s, m + 1);
                                if !(m + 1 <= n <= s.len()) {
                                    None
                                } else {
                                    spec_parse_listing_members(s, n, b2)
                                }
                            } else if m < s.len() && s[m] == '}' {
                                Some((b2, m + 1))
                            } else {
                                None
                            }
                        },
                    }
                }
            } else {
                None
            }
        },
    }
}

/// The file list a whole listing document holds, if it is well formed: one
/// object with a `files` member holding an array of strings, nothing but
/// whitespace around it.
pub open spec fn spec_parse_listing(s: Seq<char>) -> Option<Seq<Seq<char>>> {
    let i = spec_skip_ws(s, 0);
    if 0 <= i <= s.len() && i < s.len() && s[i] == '{' {
        let j = spec_skip_ws(s, i + 1);
        if !(i + 1 <= j <= s.len()) {
            None
        } else if j < s.len() && s[j] == '}' {
            // No members: the required `files` member is missing.
            None
        } else {
            match spec_parse_listing_members(s, j, None) {
                None => None,
                Some((b, e)) => if 0 <= e <= s.len() {
                    let t = spec_skip_ws(s, e);
                    if t == s.len() {
                        b
                    } else {
                        None
                    }
                } else {
                    None
                },
            }
        }
    } else {
        None
    }
}

/// Decodes a whole array of strings whose opening bracket stands at `i`,
/// returning the decoded texts and the position after the bracket.
fn parse_str_array(s: &Vec<char>, i: usize) -> (r: Option<(Vec<String>, usize)>)
    requires
        i <= s@.len(),
    ensures
        r matches Some(p) ==> spec_parse_str_array(s@, i as int) == Some(
            (p.0.deep_view(), p.1 as int),
        ) && i < p.1 <= s@.len(),
        r is None ==> spec_parse_str_array(s@, i as int) is None,
{
    if i >= s.len() || s[i] != '[' {
        return None;
    }
    let j0 = skip_ws(s, i + 1);
    if j0 < s.len() && s[j0] == ']' {
        let out: Vec<String> = Vec::new();
        assert(out.deep_view() =~= Seq::<Seq<char>>::empty());
        return Some((out, j0 + 1));
    }
    let mut pos = j0;
    let mut acc: Vec<String> = Vec::new();
    loop
        invariant
            i + 1 <= pos <= s@.len(),
            i < s@.len(),
            s@[i as int] == '[',
            j0 as int == spec_skip_ws(s@, i as int + 1),
            i + 1 <= j0 <= s@.len(),
            !(j0 < s@.len() && s@[j0 as int] == ']'),
            spec_parse_str_elements(s@, j0 as int) == (match spec_parse_str_elements(
                s@,
                pos as int,
            ) {
                Some((r2, e)) => Some((acc.deep_view() + r2, e)),
                None => None::<(Seq<Seq<char>>, int)>,
            }),
        decreases s@.len() - pos,
    {
        let parsed = parse_string(s, pos);
        if parsed.is_none() {
            return None;
        }
        let (v, e) = parsed.unwrap();
        let m = skip_ws(s, e);
        if m < s.len() && s[m] == ',' {
            let n = skip_ws(s, m + 1);
            let ghost pre = acc.deep_view();
            let ghost vv = v@;
            acc.push(v);
            proof {
                assert(acc.deep_view() =~~= pre + seq![vv]);
                if let Some((r2, e2)) = spec_parse_str_elements(s@, n as int) {
                    assert(pre + (seq![vv] + r2) =~~= acc.deep_view() + r2);
                }
            }
            pos = n;
        } else if m < s.len() && s[m] == ']' {
            let ghost pre = acc.deep_view();
            let ghost vv = v@;
            acc.push(v);
            proof {
                assert(acc.deep_view() =~~= pre + seq![vv]);
                assert(pre + seq![vv] =~~= acc.deep_view());
            }
            return Some((acc, m + 1));
        } else {
            return None;
        }
    }
}

/// What a listing fetch's status means: only a success status lets the
/// body be read as a listing document; anything else is the `Listing`
/// failure carrying the server's error text.
pub fn classify_listing_response(status: u16, error_text: &str) -> (r: Result<
    (),
    RetrievalError,
>)
    ensures
        r is Ok <==> crate::spec_is_success_status(status),
        r matches Err(e) ==> e matches RetrievalError::Listing(t) && t@ == error_text@,
{
    if 200 <= status && status < 300 {
        Ok(())
    } else {
        Err(RetrievalError::Listing(error_text.to_owned()))
    }
}

fn listing_err() -> (r: RetrievalError)
    ensures
        r is Listing,
{
    RetrievalError::Listing("malformed listing document".to_owned())
}

/// Reads a listing document. Succeeds on exactly the documents that
/// `spec_parse_listing` gives a file list, and returns that list in order.
pub fn parse_listing(text: &str) -> (r: Result<ListFileResponse, RetrievalError>)
    ensures
        r matches Ok(l) ==> spec_parse_listing(text@) == Some(l.files.deep_view()),
        r matches Err(e) ==> spec_parse_listing(text@) is None && e is Listing,
{
    let doc = chars_of(text);
    let i = skip_ws(&doc, 0);
    if !(i < doc.len()) || doc[i] != '{' {
        return Err(listing_err());
    }
    let j = skip_ws(&doc, i + 1);
    if j < doc.len() && doc[j] == '}' {
        return Err(listing_err());
    }
    let mut b: Option<Vec<String>> = None;
    let mut pos = j;
    let ghost start = j as int;
    loop
        invariant
            pos <= doc@.len(),
            doc@ == text@,
            start == spec_skip_ws(text@, spec_skip_ws(text@, 0) + 1),
            0 <= spec_skip_ws(text@, 0),
            spec_skip_ws(text@, 0) + 1 <= start <= text@.len(),
            spec_skip_ws(text@, 0) < text@.len(),
            text@[spec_skip_ws(text@, 0)] == '{',
            !(start < text@.len() && text@[start] == '}'),
            spec_parse_listing_members(doc@, start, None) == spec_parse_listing_members(
                doc@,
                pos as int,
                (match b {
                    Some(ref fs) => Some(fs.deep_view()),
                    None => None,
                }),
            ),
        decreases doc@.len() - pos,
    {
        let parsed_key = parse_string(&doc, pos);
        if parsed_key.is_none() {
            return Err(listing_err());
        }
        let (key, e) = parsed_key.unwrap();
        let jj = skip_ws(&doc, e);
        if !(jj < doc.len()) || doc[jj] != ':' {
            return Err(listing_err());
        }
        let k = skip_ws(&doc, jj + 1);
        let b2: Option<Vec<String>>;
        let ve: usize;
        if str_eq(key.as_str(), "files") {
            if b.is_some() {
                return Err(listing_err());
            }
            match parse_str_array(&doc, k) {
                None => {
                    return Err(listing_err());
                },
                Some((arr, e2)) => {
                    b2 = Some(arr);
                    ve = e2;
                },
            }
        } else {
            match skip_value(&doc, k) {
                None => {
                    return Err(listing_err());
                },
                Some(e2) => {
                    b2 = b;
                    ve = e2;
                },
            }
        }
        let m = skip_ws(&doc, ve);
        if m < doc.len() && doc[m] == ',' {
            let n = skip_ws(&doc, m + 1);
            b = b2;
            pos = n;
        } else if m < doc.len() && doc[m] == '}' {
            let t = skip_ws(&doc, m + 1);
            if t == doc.len() {
                match b2 {
                    Some(files) => {
                        return Ok(ListFileResponse { files });
                    },
                    None => {
                        return Err(listing_err());
                    },
                }
            } else {
                return Err(listing_err());
            }
        } else {
            return Err(listing_err());
        }
    }
}

} // verus!
