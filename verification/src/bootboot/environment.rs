//! Comment stripping for the boot environment file.
//!
//! The raw file may hold `//` line comments and `/* ... */` block
//! comments; this parser copies everything else through, collapsing
//! leading and repeated newlines, and rejects a file whose comments are
//! left open or whose stripped text no longer fits the 4 KiB the
//! protocol reserves for the environment.

use vstd::prelude::*;

use crate::utils::{byte_chars, char_bytes, string_from_ascii_bytes};

verus! {

/// An error from stripping the environment file.
#[derive(Clone, Copy, Debug, PartialEq, Eq, Structural)]
pub enum ParseError {
    IncompleteComment,
    TooLarge,
}

/// One pass of the comment stripper from byte `i` of `b`, carrying the
/// single-line and block comment flags, whether any text has been
/// copied yet, and the text copied so far.
///
/// Inside a block comment a `*` consumes the byte after it, closing the
/// comment only when that byte is `/`.  A `/` outside comments opens a
/// comment when `/` or `*` follows, is copied through together with the
/// following byte otherwise, and is copied alone when it ends the file.
/// A newline is dropped while nothing has been copied yet or directly
/// after another newline.  A comment left open at the end of the file is
/// an error, as is stripped text longer than 4096 bytes.
pub open spec fn spec_strip_from(
    b: Seq<u8>,
    i: int,
    single: bool,
    multi: bool,
    start: bool,
    acc: Seq<u8>,
) -> Result<Seq<u8>, ParseError>
    decreases b.len() - i,
{
    if i < 0 || i >= b.len() {
        if multi || single {
            Err(ParseError::IncompleteComment)
        } else if acc.len() > 4096 {
            Err(ParseError::TooLarge)
        } else {
            Ok(acc)
        }
    } else {
        let c = b[i];
        if multi {
            if c == 0x2a {
                if i + 1 >= b.len() {
                    Err(ParseError::IncompleteComment)
                } else if b[i + 1] == 0x2f {
                    spec_strip_from(b, i + 2, single, false, start, acc)
                } else {
                    spec_strip_from(b, i + 2, single, true, start, acc)
                }
            } else {
                spec_strip_from(b, i + 1, single, multi, start, acc)
            }
        } else if single {
            if c == 0x0a {
                spec_strip_from(b, i + 1, false, multi, start, acc)
            } else {
                spec_strip_from(b, i + 1, single, multi, start, acc)
            }
        } else if c == 0x2f {
            if i + 1 >= b.len() {
                if acc.push(0x2f).len() > 4096 {
                    Err(ParseError::TooLarge)
                } else {
                    Ok(acc.push(0x2f))
                }
            } else if b[i + 1] == 0x2f {
                spec_strip_from(b, i + 2, true, multi, start, acc)
            } else if b[i + 1] == 0x2a {
                spec_strip_from(b, i + 2, single, true, start, acc)
            } else {
                spec_strip_from(b, i + 2, single, multi, start, acc.push(0x2f).push(b[i + 1]))
            }
        } else if c == 0x0a && (start || (acc.len() > 0 && acc.last() == 0x0a)) {
            spec_strip_from(b, i + 1, single, multi, start, acc)
        } else {
            spec_strip_from(b, i + 1, single, multi, false, acc.push(c))
        }
    }
}

/// The whole stripped form of `b`, or the error the stripper stops with.
pub open spec fn spec_strip(b: Seq<u8>) -> Result<Seq<u8>, ParseError> {
    spec_strip_from(b, 0, false, false, true, Seq::empty())
}

/// Bootboot environment: the stripped text of the environment file.
pub struct Environment {
    pub env: String,
}

impl Environment {
    /// Strips comments and redundant newlines from the raw environment
    /// file.
    ///
    /// The file's text must be ASCII.  Returns `IncompleteComment` when a
    /// comment is still open at the end of the file and `TooLarge` when
    /// the stripped text exceeds 4096 bytes.
    pub fn parse(raw_env: &String) -> (r: Result<Self, ParseError>)
        requires
            vstd::string::string_is_ascii(raw_env),
        ensures
            r is Ok <==> spec_strip(char_bytes(raw_env@)) is Ok,
            r matches Err(e) ==> spec_strip(char_bytes(raw_env@)) == Err::<Seq<u8>, ParseError>(
                e,
            ),
            r matches Ok(env) ==> spec_strip(char_bytes(raw_env@)) matches Ok(st) && env.env@
                == byte_chars(st),
    {
        let raw_str = raw_env.as_str();
        let bytes = raw_str.as_bytes();
        proof {
            vstd::string::is_ascii_spec_bytes(raw_str);
            assert(bytes@ =~= char_bytes(raw_env@));
            assert(forall|k: int| 0 <= k < bytes@.len() ==> bytes@[k] < 128) by {
                assert(forall|k: int| 0 <= k < raw_env@.len() ==> (#[trigger] raw_env@[k])
                    <= '\u{7f}');
            }
        }
        let ghost gb = bytes@;
        let len = bytes.len();
        let mut env: Vec<u8> = Vec::new();
        let mut i: usize = 0;
        let mut single_comment = false;
        let mut multi_comment = false;
        let mut is_start = true;
        while i < len
            invariant
                i <= len,
                len == gb.len(),
                gb == bytes@,
                gb == char_bytes(raw_env@),
                forall|k: int| 0 <= k < gb.len() ==> gb[k] < 128,
                forall|k: int| 0 <= k < env@.len() ==> env@[k] < 128,
                spec_strip(gb) == spec_strip_from(
                    gb,
                    i as int,
                    single_comment,
                    multi_comment,
                    is_start,
                    env@,
                ),
            decreases len - i,
        {
            let c = bytes[i];
            if multi_comment {
                if c == 0x2a {
                    if i + 1 >= len {
                        return Err(ParseError::IncompleteComment);
                    }
                    if bytes[i + 1] == 0x2f {
                        multi_comment = false;
                    }
                    i = i + 2;
                } else {
                    i = i + 1;
                }
            } else if single_comment {
                if c == 0x0a {
                    single_comment = false;
                }
                i = i + 1;
            } else if c == 0x2f {
                if i + 1 >= len {
                    env.push(0x2f);
                    if env.len() > 4096 {
                        return Err(ParseError::TooLarge);
                    }
                    let text = string_from_ascii_bytes(env);
                    proof {
                        assert(text@ =~= byte_chars(spec_strip(gb)->Ok_0));
                    }
                    return Ok(Environment { env: text });
                }
                let c2 = bytes[i + 1];
                if c2 == 0x2f {
                    single_comment = true;
                } else if c2 == 0x2a {
                    multi_comment = true;
                } else {
                    env.push(0x2f);
                    env.push(c2);
                }
                i = i + 2;
            } else if c == 0x0a && (is_start || (env.len() > 0 && env[env.len() - 1] == 0x0a)) {
                i = i + 1;
            } else {
                env.push(c);
                is_start = false;
                i = i + 1;
            }
        }
        if multi_comment || single_comment {
            return Err(ParseError::IncompleteComment);
        }
        if env.len() > 4096 {
            return Err(ParseError::TooLarge);
        }
        let text = string_from_ascii_bytes(env);
        proof {
            assert(text@ =~= byte_chars(spec_strip(gb)->Ok_0));
        }
        Ok(Environment { env: text })
    }
}

} // verus!
