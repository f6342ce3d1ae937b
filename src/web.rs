use crate::text::{chars_equal, chars_of, decimal, push_decimal, string_of_chars};
use vstd::prelude::*;

verus! {

/// A fetched page: its address and its text.
#[derive(Debug, Clone)]
pub struct Page {
    pub url: String,
    pub content: String,
}

impl Page {
    /// A page with the given address and text.
    pub fn new(url: &str, cnt: &str) -> (r: Page)
        ensures
            r.url@ == url@,
            r.content@ == cnt@,
    {
        Page { url: string_of_chars(&chars_of(url)), content: string_of_chars(&chars_of(cnt)) }
    }
}

/// The decimal code points of `cs`, one after the other.
pub open spec fn code_digits(cs: Seq<char>) -> Seq<char>
    decreases cs.len(),
{
    if cs.len() == 0 {
        seq![]
    } else {
        code_digits(cs.drop_last()) + decimal(cs.last() as u32 as nat)
    }
}

/// The directory that cached pages are kept in, with the path separator.
pub open spec fn cache_dir() -> Seq<char> {
    seq!['.', 'c', 'a', 'c', 'h', 'e', '/']
}

/// The cache file name of a page address: the cache directory followed by
/// the decimal code point of each character of `name`.
pub fn cache_path(name: &str) -> (r: String)
    ensures
        r@ == cache_dir() + code_digits(name@),
{
    let cs = chars_of(name);
    let mut out: Vec<char> = vec!['.', 'c', 'a', 'c', 'h', 'e', '/'];
    let mut i: usize = 0;
    assert(cs@.take(0) =~= Seq::<char>::empty());
    assert(out@ =~= cache_dir() + code_digits(cs@.take(0)));
    while i < cs.len()
        invariant
            i <= cs@.len(),
            cs@ == name@,
            out@ == cache_dir() + code_digits(cs@.take(i as int)),
        decreases cs@.len() - i,
    {
        push_decimal(&mut out, cs[i] as u32 as u64);
        assert(cs@.take(i + 1).drop_last() =~= cs@.take(i as int));
        assert(out@ =~= cache_dir() + code_digits(cs@.take(i + 1)));
        i = i + 1;
    }
    assert(cs@.take(i as int) =~= cs@);
    string_of_chars(&out)
}

} // verus!

verus! {

/// Why a code block could not be decoded.
#[derive(Debug, PartialEq, Clone)]
pub enum DecodeError {
    /// An entity other than `lt`, `gt` and `amp`.
    UnknownEntity(String),
    /// A `<` inside a tag.
    TagMismatch,
    /// The text ends inside an entity.
    UnclosedEntity(String),
    /// The text ends inside a tag.
    UnclosedTag,
}

/// The mathematical model of a `DecodeError`.
pub enum DecodeErrorV {
    UnknownEntity(Seq<char>),
    TagMismatch,
    UnclosedEntity(Seq<char>),
    UnclosedTag,
}

impl View for DecodeError {
    type V = DecodeErrorV;

    open spec fn view(&self) -> DecodeErrorV {
        match self {
            DecodeError::UnknownEntity(s) => DecodeErrorV::UnknownEntity(s@),
            DecodeError::TagMismatch => DecodeErrorV::TagMismatch,
            DecodeError::UnclosedEntity(s) => DecodeErrorV::UnclosedEntity(s@),
            DecodeError::UnclosedTag => DecodeErrorV::UnclosedTag,
        }
    }
}

/// The character that a named entity stands for.
pub open spec fn entity_char(name: Seq<char>) -> Option<char> {
    if name == seq!['l', 't'] {
        Some('<')
    } else if name == seq!['g', 't'] {
        Some('>')
    } else if name == seq!['a', 'm', 'p'] {
        Some('&')
    } else {
        None
    }
}

/// Decodes `cs`, given the text `out` decoded so far, the name of the
/// entity being read if any, and whether a tag is open. Tags are dropped,
/// entities replaced, and a no-break space becomes a space.
pub open spec fn decode_from(
    entity: Option<Seq<char>>,
    in_tag: bool,
    out: Seq<char>,
    cs: Seq<char>,
) -> Result<Seq<char>, DecodeErrorV>
    decreases cs.len(),
{
    if cs.len() == 0 {
        match entity {
            Some(name) => Err(DecodeErrorV::UnclosedEntity(name)),
            None => if in_tag {
                Err(DecodeErrorV::UnclosedTag)
            } else {
                Ok(out)
            },
        }
    } else {
        let c = cs[0];
        let rest = cs.drop_first();
        match entity {
            Some(name) => if c != ';' {
                decode_from(Some(name.push(c)), in_tag, out, rest)
            } else {
                match entity_char(name) {
                    Some(x) => decode_from(None, in_tag, out.push(x), rest),
                    None => Err(DecodeErrorV::UnknownEntity(name)),
                }
            },
            None => if in_tag {
                if c == '>' {
                    decode_from(None, false, out, rest)
                } else if c == '<' {
                    Err(DecodeErrorV::TagMismatch)
                } else if c == '&' {
                    decode_from(Some(seq![]), true, out, rest)
                } else {
                    decode_from(None, true, out, rest)
                }
            } else if c == '&' {
                decode_from(Some(seq![]), false, out, rest)
            } else if c == '<' {
                decode_from(None, true, out, rest)
            } else if c == '\u{a0}' {
                decode_from(None, false, out.push(' '), rest)
            } else {
                decode_from(None, false, out.push(c), rest)
            },
        }
    }
}

fn entity_of(name: &Vec<char>) -> (r: Option<char>)
    ensures
        r == entity_char(name@),
{
    let lt = vec!['l', 't'];
    let gt = vec!['g', 't'];
    let amp = vec!['a', 'm', 'p'];
    assert(lt@ =~= seq!['l', 't']);
    assert(gt@ =~= seq!['g', 't']);
    assert(amp@ =~= seq!['a', 'm', 'p']);
    if chars_equal(name, &lt) {
        Some('<')
    } else if chars_equal(name, &gt) {
        Some('>')
    } else if chars_equal(name, &amp) {
        Some('&')
    } else {
        None
    }
}

/// Turns the HTML of a code block into plain text.
pub fn decode(page: &str) -> (r: Result<String, DecodeError>)
    ensures
        match decode_from(None, false, seq![], page@) {
            Ok(s) => r is Ok && r->Ok_0@ == s,
            Err(e) => r is Err && r->Err_0@ == e,
        },
{
    let cs = chars_of(page);
    let mut entity: Option<Vec<char>> = None;
    let mut inside_tag = false;
    let mut ret: Vec<char> = Vec::new();
    let mut i: usize = 0;
    assert(cs@.skip(0) =~= cs@);
    while i < cs.len()
        invariant
            i <= cs@.len(),
            cs@ == page@,
            decode_from(None, false, seq![], page@) == decode_from(
                match entity {
                    Some(v) => Some(v@),
                    None => None,
                },
                inside_tag,
                ret@,
                cs@.skip(i as int),
            ),
        decreases cs@.len() - i,
    {
        let c = cs[i];
        assert(cs@.skip(i as int)[0] == c);
        assert(cs@.skip(i as int).drop_first() =~= cs@.skip(i + 1));
        match entity {
            Some(mut name) => {
                if c != ';' {
                    name.push(c);
                    entity = Some(name);
                } else {
                    match entity_of(&name) {
                        Some(x) => ret.push(x),
                        None => return Err(DecodeError::UnknownEntity(string_of_chars(&name))),
                    }
                    entity = None;
                }
            },
            None => {
                if inside_tag {
                    if c == '>' {
                        inside_tag = false;
                    } else if c == '<' {
                        return Err(DecodeError::TagMismatch);
                    } else if c == '&' {
                        entity = Some(Vec::new());
                    }
                } else if c == '&' {
                    entity = Some(Vec::new());
                } else if c == '<' {
                    inside_tag = true;
                } else if c == '\u{a0}' {
                    ret.push(' ');
                } else {
                    ret.push(c);
                }
            },
        }
        i = i + 1;
    }
    assert(cs@.skip(i as int) =~= Seq::<char>::empty());
    match entity {
        Some(name) => Err(DecodeError::UnclosedEntity(string_of_chars(&name))),
        None => if inside_tag {
            Err(DecodeError::UnclosedTag)
        } else {
            Ok(string_of_chars(&ret))
        },
    }
}

} // verus!

verus! {

/// The opening tag of a code block.
pub open spec fn pre_open() -> Seq<char> {
    seq!['<', 'p', 'r', 'e', '>']
}

/// The closing tag of a code block.
pub open spec fn pre_close() -> Seq<char> {
    seq!['<', '/', 'p', 'r', 'e', '>']
}

/// The first position at or after `from` where `pat` occurs in `s`.
pub open spec fn find_from(s: Seq<char>, pat: Seq<char>, from: nat) -> Option<nat>
    decreases s.len() + 1 - from,
{
    if from + pat.len() > s.len() {
        None
    } else if s.subrange(from as int, (from + pat.len()) as int) == pat {
        Some(from)
    } else {
        find_from(s, pat, from + 1)
    }
}

/// The code blocks of `s`, left to right: each runs from an opening tag to
/// the first closing tag after it, both included, and the next is looked
/// for after it.
pub open spec fn pre_blocks(s: Seq<char>) -> Seq<Seq<char>>
    decreases s.len(),
{
    match find_from(s, pre_open(), 0) {
        None => seq![],
        Some(o) => match find_from(s, pre_close(), o + 5) {
            None => seq![],
            Some(c) => if c + 6 <= s.len() {
                seq![s.subrange(o as int, (c + 6) as int)] + pre_blocks(s.skip((c + 6) as int))
            } else {
                seq![]
            },
        },
    }
}

/// Relies on regex's `Regex::find_iter` with the pattern `<pre>[\s\S]*?</pre>`:
/// the leftmost-first, non-overlapping matches of a lazy pattern, which are
/// the blocks that `pre_blocks` describes. The pattern is valid, so
/// `Regex::new` does not fail.
#[verifier::external_body]
fn pre_matches(html: &str) -> (r: Vec<String>)
    ensures
        r@.len() == pre_blocks(html@).len(),
        forall|i: int| 0 <= i < r@.len() ==> #[trigger] r@[i]@ == pre_blocks(html@)[i],
{
    let re = regex::Regex::new(r"<pre>[\s\S]*?</pre>").unwrap();
    re.find_iter(html).map(|m| m.as_str().to_string()).collect()
}

/// The `<pre>` blocks of a page, tags included, in order.
pub fn find_code_blocks(html: &str) -> (r: Vec<String>)
    ensures
        r@.len() == pre_blocks(html@).len(),
        forall|i: int| 0 <= i < r@.len() ==> #[trigger] r@[i]@ == pre_blocks(html@)[i],
{
    pre_matches(html)
}

} // verus!
