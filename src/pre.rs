use crate::text::{chars_of, string_of_chars};
use vstd::prelude::*;

verus! {

/// `cs` with its `//` comments removed. Within a comment (`in_comment`)
/// everything up to the end of the line is dropped; the line break stays.
/// A `/` that does not start a comment is kept together with the character
/// after it.
pub open spec fn strip_comments(in_comment: bool, cs: Seq<char>) -> Seq<char>
    decreases cs.len(),
{
    if cs.len() == 0 {
        seq![]
    } else if in_comment {
        if cs[0] == '\n' {
            seq!['\n'] + strip_comments(false, cs.drop_first())
        } else {
            strip_comments(true, cs.drop_first())
        }
    } else if cs[0] == '/' {
        if cs.len() == 1 {
            seq!['/']
        } else if cs[1] == '/' {
            strip_comments(true, cs.skip(2))
        } else {
            seq!['/', cs[1]] + strip_comments(false, cs.skip(2))
        }
    } else {
        seq![cs[0]] + strip_comments(false, cs.drop_first())
    }
}

/// Removes every `//` comment, up to the end of its line, from `code`.
pub fn remove_single_line_comments(code: &str) -> (r: String)
    ensures
        r@ == strip_comments(false, code@),
{
    let cs = chars_of(code);
    let mut out: Vec<char> = Vec::new();
    let mut in_comment = false;
    let mut i: usize = 0;
    assert(cs@.skip(0) =~= cs@);
    assert(out@ + strip_comments(false, cs@) =~= strip_comments(false, cs@));
    while i < cs.len()
        invariant
            i <= cs@.len(),
            strip_comments(false, code@) == out@ + strip_comments(in_comment, cs@.skip(i as int)),
            cs@ == code@,
        decreases cs@.len() - i,
    {
        let ghost rest = cs@.skip(i as int);
        let c = cs[i];
        assert(rest[0] == c);
        assert(rest.drop_first() =~= cs@.skip(i + 1));
        if in_comment {
            if c == '\n' {
                let ghost before = out@;
                out.push(c);
                in_comment = false;
                assert(out@ =~= before + seq!['\n']);
            }
            i = i + 1;
        } else if c == '/' {
            if i + 1 < cs.len() {
                let d = cs[i + 1];
                assert(rest[1] == d);
                assert(rest.skip(2) =~= cs@.skip(i + 2));
                if d == '/' {
                    in_comment = true;
                } else {
                    let ghost before = out@;
                    out.push(c);
                    out.push(d);
                    assert(out@ =~= before + seq!['/', d]);
                }
                i = i + 2;
            } else {
                let ghost before = out@;
                out.push(c);
                assert(out@ =~= before + seq!['/']);
                assert(cs@.skip(i + 1) =~= Seq::<char>::empty());
                i = i + 1;
            }
        } else {
            let ghost before = out@;
            out.push(c);
            assert(out@ =~= before + seq![c]);
            i = i + 1;
        }
    }
    assert(cs@.skip(i as int) =~= Seq::<char>::empty());
    assert(out@ + Seq::<char>::empty() =~= out@);
    string_of_chars(&out)
}

/// Removes every `//` comment, up to the end of its line, from `code`.
pub fn remove_single_line_comment(code: &str) -> (r: String)
    ensures
        r@ == strip_comments(false, code@),
{
    remove_single_line_comments(code)
}

} // verus!
