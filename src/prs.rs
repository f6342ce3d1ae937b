use crate::error::{CompileError, ErrorV};
use crate::tok::{expect_token, lex, ReadChar, Token, TokenStream, TokenV};
use crate::types::{
    has_field, has_key, inject_fields, layout_size, lemma_inject_size, lookup, make_pointer, put_entry,
    same_layout, shifted, FieldV, GlobalNameSpace, Layout, NameV, Struct, Type, TypeName, TypeV,
    Union,
};
use vstd::prelude::*;

verus! {

/// The size of every pointer.
pub const POINTER_SIZE: usize = 4;

/// What is left of `toks` after an optional tag.
pub open spec fn skip_tag(toks: Seq<TokenV>) -> Seq<TokenV> {
    if toks.len() > 0 && toks[0] is Ident {
        toks.drop_first()
    } else {
        toks
    }
}

/// The offset at which a new direct member of `acc` is placed.
pub open spec fn member_offset(is_union: bool, acc: Seq<FieldV>) -> nat {
    if is_union {
        0
    } else {
        layout_size(acc)
    }
}

/// An aggregate body: `{`, at least one field, `}`. Gives its fields and
/// the tokens after it.
pub open spec fn agg_body(is_union: bool, toks: Seq<TokenV>) -> Result<
    (Seq<FieldV>, Seq<TokenV>),
    ErrorV,
>
    decreases toks.len(), 2nat,
{
    match expect_token(toks, TokenV::LeftBrace) {
        Err(e) => Err(e),
        Ok(rest) => agg_fields(is_union, seq![], rest),
    }
}

/// The fields of a body after `{`, given the fields `acc` read so far.
pub open spec fn agg_fields(is_union: bool, acc: Seq<FieldV>, toks: Seq<TokenV>) -> Result<
    (Seq<FieldV>, Seq<TokenV>),
    ErrorV,
>
    decreases toks.len(), 1nat,
{
    if toks.len() == 0 {
        Err(ErrorV::UnexpectedEof)
    } else {
        let rest = toks.drop_first();
        match toks[0] {
            TokenV::RightBrace => if acc.len() == 0 {
                Err(ErrorV::EmptyAggregate)
            } else {
                Ok((acc, rest))
            },
            TokenV::Struct => agg_nested(is_union, acc, false, skip_tag(rest), toks.len()),
            TokenV::Union => agg_nested(is_union, acc, true, skip_tag(rest), toks.len()),
            TokenV::Ident(_) => agg_declarator(is_union, acc, 0, rest),
            TokenV::Dword => agg_declarator(is_union, acc, 4, rest),
            TokenV::Word => agg_declarator(is_union, acc, 2, rest),
            TokenV::Byte => agg_declarator(is_union, acc, 1, rest),
            t => Err(ErrorV::UnexpectedToken(t)),
        }
    }
}

/// A nested aggregate inside a body: followed by `;` its fields are
/// injected (moved past the end of a struct, kept as they are in a union),
/// else it is the type of one named field.
pub open spec fn agg_nested(
    is_union: bool,
    acc: Seq<FieldV>,
    inner_union: bool,
    toks: Seq<TokenV>,
    bound: nat,
) -> Result<(Seq<FieldV>, Seq<TokenV>), ErrorV>
    decreases bound, 0nat,
{
    if toks.len() >= bound {
        Err(ErrorV::UnexpectedEof)
    } else {
        match agg_body(inner_union, toks) {
            Err(e) => Err(e),
            Ok((inner, rest)) => if rest.len() >= toks.len() {
                Err(ErrorV::UnexpectedEof)
            } else if rest.len() > 0 && rest[0] == TokenV::SemiColon {
                match inject_fields(acc, inner, member_offset(is_union, acc)) {
                    Err(e) => Err(e),
                    Ok(acc2) => agg_fields(is_union, acc2, rest.drop_first()),
                }
            } else {
                agg_declarator(is_union, acc, layout_size(inner), rest)
            },
        }
    }
}

/// The rest of a field after its base type of `size` bytes: pointer stars,
/// which make it a pointer, then its name and `;`.
pub open spec fn agg_declarator(
    is_union: bool,
    acc: Seq<FieldV>,
    size: nat,
    toks: Seq<TokenV>,
) -> Result<(Seq<FieldV>, Seq<TokenV>), ErrorV>
    decreases toks.len(), 0nat,
{
    if toks.len() == 0 {
        Err(ErrorV::UnexpectedEof)
    } else {
        match toks[0] {
            TokenV::Pointer => agg_declarator(is_union, acc, POINTER_SIZE as nat, toks.drop_first()),
            TokenV::Ident(n) => if has_field(acc, n) {
                Err(ErrorV::DuplicateField(n))
            } else {
                let f = FieldV { name: n, offset: member_offset(is_union, acc), size };
                match expect_token(toks.drop_first(), TokenV::SemiColon) {
                    Err(e) => Err(e),
                    Ok(rest) => agg_fields(is_union, acc.push(f), rest),
                }
            },
            t => Err(ErrorV::UnexpectedToken(t)),
        }
    }
}

} // verus!

verus! {

/// Parses an aggregate body (`{`, fields, `}`) from `reader`, as a struct
/// body or, with `is_union`, as a union body.
fn parse_body(reader: &mut TokenStream, is_union: bool) -> (r: Result<Layout, CompileError>)
    requires
        old(reader).wf(),
        old(reader)@.len() <= usize::MAX / 4,
    ensures
        final(reader).wf(),
        match agg_body(is_union, old(reader)@) {
            Ok((fs, rest)) => {
                &&& r is Ok
                &&& r->Ok_0@ == fs
                &&& r->Ok_0.wf()
                &&& final(reader)@ == rest
                &&& rest.len() < old(reader)@.len()
                &&& layout_size(fs) <= 4 * (old(reader)@.len() - rest.len())
            },
            Err(e) => r is Err && r->Err_0@ == e,
        },
    decreases old(reader)@.len(),
{
    let ghost orig = reader@;
    match reader.eat(Token::LeftBrace) {
        Ok(()) => {},
        Err(e) => return Err(e),
    }
    let mut ret = Layout::new();
    loop
        invariant
            reader.wf(),
            ret.wf(),
            orig == old(reader)@,
            orig.len() <= usize::MAX / 4,
            reader@.len() < orig.len(),
            layout_size(ret@) <= 4 * (orig.len() - reader@.len()),
            agg_body(is_union, orig) == agg_fields(is_union, ret@, reader@),
        decreases reader@.len(),
    {
        let ghost at = reader@;
        let token = match reader.read() {
            None => return Err(CompileError::UnexpectedEof),
            Some(x) => x,
        };
        let nested: Option<bool> = match token {
            Token::Struct => Some(false),
            Token::Union => Some(true),
            _ => None,
        };
        let mut size: usize;
        if let Some(inner_union) = nested {
            match reader.peek() {
                Some(Token::Ident(_)) => {
                    reader.read();
                },
                _ => {},
            }
            let ghost inner_at = reader@;
            assert(inner_at == skip_tag(at.drop_first()));
            assert(agg_fields(is_union, ret@, at) == agg_nested(
                is_union,
                ret@,
                inner_union,
                inner_at,
                at.len(),
            ));
            let inner = match parse_body(reader, inner_union) {
                Ok(l) => l,
                Err(e) => return Err(e),
            };
            let is_semi = match reader.peek() {
                Some(Token::SemiColon) => true,
                _ => false,
            };
            if is_semi {
                reader.read();
                let by: usize = if is_union {
                    0
                } else {
                    ret.size()
                };
                let ghost before = ret@;
                proof {
                    lemma_inject_size(before, inner@, by as nat);
                }
                match ret.inject(&inner, by) {
                    Ok(()) => {},
                    Err(e) => return Err(e),
                }
                continue ;
            }
            size = inner.size();
        } else {
            size = match token {
                Token::RightBrace => {
                    if ret.len() == 0 {
                        return Err(CompileError::EmptyAggregate);
                    }
                    return Ok(ret);
                },
                Token::Ident(_) => 0,
                Token::DWORD => 4,
                Token::WORD => 2,
                Token::BYTE => 1,
                _ => return Err(CompileError::UnexpectedToken(token)),
            };
        }
        loop
            invariant
                reader.wf(),
                ret.wf(),
                orig == old(reader)@,
                orig.len() <= usize::MAX / 4,
                reader@.len() < at.len(),
                at.len() <= orig.len(),
                layout_size(ret@) <= 4 * (orig.len() - at.len()),
                size <= 4 * (at.len() - reader@.len()),
                agg_body(is_union, orig) == agg_declarator(is_union, ret@, size as nat, reader@),
            ensures
                reader.wf(),
                reader@.len() < at.len(),
                size <= 4 * (at.len() - reader@.len()),
                agg_body(is_union, orig) == agg_declarator(is_union, ret@, size as nat, reader@),
                reader@.len() == 0 || reader@[0] != TokenV::Pointer,
            decreases reader@.len(),
        {
            match reader.peek() {
                Some(Token::Pointer) => {
                    reader.read();
                    size = POINTER_SIZE;
                },
                _ => break,
            }
        }
        match reader.read() {
            Some(Token::Ident(name)) => {
                if ret.position(&name).is_some() {
                    return Err(CompileError::DuplicateField(name));
                }
                let ghost before = ret@;
                let offset: usize = if is_union {
                    0
                } else {
                    ret.size()
                };
                ret.put(name, offset, size);
                assert(ret@.drop_last() =~= before);
            },
            Some(tok) => return Err(CompileError::UnexpectedToken(tok)),
            None => return Err(CompileError::UnexpectedEof),
        }
        match reader.eat(Token::SemiColon) {
            Ok(()) => {},
            Err(e) => return Err(e),
        }
    }
}

/// Parses a struct body from `reader`.
fn parse_struct(reader: &mut TokenStream) -> (r: Result<Struct, CompileError>)
    requires
        old(reader).wf(),
        old(reader)@.len() <= usize::MAX / 4,
    ensures
        final(reader).wf(),
        match agg_body(false, old(reader)@) {
            Ok((fs, rest)) => r is Ok && r->Ok_0@ == fs && r->Ok_0.wf() && final(reader)@ == rest
                && rest.len() < old(reader)@.len(),
            Err(e) => r is Err && r->Err_0@ == e,
        },
{
    match parse_body(reader, false) {
        Ok(layout) => Ok(Struct { layout }),
        Err(e) => Err(e),
    }
}

/// Parses a union body from `reader`.
fn parse_union(reader: &mut TokenStream) -> (r: Result<Union, CompileError>)
    requires
        old(reader).wf(),
        old(reader)@.len() <= usize::MAX / 4,
    ensures
        final(reader).wf(),
        match agg_body(true, old(reader)@) {
            Ok((fs, rest)) => r is Ok && r->Ok_0@ == fs && r->Ok_0.wf() && final(reader)@ == rest
                && rest.len() < old(reader)@.len(),
            Err(e) => r is Err && r->Err_0@ == e,
        },
{
    match parse_body(reader, true) {
        Ok(layout) => Ok(Union { layout }),
        Err(e) => Err(e),
    }
}

} // verus!

verus! {

/// The name of a struct tag, or with `is_union` of a union tag.
pub open spec fn tag_name(is_union: bool, n: Seq<char>) -> NameV {
    if is_union {
        NameV::Union(n)
    } else {
        NameV::Struct(n)
    }
}

/// A struct type, or with `is_union` a union type, of the given fields.
pub open spec fn agg_type(is_union: bool, fs: Seq<FieldV>) -> TypeV {
    if is_union {
        TypeV::Union(fs)
    } else {
        TypeV::Struct(fs)
    }
}

/// An aggregate with an optional tag, in a typedef: the tag's name if any,
/// the aggregate's type and the tokens after it.
pub open spec fn typedef_aggregate(is_union: bool, toks: Seq<TokenV>) -> Result<
    (Option<NameV>, TypeV, Seq<TokenV>),
    ErrorV,
> {
    let tag = if toks.len() > 0 && toks[0] is Ident {
        Some(tag_name(is_union, toks[0]->Ident_0))
    } else {
        None
    };
    match agg_body(is_union, skip_tag(toks)) {
        Err(e) => Err(e),
        Ok((fs, rest)) => Ok((tag, agg_type(is_union, fs), rest)),
    }
}

/// The base type of a typedef, with the tag it names if any.
pub open spec fn typedef_base(toks: Seq<TokenV>) -> Result<
    (Option<NameV>, TypeV, Seq<TokenV>),
    ErrorV,
> {
    if toks.len() == 0 {
        Err(ErrorV::UnexpectedEof)
    } else {
        let rest = toks.drop_first();
        match toks[0] {
            TokenV::Struct => typedef_aggregate(false, rest),
            TokenV::Union => typedef_aggregate(true, rest),
            TokenV::Dword => Ok((None, TypeV::Primitive(4), rest)),
            TokenV::Word => Ok((None, TypeV::Primitive(2), rest)),
            TokenV::Byte => Ok((None, TypeV::Primitive(1), rest)),
            TokenV::Ident(n) => Ok((None, TypeV::Unknown(NameV::Normal(n)), rest)),
            t => Err(ErrorV::UnexpectedToken(t)),
        }
    }
}

/// The declarators of a typedef: each applies its own stars to `base`.
/// `acc` holds the bindings made so far and `cur` the type of the
/// declarator being read. Stops before the closing `;`.
pub open spec fn typedef_decls(
    acc: Seq<(NameV, TypeV)>,
    base: TypeV,
    cur: TypeV,
    toks: Seq<TokenV>,
) -> Result<(Seq<(NameV, TypeV)>, Seq<TokenV>), ErrorV>
    decreases toks.len(),
{
    if toks.len() == 0 {
        Err(ErrorV::UnexpectedEof)
    } else {
        match toks[0] {
            TokenV::Pointer => typedef_decls(
                acc,
                base,
                TypeV::Pointer(Box::new(cur)),
                toks.drop_first(),
            ),
            TokenV::Ident(n) => if has_key(acc, NameV::Normal(n)) {
                Err(ErrorV::DuplicateTypedefName(n))
            } else {
                let acc2 = acc.push((NameV::Normal(n), cur));
                let rest = toks.drop_first();
                if rest.len() == 0 {
                    Err(ErrorV::UnexpectedEof)
                } else if rest[0] == TokenV::Comma {
                    typedef_decls(acc2, base, base, rest.drop_first())
                } else if rest[0] == TokenV::SemiColon {
                    Ok((acc2, rest))
                } else {
                    Err(ErrorV::UnexpectedToken(rest[0]))
                }
            },
            t => Err(ErrorV::UnexpectedToken(t)),
        }
    }
}

/// A typedef statement after the `typedef` keyword: its bindings, the tag
/// first if the base type names one, and the tokens from the closing `;` on.
pub open spec fn typedef_stmt(toks: Seq<TokenV>) -> Result<
    (Seq<(NameV, TypeV)>, Seq<TokenV>),
    ErrorV,
> {
    match typedef_base(toks) {
        Err(e) => Err(e),
        Ok((tag, base, rest)) => typedef_decls(
            match tag {
                Some(k) => seq![(k, base)],
                None => seq![],
            },
            base,
            base,
            rest,
        ),
    }
}

/// Parses a typedef statement after the `typedef` keyword.
fn parse_typedef(reader: &mut TokenStream) -> (r: Result<GlobalNameSpace, CompileError>)
    requires
        old(reader).wf(),
        old(reader)@.len() <= usize::MAX / 4,
    ensures
        final(reader).wf(),
        match typedef_stmt(old(reader)@) {
            Ok((bs, rest)) => {
                &&& r is Ok
                &&& r->Ok_0@ == bs
                &&& r->Ok_0.wf()
                &&& final(reader)@ == rest
                &&& rest.len() < old(reader)@.len()
            },
            Err(e) => r is Err && r->Err_0@ == e,
        },
{
    let ghost orig = reader@;
    let token = match reader.read() {
        None => return Err(CompileError::UnexpectedEof),
        Some(x) => x,
    };
    let mut optional_name: Option<TypeName> = None;
    let val: Type = match token {
        Token::Struct => {
            match reader.peek() {
                Some(Token::Ident(name)) => {
                    reader.read();
                    optional_name = Some(TypeName::Struct(name));
                },
                _ => {},
            }
            match parse_struct(reader) {
                Ok(s) => Type::Struct(s),
                Err(e) => return Err(e),
            }
        },
        Token::Union => {
            match reader.peek() {
                Some(Token::Ident(name)) => {
                    reader.read();
                    optional_name = Some(TypeName::Union(name));
                },
                _ => {},
            }
            match parse_union(reader) {
                Ok(u) => Type::Union(u),
                Err(e) => return Err(e),
            }
        },
        Token::DWORD => Type::Primitive(4),
        Token::WORD => Type::Primitive(2),
        Token::BYTE => Type::Primitive(1),
        Token::Ident(name) => Type::Unknown(TypeName::Normal(name)),
        _ => return Err(CompileError::UnexpectedToken(token)),
    };
    let mut ret = GlobalNameSpace::new();
    match optional_name {
        Some(name) => {
            ret.insert(name, val.copy());
        },
        None => {},
    }
    proof {
        match typedef_base(orig) {
            Ok((tag, base, rest)) => {
                assert(base == val@);
                assert(rest == reader@);
                match tag {
                    Some(k) => assert(ret@ =~= seq![(k, base)]),
                    None => assert(ret@ =~= Seq::<(NameV, TypeV)>::empty()),
                }
            },
            Err(_) => {},
        }
    }
    loop
        invariant
            reader.wf(),
            ret.wf(),
            val.wf(),
            orig == old(reader)@,
            reader@.len() < orig.len(),
            typedef_stmt(orig) == typedef_decls(ret@, val@, val@, reader@),
        decreases reader@.len(),
    {
        let ghost start = reader@;
        let mut cur = val.copy();
        loop
            invariant
                reader.wf(),
                cur.wf(),
                reader@.len() <= start.len(),
                reader@.len() < orig.len(),
                typedef_stmt(orig) == typedef_decls(ret@, val@, cur@, reader@),
            ensures
                reader.wf(),
                cur.wf(),
                reader@.len() <= start.len(),
                reader@.len() < orig.len(),
                typedef_stmt(orig) == typedef_decls(ret@, val@, cur@, reader@),
                reader@.len() == 0 || reader@[0] != TokenV::Pointer,
            decreases reader@.len(),
        {
            match reader.peek() {
                Some(Token::Pointer) => {
                    reader.read();
                    cur = make_pointer(cur);
                },
                _ => break,
            }
        }
        match reader.read() {
            Some(Token::Ident(name)) => {
                let key = TypeName::Normal(name.clone());
                if ret.position(&key).is_some() {
                    return Err(CompileError::DuplicateTypedefName(name));
                }
                ret.insert(key, cur);
            },
            Some(x) => return Err(CompileError::UnexpectedToken(x)),
            None => return Err(CompileError::UnexpectedEof),
        }
        match reader.peek() {
            Some(Token::Comma) => {},
            Some(Token::SemiColon) => return Ok(ret),
            Some(x) => return Err(CompileError::UnexpectedToken(x)),
            None => return Err(CompileError::UnexpectedEof),
        }
        reader.read();
    }
}

} // verus!

verus! {

/// A forward declaration of the tag `key`: binds it to an unresolved
/// reference to itself unless it is bound already.
pub open spec fn declare(tbl: Seq<(NameV, TypeV)>, key: NameV) -> Seq<(NameV, TypeV)> {
    if has_key(tbl, key) {
        tbl
    } else {
        tbl.push((key, TypeV::Unknown(key)))
    }
}

/// Whether a body `new` for a tag bound to `old` is a conflicting
/// redefinition: both are aggregates of one kind with different fields.
pub open spec fn conflicts(old: TypeV, new: TypeV) -> bool {
    match (old, new) {
        (TypeV::Struct(a), TypeV::Struct(b)) => !same_layout(a, b),
        (TypeV::Union(a), TypeV::Union(b)) => !same_layout(a, b),
        _ => false,
    }
}

/// A full definition of the tag `key`.
pub open spec fn define(tbl: Seq<(NameV, TypeV)>, key: NameV, v: TypeV) -> Result<
    Seq<(NameV, TypeV)>,
    ErrorV,
> {
    match lookup(tbl, key) {
        Some(old) => if conflicts(old, v) {
            Err(ErrorV::ConflictingDefinition(key))
        } else {
            Ok(put_entry(tbl, key, v))
        },
        None => Ok(tbl.push((key, v))),
    }
}

/// Adds the bindings of a typedef, in order; a name that is bound already
/// is a `DuplicateTypeName` error.
pub open spec fn merge(tbl: Seq<(NameV, TypeV)>, binds: Seq<(NameV, TypeV)>) -> Result<
    Seq<(NameV, TypeV)>,
    ErrorV,
>
    decreases binds.len(),
{
    if binds.len() == 0 {
        Ok(tbl)
    } else if has_key(tbl, binds[0].0) {
        Err(ErrorV::DuplicateTypeName(binds[0].0))
    } else {
        merge(tbl.push(binds[0]), binds.drop_first())
    }
}

/// The top-level statements in `toks`, given the bindings `tbl` made so far.
pub open spec fn statements(tbl: Seq<(NameV, TypeV)>, toks: Seq<TokenV>) -> Result<
    Seq<(NameV, TypeV)>,
    ErrorV,
>
    decreases toks.len(), 2nat,
{
    if toks.len() == 0 {
        Ok(tbl)
    } else {
        let rest = toks.drop_first();
        match toks[0] {
            TokenV::Typedef => match typedef_stmt(rest) {
                Err(e) => Err(e),
                Ok((binds, after)) => match merge(tbl, binds) {
                    Err(e) => Err(e),
                    Ok(t2) => end_statement(t2, after, toks.len()),
                },
            },
            TokenV::Struct => tagged_statement(tbl, false, rest, toks.len()),
            TokenV::Union => tagged_statement(tbl, true, rest, toks.len()),
            t => Err(ErrorV::UnexpectedToken(t)),
        }
    }
}

/// The `;` that ends a statement, then the statements after it.
pub open spec fn end_statement(tbl: Seq<(NameV, TypeV)>, toks: Seq<TokenV>, bound: nat) -> Result<
    Seq<(NameV, TypeV)>,
    ErrorV,
>
    decreases bound, 0nat,
{
    if toks.len() >= bound {
        Err(ErrorV::UnexpectedEof)
    } else {
        match expect_token(toks, TokenV::SemiColon) {
            Err(e) => Err(e),
            Ok(rest) => statements(tbl, rest),
        }
    }
}

/// A top-level struct (or, with `is_union`, union) statement after its
/// keyword: a forward declaration, a definition, or an anonymous body that
/// binds nothing.
pub open spec fn tagged_statement(
    tbl: Seq<(NameV, TypeV)>,
    is_union: bool,
    toks: Seq<TokenV>,
    bound: nat,
) -> Result<Seq<(NameV, TypeV)>, ErrorV>
    decreases bound, 1nat,
{
    if toks.len() >= bound {
        Err(ErrorV::UnexpectedEof)
    } else if toks.len() > 0 && toks[0] is Ident {
        let key = tag_name(is_union, toks[0]->Ident_0);
        let rest = toks.drop_first();
        if rest.len() > 0 && rest[0] == TokenV::SemiColon {
            statements(declare(tbl, key), rest.drop_first())
        } else {
            match agg_body(is_union, rest) {
                Err(e) => Err(e),
                Ok((fs, after)) => match define(tbl, key, agg_type(is_union, fs)) {
                    Err(e) => Err(e),
                    Ok(t2) => end_statement(t2, after, bound),
                },
            }
        }
    } else {
        match agg_body(is_union, toks) {
            Err(e) => Err(e),
            Ok((_, after)) => end_statement(tbl, after, bound),
        }
    }
}

/// The namespace that a text declares, or the first error in it.
pub open spec fn compile_text(chars: Seq<char>) -> Result<Seq<(NameV, TypeV)>, ErrorV> {
    match lex(chars) {
        Err(e) => Err(e),
        Ok(toks) => statements(seq![], toks),
    }
}

fn conflicting(old: &Type, new: &Type) -> (r: bool)
    ensures
        r == conflicts(old@, new@),
{
    match (old, new) {
        (Type::Struct(a), Type::Struct(b)) => !a.layout().same_fields(b.layout()),
        (Type::Union(a), Type::Union(b)) => !a.layout().same_fields(b.layout()),
        _ => false,
    }
}

} // verus!

verus! {

/// Adds the bindings of `binds` to `ret`, in order.
fn merge_into(ret: &mut GlobalNameSpace, binds: &GlobalNameSpace) -> (r: Result<(), CompileError>)
    requires
        old(ret).wf(),
        binds.wf(),
    ensures
        final(ret).wf(),
        match merge(old(ret)@, binds@) {
            Ok(t) => r is Ok && final(ret)@ == t,
            Err(e) => r is Err && r->Err_0@ == e,
        },
{
    let entries = binds.iter();
    let mut i: usize = 0;
    assert(binds@.skip(0) =~= binds@);
    while i < entries.len()
        invariant
            ret.wf(),
            i <= entries@.len(),
            binds@ == crate::types::entries_view(entries@),
            forall|j: int| 0 <= j < entries@.len() ==> (#[trigger] entries@[j]).1.wf(),
            merge(old(ret)@, binds@) == merge(ret@, binds@.skip(i as int)),
        decreases entries@.len() - i,
    {
        let (k, v) = &entries[i];
        assert(binds@.skip(i as int)[0] == binds@[i as int]);
        assert(binds@.skip(i as int).drop_first() =~= binds@.skip(i + 1));
        if ret.position(k).is_some() {
            return Err(CompileError::DuplicateTypeName(k.copy()));
        }
        ret.insert(k.copy(), v.copy());
        i = i + 1;
    }
    assert(binds@.skip(i as int) =~= Seq::<(NameV, TypeV)>::empty());
    Ok(())
}

/// A top-level struct or union statement after its keyword, up to the
/// closing `;`.
fn tagged_statement_exec(
    stream: &mut TokenStream,
    ret: &mut GlobalNameSpace,
    is_union: bool,
    Ghost(bound): Ghost<nat>,
) -> (r: Result<(), CompileError>)
    requires
        old(stream).wf(),
        old(ret).wf(),
        old(stream)@.len() < bound,
        old(stream)@.len() <= usize::MAX / 4,
    ensures
        final(stream).wf(),
        final(ret).wf(),
        r is Ok ==> final(stream)@.len() <= old(stream)@.len(),
        match r {
            Ok(()) => tagged_statement(old(ret)@, is_union, old(stream)@, bound) == end_statement(
                final(ret)@,
                final(stream)@,
                bound,
            ),
            Err(e) => tagged_statement(old(ret)@, is_union, old(stream)@, bound) == Err::<
                Seq<(NameV, TypeV)>,
                ErrorV,
            >(e@),
        },
{
    match stream.peek() {
        Some(Token::Ident(name)) => {
            stream.read();
            let key = if is_union {
                TypeName::Union(name)
            } else {
                TypeName::Struct(name)
            };
            let is_semi = match stream.peek() {
                Some(Token::SemiColon) => true,
                _ => false,
            };
            if is_semi {
                if ret.position(&key).is_none() {
                    let v = Type::Unknown(key.copy());
                    ret.insert(key, v);
                }
                return Ok(());
            }
            let val = if is_union {
                match parse_union(stream) {
                    Ok(u) => Type::Union(u),
                    Err(e) => return Err(e),
                }
            } else {
                match parse_struct(stream) {
                    Ok(s) => Type::Struct(s),
                    Err(e) => return Err(e),
                }
            };
            let clash = match ret.get(&key) {
                Some(old) => conflicting(old, &val),
                None => false,
            };
            if clash {
                return Err(CompileError::ConflictingDefinition(key));
            }
            ret.insert(key, val);
            Ok(())
        },
        _ => {
            if is_union {
                match parse_union(stream) {
                    Ok(_) => Ok(()),
                    Err(e) => Err(e),
                }
            } else {
                match parse_struct(stream) {
                    Ok(_) => Ok(()),
                    Err(e) => Err(e),
                }
            }
        },
    }
}

/// Compiles the declarations in the text of `reader` into one namespace.
pub fn compile<R: ReadChar>(reader: &mut R) -> (r: Result<GlobalNameSpace, CompileError>)
    requires
        old(reader).unread().len() <= usize::MAX / 4,
    ensures
        match compile_text(old(reader).unread()) {
            Ok(t) => r is Ok && r->Ok_0@ == t && r->Ok_0.wf(),
            Err(e) => r is Err && r->Err_0@ == e,
        },
{
    let ghost text = reader.unread();
    let tokens = match Token::parse(reader) {
        Ok(t) => t,
        Err(e) => return Err(e),
    };
    proof {
        crate::tok::lemma_lex_len(seq![], seq![], text);
    }
    let mut stream = TokenStream::new(tokens);
    let mut ret = GlobalNameSpace::new();
    loop
        invariant
            stream.wf(),
            ret.wf(),
            stream@.len() <= usize::MAX / 4,
            text == old(reader).unread(),
            compile_text(text) == statements(ret@, stream@),
        ensures
            ret.wf(),
            compile_text(text) == Ok::<Seq<(NameV, TypeV)>, ErrorV>(ret@),
        decreases stream@.len(),
    {
        let ghost at = stream@;
        let token = match stream.read() {
            Some(x) => x,
            None => break,
        };
        match token {
            Token::Typedef => {
                let binds = match parse_typedef(&mut stream) {
                    Ok(b) => b,
                    Err(e) => return Err(e),
                };
                match merge_into(&mut ret, &binds) {
                    Ok(()) => {},
                    Err(e) => return Err(e),
                }
            },
            Token::Struct => {
                match tagged_statement_exec(&mut stream, &mut ret, false, Ghost(at.len())) {
                    Ok(()) => {},
                    Err(e) => return Err(e),
                }
            },
            Token::Union => {
                match tagged_statement_exec(&mut stream, &mut ret, true, Ghost(at.len())) {
                    Ok(()) => {},
                    Err(e) => return Err(e),
                }
            },
            _ => return Err(CompileError::UnexpectedToken(token)),
        }
        match stream.eat(Token::SemiColon) {
            Ok(()) => {},
            Err(e) => return Err(e),
        }
    }
    Ok(ret)
}

} // verus!

verus! {

/// Compiling is a function of the text: equal texts give equal namespaces,
/// or equal errors.
pub proof fn lemma_compile_deterministic(a: Seq<char>, b: Seq<char>)
    requires
        a == b,
    ensures
        compile_text(a) == compile_text(b),
{
}

/// `k` pointer stars.
pub open spec fn stars(k: nat) -> Seq<TokenV> {
    Seq::new(k, |_i: int| TokenV::Pointer)
}

proof fn lemma_stars(is_union: bool, acc: Seq<FieldV>, size: nat, k: nat, more: Seq<TokenV>)
    requires
        k >= 1,
    ensures
        agg_declarator(is_union, acc, size, stars(k) + more) == agg_declarator(
            is_union,
            acc,
            POINTER_SIZE as nat,
            more,
        ),
    decreases k,
{
    let toks = stars(k) + more;
    assert(toks[0] == TokenV::Pointer);
    if k > 1 {
        assert(toks.drop_first() =~= stars((k - 1) as nat) + more);
        lemma_stars(is_union, acc, POINTER_SIZE as nat, (k - 1) as nat, more);
    } else {
        assert(toks.drop_first() =~= more);
    }
}

/// One or more stars after a field's base type make the field a pointer of
/// `POINTER_SIZE` bytes, whatever the size of the base type and however
/// many stars there are.
pub proof fn lemma_pointer_field_size(
    is_union: bool,
    acc: Seq<FieldV>,
    size: nat,
    k: nat,
    name: Seq<char>,
    more: Seq<TokenV>,
)
    requires
        k >= 1,
    ensures
        agg_declarator(is_union, acc, size, stars(k) + more) == agg_declarator(
            is_union,
            acc,
            POINTER_SIZE as nat,
            more,
        ),
        !has_field(acc, name) ==> agg_declarator(
            is_union,
            acc,
            size,
            stars(k) + seq![TokenV::Ident(name), TokenV::SemiColon] + more,
        ) == agg_fields(
            is_union,
            acc.push(FieldV { name, offset: member_offset(is_union, acc), size: POINTER_SIZE as nat }),
            more,
        ),
{
    lemma_stars(is_union, acc, size, k, more);
    let d = seq![TokenV::Ident(name), TokenV::SemiColon] + more;
    lemma_stars(is_union, acc, size, k, d);
    assert(stars(k) + seq![TokenV::Ident(name), TokenV::SemiColon] + more =~= stars(k) + d);
    assert(d[0] == TokenV::Ident(name));
    assert(d.drop_first()[0] == TokenV::SemiColon);
    assert(d.drop_first().drop_first() =~= more);
    assert(expect_token(d.drop_first(), TokenV::SemiColon) == Ok::<Seq<TokenV>, ErrorV>(more));
}

/// The keyword of a struct statement, or with `is_union` of a union statement.
pub open spec fn tag_keyword(is_union: bool) -> TokenV {
    if is_union {
        TokenV::Union
    } else {
        TokenV::Struct
    }
}

/// A forward declaration of a tag that is not bound yet, followed by a
/// statement on the same tag, gives what that statement gives alone.
pub proof fn lemma_forward_then_define(
    tbl: Seq<(NameV, TypeV)>,
    is_union: bool,
    n: Seq<char>,
    body: Seq<TokenV>,
)
    requires
        !has_key(tbl, tag_name(is_union, n)),
    ensures
        statements(
            tbl,
            seq![
                tag_keyword(is_union),
                TokenV::Ident(n),
                TokenV::SemiColon,
                tag_keyword(is_union),
                TokenV::Ident(n),
            ] + body,
        ) == statements(tbl, seq![tag_keyword(is_union), TokenV::Ident(n)] + body),
{
    let key = tag_name(is_union, n);
    let kw = tag_keyword(is_union);
    let t1 = seq![kw, TokenV::Ident(n), TokenV::SemiColon, kw, TokenV::Ident(n)] + body;
    let t2 = seq![kw, TokenV::Ident(n)] + body;
    let tbl1 = tbl.push((key, TypeV::Unknown(key)));
    assert(t1[0] == kw);
    assert(t1.drop_first()[0] == TokenV::Ident(n));
    assert(t1.drop_first().drop_first()[0] == TokenV::SemiColon);
    assert(t1.drop_first().drop_first().drop_first() =~= t2);
    assert(declare(tbl, key) == tbl1);
    assert(statements(tbl, t1) == statements(tbl1, t2));
    assert(has_key(tbl1, key)) by {
        assert(tbl1[tbl.len() as int].0 == key);
    }
    assert(t2[0] == kw);
    assert(t2.drop_first()[0] == TokenV::Ident(n));
    assert(t2.drop_first().drop_first() =~= body);
    if body.len() > 0 && body[0] == TokenV::SemiColon {
        assert(declare(tbl1, key) == tbl1);
    } else {
        match agg_body(is_union, body) {
            Ok((fs, after)) => {
                let v = agg_type(is_union, fs);
                let i = choose|i: int| 0 <= i < tbl1.len() && tbl1[i].0 == key;
                assert(i == tbl.len()) by {
                    if i < tbl.len() {
                        assert(tbl[i].0 == key);
                    }
                }
                assert(lookup(tbl1, key) == Some(TypeV::Unknown(key)));
                assert(put_entry(tbl1, key, v) =~= tbl.push((key, v)));
                assert(define(tbl1, key, v) == define(tbl, key, v));
            },
            Err(_) => {},
        }
    }
}

} // verus!

verus! {

/// Each tag is bound to a body of its own kind, or to an unresolved
/// reference to itself; typedef names may be bound to anything.
pub open spec fn tags_consistent(tbl: Seq<(NameV, TypeV)>) -> bool {
    forall|i: int|
        0 <= i < tbl.len() ==> match (#[trigger] tbl[i]).0 {
            NameV::Struct(_) => tbl[i].1 is Struct || tbl[i].1 == TypeV::Unknown(tbl[i].0),
            NameV::Union(_) => tbl[i].1 is Union || tbl[i].1 == TypeV::Unknown(tbl[i].0),
            NameV::Normal(_) => true,
        }
}

proof fn lemma_decls_consistent(
    acc: Seq<(NameV, TypeV)>,
    base: TypeV,
    cur: TypeV,
    toks: Seq<TokenV>,
)
    requires
        tags_consistent(acc),
    ensures
        match typedef_decls(acc, base, cur, toks) {
            Ok((bs, _)) => tags_consistent(bs),
            Err(_) => true,
        },
    decreases toks.len(),
{
    if toks.len() > 0 {
        match toks[0] {
            TokenV::Pointer => lemma_decls_consistent(
                acc,
                base,
                TypeV::Pointer(Box::new(cur)),
                toks.drop_first(),
            ),
            TokenV::Ident(n) => {
                let acc2 = acc.push((NameV::Normal(n), cur));
                assert(tags_consistent(acc2)) by {
                    assert forall|i: int| 0 <= i < acc2.len() implies match (#[trigger] acc2[i]).0 {
                        NameV::Struct(_) => acc2[i].1 is Struct || acc2[i].1 == TypeV::Unknown(
                            acc2[i].0,
                        ),
                        NameV::Union(_) => acc2[i].1 is Union || acc2[i].1 == TypeV::Unknown(
                            acc2[i].0,
                        ),
                        NameV::Normal(_) => true,
                    } by {
                        if i < acc.len() {
                            assert(acc2[i] == acc[i]);
                        }
                    }
                }
                let rest = toks.drop_first();
                if rest.len() > 0 && rest[0] == TokenV::Comma {
                    lemma_decls_consistent(acc2, base, base, rest.drop_first());
                }
            },
            _ => {},
        }
    }
}

proof fn lemma_typedef_consistent(toks: Seq<TokenV>)
    ensures
        match typedef_stmt(toks) {
            Ok((bs, _)) => tags_consistent(bs),
            Err(_) => true,
        },
{
    match typedef_base(toks) {
        Ok((tag, base, rest)) => {
            let acc = match tag {
                Some(k) => seq![(k, base)],
                None => seq![],
            };
            assert(tags_consistent(acc)) by {
                if tag is Some {
                    assert(acc[0] == (tag->Some_0, base));
                }
            }
            lemma_decls_consistent(acc, base, base, rest);
        },
        Err(_) => {},
    }
}

proof fn lemma_merge_consistent(tbl: Seq<(NameV, TypeV)>, binds: Seq<(NameV, TypeV)>)
    requires
        tags_consistent(tbl),
        tags_consistent(binds),
    ensures
        match merge(tbl, binds) {
            Ok(t) => tags_consistent(t),
            Err(_) => true,
        },
    decreases binds.len(),
{
    if binds.len() > 0 && !has_key(tbl, binds[0].0) {
        let t2 = tbl.push(binds[0]);
        assert(tags_consistent(t2)) by {
            assert forall|i: int| 0 <= i < t2.len() implies match (#[trigger] t2[i]).0 {
                NameV::Struct(_) => t2[i].1 is Struct || t2[i].1 == TypeV::Unknown(t2[i].0),
                NameV::Union(_) => t2[i].1 is Union || t2[i].1 == TypeV::Unknown(t2[i].0),
                NameV::Normal(_) => true,
            } by {
                if i < tbl.len() {
                    assert(t2[i] == tbl[i]);
                } else {
                    assert(t2[i] == binds[0]);
                }
            }
        }
        assert(tags_consistent(binds.drop_first())) by {
            assert forall|i: int| 0 <= i < binds.drop_first().len() implies match (
            #[trigger] binds.drop_first()[i]).0 {
                NameV::Struct(_) => binds.drop_first()[i].1 is Struct || binds.drop_first()[i].1
                    == TypeV::Unknown(binds.drop_first()[i].0),
                NameV::Union(_) => binds.drop_first()[i].1 is Union || binds.drop_first()[i].1
                    == TypeV::Unknown(binds.drop_first()[i].0),
                NameV::Normal(_) => true,
            } by {
                assert(binds.drop_first()[i] == binds[i + 1]);
            }
        }
        lemma_merge_consistent(t2, binds.drop_first());
    }
}

proof fn lemma_bind_tag_consistent(tbl: Seq<(NameV, TypeV)>, key: NameV, v: TypeV)
    requires
        tags_consistent(tbl),
        match key {
            NameV::Struct(_) => v is Struct || v == TypeV::Unknown(key),
            NameV::Union(_) => v is Union || v == TypeV::Unknown(key),
            NameV::Normal(_) => true,
        },
    ensures
        tags_consistent(put_entry(tbl, key, v)),
{
    let t2 = put_entry(tbl, key, v);
    assert forall|i: int| 0 <= i < t2.len() implies match (#[trigger] t2[i]).0 {
        NameV::Struct(_) => t2[i].1 is Struct || t2[i].1 == TypeV::Unknown(t2[i].0),
        NameV::Union(_) => t2[i].1 is Union || t2[i].1 == TypeV::Unknown(t2[i].0),
        NameV::Normal(_) => true,
    } by {
        if has_key(tbl, key) {
            assert(t2[i] == tbl[i] || t2[i] == (key, v));
        } else if i < tbl.len() {
            assert(t2[i] == tbl[i]);
        }
    }
}

proof fn lemma_statements_consistent(tbl: Seq<(NameV, TypeV)>, toks: Seq<TokenV>)
    requires
        tags_consistent(tbl),
    ensures
        match statements(tbl, toks) {
            Ok(t) => tags_consistent(t),
            Err(_) => true,
        },
    decreases toks.len(), 2nat,
{
    if toks.len() > 0 {
        let rest = toks.drop_first();
        match toks[0] {
            TokenV::Typedef => match typedef_stmt(rest) {
                Ok((binds, after)) => {
                    lemma_typedef_consistent(rest);
                    lemma_merge_consistent(tbl, binds);
                    match merge(tbl, binds) {
                        Ok(t2) => lemma_end_consistent(t2, after, toks.len()),
                        Err(_) => {},
                    }
                },
                Err(_) => {},
            },
            TokenV::Struct => lemma_tagged_consistent(tbl, false, rest, toks.len()),
            TokenV::Union => lemma_tagged_consistent(tbl, true, rest, toks.len()),
            _ => {},
        }
    }
}

proof fn lemma_end_consistent(tbl: Seq<(NameV, TypeV)>, toks: Seq<TokenV>, bound: nat)
    requires
        tags_consistent(tbl),
    ensures
        match end_statement(tbl, toks, bound) {
            Ok(t) => tags_consistent(t),
            Err(_) => true,
        },
    decreases bound, 0nat,
{
    if toks.len() < bound {
        match expect_token(toks, TokenV::SemiColon) {
            Ok(rest) => lemma_statements_consistent(tbl, rest),
            Err(_) => {},
        }
    }
}

proof fn lemma_tagged_consistent(
    tbl: Seq<(NameV, TypeV)>,
    is_union: bool,
    toks: Seq<TokenV>,
    bound: nat,
)
    requires
        tags_consistent(tbl),
    ensures
        match tagged_statement(tbl, is_union, toks, bound) {
            Ok(t) => tags_consistent(t),
            Err(_) => true,
        },
    decreases bound, 1nat,
{
    if toks.len() < bound {
        if toks.len() > 0 && toks[0] is Ident {
            let key = tag_name(is_union, toks[0]->Ident_0);
            let rest = toks.drop_first();
            if rest.len() > 0 && rest[0] == TokenV::SemiColon {
                if !has_key(tbl, key) {
                    lemma_bind_tag_consistent(tbl, key, TypeV::Unknown(key));
                }
                lemma_statements_consistent(declare(tbl, key), rest.drop_first());
            } else {
                match agg_body(is_union, rest) {
                    Ok((fs, after)) => {
                        let v = agg_type(is_union, fs);
                        lemma_bind_tag_consistent(tbl, key, v);
                        match define(tbl, key, v) {
                            Ok(t2) => lemma_end_consistent(t2, after, bound),
                            Err(_) => {},
                        }
                    },
                    Err(_) => {},
                }
            }
        } else {
            match agg_body(is_union, toks) {
                Ok((_, after)) => lemma_end_consistent(tbl, after, bound),
                Err(_) => {},
            }
        }
    }
}

/// Every namespace that compiling gives binds each struct tag to a struct
/// body or to an unresolved reference to itself, and each union tag to a
/// union body or to an unresolved reference to itself. So a forward
/// declaration or a definition never finds its tag bound to anything else.
pub proof fn lemma_compile_tags_consistent(text: Seq<char>)
    ensures
        match compile_text(text) {
            Ok(t) => tags_consistent(t),
            Err(_) => true,
        },
{
    match lex(text) {
        Ok(toks) => lemma_statements_consistent(seq![], toks),
        Err(_) => {},
    }
}

} // verus!

verus! {

/// A body without fields is rejected, whatever follows it.
pub proof fn lemma_empty_body(is_union: bool, rest: Seq<TokenV>)
    ensures
        agg_body(is_union, seq![TokenV::LeftBrace, TokenV::RightBrace] + rest) == Err::<
            (Seq<FieldV>, Seq<TokenV>),
            ErrorV,
        >(ErrorV::EmptyAggregate),
{
    let toks = seq![TokenV::LeftBrace, TokenV::RightBrace] + rest;
    assert(toks[0] == TokenV::LeftBrace);
    assert(toks.drop_first()[0] == TokenV::RightBrace);
}

/// A field whose name the body holds already is rejected.
pub proof fn lemma_duplicate_field(
    is_union: bool,
    acc: Seq<FieldV>,
    base: TokenV,
    name: Seq<char>,
    rest: Seq<TokenV>,
)
    requires
        has_field(acc, name),
        base == TokenV::Byte || base == TokenV::Word || base == TokenV::Dword,
    ensures
        agg_fields(is_union, acc, seq![base, TokenV::Ident(name)] + rest) == Err::<
            (Seq<FieldV>, Seq<TokenV>),
            ErrorV,
        >(ErrorV::DuplicateField(name)),
{
    let toks = seq![base, TokenV::Ident(name)] + rest;
    assert(toks[0] == base);
    assert(toks.drop_first()[0] == TokenV::Ident(name));
}

/// `typedef DWORD n;` binds `n`, and only `n`, to a primitive of 4 bytes.
pub proof fn lemma_typedef_dword(tbl: Seq<(NameV, TypeV)>, n: Seq<char>, rest: Seq<TokenV>)
    requires
        !has_key(tbl, NameV::Normal(n)),
    ensures
        statements(
            tbl,
            seq![TokenV::Typedef, TokenV::Dword, TokenV::Ident(n), TokenV::SemiColon] + rest,
        ) == statements(tbl.push((NameV::Normal(n), TypeV::Primitive(4))), rest),
{
    let toks = seq![TokenV::Typedef, TokenV::Dword, TokenV::Ident(n), TokenV::SemiColon] + rest;
    let t1 = toks.drop_first();
    let t2 = t1.drop_first();
    let t3 = t2.drop_first();
    assert(toks[0] == TokenV::Typedef);
    assert(t1[0] == TokenV::Dword);
    assert(t2[0] == TokenV::Ident(n));
    assert(t3[0] == TokenV::SemiColon);
    assert(t3.drop_first() =~= rest);
    let binds = seq![(NameV::Normal(n), TypeV::Primitive(4))];
    assert(!has_key(Seq::<(NameV, TypeV)>::empty(), NameV::Normal(n)));
    assert(Seq::<(NameV, TypeV)>::empty().push((NameV::Normal(n), TypeV::Primitive(4))) =~= binds);
    assert(typedef_stmt(t1) == Ok::<(Seq<(NameV, TypeV)>, Seq<TokenV>), ErrorV>((binds, t3)));
    assert(binds.drop_first() =~= Seq::<(NameV, TypeV)>::empty());
    assert(binds[0] == (NameV::Normal(n), TypeV::Primitive(4)));
    assert(merge(tbl.push(binds[0]), binds.drop_first()) == Ok::<Seq<(NameV, TypeV)>, ErrorV>(
        tbl.push(binds[0]),
    ));
    assert(merge(tbl, binds) == Ok::<Seq<(NameV, TypeV)>, ErrorV>(
        tbl.push((NameV::Normal(n), TypeV::Primitive(4))),
    ));
}

} // verus!

verus! {

/// A definition of a tag that is bound to a body of the same kind with
/// other fields is a conflicting redefinition.
pub proof fn lemma_conflicting_definition(
    tbl: Seq<(NameV, TypeV)>,
    is_union: bool,
    n: Seq<char>,
    old_fields: Seq<FieldV>,
    body: Seq<TokenV>,
)
    requires
        lookup(tbl, tag_name(is_union, n)) == Some(agg_type(is_union, old_fields)),
        agg_body(is_union, body) is Ok,
        !same_layout(old_fields, agg_body(is_union, body)->Ok_0.0),
    ensures
        statements(tbl, seq![tag_keyword(is_union), TokenV::Ident(n)] + body) == Err::<
            Seq<(NameV, TypeV)>,
            ErrorV,
        >(ErrorV::ConflictingDefinition(tag_name(is_union, n))),
{
    let toks = seq![tag_keyword(is_union), TokenV::Ident(n)] + body;
    assert(toks[0] == tag_keyword(is_union));
    assert(toks.drop_first()[0] == TokenV::Ident(n));
    assert(toks.drop_first().drop_first() =~= body);
    assert(body[0] == TokenV::LeftBrace);
}

} // verus!

verus! {

/// A body that parses consumes at least one token.
pub proof fn lemma_body_consumes(is_union: bool, toks: Seq<TokenV>)
    ensures
        match agg_body(is_union, toks) {
            Ok((_, rest)) => rest.len() < toks.len(),
            Err(_) => true,
        },
    decreases toks.len(), 2nat,
{
    match expect_token(toks, TokenV::LeftBrace) {
        Ok(rest) => lemma_fields_consume(is_union, seq![], rest),
        Err(_) => {},
    }
}

proof fn lemma_fields_consume(is_union: bool, acc: Seq<FieldV>, toks: Seq<TokenV>)
    ensures
        match agg_fields(is_union, acc, toks) {
            Ok((_, rest)) => rest.len() < toks.len(),
            Err(_) => true,
        },
    decreases toks.len(), 1nat,
{
    if toks.len() > 0 {
        let rest = toks.drop_first();
        match toks[0] {
            TokenV::Struct => lemma_nested_consumes(is_union, acc, false, skip_tag(rest), toks.len()),
            TokenV::Union => lemma_nested_consumes(is_union, acc, true, skip_tag(rest), toks.len()),
            TokenV::Ident(_) => lemma_declarator_consumes(is_union, acc, 0, rest),
            TokenV::Dword => lemma_declarator_consumes(is_union, acc, 4, rest),
            TokenV::Word => lemma_declarator_consumes(is_union, acc, 2, rest),
            TokenV::Byte => lemma_declarator_consumes(is_union, acc, 1, rest),
            _ => {},
        }
    }
}

proof fn lemma_nested_consumes(
    is_union: bool,
    acc: Seq<FieldV>,
    inner_union: bool,
    toks: Seq<TokenV>,
    bound: nat,
)
    ensures
        match agg_nested(is_union, acc, inner_union, toks, bound) {
            Ok((_, rest)) => rest.len() < toks.len(),
            Err(_) => true,
        },
    decreases bound, 0nat,
{
    if toks.len() < bound {
        lemma_body_consumes(inner_union, toks);
        match agg_body(inner_union, toks) {
            Ok((inner, rest)) => if rest.len() < toks.len() {
                if rest.len() > 0 && rest[0] == TokenV::SemiColon {
                    match inject_fields(acc, inner, member_offset(is_union, acc)) {
                        Ok(acc2) => lemma_fields_consume(is_union, acc2, rest.drop_first()),
                        Err(_) => {},
                    }
                } else {
                    lemma_declarator_consumes(is_union, acc, layout_size(inner), rest);
                }
            },
            Err(_) => {},
        }
    }
}

proof fn lemma_declarator_consumes(
    is_union: bool,
    acc: Seq<FieldV>,
    size: nat,
    toks: Seq<TokenV>,
)
    ensures
        match agg_declarator(is_union, acc, size, toks) {
            Ok((_, rest)) => rest.len() < toks.len(),
            Err(_) => true,
        },
    decreases toks.len(), 0nat,
{
    if toks.len() > 0 {
        match toks[0] {
            TokenV::Pointer => lemma_declarator_consumes(
                is_union,
                acc,
                POINTER_SIZE as nat,
                toks.drop_first(),
            ),
            TokenV::Ident(n) => if !has_field(acc, n) {
                let f = FieldV { name: n, offset: member_offset(is_union, acc), size };
                match expect_token(toks.drop_first(), TokenV::SemiColon) {
                    Ok(rest) => lemma_fields_consume(is_union, acc.push(f), rest),
                    Err(_) => {},
                }
            },
            _ => {},
        }
    }
}

/// An anonymous union directly inside a struct body is not a field of its
/// own: its members are added to the struct, each moved to the end the
/// struct had before it, with the offsets they have within the union kept.
pub proof fn lemma_anonymous_union_in_struct(
    acc: Seq<FieldV>,
    body: Seq<TokenV>,
    more: Seq<TokenV>,
)
    requires
        body.len() == 0 || !(body[0] is Ident),
        agg_body(true, body) is Ok,
        agg_body(true, body)->Ok_0.1 == seq![TokenV::SemiColon] + more,
    ensures
        agg_fields(false, acc, seq![TokenV::Union] + body) == match inject_fields(
            acc,
            agg_body(true, body)->Ok_0.0,
            layout_size(acc),
        ) {
            Ok(acc2) => agg_fields(false, acc2, more),
            Err(e) => Err(e),
        },
{
    let toks = seq![TokenV::Union] + body;
    assert(toks[0] == TokenV::Union);
    assert(toks.drop_first() =~= body);
    lemma_body_consumes(true, body);
    let rest = agg_body(true, body)->Ok_0.1;
    assert(rest[0] == TokenV::SemiColon);
    assert(rest.drop_first() =~= more);
}

} // verus!
