use crate::text::{chars_of, decimal, push_decimal, string_of_chars};
use crate::types::{
    FieldV, GlobalNameSpace, Layout, NameV, Struct, Type, TypeName, TypeV, Union, fields_view,
};
use vstd::prelude::*;

verus! {

/// The upper-case hexadecimal digit for `d`, which is below 16.
pub open spec fn hex_char(d: nat) -> char {
    if d < 10 {
        crate::text::digit_char(d)
    } else if d == 10 {
        'A'
    } else if d == 11 {
        'B'
    } else if d == 12 {
        'C'
    } else if d == 13 {
        'D'
    } else if d == 14 {
        'E'
    } else {
        'F'
    }
}

/// The hexadecimal digits of `n`, without leading zeros.
pub open spec fn hex_digits(n: nat) -> Seq<char>
    decreases n,
{
    if n < 16 {
        seq![hex_char(n)]
    } else {
        hex_digits(n / 16).push(hex_char(n % 16))
    }
}

/// `n` in upper-case hexadecimal, at least two digits wide.
pub open spec fn hex2(n: nat) -> Seq<char> {
    if n < 16 {
        seq!['0', hex_char(n)]
    } else {
        hex_digits(n)
    }
}

/// `s` padded with spaces on the right to `w` characters.
pub open spec fn pad(s: Seq<char>, w: nat) -> Seq<char> {
    if s.len() < w {
        s + Seq::new((w - s.len()) as nat, |_i: int| ' ')
    } else {
        s
    }
}

/// The text said of a field whose size is unknown.
pub open spec fn unknown_size_note() -> Seq<char> {
    " (offset only, size unknown)"@
}

/// Where a field lies: `START - END` in hexadecimal, or its offset alone
/// when its size is 0, that is unknown.
pub open spec fn range_text(f: FieldV) -> Seq<char> {
    if f.size == 0 {
        hex2(f.offset) + unknown_size_note()
    } else {
        hex2(f.offset) + seq![' ', '-', ' '] + hex2(f.offset + f.size)
    }
}

/// The report line of a field.
pub open spec fn field_line(f: FieldV) -> Seq<char> {
    seq!['\t'] + pad(range_text(f), 32) + seq![' '] + f.name + seq![';', '\n']
}

/// Whether `a` comes before `b` or equals it, character by character.
pub open spec fn text_le(a: Seq<char>, b: Seq<char>) -> bool
    decreases a.len(),
{
    if a.len() == 0 {
        true
    } else if b.len() == 0 {
        false
    } else if a[0] != b[0] {
        a[0] < b[0]
    } else {
        text_le(a.drop_first(), b.drop_first())
    }
}

/// A report line with the offset and size it is ordered by.
pub type LineV = (nat, nat, Seq<char>);

/// Lines are ordered by offset, then size, then text.
pub open spec fn line_le(a: LineV, b: LineV) -> bool {
    a.0 < b.0 || (a.0 == b.0 && (a.1 < b.1 || (a.1 == b.1 && text_le(a.2, b.2))))
}

/// `l` put into the ordered lines `s`, before the first line that it does
/// not come after.
pub open spec fn insert_line(s: Seq<LineV>, l: LineV) -> Seq<LineV>
    decreases s.len(),
{
    if s.len() == 0 {
        seq![l]
    } else if line_le(l, s[0]) {
        seq![l] + s
    } else {
        seq![s[0]] + insert_line(s.drop_first(), l)
    }
}

/// The lines of `fs`, ordered.
pub open spec fn sorted_lines(fs: Seq<FieldV>) -> Seq<LineV>
    decreases fs.len(),
{
    if fs.len() == 0 {
        seq![]
    } else {
        let f = fs.last();
        insert_line(sorted_lines(fs.drop_last()), (f.offset, f.size, field_line(f)))
    }
}

/// The texts of `ls`, one after the other.
pub open spec fn join_lines(ls: Seq<LineV>) -> Seq<char>
    decreases ls.len(),
{
    if ls.len() == 0 {
        seq![]
    } else {
        join_lines(ls.drop_last()) + ls.last().2
    }
}

/// The report of a layout: one line per field, ordered by offset and size.
pub open spec fn layout_text(fs: Seq<FieldV>) -> Seq<char> {
    join_lines(sorted_lines(fs))
}

/// The text of a name, without its namespace.
pub open spec fn name_text(n: NameV) -> Seq<char> {
    match n {
        NameV::Normal(s) => s,
        NameV::Struct(s) => s,
        NameV::Union(s) => s,
    }
}

/// The report of a type.
pub open spec fn type_text(t: TypeV) -> Seq<char>
    decreases t,
{
    match t {
        TypeV::Struct(fs) => "struct {\n"@ + layout_text(fs) + seq!['}'],
        TypeV::Union(fs) => "union {\n"@ + layout_text(fs) + seq!['}'],
        TypeV::Primitive(n) => "primitive[size: "@ + decimal(n) + seq![']'],
        TypeV::Pointer(p) => type_text(*p) + seq!['*'],
        TypeV::Unknown(n) => name_text(n),
    }
}

/// The report of one binding: a typedef, or a tag with its body, or a tag
/// that was only declared.
pub open spec fn entry_text(e: (NameV, TypeV)) -> Seq<char> {
    match e.0 {
        NameV::Normal(n) => "typedef "@ + type_text(e.1) + seq![' '] + n + seq![';', '\n'],
        NameV::Struct(n) => match e.1 {
            TypeV::Struct(fs) => "struct "@ + n + " {\n"@ + layout_text(fs) + "};\n"@,
            _ => "struct "@ + n + seq![';', '\n'],
        },
        NameV::Union(n) => match e.1 {
            TypeV::Union(fs) => "union "@ + n + " {\n"@ + layout_text(fs) + "};\n"@,
            _ => "union "@ + n + seq![';', '\n'],
        },
    }
}

/// The report of a namespace: its bindings in the order they were made.
pub open spec fn namespace_text(es: Seq<(NameV, TypeV)>) -> Seq<char>
    decreases es.len(),
{
    if es.len() == 0 {
        seq![]
    } else {
        namespace_text(es.drop_last()) + entry_text(es.last())
    }
}

} // verus!

verus! {

/// Appends the characters of `s`.
pub fn push_all(out: &mut Vec<char>, s: &Vec<char>)
    ensures
        final(out)@ == old(out)@ + s@,
{
    let mut i: usize = 0;
    while i < s.len()
        invariant
            i <= s@.len(),
            out@ == old(out)@ + s@.take(i as int),
        decreases s@.len() - i,
    {
        out.push(s[i]);
        assert(s@.take(i + 1) =~= s@.take(i as int).push(s@[i as int]));
        i = i + 1;
    }
    assert(s@.take(i as int) =~= s@);
}

fn push_str(out: &mut Vec<char>, s: &str)
    ensures
        final(out)@ == old(out)@ + s@,
{
    let v = chars_of(s);
    push_all(out, &v);
}

fn push_hex_digits(out: &mut Vec<char>, n: u64)
    ensures
        final(out)@ == old(out)@ + hex_digits(n as nat),
    decreases n,
{
    if n >= 16 {
        push_hex_digits(out, n / 16);
    }
    let d = n % 16;
    let c = if d == 0 { '0' } else if d == 1 { '1' } else if d == 2 { '2' } else if d == 3 { '3' }
    else if d == 4 { '4' } else if d == 5 { '5' } else if d == 6 { '6' } else if d == 7 { '7' }
    else if d == 8 { '8' } else if d == 9 { '9' } else if d == 10 { 'A' } else if d == 11 { 'B' }
    else if d == 12 { 'C' } else if d == 13 { 'D' } else if d == 14 { 'E' } else { 'F' };
    out.push(c);
    assert(final(out)@ =~= old(out)@ + hex_digits(n as nat));
}

fn push_hex2(out: &mut Vec<char>, n: u64)
    ensures
        final(out)@ == old(out)@ + hex2(n as nat),
{
    if n < 16 {
        out.push('0');
        push_hex_digits(out, n);
        assert(out@ =~= old(out)@ + hex2(n as nat));
    } else {
        push_hex_digits(out, n);
    }
}

/// A report line with the offset and size it is ordered by.
pub struct Line {
    pub offset: usize,
    pub size: usize,
    pub text: Vec<char>,
}

impl View for Line {
    type V = LineV;

    open spec fn view(&self) -> LineV {
        (self.offset as nat, self.size as nat, self.text@)
    }
}

pub open spec fn lines_view(ls: Seq<Line>) -> Seq<LineV> {
    ls.map_values(|l: Line| l@)
}

fn line_of(f: &crate::types::Field) -> (r: Line)
    requires
        f.offset + f.size <= usize::MAX,
    ensures
        r@ == (f@.offset, f@.size, field_line(f@)),
{
    let mut range: Vec<char> = Vec::new();
    push_hex2(&mut range, f.offset as u64);
    if f.size == 0 {
        push_str(&mut range, " (offset only, size unknown)");
    } else {
        push_str(&mut range, " - ");
        assert(" - "@ =~= seq![' ', '-', ' ']) by {
            reveal_strlit(" - ");
        }
        push_hex2(&mut range, (f.offset + f.size) as u64);
    }
    assert(range@ =~= range_text(f@));
    let mut text: Vec<char> = vec!['\t'];
    push_all(&mut text, &range);
    while text.len() < 33
        invariant
            text@.len() <= 33 ==> text@ == seq!['\t'] + range@ + Seq::new(
                (text@.len() - 1 - range@.len()) as nat,
                |_i: int| ' ',
            ),
            text@.len() >= 1 + range@.len(),
            text@.len() > 33 ==> text@ == seq!['\t'] + range@,
        decreases 33 - text@.len(),
    {
        text.push(' ');
        assert(text@ =~= seq!['\t'] + range@ + Seq::new(
            (text@.len() - 1 - range@.len()) as nat,
            |_i: int| ' ',
        ));
    }
    proof {
        if range@.len() < 32 {
            assert(text@ =~= seq!['\t'] + pad(range@, 32));
        } else {
            assert(Seq::new((text@.len() - 1 - range@.len()) as nat, |_i: int| ' ') =~= Seq::<
                char,
            >::empty());
            assert(text@ =~= seq!['\t'] + pad(range@, 32));
        }
    }
    text.push(' ');
    let name = chars_of(f.name.as_str());
    push_all(&mut text, &name);
    text.push(';');
    text.push('\n');
    assert(text@ =~= field_line(f@));
    Line { offset: f.offset, size: f.size, text }
}

} // verus!

verus! {

fn text_le_exec(a: &Vec<char>, b: &Vec<char>) -> (r: bool)
    ensures
        r == text_le(a@, b@),
{
    let mut i: usize = 0;
    assert(a@.skip(0) =~= a@);
    assert(b@.skip(0) =~= b@);
    loop
        invariant
            i <= a@.len(),
            i <= b@.len(),
            text_le(a@, b@) == text_le(a@.skip(i as int), b@.skip(i as int)),
        decreases a@.len() - i,
    {
        if i == a.len() {
            return true;
        }
        if i == b.len() {
            return false;
        }
        assert(a@.skip(i as int)[0] == a@[i as int]);
        assert(b@.skip(i as int)[0] == b@[i as int]);
        if a[i] != b[i] {
            return a[i] < b[i];
        }
        assert(a@.skip(i as int).drop_first() =~= a@.skip(i + 1));
        assert(b@.skip(i as int).drop_first() =~= b@.skip(i + 1));
        i = i + 1;
    }
}

fn line_le_exec(a: &Line, b: &Line) -> (r: bool)
    ensures
        r == line_le(a@, b@),
{
    a.offset < b.offset || (a.offset == b.offset && (a.size < b.size || (a.size == b.size
        && text_le_exec(&a.text, &b.text))))
}

proof fn lemma_insert_at(s: Seq<LineV>, l: LineV, j: int)
    requires
        0 <= j <= s.len(),
        forall|k: int| 0 <= k < j ==> !line_le(l, #[trigger] s[k]),
        j < s.len() ==> line_le(l, s[j]),
    ensures
        insert_line(s, l) == s.insert(j, l),
    decreases j,
{
    if j == 0 {
        if s.len() == 0 {
            assert(s.insert(0, l) =~= seq![l]);
        } else {
            assert(s.insert(0, l) =~= seq![l] + s);
        }
    } else {
        assert(!line_le(l, s[0]));
        assert forall|k: int| 0 <= k < j - 1 implies !line_le(l, #[trigger] s.drop_first()[k]) by {
            assert(s.drop_first()[k] == s[k + 1]);
        }
        if j - 1 < s.drop_first().len() {
            assert(s.drop_first()[j - 1] == s[j]);
        }
        lemma_insert_at(s.drop_first(), l, j - 1);
        assert(seq![s[0]] + s.drop_first().insert(j - 1, l) =~= s.insert(j, l));
    }
}

fn insert_line_exec(v: &mut Vec<Line>, l: Line)
    ensures
        lines_view(final(v)@) == insert_line(lines_view(old(v)@), l@),
{
    let mut j: usize = 0;
    while j < v.len() && !line_le_exec(&l, &v[j])
        invariant
            j <= v@.len(),
            forall|k: int| 0 <= k < j ==> !line_le(l@, #[trigger] lines_view(v@)[k]),
        decreases v@.len() - j,
    {
        j = j + 1;
    }
    let ghost lv = l@;
    proof {
        lemma_insert_at(lines_view(v@), lv, j as int);
    }
    v.insert(j, l);
    assert(lines_view(v@) =~= lines_view(old(v)@).insert(j as int, lv));
}

/// The report lines of a layout, one per field, ordered by offset, size and
/// text.
pub fn layout_chars(l: &Layout) -> (r: Vec<char>)
    requires
        l.wf(),
    ensures
        r@ == layout_text(l@),
{
    proof {
        l.lemma_wf();
    }
    let fields = l.fields();
    let mut sorted: Vec<Line> = Vec::new();
    let mut i: usize = 0;
    assert(l@.take(0) =~= Seq::<FieldV>::empty());
    assert(lines_view(sorted@) =~= Seq::<LineV>::empty());
    while i < fields.len()
        invariant
            i <= fields@.len(),
            fields_view(fields@) == l@,
            forall|k: int| 0 <= k < l@.len() ==> l@[k].offset + l@[k].size <= usize::MAX,
            lines_view(sorted@) == sorted_lines(l@.take(i as int)),
        decreases fields@.len() - i,
    {
        assert(fields@[i as int]@ == l@[i as int]);
        let line = line_of(&fields[i]);
        insert_line_exec(&mut sorted, line);
        assert(l@.take(i + 1).drop_last() =~= l@.take(i as int));
        assert(l@.take(i + 1).last() == l@[i as int]);
        i = i + 1;
    }
    assert(l@.take(i as int) =~= l@);
    let mut out: Vec<char> = Vec::new();
    let mut j: usize = 0;
    assert(lines_view(sorted@).take(0) =~= Seq::<LineV>::empty());
    while j < sorted.len()
        invariant
            j <= sorted@.len(),
            out@ == join_lines(lines_view(sorted@).take(j as int)),
        decreases sorted@.len() - j,
    {
        push_all(&mut out, &sorted[j].text);
        assert(lines_view(sorted@).take(j + 1).drop_last() =~= lines_view(sorted@).take(j as int));
        assert(lines_view(sorted@).take(j + 1).last() == sorted@[j as int]@);
        j = j + 1;
    }
    assert(lines_view(sorted@).take(j as int) =~= lines_view(sorted@));
    out
}

} // verus!

verus! {

fn push_name(out: &mut Vec<char>, s: &String)
    ensures
        final(out)@ == old(out)@ + s@,
{
    let v = chars_of(s.as_str());
    push_all(out, &v);
}

fn name_string(n: &TypeName) -> (r: &String)
    ensures
        r@ == name_text(n@),
{
    match n {
        TypeName::Normal(s) => s,
        TypeName::Struct(s) => s,
        TypeName::Union(s) => s,
    }
}

fn push_type(out: &mut Vec<char>, t: &Type)
    requires
        t.wf(),
    ensures
        final(out)@ == old(out)@ + type_text(t@),
    decreases t,
{
    match t {
        Type::Struct(s) => {
            push_str(out, "struct {\n");
            let body = layout_chars(&s.layout);
            push_all(out, &body);
            out.push('}');
        },
        Type::Union(u) => {
            push_str(out, "union {\n");
            let body = layout_chars(&u.layout);
            push_all(out, &body);
            out.push('}');
        },
        Type::Primitive(n) => {
            push_str(out, "primitive[size: ");
            push_decimal(out, *n as u64);
            out.push(']');
        },
        Type::Pointer(p) => {
            push_type(out, &**p);
            out.push('*');
        },
        Type::Unknown(n) => {
            push_name(out, name_string(n));
        },
    }
    assert(final(out)@ =~= old(out)@ + type_text(t@));
}

fn push_entry(out: &mut Vec<char>, k: &TypeName, v: &Type)
    requires
        v.wf(),
    ensures
        final(out)@ == old(out)@ + entry_text((k@, v@)),
{
    match k {
        TypeName::Normal(n) => {
            push_str(out, "typedef ");
            push_type(out, v);
            out.push(' ');
            push_name(out, n);
            out.push(';');
            out.push('\n');
        },
        TypeName::Struct(n) => {
            push_str(out, "struct ");
            push_name(out, n);
            match v {
                Type::Struct(s) => {
                    push_str(out, " {\n");
                    let body = layout_chars(&s.layout);
                    push_all(out, &body);
                    push_str(out, "};\n");
                },
                _ => {
                    out.push(';');
                    out.push('\n');
                },
            }
        },
        TypeName::Union(n) => {
            push_str(out, "union ");
            push_name(out, n);
            match v {
                Type::Union(u) => {
                    push_str(out, " {\n");
                    let body = layout_chars(&u.layout);
                    push_all(out, &body);
                    push_str(out, "};\n");
                },
                _ => {
                    out.push(';');
                    out.push('\n');
                },
            }
        },
    }
    assert(final(out)@ =~= old(out)@ + entry_text((k@, v@)));
}

impl Struct {
    /// The report of this struct: `struct {`, one line per field ordered
    /// by offset and size, `}`.
    pub fn render(&self) -> (r: String)
        requires
            self.wf(),
        ensures
            r@ == type_text(TypeV::Struct(self@)),
    {
        let mut out: Vec<char> = Vec::new();
        push_str(&mut out, "struct {\n");
        let body = layout_chars(&self.layout);
        push_all(&mut out, &body);
        out.push('}');
        assert(out@ =~= type_text(TypeV::Struct(self@)));
        string_of_chars(&out)
    }
}

impl Union {
    /// The report of this union: `union {`, one line per member ordered by
    /// offset and size, `}`.
    pub fn render(&self) -> (r: String)
        requires
            self.wf(),
        ensures
            r@ == type_text(TypeV::Union(self@)),
    {
        let mut out: Vec<char> = Vec::new();
        push_str(&mut out, "union {\n");
        let body = layout_chars(&self.layout);
        push_all(&mut out, &body);
        out.push('}');
        assert(out@ =~= type_text(TypeV::Union(self@)));
        string_of_chars(&out)
    }
}

impl Type {
    /// The report of this type.
    pub fn render(&self) -> (r: String)
        requires
            self.wf(),
        ensures
            r@ == type_text(self@),
    {
        let mut out: Vec<char> = Vec::new();
        push_type(&mut out, self);
        assert(out@ =~= type_text(self@));
        string_of_chars(&out)
    }
}

impl GlobalNameSpace {
    /// The report of every binding, in the order the bindings were made.
    pub fn render(&self) -> (r: String)
        requires
            self.wf(),
        ensures
            r@ == namespace_text(self@),
    {
        let es = self.iter();
        let mut out: Vec<char> = Vec::new();
        let mut i: usize = 0;
        assert(self@.take(0) =~= Seq::<(NameV, TypeV)>::empty());
        while i < es.len()
            invariant
                i <= es@.len(),
                crate::types::entries_view(es@) == self@,
                forall|j: int| 0 <= j < es@.len() ==> (#[trigger] es@[j]).1.wf(),
                out@ == namespace_text(self@.take(i as int)),
            decreases es@.len() - i,
        {
            let (k, v) = &es[i];
            push_entry(&mut out, k, v);
            assert(self@.take(i + 1).drop_last() =~= self@.take(i as int));
            assert(self@.take(i + 1).last() == (k@, v@));
            i = i + 1;
        }
        assert(self@.take(i as int) =~= self@);
        string_of_chars(&out)
    }
}

} // verus!
