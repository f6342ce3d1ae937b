use crate::error::{CompileError, ErrorV};
use std::rc::Rc;
use vstd::prelude::*;

verus! {

/// A type name in one of the three namespaces: typedef aliases, struct
/// tags and union tags.
#[derive(Debug, PartialEq, Eq, Clone, Hash)]
pub enum TypeName {
    Normal(String),
    Struct(String),
    Union(String),
}

/// The mathematical model of a `TypeName`.
pub enum NameV {
    Normal(Seq<char>),
    Struct(Seq<char>),
    Union(Seq<char>),
}

impl View for TypeName {
    type V = NameV;

    open spec fn view(&self) -> NameV {
        match self {
            TypeName::Normal(s) => NameV::Normal(s@),
            TypeName::Struct(s) => NameV::Struct(s@),
            TypeName::Union(s) => NameV::Union(s@),
        }
    }
}

impl TypeName {
    /// A copy of this name.
    pub fn copy(&self) -> (r: TypeName)
        ensures
            r@ == self@,
    {
        match self {
            TypeName::Normal(s) => TypeName::Normal(s.clone()),
            TypeName::Struct(s) => TypeName::Struct(s.clone()),
            TypeName::Union(s) => TypeName::Union(s.clone()),
        }
    }

    /// Whether two names are the same name in the same namespace.
    pub fn same(&self, o: &TypeName) -> (r: bool)
        ensures
            r == (self@ == o@),
    {
        match (self, o) {
            (TypeName::Normal(a), TypeName::Normal(b)) => *a == *b,
            (TypeName::Struct(a), TypeName::Struct(b)) => *a == *b,
            (TypeName::Union(a), TypeName::Union(b)) => *a == *b,
            _ => false,
        }
    }
}

} // verus!

verus! {

/// One field of an aggregate: its name, its byte offset and its byte size.
#[derive(Debug, PartialEq, Clone)]
pub struct Field {
    pub name: String,
    pub offset: usize,
    pub size: usize,
}

/// The mathematical model of a `Field`.
pub struct FieldV {
    pub name: Seq<char>,
    pub offset: nat,
    pub size: nat,
}

impl View for Field {
    type V = FieldV;

    open spec fn view(&self) -> FieldV {
        FieldV { name: self.name@, offset: self.offset as nat, size: self.size as nat }
    }
}

/// The models of a sequence of fields.
pub open spec fn fields_view(fs: Seq<Field>) -> Seq<FieldV> {
    fs.map_values(|f: Field| f@)
}

/// Whether some field of `fs` is called `n`.
pub open spec fn has_field(fs: Seq<FieldV>, n: Seq<char>) -> bool {
    exists|i: int| 0 <= i < fs.len() && #[trigger] fs[i].name == n
}

/// No two fields of `fs` share a name.
pub open spec fn names_unique(fs: Seq<FieldV>) -> bool {
    forall|i: int, j: int| 0 <= i < fs.len() && 0 <= j < fs.len() && i != j ==> #[trigger] fs[i].name != #[trigger] fs[j].name
}

/// The size of a layout: the largest end (offset plus size) of its fields,
/// or 0 when it has none.
pub open spec fn layout_size(fs: Seq<FieldV>) -> nat
    decreases fs.len(),
{
    if fs.len() == 0 {
        0
    } else {
        let last = fs.last();
        let rest = layout_size(fs.drop_last());
        if rest < last.offset + last.size {
            last.offset + last.size
        } else {
            rest
        }
    }
}

/// `f` moved `by` bytes further.
pub open spec fn shifted(f: FieldV, by: nat) -> FieldV {
    FieldV { name: f.name, offset: f.offset + by, size: f.size }
}

/// Adds a field under a name; a field of the same name is replaced in place.
pub open spec fn put_field(fs: Seq<FieldV>, f: FieldV) -> Seq<FieldV> {
    if has_field(fs, f.name) {
        let i = choose|i: int| 0 <= i < fs.len() && fs[i].name == f.name;
        fs.update(i, f)
    } else {
        fs.push(f)
    }
}

/// Appends the fields of `inner`, each moved `by` bytes, to `acc`; the first
/// of them whose name `acc` already holds is a `DuplicateField` error.
pub open spec fn inject_fields(acc: Seq<FieldV>, inner: Seq<FieldV>, by: nat) -> Result<
    Seq<FieldV>,
    ErrorV,
>
    decreases inner.len(),
{
    if inner.len() == 0 {
        Ok(acc)
    } else if has_field(acc, inner[0].name) {
        Err(ErrorV::DuplicateField(inner[0].name))
    } else {
        inject_fields(acc.push(shifted(inner[0], by)), inner.drop_first(), by)
    }
}

/// Whether two layouts hold the same fields, with the same offsets and
/// sizes, in any order.
pub open spec fn same_layout(a: Seq<FieldV>, b: Seq<FieldV>) -> bool {
    a.to_set() == b.to_set()
}

/// Every field ends within the size of its layout, and some field ends
/// exactly there.
pub proof fn lemma_size_bounds(fs: Seq<FieldV>)
    ensures
        forall|i: int| 0 <= i < fs.len() ==> fs[i].offset + fs[i].size <= layout_size(fs),
        fs.len() > 0 ==> exists|i: int|
            0 <= i < fs.len() && fs[i].offset + fs[i].size == layout_size(fs),
    decreases fs.len(),
{
    if fs.len() > 0 {
        lemma_size_bounds(fs.drop_last());
        assert forall|i: int| 0 <= i < fs.len() implies fs[i].offset + fs[i].size <= layout_size(
            fs,
        ) by {
            if i < fs.len() - 1 {
                assert(fs[i] == fs.drop_last()[i]);
            }
        }
        if fs.drop_last().len() > 0 && layout_size(fs.drop_last()) >= fs.last().offset
            + fs.last().size {
            let j = choose|j: int|
                0 <= j < fs.drop_last().len() && fs.drop_last()[j].offset
                    + fs.drop_last()[j].size == layout_size(fs.drop_last());
            assert(fs[j] == fs.drop_last()[j]);
        } else {
            assert(fs[fs.len() - 1] == fs.last());
        }
    }
}

/// A layout whose fields all end within `b` has a size of at most `b`.
pub proof fn lemma_size_at_most(fs: Seq<FieldV>, b: nat)
    requires
        forall|i: int| 0 <= i < fs.len() ==> fs[i].offset + fs[i].size <= b,
    ensures
        layout_size(fs) <= b,
    decreases fs.len(),
{
    if fs.len() > 0 {
        assert forall|i: int| 0 <= i < fs.drop_last().len() implies fs.drop_last()[i].offset
            + fs.drop_last()[i].size <= b by {
            assert(fs.drop_last()[i] == fs[i]);
        }
        lemma_size_at_most(fs.drop_last(), b);
    }
}

/// Injecting `inner` moved `by` bytes gives a layout no larger than the
/// larger of `acc` and `by` plus the size of `inner`.
pub proof fn lemma_inject_size(acc: Seq<FieldV>, inner: Seq<FieldV>, by: nat)
    ensures
        match inject_fields(acc, inner, by) {
            Ok(fs) => layout_size(fs) <= if layout_size(acc) < by + layout_size(inner) {
                by + layout_size(inner)
            } else {
                layout_size(acc)
            },
            Err(_) => true,
        },
    decreases inner.len(),
{
    if inner.len() > 0 && !has_field(acc, inner[0].name) {
        let next = acc.push(shifted(inner[0], by));
        lemma_inject_size(next, inner.drop_first(), by);
        lemma_size_bounds(inner);
        assert(next.drop_last() =~= acc);
        assert forall|i: int| 0 <= i < inner.drop_first().len() implies inner.drop_first()[i].offset
            + inner.drop_first()[i].size <= layout_size(inner) by {
            assert(inner.drop_first()[i] == inner[i + 1]);
        }
        lemma_size_at_most(inner.drop_first(), layout_size(inner));
    }
}

/// The fields of a struct or union, with their offsets and sizes. Field
/// names are unique.
#[derive(Debug, PartialEq)]
pub struct Layout {
    fields: Vec<Field>,
}

impl View for Layout {
    type V = Seq<FieldV>;

    closed spec fn view(&self) -> Seq<FieldV> {
        fields_view(self.fields@)
    }
}

impl Layout {
    /// Field names are unique and every field ends within `usize`.
    pub closed spec fn wf(&self) -> bool {
        &&& names_unique(fields_view(self.fields@))
        &&& forall|i: int|
            0 <= i < self.fields@.len() ==> self.fields@[i].offset + self.fields@[i].size
                <= usize::MAX
    }

    /// An empty layout.
    pub fn new() -> (r: Layout)
        ensures
            r.wf(),
            r@ == Seq::<FieldV>::empty(),
    {
        let r = Layout { fields: Vec::new() };
        assert(r@ =~= Seq::<FieldV>::empty());
        r
    }

    /// What well-formedness gives: unique names, and every field ending
    /// within the size, which fits in `usize`.
    pub proof fn lemma_wf(&self)
        requires
            self.wf(),
        ensures
            names_unique(self@),
            forall|i: int| 0 <= i < self@.len() ==> self@[i].offset + self@[i].size <= layout_size(self@),
            layout_size(self@) <= usize::MAX,
    {
        lemma_size_bounds(self@);
        if self@.len() > 0 {
            let i = choose|i: int| 0 <= i < self@.len() && self@[i].offset + self@[i].size == layout_size(self@);
            assert(self.fields@[i].offset + self.fields@[i].size <= usize::MAX);
        }
    }

    /// The number of fields.
    pub fn len(&self) -> (r: usize)
        ensures
            r == self@.len(),
    {
        self.fields.len()
    }

    /// The fields, in the order in which they were added.
    pub fn fields(&self) -> (r: &Vec<Field>)
        ensures
            fields_view(r@) == self@,
    {
        &self.fields
    }

    /// Where the field called `name` stands, if there is one.
    pub fn position(&self, name: &String) -> (r: Option<usize>)
        ensures
            match r {
                Some(i) => i < self@.len() && self@[i as int].name == name@,
                None => !has_field(self@, name@),
            },
    {
        let mut i: usize = 0;
        while i < self.fields.len()
            invariant
                i <= self.fields@.len(),
                forall|j: int| 0 <= j < i ==> self@[j].name != name@,
            decreases self.fields@.len() - i,
        {
            if self.fields[i].name == *name {
                return Some(i);
            }
            i = i + 1;
        }
        None
    }

    /// The size: the largest end of a field, 0 when there is none.
    pub fn size(&self) -> (r: usize)
        requires
            self.wf(),
        ensures
            r == layout_size(self@),
    {
        let mut r: usize = 0;
        let mut i: usize = 0;
        while i < self.fields.len()
            invariant
                i <= self.fields@.len(),
                r == layout_size(self@.take(i as int)),
                self.wf(),
                forall|k: int|
                    0 <= k < self.fields@.len() ==> self.fields@[k].offset + self.fields@[k].size
                        <= usize::MAX,
            decreases self.fields@.len() - i,
        {
            let end = self.fields[i].offset + self.fields[i].size;
            assert(self@.take(i + 1).drop_last() =~= self@.take(i as int));
            if r < end {
                r = end;
            }
            i = i + 1;
        }
        assert(self@.take(i as int) =~= self@);
        r
    }

    /// Sets the field `name` to the given offset and size: it is added at
    /// the end, or replaced in place when the name is taken. Gives back the
    /// replaced offset and size.
    pub fn put(&mut self, name: String, offset: usize, size: usize) -> (r: Option<(usize, usize)>)
        requires
            old(self).wf(),
            offset + size <= usize::MAX,
        ensures
            final(self).wf(),
            final(self)@ == put_field(
                old(self)@,
                FieldV { name: name@, offset: offset as nat, size: size as nat },
            ),
            match r {
                Some(p) => exists|i: int|
                    0 <= i < old(self)@.len() && old(self)@[i].name == name@ && old(self)@[i].offset
                        == p.0 && old(self)@[i].size == p.1,
                None => !has_field(old(self)@, name@),
            },
    {
        let ghost f = FieldV { name: name@, offset: offset as nat, size: size as nat };
        match self.position(&name) {
            Some(i) => {
                let old_pair = (self.fields[i].offset, self.fields[i].size);
                proof {
                    let j = choose|j: int| 0 <= j < self@.len() && self@[j].name == name@;
                    assert(j == i);
                }
                self.fields.set(i, Field { name, offset, size });
                assert(self@ =~= old(self)@.update(i as int, f));
                Some(old_pair)
            },
            None => {
                self.fields.push(Field { name, offset, size });
                assert(self@ =~= old(self)@.push(f));
                None
            },
        }
    }

    /// Appends the fields of `other`, each moved `by` bytes; fails with
    /// `DuplicateField` on the first name that is taken already.
    pub fn inject(&mut self, other: &Layout, by: usize) -> (r: Result<(), CompileError>)
        requires
            old(self).wf(),
            other.wf(),
            by + layout_size(other@) <= usize::MAX,
        ensures
            r is Ok ==> final(self).wf(),
            match inject_fields(old(self)@, other@, by as nat) {
                Ok(fs) => r is Ok && final(self)@ == fs,
                Err(e) => r is Err && r->Err_0@ == e,
            },
    {
        proof {
            other.lemma_wf();
        }
        let mut i: usize = 0;
        assert(other@.skip(0) =~= other@);
        while i < other.fields.len()
            invariant
                i <= other@.len(),
                by + layout_size(other@) <= usize::MAX,
                forall|k: int| 0 <= k < other@.len() ==> other@[k].offset + other@[k].size <= layout_size(other@),
                self.wf(),
                inject_fields(old(self)@, other@, by as nat) == inject_fields(
                    self@,
                    other@.skip(i as int),
                    by as nat,
                ),
            decreases other@.len() - i,
        {
            let f = &other.fields[i];
            assert(other@.skip(i as int)[0] == other@[i as int]);
            assert(other@.skip(i as int).drop_first() =~= other@.skip(i + 1));
            match self.position(&f.name) {
                Some(_) => {
                    return Err(CompileError::DuplicateField(f.name.clone()));
                },
                None => {
                    let ghost pre = self@;
                    self.fields.push(Field { name: f.name.clone(), offset: f.offset + by, size: f.size });
                    assert(self@ =~= pre.push(shifted(other@[i as int], by as nat)));
                },
            }
            i = i + 1;
        }
        assert(other@.skip(i as int) =~= Seq::<FieldV>::empty());
        Ok(())
    }

    /// Whether `f` is one of the fields, with the same offset and size.
    pub fn contains(&self, f: &Field) -> (r: bool)
        ensures
            r == self@.contains(f@),
    {
        let mut i: usize = 0;
        while i < self.fields.len()
            invariant
                i <= self.fields@.len(),
                forall|j: int| 0 <= j < i ==> self@[j] != f@,
            decreases self.fields@.len() - i,
        {
            let g = &self.fields[i];
            if g.name == f.name && g.offset == f.offset && g.size == f.size {
                assert(self@[i as int] == f@);
                return true;
            }
            i = i + 1;
        }
        false
    }

    fn includes(&self, o: &Layout) -> (r: bool)
        ensures
            r == (forall|j: int| 0 <= j < o@.len() ==> self@.contains(#[trigger] o@[j])),
    {
        let mut i: usize = 0;
        while i < o.fields.len()
            invariant
                i <= o.fields@.len(),
                forall|j: int| 0 <= j < i ==> self@.contains(#[trigger] o@[j]),
            decreases o.fields@.len() - i,
        {
            if !self.contains(&o.fields[i]) {
                assert(o@[i as int] == o.fields@[i as int]@);
                return false;
            }
            i = i + 1;
        }
        true
    }

    /// Whether both layouts hold the same fields, with the same offsets and
    /// sizes, in any order.
    pub fn same_fields(&self, o: &Layout) -> (r: bool)
        ensures
            r == same_layout(self@, o@),
    {
        let a = self.includes(o);
        let b = o.includes(self);
        proof {
            if a && b {
                assert(self@.to_set() =~= o@.to_set()) by {
                    assert forall|x: FieldV| self@.contains(x) implies o@.contains(x) by {
                        let i = choose|i: int| 0 <= i < self@.len() && self@[i] == x;
                        assert(o@.contains(self@[i]));
                    }
                    assert forall|x: FieldV| o@.contains(x) implies self@.contains(x) by {
                        let i = choose|i: int| 0 <= i < o@.len() && o@[i] == x;
                        assert(self@.contains(o@[i]));
                    }
                }
            }
            if same_layout(self@, o@) {
                assert forall|j: int| 0 <= j < o@.len() implies self@.contains(#[trigger] o@[j]) by {
                    assert(o@.to_set().contains(o@[j]));
                }
                assert forall|j: int| 0 <= j < self@.len() implies o@.contains(#[trigger] self@[j]) by {
                    assert(self@.to_set().contains(self@[j]));
                }
            }
        }
        a && b
    }

    /// A copy of this layout.
    pub fn copy(&self) -> (r: Layout)
        requires
            self.wf(),
        ensures
            r.wf(),
            r@ == self@,
    {
        let mut fields: Vec<Field> = Vec::new();
        let mut i: usize = 0;
        while i < self.fields.len()
            invariant
                i <= self.fields@.len(),
                fields@ == self.fields@.take(i as int),
                self.wf(),
            decreases self.fields@.len() - i,
        {
            let f = &self.fields[i];
            fields.push(Field { name: f.name.clone(), offset: f.offset, size: f.size });
            assert(fields@ =~= self.fields@.take(i + 1));
            i = i + 1;
        }
        assert(fields@ =~= self.fields@);
        Layout { fields }
    }
}

} // verus!

verus! {

/// The layout of a struct: each field starts where the struct ended before it.
#[derive(Debug, PartialEq)]
pub struct Struct {
    pub layout: Layout,
}

impl View for Struct {
    type V = Seq<FieldV>;

    open spec fn view(&self) -> Seq<FieldV> {
        self.layout@
    }
}

impl Struct {
    pub open spec fn wf(&self) -> bool {
        self.layout.wf()
    }

    /// A struct without fields.
    pub fn new() -> (r: Struct)
        ensures
            r.wf(),
            r@ == Seq::<FieldV>::empty(),
    {
        Struct { layout: Layout::new() }
    }

    /// Adds the field `name` of `size` bytes at the current end of the
    /// struct; a field of that name is replaced in place, and its offset and
    /// size are given back.
    pub fn insert(&mut self, name: String, size: usize) -> (r: Option<(usize, usize)>)
        requires
            old(self).wf(),
            layout_size(old(self)@) + size <= usize::MAX,
        ensures
            final(self).wf(),
            final(self)@ == put_field(
                old(self)@,
                FieldV { name: name@, offset: layout_size(old(self)@), size: size as nat },
            ),
            match r {
                Some(p) => exists|i: int|
                    0 <= i < old(self)@.len() && old(self)@[i].name == name@ && old(self)@[i].offset
                        == p.0 && old(self)@[i].size == p.1,
                None => !has_field(old(self)@, name@),
            },
    {
        let bound = self.layout.size();
        self.layout.put(name, bound, size)
    }

    /// Appends the fields of a struct after the current end of this one.
    pub fn inject_struct(&mut self, s: Struct) -> (r: Result<(), CompileError>)
        requires
            old(self).wf(),
            s.wf(),
            layout_size(old(self)@) + layout_size(s@) <= usize::MAX,
        ensures
            match inject_fields(old(self)@, s@, layout_size(old(self)@)) {
                Ok(fs) => r is Ok && final(self)@ == fs && final(self).wf(),
                Err(e) => r is Err && r->Err_0@ == e,
            },
    {
        let bound = self.layout.size();
        self.layout.inject(&s.layout, bound)
    }

    /// Appends the fields of a union after the current end of this struct,
    /// keeping their offsets within the union.
    pub fn inject_union(&mut self, u: Union) -> (r: Result<(), CompileError>)
        requires
            old(self).wf(),
            u.wf(),
            layout_size(old(self)@) + layout_size(u@) <= usize::MAX,
        ensures
            match inject_fields(old(self)@, u@, layout_size(old(self)@)) {
                Ok(fs) => r is Ok && final(self)@ == fs && final(self).wf(),
                Err(e) => r is Err && r->Err_0@ == e,
            },
    {
        let bound = self.layout.size();
        self.layout.inject(&u.layout, bound)
    }

    /// The size in bytes.
    pub fn size(&self) -> (r: usize)
        requires
            self.wf(),
        ensures
            r == layout_size(self@),
    {
        self.layout.size()
    }

    /// Whether the struct has no field.
    pub fn is_empty(&self) -> (r: bool)
        ensures
            r == (self@.len() == 0),
    {
        self.layout.len() == 0
    }

    /// The fields, in the order in which they were added.
    pub fn iter(&self) -> (r: &Vec<Field>)
        ensures
            fields_view(r@) == self@,
    {
        self.layout.fields()
    }

    /// The fields with their offsets and sizes.
    pub fn layout(&self) -> (r: &Layout)
        ensures
            r@ == self@,
    {
        &self.layout
    }

    /// A copy of this struct.
    pub fn copy(&self) -> (r: Struct)
        requires
            self.wf(),
        ensures
            r.wf(),
            r@ == self@,
    {
        Struct { layout: self.layout.copy() }
    }
}

/// The layout of a union: each member starts at offset 0.
#[derive(Debug, PartialEq)]
pub struct Union {
    pub layout: Layout,
}

impl View for Union {
    type V = Seq<FieldV>;

    open spec fn view(&self) -> Seq<FieldV> {
        self.layout@
    }
}

impl Union {
    pub open spec fn wf(&self) -> bool {
        self.layout.wf()
    }

    /// A union without members.
    pub fn new() -> (r: Union)
        ensures
            r.wf(),
            r@ == Seq::<FieldV>::empty(),
    {
        Union { layout: Layout::new() }
    }

    /// Adds the member `name` of `size` bytes at offset 0; a member of that
    /// name is replaced in place, and its offset and size are given back.
    pub fn insert(&mut self, name: String, size: usize) -> (r: Option<(usize, usize)>)
        requires
            old(self).wf(),
        ensures
            final(self).wf(),
            final(self)@ == put_field(old(self)@, FieldV { name: name@, offset: 0, size: size as nat }),
            match r {
                Some(p) => exists|i: int|
                    0 <= i < old(self)@.len() && old(self)@[i].name == name@ && old(self)@[i].offset
                        == p.0 && old(self)@[i].size == p.1,
                None => !has_field(old(self)@, name@),
            },
    {
        self.layout.put(name, 0, size)
    }

    /// Adds the fields of a struct, keeping their offsets within the struct.
    pub fn inject_struct(&mut self, s: Struct) -> (r: Result<(), CompileError>)
        requires
            old(self).wf(),
            s.wf(),
        ensures
            match inject_fields(old(self)@, s@, 0) {
                Ok(fs) => r is Ok && final(self)@ == fs && final(self).wf(),
                Err(e) => r is Err && r->Err_0@ == e,
            },
    {
        proof {
            s.layout.lemma_wf();
        }
        self.layout.inject(&s.layout, 0)
    }

    /// Adds the members of another union, keeping their offsets.
    pub fn inject_union(&mut self, u: Union) -> (r: Result<(), CompileError>)
        requires
            old(self).wf(),
            u.wf(),
        ensures
            match inject_fields(old(self)@, u@, 0) {
                Ok(fs) => r is Ok && final(self)@ == fs && final(self).wf(),
                Err(e) => r is Err && r->Err_0@ == e,
            },
    {
        proof {
            u.layout.lemma_wf();
        }
        self.layout.inject(&u.layout, 0)
    }

    /// The size in bytes.
    pub fn size(&self) -> (r: usize)
        requires
            self.wf(),
        ensures
            r == layout_size(self@),
    {
        self.layout.size()
    }

    /// Whether the union has no member.
    pub fn is_empty(&self) -> (r: bool)
        ensures
            r == (self@.len() == 0),
    {
        self.layout.len() == 0
    }

    /// The fields, in the order in which they were added.
    pub fn iter(&self) -> (r: &Vec<Field>)
        ensures
            fields_view(r@) == self@,
    {
        self.layout.fields()
    }

    /// The members with their offsets and sizes.
    pub fn layout(&self) -> (r: &Layout)
        ensures
            r@ == self@,
    {
        &self.layout
    }

    /// A copy of this union.
    pub fn copy(&self) -> (r: Union)
        requires
            self.wf(),
        ensures
            r.wf(),
            r@ == self@,
    {
        Union { layout: self.layout.copy() }
    }
}

} // verus!

verus! {

/// A type: an aggregate, a primitive of a given size, a pointer to another
/// type, or a name that has not been given a body.
#[derive(Debug, PartialEq)]
pub enum Type {
    Struct(Struct),
    Union(Union),
    Primitive(usize),
    Pointer(Rc<Type>),
    Unknown(TypeName),
}

/// The mathematical model of a `Type`.
pub enum TypeV {
    Struct(Seq<FieldV>),
    Union(Seq<FieldV>),
    Primitive(nat),
    Pointer(Box<TypeV>),
    Unknown(NameV),
}

impl View for Type {
    type V = TypeV;

    open spec fn view(&self) -> TypeV
        decreases self,
    {
        match self {
            Type::Struct(s) => TypeV::Struct(s@),
            Type::Union(u) => TypeV::Union(u@),
            Type::Primitive(n) => TypeV::Primitive(*n as nat),
            Type::Pointer(p) => TypeV::Pointer(Box::new((**p).view())),
            Type::Unknown(n) => TypeV::Unknown(n@),
        }
    }
}

/// Relies on `Rc::clone`: the new handle points to the same value.
#[verifier::external_body]
fn share(p: &Rc<Type>) -> (r: Rc<Type>)
    ensures
        r == *p,
{
    Rc::clone(p)
}

impl Type {
    /// Every layout inside the type is well formed.
    pub open spec fn wf(&self) -> bool
        decreases self,
    {
        match self {
            Type::Struct(s) => s.wf(),
            Type::Union(u) => u.wf(),
            Type::Pointer(p) => (**p).wf(),
            _ => true,
        }
    }

    /// A copy of this type; a pointer target is shared, not copied.
    pub fn copy(&self) -> (r: Type)
        requires
            self.wf(),
        ensures
            r.wf(),
            r@ == self@,
    {
        match self {
            Type::Struct(s) => Type::Struct(s.copy()),
            Type::Union(u) => Type::Union(u.copy()),
            Type::Primitive(n) => Type::Primitive(*n),
            Type::Pointer(p) => Type::Pointer(share(p)),
            Type::Unknown(n) => Type::Unknown(n.copy()),
        }
    }
}

/// A pointer to `v`.
pub fn make_pointer(v: Type) -> (r: Type)
    ensures
        r@ == TypeV::Pointer(Box::new(v@)),
        r.wf() == v.wf(),
{
    Type::Pointer(Rc::new(v))
}

} // verus!

verus! {

/// The models of the bindings of a namespace, in the order they were made.
pub open spec fn entries_view(es: Seq<(TypeName, Type)>) -> Seq<(NameV, TypeV)> {
    es.map_values(|e: (TypeName, Type)| (e.0@, e.1@))
}

/// Whether some binding of `es` is for the name `k`.
pub open spec fn has_key(es: Seq<(NameV, TypeV)>, k: NameV) -> bool {
    exists|i: int| 0 <= i < es.len() && #[trigger] es[i].0 == k
}

/// No name is bound twice.
pub open spec fn keys_unique(es: Seq<(NameV, TypeV)>) -> bool {
    forall|i: int, j: int| 0 <= i < es.len() && 0 <= j < es.len() && i != j ==> #[trigger] es[i].0 != #[trigger] es[j].0
}

/// The type bound to `k`, if any.
pub open spec fn lookup(es: Seq<(NameV, TypeV)>, k: NameV) -> Option<TypeV> {
    if has_key(es, k) {
        let i = choose|i: int| 0 <= i < es.len() && es[i].0 == k;
        Some(es[i].1)
    } else {
        None
    }
}

/// Binds `k` to `v`: a binding of `k` is replaced in place, else one is
/// added at the end.
pub open spec fn put_entry(es: Seq<(NameV, TypeV)>, k: NameV, v: TypeV) -> Seq<(NameV, TypeV)> {
    if has_key(es, k) {
        let i = choose|i: int| 0 <= i < es.len() && es[i].0 == k;
        es.update(i, (k, v))
    } else {
        es.push((k, v))
    }
}

/// A set of bindings from type names to types, each name bound at most once.
#[derive(Debug, PartialEq)]
pub struct GlobalNameSpace {
    entries: Vec<(TypeName, Type)>,
}

impl View for GlobalNameSpace {
    type V = Seq<(NameV, TypeV)>;

    closed spec fn view(&self) -> Seq<(NameV, TypeV)> {
        entries_view(self.entries@)
    }
}

impl GlobalNameSpace {
    /// Names are bound at most once and every type is well formed.
    pub closed spec fn wf(&self) -> bool {
        &&& keys_unique(self@)
        &&& forall|i: int| 0 <= i < self.entries@.len() ==> (#[trigger] self.entries@[i]).1.wf()
    }

    /// An empty namespace.
    pub fn new() -> (r: GlobalNameSpace)
        ensures
            r.wf(),
            r@ == Seq::<(NameV, TypeV)>::empty(),
    {
        let r = GlobalNameSpace { entries: Vec::new() };
        assert(r@ =~= Seq::<(NameV, TypeV)>::empty());
        r
    }

    /// The number of bindings.
    pub fn len(&self) -> (r: usize)
        ensures
            r == self@.len(),
    {
        self.entries.len()
    }

    /// Where the binding of `k` stands, if there is one.
    pub fn position(&self, k: &TypeName) -> (r: Option<usize>)
        ensures
            match r {
                Some(i) => i < self@.len() && self@[i as int].0 == k@,
                None => !has_key(self@, k@),
            },
    {
        let mut i: usize = 0;
        while i < self.entries.len()
            invariant
                i <= self.entries@.len(),
                forall|j: int| 0 <= j < i ==> self@[j].0 != k@,
            decreases self.entries@.len() - i,
        {
            if self.entries[i].0.same(k) {
                return Some(i);
            }
            i = i + 1;
        }
        None
    }

    /// The type bound to `k`, if any.
    pub fn get(&self, k: &TypeName) -> (r: Option<&Type>)
        requires
            self.wf(),
        ensures
            match lookup(self@, k@) {
                Some(v) => r is Some && r->Some_0@ == v && r->Some_0.wf(),
                None => r is None,
            },
    {
        match self.position(k) {
            Some(i) => {
                proof {
                    let j = choose|j: int| 0 <= j < self@.len() && self@[j].0 == k@;
                    assert(j == i);
                }
                Some(&self.entries[i].1)
            },
            None => None,
        }
    }

    /// Binds `k` to `v`, replacing a binding of `k` in place; gives back the
    /// type it was bound to before.
    pub fn insert(&mut self, k: TypeName, v: Type) -> (r: Option<Type>)
        requires
            old(self).wf(),
            v.wf(),
        ensures
            final(self).wf(),
            final(self)@ == put_entry(old(self)@, k@, v@),
            match lookup(old(self)@, k@) {
                Some(t) => r is Some && r->Some_0@ == t,
                None => r is None,
            },
    {
        let ghost e = (k@, v@);
        match self.position(&k) {
            Some(i) => {
                proof {
                    let j = choose|j: int| 0 <= j < self@.len() && self@[j].0 == k@;
                    assert(j == i);
                }
                let before = self.entries[i].1.copy();
                self.entries.set(i, (k, v));
                assert(self@ =~= old(self)@.update(i as int, e));
                Some(before)
            },
            None => {
                self.entries.push((k, v));
                assert(self@ =~= old(self)@.push(e));
                None
            },
        }
    }

    /// Removes the binding of `k`, giving back its type.
    pub fn remove(&mut self, k: &TypeName) -> (r: Option<Type>)
        requires
            old(self).wf(),
        ensures
            final(self).wf(),
            match lookup(old(self)@, k@) {
                Some(t) => r is Some && r->Some_0@ == t && !has_key(final(self)@, k@)
                    && final(self)@.len() + 1 == old(self)@.len(),
                None => r is None && final(self)@ == old(self)@,
            },
    {
        match self.position(k) {
            Some(i) => {
                proof {
                    let j = choose|j: int| 0 <= j < self@.len() && self@[j].0 == k@;
                    assert(j == i);
                }
                let (_, t) = self.entries.remove(i);
                assert(self@ =~= old(self)@.remove(i as int));
                assert(!has_key(self@, k@)) by {
                    assert forall|j: int| 0 <= j < self@.len() implies self@[j].0 != k@ by {
                        if j < i {
                            assert(self@[j] == old(self)@[j]);
                        } else {
                            assert(self@[j] == old(self)@[j + 1]);
                        }
                    }
                }
                Some(t)
            },
            None => None,
        }
    }

    /// The bindings, in the order they were made.
    pub fn iter(&self) -> (r: &Vec<(TypeName, Type)>)
        requires
            self.wf(),
        ensures
            entries_view(r@) == self@,
            forall|i: int| 0 <= i < r@.len() ==> (#[trigger] r@[i]).1.wf(),
    {
        &self.entries
    }

    /// Takes the namespace apart into its bindings.
    pub fn drain(self) -> (r: Vec<(TypeName, Type)>)
        ensures
            entries_view(r@) == self@,
    {
        self.entries
    }
}

} // verus!
