//! Schema metadata: named, typed, nullable attributes in a fixed order.

use vstd::prelude::*;

use crate::error::DBError;
use crate::types::Type;

verus! {

/// High-level column metadata: name, nullability and type.
pub struct Attribute {
    pub name: String,
    pub nullable: bool,
    pub dtype: Type,
}

impl Attribute {
    /// Two attributes describe the same column shape.
    pub open spec fn same(&self, other: &Attribute) -> bool {
        &&& self.name@ == other.name@
        &&& self.nullable == other.nullable
        &&& self.dtype == other.dtype
    }

    /// A copy of this attribute under another name.
    pub fn rename(&self, name: &str) -> (r: Attribute)
        ensures
            r.name@ == name@,
            r.nullable == self.nullable,
            r.dtype == self.dtype,
    {
        Attribute { name: name.to_owned(), nullable: self.nullable, dtype: self.dtype }
    }
}

impl Clone for Attribute {
    fn clone(&self) -> (r: Attribute)
        ensures
            r == *self,
    {
        Attribute { name: self.name.clone(), nullable: self.nullable, dtype: self.dtype }
    }
}

/// Describes the attributes and organization of data.
pub struct Schema {
    attrs: Vec<Attribute>,
}

impl Schema {
    pub closed spec fn spec_attrs(&self) -> Seq<Attribute> {
        self.attrs@
    }

    pub open spec fn spec_count(&self) -> nat {
        self.spec_attrs().len()
    }

    /// No two attributes share a name.
    pub open spec fn names_unique(&self) -> bool {
        forall|i: int, j: int|
            0 <= i < j < self.spec_count() ==> self.spec_attrs()[i].name@
                != self.spec_attrs()[j].name@
    }

    /// `pos` is the first position of an attribute named `name`.
    pub open spec fn first_named(&self, name: Seq<char>, pos: int) -> bool {
        &&& 0 <= pos < self.spec_count()
        &&& self.spec_attrs()[pos].name@ == name
        &&& forall|j: int| 0 <= j < pos ==> self.spec_attrs()[j].name@ != name
    }

    /// No attribute bears the name `name`.
    pub open spec fn lacks_name(&self, name: Seq<char>) -> bool {
        forall|j: int| 0 <= j < self.spec_count() ==> self.spec_attrs()[j].name@ != name
    }

    /// The first `k` attributes of `attrs` have pairwise distinct names.
    pub open spec fn prefix_names_unique(attrs: Seq<Attribute>, k: int) -> bool {
        forall|a: int, b: int| 0 <= a < b < k ==> attrs[a].name@ != attrs[b].name@
    }

    /// Build a schema from a slice of attributes, rejecting repeated names.
    pub fn from_slice(attrs: &[Attribute]) -> (r: Result<Schema, DBError>)
        ensures
            r is Ok <==> (forall|i: int, j: int|
                0 <= i < j < attrs@.len() ==> attrs@[i].name@ != attrs@[j].name@),
            r matches Ok(s) ==> s.spec_attrs() == attrs@ && s.names_unique(),
            r matches Err(e) ==> e matches DBError::AttributeDuplicate(n) && exists|i: int, j: int|
                {
                    &&& 0 <= j < i < attrs@.len()
                    &&& attrs@[i].name@ == attrs@[j].name@
                    &&& n@ == attrs@[i].name@
                    &&& Self::prefix_names_unique(attrs@, i)
                },
    {
        let len = attrs.len();
        let mut i: usize = 1;
        while i < len
            invariant
                len == attrs@.len(),
                i <= len || len == 0,
                forall|a: int, b: int| 0 <= a < b < i && b < len ==> attrs@[a].name@ != attrs@[b].name@,
            decreases len - i,
        {
            let mut j: usize = 0;
            while j < i
                invariant
                    len == attrs@.len(),
                    i < len,
                    j <= i,
                    Self::prefix_names_unique(attrs@, i as int),
                    forall|a: int| 0 <= a < j ==> attrs@[a].name@ != attrs@[i as int].name@,
                decreases i - j,
            {
                if attrs[j].name == attrs[i].name {
                    proof {
                        assert(Self::prefix_names_unique(attrs@, i as int));
                    }
                    return Err(DBError::AttributeDuplicate(attrs[i].name.clone()));
                }
                j = j + 1;
            }
            i = i + 1;
        }
        let mut out: Vec<Attribute> = Vec::new();
        let mut k: usize = 0;
        while k < len
            invariant
                len == attrs@.len(),
                k <= len,
                out@ =~= attrs@.subrange(0, k as int),
            decreases len - k,
        {
            out.push(attrs[k].clone());
            k = k + 1;
        }
        proof {
            assert(out@ =~= attrs@);
        }
        Ok(Schema { attrs: out })
    }

    /// Build a schema from a vector of attributes, rejecting repeated names.
    pub fn from_vec(attrs: Vec<Attribute>) -> (r: Result<Schema, DBError>)
        ensures
            r is Ok <==> (forall|i: int, j: int|
                0 <= i < j < attrs@.len() ==> attrs@[i].name@ != attrs@[j].name@),
            r matches Ok(s) ==> s.spec_attrs() == attrs@ && s.names_unique(),
            r matches Err(e) ==> e matches DBError::AttributeDuplicate(n) && exists|i: int, j: int|
                {
                    &&& 0 <= j < i < attrs@.len()
                    &&& attrs@[i].name@ == attrs@[j].name@
                    &&& n@ == attrs@[i].name@
                    &&& Self::prefix_names_unique(attrs@, i)
                },
    {
        Self::from_slice(attrs.as_slice())
    }

    /// Create a single-attribute schema from an external attribute.
    pub fn from_attr(attr: Attribute) -> (s: Schema)
        ensures
            s.spec_attrs() == seq![attr],
            s.names_unique(),
    {
        let mut attrs: Vec<Attribute> = Vec::new();
        attrs.push(attr);
        proof {
            assert(attrs@ =~= seq![attr]);
        }
        Schema { attrs }
    }

    /// Create a single-attribute schema.
    pub fn make_one_attr(name: &str, nullable: bool, dtype: Type) -> (s: Schema)
        ensures
            s.spec_count() == 1,
            s.spec_attrs()[0].name@ == name@,
            s.spec_attrs()[0].nullable == nullable,
            s.spec_attrs()[0].dtype == dtype,
            s.names_unique(),
    {
        Self::from_attr(Attribute { name: name.to_owned(), nullable, dtype })
    }

    pub fn count(&self) -> (c: usize)
        ensures
            c == self.spec_count(),
    {
        self.attrs.len()
    }

    /// Position of the first attribute with the given name.
    pub fn name_pos(&self, name: &str) -> (r: Option<usize>)
        ensures
            r matches Some(pos) ==> self.first_named(name@, pos as int),
            r is None ==> self.lacks_name(name@),
    {
        let owned = name.to_owned();
        let len = self.attrs.len();
        let mut pos: usize = 0;
        while pos < len
            invariant
                owned@ == name@,
                len == self.spec_count(),
                pos <= len,
                forall|j: int| 0 <= j < pos ==> self.spec_attrs()[j].name@ != name@,
            decreases len - pos,
        {
            if self.attrs[pos].name == owned {
                return Some(pos);
            }
            pos = pos + 1;
        }
        None
    }

    /// Like [`Schema::name_pos`], but reports a missing attribute as an error.
    pub fn exists_ok(&self, name: &str) -> (r: Result<usize, DBError>)
        ensures
            r matches Ok(pos) ==> self.first_named(name@, pos as int),
            r matches Err(e) ==> self.lacks_name(name@) && (e matches DBError::AttributeMissing(s)
                && s@ == "(name: "@ + name@ + ")"@),
    {
        match self.name_pos(name) {
            Some(pos) => Ok(pos),
            None => Err(
                DBError::AttributeMissing(
                    String::from_str("(name: ").concat(name).concat(")"),
                ),
            ),
        }
    }

    /// The attribute at the given position.
    pub fn get(&self, pos: usize) -> (r: Result<&Attribute, DBError>)
        ensures
            pos < self.spec_count() ==> (r matches Ok(a) && *a == self.spec_attrs()[pos as int]),
            pos >= self.spec_count() ==> (r matches Err(e) && (e matches DBError::AttributeMissing(s)
                && s@ == "(pos: "@ + crate::math::spec_decimal(pos as nat) + ")"@)),
    {
        if pos >= self.attrs.len() {
            Err(
                DBError::AttributeMissing(
                    String::from_str("(pos: ").concat(
                        crate::math::decimal_string(pos).as_str(),
                    ).concat(")"),
                ),
            )
        } else {
            Ok(&self.attrs[pos])
        }
    }

    /// The first attribute with the given name.
    pub fn find(&self, name: &str) -> (r: Result<&Attribute, DBError>)
        ensures
            r matches Ok(a) ==> exists|i: int| self.first_named(name@, i) && *a == self.spec_attrs()[i],
            r matches Err(e) ==> self.lacks_name(name@) && (e matches DBError::AttributeMissing(s)
                && s@ == "(name: "@ + name@ + ")"@),
    {
        match self.name_pos(name) {
            Some(pos) => Ok(&self.attrs[pos]),
            None => Err(
                DBError::AttributeMissing(
                    String::from_str("(name: ").concat(name).concat(")"),
                ),
            ),
        }
    }

    /// Iterate over the attributes in schema order.
    pub fn iter(&self) -> (it: AttributeIter<'_>)
        ensures
            it.schema == self,
            it.cur == 0,
    {
        AttributeIter { schema: self, cur: 0 }
    }
}

impl Clone for Schema {
    fn clone(&self) -> (r: Schema)
        ensures
            r.spec_attrs() == self.spec_attrs(),
    {
        let len = self.attrs.len();
        let mut out: Vec<Attribute> = Vec::new();
        let mut k: usize = 0;
        while k < len
            invariant
                len == self.spec_count(),
                k <= len,
                out@ =~= self.spec_attrs().subrange(0, k as int),
            decreases len - k,
        {
            out.push(self.attrs[k].clone());
            k = k + 1;
        }
        proof {
            assert(out@ =~= self.spec_attrs());
        }
        Schema { attrs: out }
    }
}

/// Cursor over a schema's attributes.
pub struct AttributeIter<'a> {
    pub schema: &'a Schema,
    pub cur: usize,
}

impl<'a> AttributeIter<'a> {
    /// The next attribute in schema order, or `None` past the end.
    pub fn next(&mut self) -> (r: Option<&'a Attribute>)
        ensures
            old(self).cur < old(self).schema.spec_count() ==> {
                &&& r matches Some(a) && *a == old(self).schema.spec_attrs()[old(self).cur as int]
                &&& final(self).cur == old(self).cur + 1
            },
            old(self).cur >= old(self).schema.spec_count() ==> r is None && final(self).cur == old(
                self,
            ).cur,
            final(self).schema == old(self).schema,
    {
        if self.cur >= self.schema.attrs.len() {
            return None;
        }
        let r = &self.schema.attrs[self.cur];
        self.cur = self.cur + 1;
        Some(r)
    }
}

} // verus!
