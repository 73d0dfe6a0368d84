//! Schema projections: selecting, reordering and renaming the columns of
//! a view without copying its data.
//!
//! A [`SingleSourceProjector`] describes which attributes to take from an
//! input schema and under which names; [`SingleSourceProjector::bind`]
//! type-checks it against a concrete schema, producing a
//! [`BoundProjector`] that can project any view of that shape into a
//! borrowed [`RefView`].

use vstd::prelude::*;

use crate::block::{alias_column, AliasColumn, DataView, RefColumn, RefView};
use crate::error::DBError;
use crate::schema::{Attribute, Schema};
use crate::types::Type;

verus! {

/// Where a projected attribute comes from.
pub enum Source {
    /// From the source by position.
    POS(usize),
    /// From the source by name.
    NAME(String),
    /// All source attributes.
    ALL,
}

/// Under which name an attribute is projected.
pub enum As {
    /// The original name.
    ORIG,
    /// The original name with a prefix.
    PREFIX(String),
    /// A new name.
    NEW(String),
}

/// One projection step: a source and a target name.
pub struct Projector(pub Source, pub As);

/// Bound attribute: input column index and output attribute.
struct BoundAttribute(usize, Attribute);

/// Spec-level shape of an attribute: its name, nullability and type.
pub struct AttrShape {
    pub name: Seq<char>,
    pub nullable: bool,
    pub dtype: Type,
}

pub open spec fn shape_of(a: Attribute) -> AttrShape {
    AttrShape { name: a.name@, nullable: a.nullable, dtype: a.dtype }
}

/// Spec-level description of one bound output column: the input position
/// it reads and the shape it is published under.
pub struct BoundShape {
    pub pos: int,
    pub shape: AttrShape,
}

/// The shape an attribute takes under a renaming directive.
pub open spec fn spec_renamed(a: AttrShape, how: As) -> AttrShape {
    match how {
        As::ORIG => a,
        As::PREFIX(p) => AttrShape { name: p@ + a.name, nullable: a.nullable, dtype: a.dtype },
        As::NEW(n) => AttrShape { name: n@, nullable: a.nullable, dtype: a.dtype },
    }
}

/// The first position of `name` in `attrs`, or the sequence's length if
/// the name does not occur.
pub open spec fn spec_first_pos(attrs: Seq<Attribute>, name: Seq<char>) -> int
    decreases attrs.len(),
{
    if attrs.len() == 0 {
        0
    } else if attrs[0].name@ == name {
        0
    } else {
        1 + spec_first_pos(attrs.drop_first(), name)
    }
}

/// Whether one projection step resolves against an input schema.
pub open spec fn spec_item_resolves(item: Projector, input: Seq<Attribute>) -> bool {
    match item.0 {
        Source::POS(pos) => pos < input.len(),
        Source::NAME(n) => spec_first_pos(input, n@) < input.len(),
        Source::ALL => true,
    }
}

/// The bound output columns of one projection step.
pub open spec fn spec_item_bound(item: Projector, input: Seq<Attribute>) -> Seq<BoundShape> {
    match item.0 {
        Source::POS(pos) => seq![
            BoundShape {
                pos: pos as int,
                shape: spec_renamed(shape_of(input[pos as int]), item.1),
            },
        ],
        Source::NAME(n) => {
            let pos = spec_first_pos(input, n@);
            seq![BoundShape { pos, shape: spec_renamed(shape_of(input[pos]), item.1) }]
        },
        Source::ALL => Seq::new(
            input.len(),
            |i: int| BoundShape { pos: i, shape: spec_renamed(shape_of(input[i]), item.1) },
        ),
    }
}

/// The bound output columns of a whole projector list.
pub open spec fn spec_bound(items: Seq<Projector>, input: Seq<Attribute>) -> Seq<BoundShape>
    decreases items.len(),
{
    if items.len() == 0 {
        Seq::empty()
    } else {
        spec_item_bound(items[0], input) + spec_bound(items.drop_first(), input)
    }
}

/// Whether every step of a projector list resolves against the input.
pub open spec fn spec_all_resolve(items: Seq<Projector>, input: Seq<Attribute>) -> bool {
    forall|i: int| 0 <= i < items.len() ==> spec_item_resolves(#[trigger] items[i], input)
}

/// Appending one resolvable step extends the bound outputs.
proof fn lemma_spec_bound_push(items: Seq<Projector>, item: Projector, input: Seq<Attribute>)
    ensures
        spec_bound(items.push(item), input) == spec_bound(items, input) + spec_item_bound(
            item,
            input,
        ),
    decreases items.len(),
{
    if items.len() == 0 {
        assert(items.push(item).drop_first() =~= items);
        assert(spec_bound(items.push(item), input) =~= spec_bound(items, input) + spec_item_bound(
            item,
            input,
        ));
    } else {
        assert(items.push(item).drop_first() =~= items.drop_first().push(item));
        lemma_spec_bound_push(items.drop_first(), item, input);
        assert(spec_bound(items.push(item), input) =~= spec_bound(items, input) + spec_item_bound(
            item,
            input,
        ));
    }
}

/// Projection for a single-input operation.
pub struct SingleSourceProjector(Vec<Projector>);

/// Builder for a [`SingleSourceProjector`].
pub struct BuildSingleSourceProjector(Vec<Projector>);

/// Projection for a multi-input operation.
pub struct MultiSourceProjector(Vec<Projector>);

/// Type-checked and resolved projector.
pub struct BoundProjector {
    /// Output schema.
    pub schema: Schema,
    bound_attrs: Vec<BoundAttribute>,
}

impl SingleSourceProjector {
    pub closed spec fn items(&self) -> Seq<Projector> {
        self.0@
    }

    /// The outputs this projector binds to against `input`, as spec-level
    /// shapes.
    pub closed spec fn spec_bound_to(&self, input: Seq<Attribute>) -> Seq<BoundShape> {
        spec_bound(self.items(), input)
    }

    /// Whether every step of this projector resolves against `input`.
    pub closed spec fn resolves_against(&self, input: Seq<Attribute>) -> bool {
        spec_all_resolve(self.items(), input)
    }
}

/// Project all attributes without renaming them.
pub fn project_all_attributes() -> (r: SingleSourceProjector)
    ensures
        forall|input: Seq<Attribute>| r.resolves_against(input),
        forall|input: Seq<Attribute>| #[trigger] r.spec_bound_to(input) == Seq::new(
            input.len(),
            |i: int| BoundShape { pos: i, shape: shape_of(input[i]) },
        ),
{
    let mut items: Vec<Projector> = Vec::new();
    items.push(Projector(Source::ALL, As::ORIG));
    let r = SingleSourceProjector(items);
    proof {
        assert forall|input: Seq<Attribute>| #[trigger] r.spec_bound_to(input) == Seq::new(
            input.len(),
            |i: int| BoundShape { pos: i, shape: shape_of(input[i]) },
        ) by {
            reveal_with_fuel(spec_bound, 3);
            assert(r.items().drop_first() =~= Seq::<Projector>::empty());
            assert(r.spec_bound_to(input) =~= Seq::new(
                input.len(),
                |i: int| BoundShape { pos: i, shape: shape_of(input[i]) },
            ));
        }
    }
    r
}

/// Project a single attribute from the source by column position.
pub fn project_by_position(pos: usize) -> (r: SingleSourceProjector)
    ensures
        forall|input: Seq<Attribute>|
            #[trigger] r.resolves_against(input) <==> pos < input.len(),
        forall|input: Seq<Attribute>|
            pos < input.len() ==> #[trigger] r.spec_bound_to(input) == seq![
                BoundShape { pos: pos as int, shape: shape_of(input[pos as int]) },
            ],
{
    let mut items: Vec<Projector> = Vec::new();
    items.push(Projector(Source::POS(pos), As::ORIG));
    let r = SingleSourceProjector(items);
    proof {
        assert forall|input: Seq<Attribute>| pos < input.len() implies #[trigger] r.spec_bound_to(
            input,
        ) == seq![BoundShape { pos: pos as int, shape: shape_of(input[pos as int]) }] by {
            reveal_with_fuel(spec_bound, 3);
            assert(r.items().drop_first() =~= Seq::<Projector>::empty());
            assert(r.spec_bound_to(input) =~= seq![
                BoundShape { pos: pos as int, shape: shape_of(input[pos as int]) },
            ]);
        }
    }
    r
}

/// Project a single attribute from the source by column name.
pub fn project_by_name(name: &str) -> (r: SingleSourceProjector)
    ensures
        forall|input: Seq<Attribute>|
            #[trigger] r.resolves_against(input) <==> spec_first_pos(input, name@) < input.len(),
        forall|input: Seq<Attribute>|
            spec_first_pos(input, name@) < input.len() ==> #[trigger] r.spec_bound_to(input)
                == seq![
                BoundShape {
                    pos: spec_first_pos(input, name@),
                    shape: shape_of(input[spec_first_pos(input, name@)]),
                },
            ],
{
    let mut items: Vec<Projector> = Vec::new();
    items.push(Projector(Source::NAME(name.to_owned()), As::ORIG));
    let r = SingleSourceProjector(items);
    proof {
        assert forall|input: Seq<Attribute>| spec_first_pos(input, name@) < input.len() implies (
        #[trigger] r.spec_bound_to(input)) == seq![
            BoundShape {
                pos: spec_first_pos(input, name@),
                shape: shape_of(input[spec_first_pos(input, name@)]),
            },
        ] by {
            reveal_with_fuel(spec_bound, 3);
            assert(r.items().drop_first() =~= Seq::<Projector>::empty());
            assert(r.spec_bound_to(input) =~= seq![
                BoundShape {
                    pos: spec_first_pos(input, name@),
                    shape: shape_of(input[spec_first_pos(input, name@)]),
                },
            ]);
        }
    }
    r
}

/// `spec_first_pos` is the first position bearing `name`, or the length
/// of the sequence when the name does not occur.
proof fn lemma_first_pos_props(attrs: Seq<Attribute>, name: Seq<char>)
    ensures
        0 <= spec_first_pos(attrs, name) <= attrs.len(),
        spec_first_pos(attrs, name) < attrs.len() ==> attrs[spec_first_pos(attrs, name)].name@
            == name,
        forall|j: int| 0 <= j < spec_first_pos(attrs, name) ==> attrs[j].name@ != name,
    decreases attrs.len(),
{
    if attrs.len() == 0 {
    } else if attrs[0].name@ == name {
    } else {
        lemma_first_pos_props(attrs.drop_first(), name);
        assert forall|j: int| 0 <= j < spec_first_pos(attrs, name) implies attrs[j].name@
            != name by {
            if j > 0 {
                assert(attrs.drop_first()[j - 1] == attrs[j]);
            }
        }
    }
}

/// No two outputs of a binding share a name.
pub open spec fn bound_names_unique(bound: Seq<BoundShape>) -> bool {
    forall|i: int, j: int|
        0 <= i < j < bound.len() ==> (#[trigger] bound[i]).shape.name != (
        #[trigger] bound[j]).shape.name
}

impl BuildSingleSourceProjector {
    pub closed spec fn items(&self) -> Seq<Projector> {
        self.0@
    }

    /// Start building a projection with no steps.
    pub fn new() -> (r: BuildSingleSourceProjector)
        ensures
            r.items().len() == 0,
    {
        BuildSingleSourceProjector(Vec::new())
    }

    /// Append the steps of `proj` as they are.
    pub fn add(self, proj: SingleSourceProjector) -> (r: BuildSingleSourceProjector)
        ensures
            r.items() == self.items() + proj.items(),
    {
        let mut this = self;
        let mut other = proj;
        this.0.append(&mut other.0);
        proof {
            assert(this.items() =~= self.items() + proj.items());
        }
        this
    }

    /// Append the steps of `proj`, each projected under the name `name`.
    pub fn add_as(self, proj: SingleSourceProjector, name: &str) -> (r: BuildSingleSourceProjector)
        ensures
            r.items().len() == self.items().len() + proj.items().len(),
            forall|k: int| 0 <= k < self.items().len() ==> #[trigger] r.items()[k] == self.items()[k],
            forall|k: int|
                0 <= k < proj.items().len() ==> {
                    &&& (#[trigger] r.items()[self.items().len() + k]).0 == proj.items()[k].0
                    &&& (r.items()[self.items().len() + k].1 matches As::NEW(n) && n@ == name@)
                },
    {
        let mut this = self;
        let mut rest = proj.0;
        while rest.len() > 0
            invariant
                this.items().len() + rest@.len() == self.items().len() + proj.items().len(),
                this.items().len() >= self.items().len(),
                rest@ == proj.items().subrange(
                    proj.items().len() - rest@.len(),
                    proj.items().len() as int,
                ),
                forall|k: int|
                    0 <= k < self.items().len() ==> #[trigger] this.items()[k] == self.items()[k],
                forall|k: int|
                    self.items().len() <= k < this.items().len() ==> {
                        &&& (#[trigger] this.items()[k]).0 == proj.items()[k - self.items().len()].0
                        &&& (this.items()[k].1 matches As::NEW(n) && n@ == name@)
                    },
            decreases rest@.len(),
        {
            let p = rest.remove(0);
            this.0.push(Projector(p.0, As::NEW(name.to_owned())));
            proof {
                assert(rest@ =~= proj.items().subrange(
                    proj.items().len() - rest@.len(),
                    proj.items().len() as int,
                ));
            }
        }
        this
    }

    /// Append the steps of `proj`, each projected under its original name
    /// carrying the prefix `prefix`.
    pub fn add_prefixed(self, proj: SingleSourceProjector, prefix: &str) -> (r:
        BuildSingleSourceProjector)
        ensures
            r.items().len() == self.items().len() + proj.items().len(),
            forall|k: int| 0 <= k < self.items().len() ==> #[trigger] r.items()[k] == self.items()[k],
            forall|k: int|
                0 <= k < proj.items().len() ==> {
                    &&& (#[trigger] r.items()[self.items().len() + k]).0 == proj.items()[k].0
                    &&& (r.items()[self.items().len() + k].1 matches As::PREFIX(n) && n@
                        == prefix@)
                },
    {
        let mut this = self;
        let mut rest = proj.0;
        while rest.len() > 0
            invariant
                this.items().len() + rest@.len() == self.items().len() + proj.items().len(),
                this.items().len() >= self.items().len(),
                rest@ == proj.items().subrange(
                    proj.items().len() - rest@.len(),
                    proj.items().len() as int,
                ),
                forall|k: int|
                    0 <= k < self.items().len() ==> #[trigger] this.items()[k] == self.items()[k],
                forall|k: int|
                    self.items().len() <= k < this.items().len() ==> {
                        &&& (#[trigger] this.items()[k]).0 == proj.items()[k - self.items().len()].0
                        &&& (this.items()[k].1 matches As::PREFIX(n) && n@ == prefix@)
                    },
            decreases rest@.len(),
        {
            let p = rest.remove(0);
            this.0.push(Projector(p.0, As::PREFIX(prefix.to_owned())));
            proof {
                assert(rest@ =~= proj.items().subrange(
                    proj.items().len() - rest@.len(),
                    proj.items().len() as int,
                ));
            }
        }
        this
    }

    /// Finish building.
    pub fn done(self) -> (r: SingleSourceProjector)
        ensures
            r.items() == self.items(),
    {
        SingleSourceProjector(self.0)
    }
}

/// Bind one projection step source position, producing the renamed
/// output attribute.  An out-of-range position is reported as an
/// `AttributeMissing` error.
fn mk_bound_attr(input: &Schema, pos: usize, out: &As) -> (r: Result<BoundAttribute, DBError>)
    ensures
        pos < input.spec_count() ==> (r matches Ok(b) && b.0 == pos && shape_of(b.1)
            == spec_renamed(shape_of(input.spec_attrs()[pos as int]), *out)),
        pos >= input.spec_count() ==> (r matches Err(e) && e matches DBError::AttributeMissing(_)),
{
    let attr = match input.get(pos) {
        Ok(a) => a,
        Err(e) => {
            return Err(e);
        },
    };
    let renamed = match out {
        As::ORIG => attr.clone(),
        As::PREFIX(prefix) => {
            let full = prefix.clone().concat(attr.name.as_str());
            attr.rename(full.as_str())
        },
        As::NEW(name) => attr.rename(name.as_str()),
    };
    Ok(BoundAttribute(pos, renamed))
}

impl SingleSourceProjector {
    /// Type-check the projection against an input schema.  Binding
    /// succeeds exactly when every step resolves (positions in range,
    /// names present) and the projected output names are unique; a
    /// missing source is reported as `AttributeMissing`, a repeated
    /// output name as `AttributeDuplicate`.
    pub fn bind(&self, input: &Schema) -> (r: Result<BoundProjector, DBError>)
        ensures
            r is Ok <==> (self.resolves_against(input.spec_attrs()) && bound_names_unique(
                self.spec_bound_to(input.spec_attrs()),
            )),
            r matches Ok(bp) ==> {
                &&& bp.wf()
                &&& bp.spec_entries() == self.spec_bound_to(input.spec_attrs())
            },
            r matches Err(e) ==> (e matches DBError::AttributeMissing(_) || e
                matches DBError::AttributeDuplicate(_)),
            !self.resolves_against(input.spec_attrs()) ==> (r matches Err(e) && e
                matches DBError::AttributeMissing(_)),
    {
        let ghost input_attrs = input.spec_attrs();
        let count = self.0.len();
        let mut bound: Vec<BoundAttribute> = Vec::new();
        let mut idx: usize = 0;
        while idx < count
            invariant
                count == self.items().len(),
                idx <= count,
                input_attrs == input.spec_attrs(),
                spec_all_resolve(self.items().take(idx as int), input_attrs),
                bound@.map_values(
                    |b: BoundAttribute| BoundShape { pos: b.0 as int, shape: shape_of(b.1) },
                ) == spec_bound(self.items().take(idx as int), input_attrs),
                forall|k: int| 0 <= k < bound@.len() ==> (#[trigger] bound@[k]).0 < input_attrs.len(),
            decreases count - idx,
        {
            proof {
                assert(self.items().take(idx as int).push(self.items()[idx as int])
                    =~= self.items().take(idx + 1));
                lemma_spec_bound_push(
                    self.items().take(idx as int),
                    self.items()[idx as int],
                    input_attrs,
                );
            }
            let item = &self.0[idx];
            match item {
                Projector(Source::POS(pos), how) => {
                    let b = match mk_bound_attr(input, *pos, how) {
                        Ok(b) => b,
                        Err(e) => {
                            proof {
                                assert(!spec_item_resolves(self.items()[idx as int], input_attrs));
                                assert(!self.resolves_against(input_attrs));
                            }
                            return Err(e);
                        },
                    };
                    bound.push(b);
                    proof {
                        assert(bound@.map_values(
                            |b: BoundAttribute| BoundShape { pos: b.0 as int, shape: shape_of(b.1) },
                        ) =~= spec_bound(self.items().take(idx + 1), input_attrs));
                    }
                },
                Projector(Source::NAME(n), how) => {
                    proof {
                        lemma_first_pos_props(input_attrs, n@);
                    }
                    let pos = match input.name_pos(n.as_str()) {
                        Some(pos) => pos,
                        None => {
                            proof {
                                assert(spec_first_pos(input_attrs, n@) >= input_attrs.len());
                                assert(!spec_item_resolves(self.items()[idx as int], input_attrs));
                                assert(!self.resolves_against(input_attrs));
                            }
                            return Err(
                                DBError::AttributeMissing(
                                    String::from_str("(name: ").concat(n.as_str()).concat(")"),
                                ),
                            );
                        },
                    };
                    proof {
                        assert(pos as int == spec_first_pos(input_attrs, n@));
                    }
                    let b = match mk_bound_attr(input, pos, how) {
                        Ok(b) => b,
                        Err(_) => vstd::pervasive::unreached(),
                    };
                    bound.push(b);
                    proof {
                        assert(bound@.map_values(
                            |b: BoundAttribute| BoundShape { pos: b.0 as int, shape: shape_of(b.1) },
                        ) =~= spec_bound(self.items().take(idx + 1), input_attrs));
                    }
                },
                Projector(Source::ALL, how) => {
                    let n = input.count();
                    let mut pos: usize = 0;
                    while pos < n
                        invariant
                            n == input.spec_count(),
                            pos <= n,
                            input_attrs == input.spec_attrs(),
                            idx < count,
                            count == self.items().len(),
                            self.items()[idx as int].0 is ALL,
                            *how == self.items()[idx as int].1,
                            bound@.map_values(
                                |b: BoundAttribute| BoundShape {
                                    pos: b.0 as int,
                                    shape: shape_of(b.1),
                                },
                            ) == spec_bound(self.items().take(idx as int), input_attrs)
                                + spec_item_bound(self.items()[idx as int], input_attrs).take(
                                pos as int,
                            ),
                            forall|k: int|
                                0 <= k < bound@.len() ==> (#[trigger] bound@[k]).0
                                    < input_attrs.len(),
                        decreases n - pos,
                    {
                        let b = match mk_bound_attr(input, pos, how) {
                            Ok(b) => b,
                            Err(_) => vstd::pervasive::unreached(),
                        };
                        proof {
                            assert(*how == self.items()[idx as int].1);
                            assert(b.0 == pos);
                            assert(shape_of(b.1) == spec_renamed(
                                shape_of(input_attrs[pos as int]),
                                self.items()[idx as int].1,
                            ));
                            assert(spec_item_bound(self.items()[idx as int], input_attrs)[pos as int]
                                == BoundShape { pos: pos as int, shape: shape_of(b.1) });
                        }
                        let ghost prior = bound@;
                        bound.push(b);
                        proof {
                            let f = |b: BoundAttribute| BoundShape {
                                pos: b.0 as int,
                                shape: shape_of(b.1),
                            };
                            let lhs = bound@.map_values(f);
                            let head = spec_bound(self.items().take(idx as int), input_attrs);
                            let body = spec_item_bound(self.items()[idx as int], input_attrs);
                            assert(body.len() == n);
                            assert(prior.map_values(f) == head + body.take(pos as int));
                            assert(prior.map_values(f).len() == prior.len());
                            assert(prior.len() == head.len() + pos);
                            assert(bound@ == prior.push(b));
                            assert forall|k: int|
                                0 <= k < lhs.len() implies lhs[k] == (head + body.take(pos + 1))[k]
                                by {
                                assert(lhs[k] == f(bound@[k]));
                                if k < prior.len() {
                                    assert(bound@[k] == prior[k]);
                                    assert(prior.map_values(f)[k] == f(prior[k]));
                                    if k >= head.len() {
                                        assert((head + body.take(pos as int))[k] == body.take(
                                            pos as int,
                                        )[k - head.len()]);
                                        assert((head + body.take(pos + 1))[k] == body.take(
                                            pos + 1,
                                        )[k - head.len()]);
                                    }
                                } else {
                                    assert(bound@[k] == b);
                                    assert((head + body.take(pos + 1))[k] == body.take(
                                        pos + 1,
                                    )[pos as int]);
                                    assert(body.take(pos + 1)[pos as int] == body[pos as int]);
                                }
                            }
                            assert(lhs =~= head + body.take(pos + 1));
                        }
                        pos = pos + 1;
                    }
                    proof {
                        assert(spec_item_bound(self.items()[idx as int], input_attrs).take(n as int)
                            =~= spec_item_bound(self.items()[idx as int], input_attrs));
                        assert(bound@.map_values(
                            |b: BoundAttribute| BoundShape { pos: b.0 as int, shape: shape_of(b.1) },
                        ) =~= spec_bound(self.items().take(idx + 1), input_attrs));
                    }
                },
            }
            idx = idx + 1;
        }
        proof {
            assert(self.items().take(count as int) =~= self.items());
        }
        let mut attrs: Vec<Attribute> = Vec::new();
        let mut k: usize = 0;
        let blen = bound.len();
        while k < blen
            invariant
                blen == bound@.len(),
                k <= blen,
                attrs@.len() == k,
                forall|j: int| 0 <= j < k ==> #[trigger] attrs@[j] == bound@[j].1,
            decreases blen - k,
        {
            attrs.push(bound[k].1.clone());
            k = k + 1;
        }
        let ghost attrs_view = attrs@;
        let ghost entries = bound@.map_values(
            |b: BoundAttribute| BoundShape { pos: b.0 as int, shape: shape_of(b.1) },
        );
        let schema = match Schema::from_vec(attrs) {
            Ok(s) => s,
            Err(e) => {
                proof {
                    if bound_names_unique(entries) {
                        assert forall|i: int, j: int|
                            0 <= i < j < attrs_view.len() implies attrs_view[i].name@
                            != attrs_view[j].name@ by {
                            assert(entries[i].shape.name == attrs_view[i].name@);
                            assert(entries[j].shape.name == attrs_view[j].name@);
                        }
                        assert(false);
                    }
                }
                return Err(e);
            },
        };
        let bp = BoundProjector { schema, bound_attrs: bound };
        proof {
            assert(bp.spec_entries() == self.spec_bound_to(input_attrs));
            assert forall|i: int, j: int|
                0 <= i < j < bp.spec_entries().len() implies (
            #[trigger] bp.spec_entries()[i]).shape.name != (
            #[trigger] bp.spec_entries()[j]).shape.name by {
                assert(bp.schema.spec_attrs()[i] == attrs_view[i]);
                assert(bp.schema.spec_attrs()[j] == attrs_view[j]);
                assert(attrs_view[i].name@ != attrs_view[j].name@);
                assert(entries[i].shape.name == attrs_view[i].name@);
                assert(entries[j].shape.name == attrs_view[j].name@);
            }
            assert forall|i: int| 0 <= i < bp.spec_entries().len() implies shape_of(
                #[trigger] bp.schema.spec_attrs()[i],
            ) == bp.spec_entries()[i].shape && bp.spec_entries()[i].pos >= 0 by {
                assert(bp.schema.spec_attrs()[i] == bp.bound_attrs()[i].1);
            }
        }
        Ok(bp)
    }
}

impl MultiSourceProjector {
    pub closed spec fn items(&self) -> Seq<Projector> {
        self.0@
    }

    /// An empty multi-source projection.
    pub fn new() -> (r: MultiSourceProjector)
        ensures
            r.items().len() == 0,
    {
        MultiSourceProjector(Vec::new())
    }

    /// Binding a multi-source projection is not available in this
    /// storage core.
    pub fn bind(&self, src: &[&Schema]) -> (r: Result<BoundProjector, DBError>)
        ensures
            r == Err::<BoundProjector, DBError>(DBError::Unknown),
    {
        Err(DBError::Unknown)
    }
}

impl BoundProjector {
    spec fn bound_attrs(&self) -> Seq<BoundAttribute> {
        self.bound_attrs@
    }

    /// The output schema, as a spec value.
    pub closed spec fn spec_schema(&self) -> Schema {
        self.schema
    }

    /// The output schema's attributes are exactly the bound attributes.
    pub closed spec fn schema_matches_bound(&self) -> bool {
        &&& self.schema.spec_attrs().len() == self.bound_attrs@.len()
        &&& forall|i: int|
            0 <= i < self.bound_attrs@.len() ==> #[trigger] self.schema.spec_attrs()[i]
                == self.bound_attrs@[i].1
    }

    /// The bound output columns, as spec-level shapes.
    pub closed spec fn spec_entries(&self) -> Seq<BoundShape> {
        self.bound_attrs@.map_values(
            |b: BoundAttribute| BoundShape { pos: b.0 as int, shape: shape_of(b.1) },
        )
    }

    /// The output schema lists exactly the bound shapes, under unique
    /// names.
    pub open spec fn wf(&self) -> bool {
        &&& self.spec_schema().spec_attrs().len() == self.spec_entries().len()
        &&& self.spec_schema().names_unique()
        &&& self.schema_matches_bound()
        &&& forall|i: int|
            0 <= i < self.spec_entries().len() ==> shape_of(
                #[trigger] self.spec_schema().spec_attrs()[i],
            ) == self.spec_entries()[i].shape && self.spec_entries()[i].pos >= 0
    }

    /// Whether a view can be projected: every bound position addresses a
    /// source column of the bound type and nullability.
    pub open spec fn applies_to<V: DataView>(&self, src: &V) -> bool {
        forall|i: int|
            0 <= i < self.spec_entries().len() ==> {
                &&& (#[trigger] self.spec_entries()[i]).pos < src.spec_schema().len()
                &&& src.spec_schema()[self.spec_entries()[i].pos].dtype
                    == self.spec_entries()[i].shape.dtype
                &&& src.spec_schema()[self.spec_entries()[i].pos].nullable
                    == self.spec_entries()[i].shape.nullable
            }
    }

    /// Project a view: alias each bound source column in full, publish it
    /// under the bound output attribute, and group the aliases under the
    /// output schema, keeping the source's row count.
    pub fn project_view<'a, V: DataView>(&self, src: &'a V) -> (r: Result<RefView<'a>, DBError>)
        requires
            self.wf(),
            src.wf(),
            self.applies_to(src),
        ensures
            r matches Ok(v) && {
                &&& v.wf()
                &&& v.spec_schema() == self.spec_schema().spec_attrs()
                &&& v.spec_rows() == src.spec_rows()
                &&& v.spec_columns().len() == self.spec_entries().len()
                &&& forall|i: int|
                    0 <= i < v.spec_columns().len() ==> {
                        &&& (#[trigger] v.spec_columns()[i]).row_bytes() == src.col_row_bytes(
                            self.spec_entries()[i].pos,
                        )
                        &&& v.spec_columns()[i].null_bytes() == src.col_null_bytes(
                            self.spec_entries()[i].pos,
                        )
                    }
            },
    {
        let mut columns: Vec<AliasColumn<'a>> = Vec::new();
        let rows = src.rows();
        let count = self.bound_attrs.len();
        let mut i: usize = 0;
        while i < count
            invariant
                self.wf(),
                src.wf(),
                self.applies_to(src),
                count == self.bound_attrs().len(),
                i <= count,
                rows == src.spec_rows(),
                columns@.len() == i,
                forall|k: int|
                    0 <= k < i ==> {
                        &&& (#[trigger] columns@[k]).wf()
                        &&& columns@[k].spec_attr() == self.bound_attrs()[k].1
                        &&& columns@[k].row_bytes() == src.col_row_bytes(self.spec_entries()[k].pos)
                        &&& columns@[k].null_bytes() == src.col_null_bytes(
                            self.spec_entries()[k].pos,
                        )
                        &&& src.spec_rows() <= columns@[k].spec_capacity()
                    },
            decreases count - i,
        {
            proof {
                assert(self.spec_entries()[i as int].pos == self.bound_attrs()[i as int].0 as int);
                assert(self.spec_entries()[i as int].shape == shape_of(
                    self.bound_attrs()[i as int].1,
                ));
            }
            let pos = self.bound_attrs[i].0;
            let col = match src.column(pos) {
                Some(c) => c,
                None => vstd::pervasive::unreached(),
            };
            proof {
                col.storage_coherent();
                src.view_coherent();
                let w = src.spec_schema()[pos as int].dtype.spec_size_of() as int;
                let len = src.col_row_bytes(pos as int).len() as int;
                assert(src.spec_rows() <= col.spec_capacity()) by (nonlinear_arith)
                    requires
                        w >= 1,
                        len == col.spec_capacity() * w,
                        src.spec_rows() * w <= len,
                ;
            }
            let alias = match alias_column(col, None) {
                Ok(a) => a,
                Err(_) => vstd::pervasive::unreached(),
            };
            let published = alias.with_attribute(self.bound_attrs[i].1.clone());
            columns.push(published);
            i = i + 1;
        }
        proof {
            assert forall|k: int| 0 <= k < count implies (#[trigger] columns@[k]).spec_attr()
                == self.schema.spec_attrs()[k] by {
                assert(self.schema.spec_attrs()[k] == self.bound_attrs()[k].1);
            }
        }
        let schema = self.schema.clone();
        let out = RefView::new(schema, columns, rows);
        Ok(out)
    }
}

} // verus!
