//! Dependency and ordering behaviors over schema'd AST nodes: display-order
//! computation and entity-containment search.
//!
//! A node is a record or the active variant of a closed tagged union; each
//! field carries one role of the closed role vocabulary, here fused with the
//! field's payload. Entity-role fields hold an index into an external entity
//! table (the compile context), which maps every entity to its own
//! definition. The table is well-formed when each entity's definition only
//! references strictly lower-numbered entities; both behaviors recurse
//! through the table, so they require that well-formedness (on a cyclic
//! table the search would not terminate).

use vstd::prelude::*;

use crate::role::DefinitionParam;

verus! {

broadcast use vstd::std_specs::vec::group_vec_axioms;

/// A field's role together with its payload.
pub enum DefValue {
    /// The field holds an index into the external entity table.
    Entity(usize),
    /// The field never denotes or contains an entity.
    NoEntity,
    /// The field holds a reference whose bound definition is recursed into.
    Variable(Box<DefNode>),
    /// The field holds an ordered collection of sub-definitions.
    Sequence(Vec<DefNode>),
    /// The field holds a keyed collection of sub-definitions.
    Mapping(Vec<(usize, DefNode)>),
    /// The field supplies an explicit literal order value.
    Order(usize),
    /// The default role: the field's own definition is recursed into.
    Expression(Box<DefNode>),
}

/// An AST node as the dependency/ordering synthesizer sees it.
pub enum DefNode {
    /// A record with an optional order-override expression.
    Record { order_override: Option<usize>, fields: Vec<DefValue> },
    /// The active variant of a closed tagged union; the override is declared
    /// at union level and applies uniformly to all variants.
    Union { order_override: Option<usize>, fields: Vec<DefValue> },
}

/// The external entity table: entity id to that entity's own definition.
pub struct CompileContext {
    pub entities: Vec<DefNode>,
}

impl DefValue {
    /// The role this field carries, in the closed role vocabulary.
    pub fn param(&self) -> (r: DefinitionParam)
        ensures
            r == self.spec_param(),
    {
        match self {
            DefValue::Entity(_) => DefinitionParam::Entity,
            DefValue::NoEntity => DefinitionParam::NoEntity,
            DefValue::Variable(_) => DefinitionParam::Variable,
            DefValue::Sequence(_) => DefinitionParam::Sequence,
            DefValue::Mapping(_) => DefinitionParam::Mapping,
            DefValue::Order(v) => DefinitionParam::Order(*v),
            DefValue::Expression(_) => DefinitionParam::Expression,
        }
    }

    /// The role this field carries.
    pub open spec fn spec_param(&self) -> DefinitionParam {
        match self {
            DefValue::Entity(_) => DefinitionParam::Entity,
            DefValue::NoEntity => DefinitionParam::NoEntity,
            DefValue::Variable(_) => DefinitionParam::Variable,
            DefValue::Sequence(_) => DefinitionParam::Sequence,
            DefValue::Mapping(_) => DefinitionParam::Mapping,
            DefValue::Order(v) => DefinitionParam::Order(*v),
            DefValue::Expression(_) => DefinitionParam::Expression,
        }
    }
}

/// All entity references in the node lie strictly below `b`.
pub open spec fn refs_below(n: DefNode, b: int) -> bool
    decreases n,
{
    match n {
        DefNode::Record { fields, .. } => refs_below_fields(fields@, b),
        DefNode::Union { fields, .. } => refs_below_fields(fields@, b),
    }
}

/// All entity references in the fields lie strictly below `b`.
pub open spec fn refs_below_fields(fs: Seq<DefValue>, b: int) -> bool
    decreases fs,
{
    if fs.len() == 0 {
        true
    } else {
        refs_below_value(fs.last(), b) && refs_below_fields(fs.drop_last(), b)
    }
}

/// All entity references in the field value lie strictly below `b`.
pub open spec fn refs_below_value(v: DefValue, b: int) -> bool
    decreases v,
{
    match v {
        DefValue::Entity(id) => (id as int) < b,
        DefValue::NoEntity => true,
        DefValue::Variable(d) => refs_below(*d, b),
        DefValue::Sequence(ns) => refs_below_nodes(ns@, b),
        DefValue::Mapping(ps) => refs_below_pairs(ps@, b),
        DefValue::Order(_) => true,
        DefValue::Expression(d) => refs_below(*d, b),
    }
}

/// All entity references in the nodes lie strictly below `b`.
pub open spec fn refs_below_nodes(ns: Seq<DefNode>, b: int) -> bool
    decreases ns,
{
    if ns.len() == 0 {
        true
    } else {
        refs_below(ns.last(), b) && refs_below_nodes(ns.drop_last(), b)
    }
}

/// All entity references in the map values lie strictly below `b`.
pub open spec fn refs_below_pairs(ps: Seq<(usize, DefNode)>, b: int) -> bool
    decreases ps,
{
    if ps.len() == 0 {
        true
    } else {
        refs_below(ps.last().1, b) && refs_below_pairs(ps.drop_last(), b)
    }
}

/// The table is well-formed: every entity's definition references only
/// strictly lower-numbered entities, so recursion through the table is
/// well-founded.
pub open spec fn ctx_wf(ctx: Seq<DefNode>) -> bool {
    forall|k: int| 0 <= k < ctx.len() ==> refs_below(#[trigger] ctx[k], k)
}

/// The entity ids of the Entity-role fields, in declaration order.
pub open spec fn entity_ids(fs: Seq<DefValue>) -> Seq<usize>
    decreases fs,
{
    if fs.len() == 0 {
        Seq::empty()
    } else {
        entity_ids(fs.drop_last()) + (match fs.last() {
            DefValue::Entity(id) => seq![id],
            _ => Seq::empty(),
        })
    }
}

/// Every field value of a bounded field sequence is itself bounded.
pub proof fn lemma_refs_below_fields_each(fs: Seq<DefValue>, b: int)
    requires
        refs_below_fields(fs, b),
    ensures
        forall|i: int| 0 <= i < fs.len() ==> refs_below_value(#[trigger] fs[i], b),
    decreases fs,
{
    if fs.len() > 0 {
        lemma_refs_below_fields_each(fs.drop_last(), b);
        assert(forall|i: int|
            0 <= i < fs.len() - 1 ==> fs.drop_last()[i] == #[trigger] fs[i]);
    }
}

/// Every node of a bounded node sequence is itself bounded.
pub proof fn lemma_refs_below_nodes_each(ns: Seq<DefNode>, b: int)
    requires
        refs_below_nodes(ns, b),
    ensures
        forall|i: int| 0 <= i < ns.len() ==> refs_below(#[trigger] ns[i], b),
    decreases ns,
{
    if ns.len() > 0 {
        lemma_refs_below_nodes_each(ns.drop_last(), b);
        assert(forall|i: int|
            0 <= i < ns.len() - 1 ==> ns.drop_last()[i] == #[trigger] ns[i]);
    }
}

/// Every map value of a bounded pair sequence is itself bounded.
pub proof fn lemma_refs_below_pairs_each(ps: Seq<(usize, DefNode)>, b: int)
    requires
        refs_below_pairs(ps, b),
    ensures
        forall|i: int| 0 <= i < ps.len() ==> refs_below(#[trigger] ps[i].1, b),
    decreases ps,
{
    if ps.len() > 0 {
        lemma_refs_below_pairs_each(ps.drop_last(), b);
        assert(forall|i: int|
            0 <= i < ps.len() - 1 ==> ps.drop_last()[i] == #[trigger] ps[i]);
    }
}

/// Every collected entity id of a bounded field sequence lies below `b`.
pub proof fn lemma_entity_ids_below(fs: Seq<DefValue>, b: int)
    requires
        refs_below_fields(fs, b),
    ensures
        forall|i: int| 0 <= i < entity_ids(fs).len() ==> (#[trigger] entity_ids(fs)[i] as int) < b,
    decreases fs,
{
    if fs.len() > 0 {
        lemma_entity_ids_below(fs.drop_last(), b);
        assert(refs_below_value(fs.last(), b));
        let pre = entity_ids(fs.drop_last());
        let tail = match fs.last() {
            DefValue::Entity(id) => seq![id],
            _ => Seq::<usize>::empty(),
        };
        assert(entity_ids(fs) == pre + tail);
        assert(forall|i: int| 0 <= i < pre.len() ==> (pre + tail)[i] == pre[i]);
        assert(forall|i: int|
            pre.len() <= i < (pre + tail).len() ==> (pre + tail)[i] == tail[i - pre.len()]);
    }
}

/// The fields of a node, whichever shape it has.
pub open spec fn node_fields(n: DefNode) -> Seq<DefValue> {
    match n {
        DefNode::Record { fields, .. } => fields@,
        DefNode::Union { fields, .. } => fields@,
    }
}

/// The node's declared order override, if any.
pub open spec fn node_override(n: DefNode) -> Option<usize> {
    match n {
        DefNode::Record { order_override, .. } => order_override,
        DefNode::Union { order_override, .. } => order_override,
    }
}

/// The display order of a node. An order override is returned
/// unconditionally. Otherwise a record answers with the resolved order of
/// the entity referenced by its last Entity-role field (earlier Entity
/// fields are evaluated and discarded), or 0 with no Entity-role field; a
/// union variant answers with its single Entity-role field's resolved order,
/// or 0 unless it has exactly one such field.
pub open spec fn spec_order(n: DefNode, ctx: Seq<DefNode>, b: int) -> usize
    decreases b, n
        when 0 <= b <= ctx.len() && ctx_wf(ctx) && refs_below(n, b)
{
    match node_override(n) {
        Some(v) => v,
        None => {
            let ids = entity_ids(node_fields(n));
            if n is Record {
                if ids.len() == 0 {
                    0
                } else {
                    proof {
                        lemma_entity_ids_below(node_fields(n), b);
                    }
                    spec_order(ctx[ids.last() as int], ctx, ids.last() as int)
                }
            } else {
                if ids.len() == 1 {
                    proof {
                        lemma_entity_ids_below(node_fields(n), b);
                    }
                    spec_order(ctx[ids[0] as int], ctx, ids[0] as int)
                } else {
                    0
                }
            }
        },
    }
}

/// Whether the node contains the entity `e`. For a record only Entity-role
/// fields contribute: the field references `e` itself or its entity's own
/// definition contains `e`. For a union variant every field contributes
/// under its role's traversal.
pub open spec fn spec_contains(n: DefNode, e: usize, ctx: Seq<DefNode>, b: int) -> bool
    decreases b, n, 0int
        when 0 <= b <= ctx.len() && ctx_wf(ctx) && refs_below(n, b)
{
    match n {
        DefNode::Record { fields, .. } => spec_contains_rec_fields(
            fields@,
            e,
            ctx,
            b,
            fields@.len() as int,
        ),
        DefNode::Union { fields, .. } => spec_contains_union_fields(
            fields@,
            e,
            ctx,
            b,
            fields@.len() as int,
        ),
    }
}

/// Record traversal over the first `i` fields: the disjunction over
/// Entity-role fields of a direct reference or a recursive hit through the
/// entity table; other roles never contribute for records.
pub open spec fn spec_contains_rec_fields(
    fs: Seq<DefValue>,
    e: usize,
    ctx: Seq<DefNode>,
    b: int,
    i: int,
) -> bool
    decreases b, fs, i
        when 0 <= b <= ctx.len() && ctx_wf(ctx) && refs_below_fields(fs, b) && i <= fs.len()
{
    if i <= 0 {
        false
    } else {
        proof {
            lemma_refs_below_fields_each(fs, b);
        }
        let hit = match fs[i - 1] {
            DefValue::Entity(id) => id == e || spec_contains(ctx[id as int], e, ctx, id as int),
            _ => false,
        };
        spec_contains_rec_fields(fs, e, ctx, b, i - 1) || hit
    }
}

/// Union traversal over the first `i` fields: the disjunction over all
/// fields, each under its role.
pub open spec fn spec_contains_union_fields(
    fs: Seq<DefValue>,
    e: usize,
    ctx: Seq<DefNode>,
    b: int,
    i: int,
) -> bool
    decreases b, fs, i
        when 0 <= b <= ctx.len() && ctx_wf(ctx) && refs_below_fields(fs, b) && i <= fs.len()
{
    if i <= 0 {
        false
    } else {
        proof {
            lemma_refs_below_fields_each(fs, b);
        }
        spec_contains_union_fields(fs, e, ctx, b, i - 1) || spec_contains_value(
            fs[i - 1],
            e,
            ctx,
            b,
        )
    }
}

/// One union field's contribution, under its role: an Entity field hits
/// directly or through the table; Variable and default fields recurse into
/// their definition; Sequence and Mapping fields hit if any element or value
/// does; NoEntity and Order fields never hit. An empty collection yields
/// false for its field.
pub open spec fn spec_contains_value(v: DefValue, e: usize, ctx: Seq<DefNode>, b: int) -> bool
    decreases b, v, 0int
        when 0 <= b <= ctx.len() && ctx_wf(ctx) && refs_below_value(v, b)
{
    match v {
        DefValue::Entity(id) => id == e || spec_contains(ctx[id as int], e, ctx, id as int),
        DefValue::NoEntity => false,
        DefValue::Variable(d) => spec_contains(*d, e, ctx, b),
        DefValue::Sequence(ns) => spec_contains_nodes(ns@, e, ctx, b, ns@.len() as int),
        DefValue::Mapping(ps) => spec_contains_pairs(ps@, e, ctx, b, ps@.len() as int),
        DefValue::Order(_) => false,
        DefValue::Expression(d) => spec_contains(*d, e, ctx, b),
    }
}

/// Whether any of the first `i` nodes of the sequence contains the entity.
pub open spec fn spec_contains_nodes(
    ns: Seq<DefNode>,
    e: usize,
    ctx: Seq<DefNode>,
    b: int,
    i: int,
) -> bool
    decreases b, ns, i
        when 0 <= b <= ctx.len() && ctx_wf(ctx) && refs_below_nodes(ns, b) && i <= ns.len()
{
    if i <= 0 {
        false
    } else {
        proof {
            lemma_refs_below_nodes_each(ns, b);
        }
        spec_contains_nodes(ns, e, ctx, b, i - 1) || spec_contains(ns[i - 1], e, ctx, b)
    }
}

/// Whether any of the first `i` map values contains the entity.
pub open spec fn spec_contains_pairs(
    ps: Seq<(usize, DefNode)>,
    e: usize,
    ctx: Seq<DefNode>,
    b: int,
    i: int,
) -> bool
    decreases b, ps, i
        when 0 <= b <= ctx.len() && ctx_wf(ctx) && refs_below_pairs(ps, b) && i <= ps.len()
{
    if i <= 0 {
        false
    } else {
        proof {
            lemma_refs_below_pairs_each(ps, b);
        }
        spec_contains_pairs(ps, e, ctx, b, i - 1) || spec_contains(ps[i - 1].1, e, ctx, b)
    }
}

/// Computes the display order of a node, resolving Entity-role fields
/// through the entity table. An order override wins unconditionally; a
/// record otherwise answers with the resolved order of its last Entity-role
/// field's entity, or 0 with none; a union variant answers with its single
/// Entity-role field's resolved order, or 0 unless it has exactly one.
pub fn order(n: &DefNode, ctx: &CompileContext) -> (r: usize)
    requires
        ctx.wf(),
        refs_below(*n, ctx.entities@.len() as int),
    ensures
        r == spec_order(*n, ctx.entities@, ctx.entities@.len() as int),
{
    order_rec(n, ctx, Ghost(ctx.entities.len() as int))
}

#[verifier::loop_isolation(false)]
fn order_rec(n: &DefNode, ctx: &CompileContext, Ghost(b): Ghost<int>) -> (r: usize)
    requires
        0 <= b <= ctx.entities@.len(),
        ctx.wf(),
        refs_below(*n, b),
    ensures
        r == spec_order(*n, ctx.entities@, b),
    decreases b, *n,
{
    let (order_override, fields) = match n {
        DefNode::Record { order_override, fields } => (order_override, fields),
        DefNode::Union { order_override, fields } => (order_override, fields),
    };
    if let Some(v) = order_override {
        return *v;
    }
    let ghost fseq = fields@;
    let ghost ids = entity_ids(fseq);
    proof {
        assert(refs_below_fields(fseq, b));
        lemma_entity_ids_below(fseq, b);
    }
    let mut count: usize = 0;
    let mut last: Option<usize> = None;
    let mut first: Option<usize> = None;
    let mut i: usize = 0;
    while i < fields.len()
        invariant
            i <= fseq.len(),
            count <= i,
            count as int == entity_ids(fseq.take(i as int)).len(),
            count == 0 <==> last is None,
            count == 0 <==> first is None,
            last matches Some(l) ==> l == entity_ids(fseq.take(i as int)).last(),
            first matches Some(f) ==> f == entity_ids(fseq.take(i as int))[0],
        decreases fseq.len() - i,
    {
        if let DefValue::Entity(id) = &fields[i] {
            if count == 0 {
                first = Some(*id);
            }
            last = Some(*id);
            count = count + 1;
        }
        proof {
            assert(fseq.take(i + 1).drop_last() =~= fseq.take(i as int));
            assert(fseq.take(i + 1).last() == fseq[i as int]);
            let pre = entity_ids(fseq.take(i as int));
            let post = entity_ids(fseq.take(i + 1));
            match fseq[i as int] {
                DefValue::Entity(idv) => {
                    assert(post == pre + seq![idv]);
                    assert(post.last() == idv);
                    if pre.len() > 0 {
                        assert(post[0] == pre[0]);
                    }
                },
                _ => {
                    assert(post == pre + Seq::<usize>::empty());
                    assert(post =~= pre);
                },
            }
        }
        i += 1;
    }
    proof {
        assert(fseq.take(fseq.len() as int) =~= fseq);
    }
    let is_record = matches!(n, DefNode::Record { .. });
    if is_record {
        match last {
            None => 0,
            Some(id) => {
                proof {
                    assert(ids.last() == ids[ids.len() - 1]);
                }
                let ent = ctx.get_entity(id);
                order_rec(ent, ctx, Ghost(id as int))
            },
        }
    } else {
        if count == 1 {
            let id = match first {
                Some(id) => id,
                None => 0,  // unreachable: one Entity-role field was seen
            };
            let ent = ctx.get_entity(id);
            order_rec(ent, ctx, Ghost(id as int))
        } else {
            0
        }
    }
}

/// Decides whether the node contains the entity `e`, directly or through
/// the entity table: for a record only Entity-role fields contribute; for a
/// union variant every field contributes under its role's traversal.
pub fn contains_entity(n: &DefNode, e: usize, ctx: &CompileContext) -> (r: bool)
    requires
        ctx.wf(),
        refs_below(*n, ctx.entities@.len() as int),
    ensures
        r == spec_contains(*n, e, ctx.entities@, ctx.entities@.len() as int),
{
    contains_rec(n, e, ctx, Ghost(ctx.entities.len() as int))
}

#[verifier::loop_isolation(false)]
fn contains_rec(n: &DefNode, e: usize, ctx: &CompileContext, Ghost(b): Ghost<int>) -> (r: bool)
    requires
        0 <= b <= ctx.entities@.len(),
        ctx.wf(),
        refs_below(*n, b),
    ensures
        r == spec_contains(*n, e, ctx.entities@, b),
    decreases b, *n, 1int,
{
    match n {
        DefNode::Record { fields, .. } => {
            let ghost fseq = fields@;
            proof {
                lemma_refs_below_fields_each(fseq, b);
            }
            let mut found = false;
            let mut i: usize = 0;
            while i < fields.len()
                invariant
                    i <= fseq.len(),
                    found == spec_contains_rec_fields(fseq, e, ctx.entities@, b, i as int),
                decreases fseq.len() - i,
            {
                if !found {
                    if let DefValue::Entity(id) = &fields[i] {
                        if *id == e {
                            found = true;
                        } else {
                            let ent = ctx.get_entity(*id);
                            found = contains_rec(ent, e, ctx, Ghost(*id as int));
                        }
                    }
                }
                i += 1;
            }
            found
        },
        DefNode::Union { fields, .. } => {
            let ghost fseq = fields@;
            proof {
                lemma_refs_below_fields_each(fseq, b);
            }
            let mut found = false;
            let mut i: usize = 0;
            while i < fields.len()
                invariant
                    i <= fseq.len(),
                    found == spec_contains_union_fields(fseq, e, ctx.entities@, b, i as int),
                decreases fseq.len() - i,
            {
                if !found {
                    proof {
                        assert(decreases_to!(*n => *fields));
                        assert(decreases_to!(*fields => fseq[i as int]));
                    }
                    found = contains_value_rec(&fields[i], e, ctx, Ghost(b));
                } else {
                    proof {
                        assert(spec_contains_union_fields(
                            fseq,
                            e,
                            ctx.entities@,
                            b,
                            i + 1,
                        ));
                    }
                }
                i += 1;
            }
            found
        },
    }
}

#[verifier::loop_isolation(false)]
fn contains_value_rec(v: &DefValue, e: usize, ctx: &CompileContext, Ghost(b): Ghost<int>) -> (r:
    bool)
    requires
        0 <= b <= ctx.entities@.len(),
        ctx.wf(),
        refs_below_value(*v, b),
    ensures
        r == spec_contains_value(*v, e, ctx.entities@, b),
    decreases b, *v, 1int,
{
    match v {
        DefValue::Entity(id) => {
            if *id == e {
                true
            } else {
                let ent = ctx.get_entity(*id);
                contains_rec(ent, e, ctx, Ghost(*id as int))
            }
        },
        DefValue::NoEntity => false,
        DefValue::Variable(d) => contains_rec(&**d, e, ctx, Ghost(b)),
        DefValue::Sequence(ns) => {
            let ghost nseq = ns@;
            proof {
                lemma_refs_below_nodes_each(nseq, b);
            }
            let mut found = false;
            let mut j: usize = 0;
            while j < ns.len()
                invariant
                    j <= nseq.len(),
                    found == spec_contains_nodes(nseq, e, ctx.entities@, b, j as int),
                decreases nseq.len() - j,
            {
                if !found {
                    proof {
                        assert(decreases_to!(*v => *ns));
                        assert(decreases_to!(*ns => nseq[j as int]));
                    }
                    found = contains_rec(&ns[j], e, ctx, Ghost(b));
                }
                j += 1;
            }
            found
        },
        DefValue::Mapping(ps) => {
            let ghost pseq = ps@;
            proof {
                lemma_refs_below_pairs_each(pseq, b);
            }
            let mut found = false;
            let mut j: usize = 0;
            while j < ps.len()
                invariant
                    j <= pseq.len(),
                    found == spec_contains_pairs(pseq, e, ctx.entities@, b, j as int),
                decreases pseq.len() - j,
            {
                if !found {
                    proof {
                        assert(decreases_to!(*v => *ps));
                        assert(decreases_to!(*ps => pseq[j as int]));
                        assert(decreases_to!(pseq[j as int] => pseq[j as int].1));
                    }
                    found = contains_rec(&ps[j].1, e, ctx, Ghost(b));
                }
                j += 1;
            }
            found
        },
        DefValue::Order(_) => false,
        DefValue::Expression(d) => contains_rec(&**d, e, ctx, Ghost(b)),
    }
}

impl CompileContext {
    /// The table is well-formed for recursion.
    pub open spec fn wf(&self) -> bool {
        ctx_wf(self.entities@)
    }

    /// Looks an entity's definition up by its id.
    pub fn get_entity(&self, id: usize) -> (r: &DefNode)
        requires
            id < self.entities@.len(),
        ensures
            *r == self.entities@[id as int],
    {
        &self.entities[id]
    }
}

} // verus!
