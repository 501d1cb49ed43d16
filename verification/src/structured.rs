//! The flattened form of a query: filters, groups of filters joined by one
//! operator, and negated groups.
use vstd::prelude::*;
use crate::node::{FilterModel, FilterValue, NodeModel, SearchNode, ValueModel, value_truth};
use crate::text::{owned, same_text};

verus! {

/// A query in flattened form.
#[derive(Debug, PartialEq)]
pub enum StructuredQuery {
    Filter {
        field: String,
        condition: String,
        value: FilterValue,
        field_type: String,
        is_custom_property: bool,
    },
    Group { operator: String, filters: Vec<StructuredQuery> },
    NotGroup { operator: String, filter: Box<StructuredQuery> },
}

/// The model of a [`StructuredQuery`].
pub enum QueryModel {
    Filter(FilterModel),
    Group(Seq<char>, Seq<QueryModel>),
    NotGroup(Seq<char>, Box<QueryModel>),
}

pub open spec fn query_model(q: StructuredQuery) -> QueryModel
    decreases q,
{
    match q {
        StructuredQuery::Filter { field, condition, value, field_type, is_custom_property } =>
            QueryModel::Filter(
            FilterModel {
                field: field@,
                condition: condition@,
                value: value@,
                field_type: field_type@,
                is_custom_property,
            },
        ),
        StructuredQuery::Group { operator, filters } => QueryModel::Group(
            operator@,
            Seq::new(
                filters@.len(),
                |i: int|
                    if 0 <= i < filters@.len() {
                        query_model(filters@[i])
                    } else {
                        QueryModel::Group(Seq::empty(), Seq::empty())
                    },
            ),
        ),
        StructuredQuery::NotGroup { operator, filter } => QueryModel::NotGroup(
            operator@,
            Box::new(query_model(*filter)),
        ),
    }
}

impl View for StructuredQuery {
    type V = QueryModel;

    open spec fn view(&self) -> QueryModel {
        query_model(*self)
    }
}

/// The models of a list of queries.
pub open spec fn queries_model(v: Seq<StructuredQuery>) -> Seq<QueryModel> {
    Seq::new(v.len(), |i: int| query_model(v[i]))
}

pub proof fn lemma_group_model(operator: String, filters: Vec<StructuredQuery>)
    ensures
        query_model(StructuredQuery::Group { operator, filters }) == QueryModel::Group(
            operator@,
            queries_model(filters@),
        ),
{
    let q = StructuredQuery::Group { operator, filters };
    match query_model(q) {
        QueryModel::Group(o, fs) => {
            assert(fs =~= queries_model(filters@));
        },
        _ => {},
    }
}

impl Clone for StructuredQuery {
    /// A query with the same model.
    fn clone(&self) -> (r: Self)
        ensures
            r@ == self@,
        decreases self,
    {
        match self {
            StructuredQuery::Filter { field, condition, value, field_type, is_custom_property } => {
                StructuredQuery::Filter {
                    field: field.clone(),
                    condition: condition.clone(),
                    value: value.duplicate(),
                    field_type: field_type.clone(),
                    is_custom_property: *is_custom_property,
                }
            },
            StructuredQuery::Group { operator, filters } => {
                let mut out: Vec<StructuredQuery> = Vec::new();
                let mut i: usize = 0;
                while i < filters.len()
                    invariant
                        *self == (StructuredQuery::Group { operator: *operator, filters: *filters }),
                        0 <= i <= filters.len(),
                        out@.len() == i,
                        forall|j: int| 0 <= j < i ==> #[trigger] out@[j]@ == filters@[j]@,
                    decreases filters.len() - i,
                {
                    proof {
                        let ghost fs = *filters;
                        let ghost g = StructuredQuery::Group { operator: *operator, filters: fs };
                        assert(*self == g);
                        assert(decreases_to!(g => g->filters));
                        assert(decreases_to!(fs => fs@));
                        assert(decreases_to!(filters@ => filters@[i as int]));
                    }
                    let c = filters[i].clone();
                    out.push(c);
                    i += 1;
                }
                let op = operator.clone();
                proof {
                    lemma_group_model(op, out);
                    lemma_group_model(*operator, *filters);
                    assert forall|j: int| 0 <= j < out@.len() implies #[trigger] queries_model(out@)[j]
                        == queries_model(filters@)[j] by {
                        assert(out@[j]@ == filters@[j]@);
                    }
                    assert(queries_model(out@) =~= queries_model(filters@));
                }
                StructuredQuery::Group { operator: op, filters: out }
            },
            StructuredQuery::NotGroup { operator, filter } => {
                let f = (**filter).clone();
                StructuredQuery::NotGroup { operator: operator.clone(), filter: Box::new(f) }
            },
        }
    }
}

/// The opposite of `condition` for a field of type `field_type`. A boolean
/// condition is `true` or `false`; every other condition has an opposite in
/// a fixed table, and one outside the table stays as it is.
pub open spec fn negated_condition(condition: Seq<char>, field_type: Seq<char>) -> Seq<char> {
    if field_type == "boolean"@ {
        if condition == "true"@ {
            "false"@
        } else {
            "true"@
        }
    } else if condition == "is"@ {
        "isNot"@
    } else if condition == "isNot"@ {
        "is"@
    } else if condition == "contains"@ {
        "doesNotContain"@
    } else if condition == "doesNotContain"@ {
        "contains"@
    } else if condition == "containsAnyOf"@ {
        "doesNotContainAnyOf"@
    } else if condition == "doesNotContainAnyOf"@ {
        "containsAnyOf"@
    } else if condition == "endsWith"@ {
        "doesNotEndWith"@
    } else if condition == "doesNotEndWith"@ {
        "endsWith"@
    } else if condition == "startsWith"@ {
        "doesNotStartWith"@
    } else if condition == "doesNotStartWith"@ {
        "startsWith"@
    } else if condition == "isAnyOf"@ {
        "isNotAnyOf"@
    } else if condition == "isNotAnyOf"@ {
        "isAnyOf"@
    } else if condition == "greaterThan"@ {
        "isLessThanOrEqualTo"@
    } else if condition == "isLessThanOrEqualTo"@ {
        "greaterThan"@
    } else if condition == "lessThan"@ {
        "isGreaterThanOrEqualTo"@
    } else if condition == "isGreaterThanOrEqualTo"@ {
        "lessThan"@
    } else if condition == "includes"@ {
        "doesNotInclude"@
    } else if condition == "doesNotInclude"@ {
        "includes"@
    } else if condition == "includeAnyOf"@ {
        "excludeAnyOf"@
    } else if condition == "excludeAnyOf"@ {
        "includeAnyOf"@
    } else if condition == "includeAllOf"@ {
        "excludeAllOf"@
    } else if condition == "excludeAllOf"@ {
        "includeAllOf"@
    } else if condition == "before"@ {
        "onOrAfter"@
    } else if condition == "after"@ {
        "onOrBefore"@
    } else if condition == "onOrBefore"@ {
        "after"@
    } else if condition == "onOrAfter"@ {
        "before"@
    } else if condition == "in"@ {
        "notIn"@
    } else if condition == "notIn"@ {
        "in"@
    } else if condition == "between"@ {
        "notBetween"@
    } else if condition == "notBetween"@ {
        "between"@
    } else if condition == "isBetween"@ {
        "isNotBetween"@
    } else if condition == "isNotBetween"@ {
        "isBetween"@
    } else {
        condition
    }
}

/// The filter that negates `f`: the opposite condition, and for a boolean
/// field the opposite value too.
pub open spec fn negated_filter(f: FilterModel) -> FilterModel {
    FilterModel {
        condition: negated_condition(f.condition, f.field_type),
        value: if f.field_type == "boolean"@ {
            ValueModel::Bool(!value_truth(f.value))
        } else {
            f.value
        },
        ..f
    }
}

/// What a converted child adds to a group with operator `op`: the members of
/// a group with the same operator, or the child itself.
pub open spec fn members(op: Seq<char>, child: Option<QueryModel>) -> Seq<QueryModel> {
    match child {
        None => Seq::empty(),
        Some(QueryModel::Group(o, fs)) => if o == op {
            fs
        } else {
            seq![QueryModel::Group(o, fs)]
        },
        Some(q) => seq![q],
    }
}

/// The group of the converted children under `op`: nothing for no member,
/// the member itself for one.
pub open spec fn combined(op: Seq<char>, a: Option<QueryModel>, b: Option<QueryModel>) -> Option<QueryModel> {
    let fs = members(op, a) + members(op, b);
    if fs.len() == 0 {
        None
    } else if fs.len() == 1 {
        Some(fs[0])
    } else {
        Some(QueryModel::Group(op, fs))
    }
}

/// What `convert_to_structured` returns.
pub open spec fn structured(n: NodeModel) -> Option<QueryModel>
    decreases n,
{
    match n {
        NodeModel::Filter(f) => Some(QueryModel::Filter(f)),
        NodeModel::Not(e) => match *e {
            NodeModel::Filter(f) => Some(QueryModel::Filter(negated_filter(f))),
            NodeModel::Not(inner) => structured(*inner),
            other => match structured(other) {
                Some(q) => Some(QueryModel::NotGroup("not"@, Box::new(q))),
                None => None,
            },
        },
        NodeModel::And(l, r) => combined("and"@, structured(*l), structured(*r)),
        NodeModel::Or(l, r) => combined("or"@, structured(*l), structured(*r)),
    }
}

/// The opposite of `condition` for a field of type `field_type`; see
/// [`negated_condition`].
pub fn negate_condition(condition: &str, field_type: &str) -> (r: String)
    ensures
        r@ == negated_condition(condition@, field_type@),
{
    if same_text(field_type, "boolean") {
        return if same_text(condition, "true") {
            owned("false")
        } else {
            owned("true")
        };
    }
    let c = condition;
    if same_text(c, "is") {
        owned("isNot")
    } else if same_text(c, "isNot") {
        owned("is")
    } else if same_text(c, "contains") {
        owned("doesNotContain")
    } else if same_text(c, "doesNotContain") {
        owned("contains")
    } else if same_text(c, "containsAnyOf") {
        owned("doesNotContainAnyOf")
    } else if same_text(c, "doesNotContainAnyOf") {
        owned("containsAnyOf")
    } else if same_text(c, "endsWith") {
        owned("doesNotEndWith")
    } else if same_text(c, "doesNotEndWith") {
        owned("endsWith")
    } else if same_text(c, "startsWith") {
        owned("doesNotStartWith")
    } else if same_text(c, "doesNotStartWith") {
        owned("startsWith")
    } else if same_text(c, "isAnyOf") {
        owned("isNotAnyOf")
    } else if same_text(c, "isNotAnyOf") {
        owned("isAnyOf")
    } else if same_text(c, "greaterThan") {
        owned("isLessThanOrEqualTo")
    } else if same_text(c, "isLessThanOrEqualTo") {
        owned("greaterThan")
    } else if same_text(c, "lessThan") {
        owned("isGreaterThanOrEqualTo")
    } else if same_text(c, "isGreaterThanOrEqualTo") {
        owned("lessThan")
    } else if same_text(c, "includes") {
        owned("doesNotInclude")
    } else if same_text(c, "doesNotInclude") {
        owned("includes")
    } else if same_text(c, "includeAnyOf") {
        owned("excludeAnyOf")
    } else if same_text(c, "excludeAnyOf") {
        owned("includeAnyOf")
    } else if same_text(c, "includeAllOf") {
        owned("excludeAllOf")
    } else if same_text(c, "excludeAllOf") {
        owned("includeAllOf")
    } else if same_text(c, "before") {
        owned("onOrAfter")
    } else if same_text(c, "after") {
        owned("onOrBefore")
    } else if same_text(c, "onOrBefore") {
        owned("after")
    } else if same_text(c, "onOrAfter") {
        owned("before")
    } else if same_text(c, "in") {
        owned("notIn")
    } else if same_text(c, "notIn") {
        owned("in")
    } else if same_text(c, "between") {
        owned("notBetween")
    } else if same_text(c, "notBetween") {
        owned("between")
    } else if same_text(c, "isBetween") {
        owned("isNotBetween")
    } else if same_text(c, "isNotBetween") {
        owned("isBetween")
    } else {
        owned(c)
    }
}

fn filter_query(
    field: &String,
    condition: String,
    value: FilterValue,
    field_type: &String,
    is_custom_property: bool,
) -> (q: StructuredQuery)
    ensures
        q@ == QueryModel::Filter(
            FilterModel {
                field: field@,
                condition: condition@,
                value: value@,
                field_type: field_type@,
                is_custom_property,
            },
        ),
{
    StructuredQuery::Filter {
        field: field.clone(),
        condition,
        value,
        field_type: field_type.clone(),
        is_custom_property,
    }
}

/// Adds the members that `child` gives a group with operator `op`.
fn absorb(filters: &mut Vec<StructuredQuery>, child: Option<StructuredQuery>, op: &str)
    ensures
        queries_model(final(filters)@) == queries_model(old(filters)@) + members(op@, opt_query_model(child)),
{
    match child {
        None => {
            assert(queries_model(filters@) =~= queries_model(filters@) + Seq::<QueryModel>::empty());
        },
        Some(StructuredQuery::Group { operator, filters: sub }) => {
            let ghost before = queries_model(filters@);
            let ghost sub_model = queries_model(sub@);
            let ghost whole = QueryModel::Group(
                operator@,
                Seq::new(
                    sub@.len(),
                    |i: int|
                        if 0 <= i < sub@.len() {
                            query_model(sub@[i])
                        } else {
                            QueryModel::Group(Seq::empty(), Seq::empty())
                        },
                ),
            );
            assert(queries_model(sub@) =~= match whole {
                QueryModel::Group(_, fs) => fs,
                _ => Seq::empty(),
            });
            if same_text(operator.as_str(), op) {
                let mut sub = sub;
                filters.append(&mut sub);
                assert(queries_model(filters@) =~= before + sub_model);
            } else {
                proof {
                    lemma_group_model(operator, sub);
                }
                let g = StructuredQuery::Group { operator, filters: sub };
                filters.push(g);
                assert(queries_model(filters@) =~= before + seq![whole]);
            }
        },
        Some(q) => {
            let ghost before = queries_model(filters@);
            let ghost m = q@;
            filters.push(q);
            assert(queries_model(filters@) =~= before + seq![m]);
        },
    }
}

/// Flattens a parsed query.
///
/// A filter stays a filter. A negated filter becomes the filter with the
/// opposite condition (and, for a boolean field, the opposite value); a
/// doubly negated node is the node itself; any other negated node becomes a
/// `not` group. An `and` or `or` node becomes a group of its converted
/// children, where a child group with the same operator gives its members
/// instead of itself; a group of one member is that member. Every node
/// converts.
pub fn convert_to_structured(node: &SearchNode) -> (r: Option<StructuredQuery>)
    ensures
        opt_query_model(r) == structured(node@),
        r is Some,
    decreases node,
{
    proof {
        crate::laws::law_structured_is_flat(node@);
    }
    match node {
        SearchNode::Filter { field, condition, value, field_type, is_custom_property } => {
            Some(filter_query(field, condition.clone(), value.duplicate(), field_type, *is_custom_property))
        },
        SearchNode::Not { expression } => {
            proof {
                reveal_with_fuel(crate::node::node_model, 2);
            }
            match &**expression {
                SearchNode::Filter { field, condition, value, field_type, is_custom_property } => {
                    let new_condition = negate_condition(condition.as_str(), field_type.as_str());
                    let new_value = if same_text(field_type.as_str(), "boolean") {
                        FilterValue::Bool(!value.truth())
                    } else {
                        value.duplicate()
                    };
                    Some(filter_query(field, new_condition, new_value, field_type, *is_custom_property))
                },
                SearchNode::Not { expression: inner } => convert_to_structured(inner),
                other => {
                    match convert_to_structured(other) {
                        Some(inner) => Some(
                            StructuredQuery::NotGroup { operator: owned("not"), filter: Box::new(inner) },
                        ),
                        None => None,
                    }
                },
            }
        },
        SearchNode::And { left, right } => {
            let l = convert_to_structured(left);
            let r = convert_to_structured(right);
            group_of(l, r, "and")
        },
        SearchNode::Or { left, right } => {
            let l = convert_to_structured(left);
            let r = convert_to_structured(right);
            group_of(l, r, "or")
        },
    }
}

pub open spec fn opt_query_model(o: Option<StructuredQuery>) -> Option<QueryModel> {
    match o {
        Some(q) => Some(q@),
        None => None,
    }
}

/// The group that `convert_to_structured` makes of two converted children
/// under `op`.
fn group_of(left_conv: Option<StructuredQuery>, right_conv: Option<StructuredQuery>, op: &str) -> (r:
    Option<StructuredQuery>)
    ensures
        opt_query_model(r) == combined(op@, opt_query_model(left_conv), opt_query_model(right_conv)),
{
    let ghost lm = opt_query_model(left_conv);
    let ghost rm = opt_query_model(right_conv);
    let mut filters: Vec<StructuredQuery> = Vec::new();
    assert(queries_model(filters@) =~= Seq::<QueryModel>::empty());
    absorb(&mut filters, left_conv, op);
    absorb(&mut filters, right_conv, op);
    assert(queries_model(filters@) =~= members(op@, lm) + members(op@, rm));
    if filters.len() == 0 {
        return None;
    }
    if filters.len() == 1 {
        let ghost m = queries_model(filters@);
        let only = filters.pop().unwrap();
        assert(only@ == m[0]);
        return Some(only);
    }
    let ghost m = queries_model(filters@);
    let name = owned(op);
    proof {
        lemma_group_model(name, filters);
    }
    let g = StructuredQuery::Group { operator: name, filters };
    Some(g)
}

} // verus!
