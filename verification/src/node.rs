//! The syntax tree of a search query, and its mathematical model.
use vstd::prelude::*;

verus! {

/// The value a filter compares against.
#[derive(Debug, Clone, PartialEq)]
pub enum FilterValue {
    /// A string.
    Text(String),
    /// A boolean.
    Bool(bool),
    /// A number, kept as the decimal text it was written as; that text is
    /// always one that `str::parse::<f64>` accepts.
    Number(String),
    /// A list of strings.
    List(Vec<String>),
}

/// The model of a [`FilterValue`].
pub enum ValueModel {
    Text(Seq<char>),
    Bool(bool),
    Number(Seq<char>),
    List(Seq<Seq<char>>),
}

impl View for FilterValue {
    type V = ValueModel;

    open spec fn view(&self) -> ValueModel {
        match self {
            FilterValue::Text(s) => ValueModel::Text(s@),
            FilterValue::Bool(b) => ValueModel::Bool(*b),
            FilterValue::Number(s) => ValueModel::Number(s@),
            FilterValue::List(v) => ValueModel::List(v.deep_view()),
        }
    }
}

/// The boolean a value stands for: its own for a boolean, false otherwise.
pub open spec fn value_truth(v: ValueModel) -> bool {
    match v {
        ValueModel::Bool(b) => b,
        _ => false,
    }
}

impl FilterValue {
    /// A copy of this value.
    pub fn duplicate(&self) -> (r: Self)
        ensures
            r@ == self@,
    {
        match self {
            FilterValue::Text(s) => FilterValue::Text(s.clone()),
            FilterValue::Bool(b) => FilterValue::Bool(*b),
            FilterValue::Number(s) => FilterValue::Number(s.clone()),
            FilterValue::List(v) => {
                let mut out: Vec<String> = Vec::new();
                let mut i: usize = 0;
                while i < v.len()
                    invariant
                        0 <= i <= v.len(),
                        out@.len() == i,
                        forall|j: int| 0 <= j < i ==> #[trigger] out@[j]@ == v@[j]@,
                    decreases v.len() - i,
                {
                    out.push(v[i].clone());
                    i += 1;
                }
                assert(out.deep_view() =~= v.deep_view());
                FilterValue::List(out)
            },
        }
    }

    /// The boolean this value stands for: its own for a boolean, false
    /// otherwise.
    pub fn truth(&self) -> (b: bool)
        ensures
            b == value_truth(self@),
    {
        match self {
            FilterValue::Bool(b) => *b,
            _ => false,
        }
    }
}

/// A node of a parsed query.
#[derive(Debug)]
pub enum SearchNode {
    And { left: Box<SearchNode>, right: Box<SearchNode> },
    Or { left: Box<SearchNode>, right: Box<SearchNode> },
    Not { expression: Box<SearchNode> },
    Filter {
        field: String,
        condition: String,
        value: FilterValue,
        field_type: String,
        is_custom_property: bool,
    },
}

/// The model of a filter: what field is compared how with what.
pub struct FilterModel {
    pub field: Seq<char>,
    pub condition: Seq<char>,
    pub value: ValueModel,
    pub field_type: Seq<char>,
    pub is_custom_property: bool,
}

/// The model of a [`SearchNode`].
pub enum NodeModel {
    And(Box<NodeModel>, Box<NodeModel>),
    Or(Box<NodeModel>, Box<NodeModel>),
    Not(Box<NodeModel>),
    Filter(FilterModel),
}

pub open spec fn node_model(n: SearchNode) -> NodeModel
    decreases n,
{
    match n {
        SearchNode::And { left, right } => NodeModel::And(
            Box::new(node_model(*left)),
            Box::new(node_model(*right)),
        ),
        SearchNode::Or { left, right } => NodeModel::Or(
            Box::new(node_model(*left)),
            Box::new(node_model(*right)),
        ),
        SearchNode::Not { expression } => NodeModel::Not(Box::new(node_model(*expression))),
        SearchNode::Filter { field, condition, value, field_type, is_custom_property } =>
            NodeModel::Filter(
            FilterModel {
                field: field@,
                condition: condition@,
                value: value@,
                field_type: field_type@,
                is_custom_property,
            },
        ),
    }
}

impl View for SearchNode {
    type V = NodeModel;

    open spec fn view(&self) -> NodeModel {
        node_model(*self)
    }
}

/// A filter node with the given parts.
pub fn filter_node(
    field: String,
    condition: String,
    value: FilterValue,
    field_type: String,
    is_custom_property: bool,
) -> (n: SearchNode)
    ensures
        n@ == NodeModel::Filter(
            FilterModel {
                field: field@,
                condition: condition@,
                value: value@,
                field_type: field_type@,
                is_custom_property,
            },
        ),
{
    SearchNode::Filter { field, condition, value, field_type, is_custom_property }
}

impl Clone for SearchNode {
    /// A node with the same model.
    fn clone(&self) -> (r: Self)
        ensures
            r@ == self@,
        decreases self,
    {
        proof {
            reveal_with_fuel(node_model, 2);
        }
        match self {
            SearchNode::And { left, right } => {
                let l = (**left).clone();
                let r = (**right).clone();
                SearchNode::And { left: Box::new(l), right: Box::new(r) }
            },
            SearchNode::Or { left, right } => {
                let l = (**left).clone();
                let r = (**right).clone();
                SearchNode::Or { left: Box::new(l), right: Box::new(r) }
            },
            SearchNode::Not { expression } => {
                let e = (**expression).clone();
                SearchNode::Not { expression: Box::new(e) }
            },
            SearchNode::Filter { field, condition, value, field_type, is_custom_property } => {
                filter_node(field.clone(), condition.clone(), value.duplicate(), field_type.clone(), *is_custom_property)
            },
        }
    }
}

} // verus!
