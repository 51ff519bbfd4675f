//! Reading a subscription request out of a GraphQL query.
//!
//! The query text is parsed by apollo-parser; the library walks a plain
//! image of the syntax tree: the definitions, each operation's
//! selections, each field's arguments. The walk itself is verified
//! against [`doc_result`]: the first operation definition whose
//! selections hold a named field wins, a string argument contributes its
//! literal value, a variable argument contributes the named variable's
//! value when the request's variables hold a string under that name,
//! and every other argument shape is dropped.

use vstd::prelude::*;

use apollo_parser::cst::CstNode;

use crate::json_value::{JsonValue, JsonValueView, StrMap, ValueMap};

verus! {

use vstd::string::StrSliceExecFns;

/// One argument value as the walk sees it: a string literal's raw token
/// text, a variable reference, or another shape the walk drops.
pub enum QueryArgValue {
    Text(String),
    Variable(String),
    Other,
}

/// The mathematical value of a [`QueryArgValue`].
pub enum QueryArgValueView {
    Text(Seq<char>),
    Variable(Seq<char>),
    Other,
}

impl View for QueryArgValue {
    type V = QueryArgValueView;

    open spec fn view(&self) -> QueryArgValueView {
        match self {
            QueryArgValue::Text(t) => QueryArgValueView::Text(t@),
            QueryArgValue::Variable(v) => QueryArgValueView::Variable(v@),
            QueryArgValue::Other => QueryArgValueView::Other,
        }
    }
}

/// One named argument of a field.
pub struct QueryArgument {
    pub name: String,
    pub value: QueryArgValue,
}

/// The mathematical value of a [`QueryArgument`].
pub struct QueryArgumentView {
    pub name: Seq<char>,
    pub value: QueryArgValueView,
}

impl View for QueryArgument {
    type V = QueryArgumentView;

    open spec fn view(&self) -> QueryArgumentView {
        QueryArgumentView { name: self.name@, value: self.value@ }
    }
}

/// One selection of an operation: a named field with its arguments, or
/// another shape the walk skips.
pub enum QuerySelection {
    Field { name: String, arguments: Vec<QueryArgument> },
    Other,
}

/// The mathematical value of a [`QuerySelection`].
pub enum QuerySelectionView {
    Field { name: Seq<char>, arguments: Seq<QueryArgumentView> },
    Other,
}

impl View for QuerySelection {
    type V = QuerySelectionView;

    open spec fn view(&self) -> QuerySelectionView {
        match self {
            QuerySelection::Field { name, arguments } => QuerySelectionView::Field {
                name: name@,
                arguments: arguments@.map_values(|a: QueryArgument| a@),
            },
            QuerySelection::Other => QuerySelectionView::Other,
        }
    }
}

/// One definition of a document: an operation with its selections, or
/// another shape the walk skips.
pub enum QueryDefinition {
    Operation { selections: Vec<QuerySelection> },
    Other,
}

/// The mathematical value of a [`QueryDefinition`].
pub enum QueryDefinitionView {
    Operation { selections: Seq<QuerySelectionView> },
    Other,
}

impl View for QueryDefinition {
    type V = QueryDefinitionView;

    open spec fn view(&self) -> QueryDefinitionView {
        match self {
            QueryDefinition::Operation { selections } => QueryDefinitionView::Operation {
                selections: selections@.map_values(|s: QuerySelection| s@),
            },
            QueryDefinition::Other => QueryDefinitionView::Other,
        }
    }
}

/// The plain image of a parsed document.
pub struct QueryDoc {
    pub definitions: Vec<QueryDefinition>,
}

impl View for QueryDoc {
    type V = Seq<QueryDefinitionView>;

    open spec fn view(&self) -> Seq<QueryDefinitionView> {
        self.definitions@.map_values(|d: QueryDefinition| d@)
    }
}

/// The value of a string literal's token text: one leading and one
/// trailing quote character removed, when both are present.
pub open spec fn strip_quotes(s: Seq<char>) -> Seq<char> {
    if s.len() >= 2 && s[0] == '"' && s[s.len() - 1] == '"' {
        s.subrange(1, s.len() - 1)
    } else {
        s
    }
}

/// Strips the surrounding quotes off a string literal's token text, as
/// [`strip_quotes`] says.
pub fn strip_surrounding_quotes(s: &String) -> (r: String)
    ensures
        r@ == strip_quotes(s@),
{
    let text = s.as_str();
    let n = text.unicode_len();
    if n >= 2 && text.get_char(0) == '"' && text.get_char(n - 1) == '"' {
        text.substring_char(1, n - 1).to_owned()
    } else {
        s.clone()
    }
}

/// The string an argument contributes, if any.
pub open spec fn resolve_argument(
    arg: QueryArgumentView,
    vars: Map<Seq<char>, JsonValueView>,
) -> Option<(Seq<char>, Seq<char>)> {
    match arg.value {
        QueryArgValueView::Text(t) => Some((arg.name, strip_quotes(t))),
        QueryArgValueView::Variable(v) => if vars.contains_key(v) && vars[v] is Str {
            Some((arg.name, vars[v]->Str_0))
        } else {
            None
        },
        QueryArgValueView::Other => None,
    }
}

/// Folds a field's arguments left to right; a repeated name keeps the
/// last contribution.
pub open spec fn collect_arguments(
    args: Seq<QueryArgumentView>,
    vars: Map<Seq<char>, JsonValueView>,
    acc: Map<Seq<char>, Seq<char>>,
) -> Map<Seq<char>, Seq<char>>
    decreases args.len(),
{
    if args.len() == 0 {
        acc
    } else {
        let acc2 = match resolve_argument(args[0], vars) {
            Some((k, v)) => acc.insert(k, v),
            None => acc,
        };
        collect_arguments(args.drop_first(), vars, acc2)
    }
}

/// The first named field of a selection set.
pub open spec fn first_field(selections: Seq<QuerySelectionView>) -> Option<
    (Seq<char>, Seq<QueryArgumentView>),
>
    decreases selections.len(),
{
    if selections.len() == 0 {
        None
    } else {
        match selections[0] {
            QuerySelectionView::Field { name, arguments } => Some((name, arguments)),
            QuerySelectionView::Other => first_field(selections.drop_first()),
        }
    }
}

/// What a document names: the first operation definition whose
/// selections hold a field gives the operation's name and its resolved
/// arguments.
pub open spec fn doc_result(
    defs: Seq<QueryDefinitionView>,
    vars: Map<Seq<char>, JsonValueView>,
) -> Option<(Seq<char>, Map<Seq<char>, Seq<char>>)>
    decreases defs.len(),
{
    if defs.len() == 0 {
        None
    } else {
        match defs[0] {
            QueryDefinitionView::Operation { selections } => match first_field(selections) {
                Some((name, args)) => Some((name, collect_arguments(args, vars, Map::empty()))),
                None => doc_result(defs.drop_first(), vars),
            },
            QueryDefinitionView::Other => doc_result(defs.drop_first(), vars),
        }
    }
}

/// The request's variables as a map; absent variables are the empty map.
pub open spec fn vars_of(variables: &Option<ValueMap>) -> Map<Seq<char>, JsonValueView> {
    match variables {
        Some(vm) => vm@,
        None => Map::empty(),
    }
}

/// A parsed subscription request: the subscription field's name and its
/// string arguments.
pub struct SubscriptionOperation {
    pub name: String,
    pub arguments: StrMap,
}

impl SubscriptionOperation {
    /// Reads the operation out of a document image, per [`doc_result`].
    pub fn from_document(doc: &QueryDoc, variables: &Option<ValueMap>) -> (r: Option<
        SubscriptionOperation,
    >)
        requires
            match variables {
                Some(vm) => vm.wf(),
                None => true,
            },
        ensures
            match r {
                Some(op) => op.arguments.wf() && doc_result(doc@, vars_of(variables)) == Some(
                    (op.name@, op.arguments@),
                ),
                None => doc_result(doc@, vars_of(variables)) is None,
            },
    {
        let ghost defs = doc@;
        let ghost vars = vars_of(variables);
        let n = doc.definitions.len();
        proof {
            assert(defs.skip(0) =~= defs);
        }
        for i in 0..n
            invariant
                defs == doc@,
                vars == vars_of(variables),
                match variables {
                    Some(vm) => vm.wf(),
                    None => true,
                },
                n == doc.definitions@.len(),
                doc_result(defs, vars) == doc_result(defs.skip(i as int), vars),
        {
            proof {
                assert(defs.skip(i as int)[0] == defs[i as int]);
                assert(defs.skip(i as int).drop_first() =~= defs.skip(i as int + 1));
            }
            match &doc.definitions[i] {
                QueryDefinition::Operation { selections } => {
                    let ghost sels = selections@.map_values(|s: QuerySelection| s@);
                    let m = selections.len();
                    proof {
                        assert(sels.skip(0) =~= sels);
                    }
                    for j in 0..m
                        invariant
                            defs == doc@,
                            vars == vars_of(variables),
                            match variables {
                                Some(vm) => vm.wf(),
                                None => true,
                            },
                            0 <= i < doc.definitions@.len(),
                            doc.definitions@[i as int]@ == (QueryDefinitionView::Operation {
                                selections: sels,
                            }),
                            selections@.map_values(|s: QuerySelection| s@) == sels,
                            m == selections@.len(),
                            doc_result(defs, vars) == doc_result(defs.skip(i as int), vars),
                            defs[i as int] == (QueryDefinitionView::Operation { selections: sels }),
                            first_field(sels) == first_field(sels.skip(j as int)),
                    {
                        proof {
                            assert(sels.skip(j as int)[0] == sels[j as int]);
                            assert(sels.skip(j as int).drop_first() =~= sels.skip(j as int + 1));
                        }
                        match &selections[j] {
                            QuerySelection::Field { name, arguments } => {
                                let ghost argsv = arguments@.map_values(|a: QueryArgument| a@);
                                let mut collected = StrMap::new();
                                let p = arguments.len();
                                proof {
                                    assert(argsv.skip(0) =~= argsv);
                                }
                                for k in 0..p
                                    invariant
                                        vars == vars_of(variables),
                                        match variables {
                                            Some(vm) => vm.wf(),
                                            None => true,
                                        },
                                        arguments@.map_values(|a: QueryArgument| a@) == argsv,
                                        p == arguments@.len(),
                                        collected.wf(),
                                        collect_arguments(argsv, vars, Map::empty())
                                            == collect_arguments(
                                            argsv.skip(k as int),
                                            vars,
                                            collected@,
                                        ),
                                {
                                    proof {
                                        assert(argsv.skip(k as int)[0] == argsv[k as int]);
                                        assert(argsv.skip(k as int).drop_first() =~= argsv.skip(
                                            k as int + 1,
                                        ));
                                    }
                                    match &arguments[k].value {
                                        QueryArgValue::Text(t) => {
                                            let value = strip_surrounding_quotes(t);
                                            collected.insert(arguments[k].name.clone(), value);
                                        },
                                        QueryArgValue::Variable(v) => {
                                            match variables {
                                                Some(vm) => {
                                                    match vm.get(v) {
                                                        Some(JsonValue::Str(s)) => {
                                                            collected.insert(
                                                                arguments[k].name.clone(),
                                                                s.clone(),
                                                            );
                                                        },
                                                        _ => {},
                                                    }
                                                },
                                                None => {},
                                            }
                                        },
                                        QueryArgValue::Other => {},
                                    }
                                }
                                proof {
                                    assert(argsv.skip(p as int).len() == 0);
                                    assert(first_field(sels) == Some((name@, argsv)));
                                    assert(doc_result(defs.skip(i as int), vars) == Some(
                                        (name@, collected@),
                                    ));
                                }
                                return Some(
                                    SubscriptionOperation { name: name.clone(), arguments: collected },
                                );
                            },
                            QuerySelection::Other => {},
                        }
                    }
                    proof {
                        assert(sels.skip(m as int).len() == 0);
                        assert(first_field(sels) is None);
                    }
                },
                QueryDefinition::Other => {},
            }
        }
        proof {
            assert(defs.skip(n as int).len() == 0);
        }
        None
    }
}

#[verifier::external_type_specification]
#[verifier::external_body]
pub struct ExCstDefinition(apollo_parser::cst::Definition);

#[verifier::external_type_specification]
#[verifier::external_body]
pub struct ExCstSelection(apollo_parser::cst::Selection);

#[verifier::external_type_specification]
#[verifier::external_body]
pub struct ExCstArgument(apollo_parser::cst::Argument);

/// The document image a query text parses to: a function of the text
/// alone. Nothing further is assumed of it; the walk over the image is
/// verified against [`doc_result`].
pub uninterp spec fn parsed_doc_of(query: Seq<char>) -> Seq<QueryDefinitionView>;

/// Relies on apollo_parser's cst::OperationDefinition::selection_set and
/// cst::SelectionSet::selections: an operation definition yields its
/// selections; any other definition yields nothing.
#[verifier::external_body]
fn operation_selections(definition: &apollo_parser::cst::Definition) -> (r: Option<
    Vec<apollo_parser::cst::Selection>,
>) {
    match definition {
        apollo_parser::cst::Definition::OperationDefinition(op) => match op.selection_set() {
            Some(set) => Some(set.selections().collect()),
            None => None,
        },
        _ => None,
    }
}

/// Relies on apollo_parser's cst::Field::name and cst::Field::arguments:
/// a field selection yields its name and arguments; a nameless field or
/// another selection yields nothing.
#[verifier::external_body]
fn field_parts(selection: &apollo_parser::cst::Selection) -> (r: Option<
    (String, Vec<apollo_parser::cst::Argument>),
>) {
    match selection {
        apollo_parser::cst::Selection::Field(field) => {
            let name = field.name()?.text().to_string();
            let arguments = match field.arguments() {
                Some(args) => args.arguments().collect(),
                None => Vec::new(),
            };
            Some((name, arguments))
        },
        _ => None,
    }
}

/// Relies on apollo_parser's cst::Argument::name and
/// cst::Argument::value: an argument yields its name and its value — a
/// string literal's raw token text, a variable's name, or an opaque
/// marker for any other shape.
#[verifier::external_body]
fn argument_parts(argument: &apollo_parser::cst::Argument) -> (r: Option<(String, QueryArgValue)>) {
    let name = argument.name()?.text().to_string();
    let value = match argument.value() {
        Some(apollo_parser::cst::Value::StringValue(s)) => QueryArgValue::Text(
            s.syntax().text().to_string(),
        ),
        Some(apollo_parser::cst::Value::Variable(v)) => match v.name() {
            Some(n) => QueryArgValue::Variable(n.text().to_string()),
            None => QueryArgValue::Other,
        },
        _ => QueryArgValue::Other,
    };
    Some((name, value))
}

/// Builds the plain document image of parsed definitions; every step
/// reads the syntax tree through the accessors above.
fn collect_document(raw_definitions: Vec<apollo_parser::cst::Definition>) -> (r: QueryDoc) {
    let mut definitions: Vec<QueryDefinition> = Vec::new();
    let n = raw_definitions.len();
    for i in 0..n
        invariant
            n == raw_definitions@.len(),
    {
        let definition = match operation_selections(&raw_definitions[i]) {
            Some(raw_selections) => {
                let mut selections: Vec<QuerySelection> = Vec::new();
                let m = raw_selections.len();
                for j in 0..m
                    invariant
                        m == raw_selections@.len(),
                {
                    let selection = match field_parts(&raw_selections[j]) {
                        Some((name, raw_arguments)) => {
                            let mut arguments: Vec<QueryArgument> = Vec::new();
                            let p = raw_arguments.len();
                            for k in 0..p
                                invariant
                                    p == raw_arguments@.len(),
                            {
                                match argument_parts(&raw_arguments[k]) {
                                    Some((arg_name, value)) => {
                                        arguments.push(QueryArgument { name: arg_name, value });
                                    },
                                    None => {},
                                }
                            }
                            QuerySelection::Field { name, arguments }
                        },
                        None => QuerySelection::Other,
                    };
                    selections.push(selection);
                }
                QueryDefinition::Operation { selections }
            },
            None => QueryDefinition::Other,
        };
        definitions.push(definition);
    }
    QueryDoc { definitions }
}

/// Relies on apollo_parser::Parser::parse and the accessors above: the
/// parse is error-tolerant and a function of the query text alone, so
/// the document image built from its tree is one too, named
/// [`parsed_doc_of`]. What the image holds is pinned down no further;
/// the walk over it is verified.
#[verifier::external_body]
pub fn parse_query_document(query: &str) -> (r: QueryDoc)
    ensures
        r@ == parsed_doc_of(query@),
{
    let tree = apollo_parser::Parser::new(query).parse();
    collect_document(tree.document().definitions().collect())
}

impl SubscriptionOperation {
    /// Parses a query and reads the subscription operation out of it:
    /// exactly [`doc_result`] of the text's document image.
    pub fn from_query(query: &str, variables: &Option<ValueMap>) -> (r: Option<
        SubscriptionOperation,
    >)
        requires
            match variables {
                Some(vm) => vm.wf(),
                None => true,
            },
        ensures
            match r {
                Some(op) => op.arguments.wf() && doc_result(
                    parsed_doc_of(query@),
                    vars_of(variables),
                ) == Some((op.name@, op.arguments@)),
                None => doc_result(parsed_doc_of(query@), vars_of(variables)) is None,
            },
    {
        let doc = parse_query_document(query);
        SubscriptionOperation::from_document(&doc, variables)
    }
}

} // verus!
