//! Query analysis: parse the preprocessed SQL text and derive the ordered
//! field list of the query's projection.
//!
//! Parsing itself is done by the `sqlparser` crate under its PostgreSQL
//! dialect and is trusted; everything after the parse — taking the first
//! statement, the projection walk and the assignment of column indices —
//! is verified.  The outcome of the parse is a function of the text alone,
//! so it is named by uninterpreted spec functions, which makes the whole
//! analysis a function of the input text: re-running it on the same text
//! yields the same field list.

use vstd::prelude::*;

use crate::preprocess::preprocess;
use crate::preprocess::preprocessed;
use sqlparser::ast::SelectItem;
use sqlparser::ast::SetExpr;
use sqlparser::ast::Statement;
use sqlparser::dialect::PostgreSqlDialect;
use sqlparser::parser::Parser;
use sqlparser::parser::ParserError;

verus! {

#[verifier::external_type_specification]
#[verifier::external_body]
pub struct ExSelectItem(SelectItem);

#[verifier::external_type_specification]
#[verifier::external_body]
pub struct ExParserError(ParserError);

#[verifier::external_type_specification]
#[verifier::external_body]
pub struct ExStatement(Statement);

/// The shape of the first parsed statement, as far as the analysis reads it:
/// a plain `SELECT` with its projection items, a query whose body is not a
/// plain `SELECT` (a set operation such as `UNION`), or a statement that is
/// not a query at all.
pub enum QueryShape {
    Select(Vec<SelectItem>),
    OtherQueryBody,
    NotQuery,
}

/// Spec-level counterpart of `QueryShape`.
pub enum QueryShapeV {
    Select(Seq<SelectItem>),
    OtherQueryBody,
    NotQuery,
}

impl View for QueryShape {
    type V = QueryShapeV;

    open spec fn view(&self) -> QueryShapeV {
        match self {
            QueryShape::Select(items) => QueryShapeV::Select(items@),
            QueryShape::OtherQueryBody => QueryShapeV::OtherQueryBody,
            QueryShape::NotQuery => QueryShapeV::NotQuery,
        }
    }
}

/// How one projection item names its destination field: an unaliased
/// expression contributes its own rendered text, an aliased expression
/// contributes the alias identifier, and every other item kind (wildcards
/// and the like) contributes no name.
pub enum ItemName {
    Plain(Vec<u8>),
    Aliased(Vec<u8>),
    Unnamed,
}

/// Spec-level counterpart of `ItemName`.
pub enum ItemNameV {
    Plain(Seq<u8>),
    Aliased(Seq<u8>),
    Unnamed,
}

impl View for ItemName {
    type V = ItemNameV;

    open spec fn view(&self) -> ItemNameV {
        match self {
            ItemName::Plain(t) => ItemNameV::Plain(t@),
            ItemName::Aliased(a) => ItemNameV::Aliased(a@),
            ItemName::Unnamed => ItemNameV::Unnamed,
        }
    }
}

/// What parsing a text yields: `None` when the text is not valid SQL under
/// the dialect, otherwise its statement sequence.  Parsing is deterministic,
/// a function of the text alone.
pub uninterp spec fn parsed_statements(sql: Seq<u8>) -> Option<Seq<Statement>>;

/// The shape of one statement, a function of the statement alone.
pub uninterp spec fn statement_shape(stmt: Statement) -> QueryShapeV;

/// The name a projection item contributes, a function of the item alone.
pub uninterp spec fn item_name_of(item: SelectItem) -> ItemNameV;

/// Relies on `sqlparser::parser::Parser::parse_sql` with `PostgreSqlDialect`:
/// it parses the text into its statement sequence as a pure function of the
/// text, and errs exactly on text it cannot parse.  Text that is not UTF-8
/// cannot be tokenized and is reported the same way.
#[verifier::external_body]
fn parse_statements(sql: &Vec<u8>) -> (r: Result<Vec<Statement>, ParserError>)
    ensures
        r is Ok <==> parsed_statements(sql@) is Some,
        r matches Ok(stmts) ==> parsed_statements(sql@) == Some(stmts@),
{
    let text = match core::str::from_utf8(sql) {
        Ok(t) => t,
        Err(e) => return Err(ParserError::TokenizerError(e.to_string())),
    };
    Parser::parse_sql(&PostgreSqlDialect {}, text)
}

/// Relies on the shape of `sqlparser::ast::Statement` and
/// `sqlparser::ast::SetExpr`: a statement is a query or not, a query body
/// is a plain `SELECT` or a set operation, and a `SELECT`'s `projection`
/// field is its declared projection list in declared order.  Only variants
/// are told apart; the projection items are handed through untouched.
#[verifier::external_body]
fn shape_of_statement(stmt: Statement) -> (r: QueryShape)
    ensures
        r@ == statement_shape(stmt),
{
    match stmt {
        Statement::Query(q) => match *q.body {
            SetExpr::Select(sel) => QueryShape::Select(sel.projection),
            _ => QueryShape::OtherQueryBody,
        },
        _ => QueryShape::NotQuery,
    }
}

/// Relies on the `Display` renderings of `sqlparser::ast::Expr` and
/// `sqlparser::ast::Ident`: an unaliased item is rendered as its expression
/// text and an aliased item contributes its alias identifier; both depend on
/// the item value alone.
#[verifier::external_body]
fn read_item_name(item: &SelectItem) -> (r: ItemName)
    ensures
        r@ == item_name_of(*item),
{
    match item {
        SelectItem::UnnamedExpr(e) => ItemName::Plain(e.to_string().into_bytes()),
        SelectItem::ExprWithAlias { expr: _, alias } => ItemName::Aliased(
            alias.to_string().into_bytes(),
        ),
        _ => ItemName::Unnamed,
    }
}

/// One entry of the field list: the destination field name and the zero-based
/// position of its column in the query's projection.
#[derive(Debug)]
pub struct ProjectionField {
    pub name: Vec<u8>,
    pub column_index: usize,
}

/// Spec-level counterpart of `ProjectionField`.
pub struct ProjectionFieldV {
    pub name: Seq<u8>,
    pub column_index: int,
}

impl View for ProjectionField {
    type V = ProjectionFieldV;

    open spec fn view(&self) -> ProjectionFieldV {
        ProjectionFieldV { name: self.name@, column_index: self.column_index as int }
    }
}

/// The view of a whole field list.
pub open spec fn fields_view(v: Seq<ProjectionField>) -> Seq<ProjectionFieldV> {
    Seq::new(v.len(), |i: int| v[i]@)
}

/// The field name an item contributes: its rendered text when unaliased, the
/// alias when aliased, and the empty name for every other item kind.
pub open spec fn name_of(label: ItemNameV) -> Seq<u8> {
    match label {
        ItemNameV::Plain(t) => t,
        ItemNameV::Aliased(a) => a,
        ItemNameV::Unnamed => Seq::empty(),
    }
}

/// The field list of a projection: one entry per item, in declared order,
/// with sequential column indices starting at 0.
pub open spec fn fields_of_select(items: Seq<SelectItem>) -> Seq<ProjectionFieldV> {
    Seq::new(items.len(), |i: int| ProjectionFieldV {
        name: name_of(item_name_of(items[i])),
        column_index: i,
    })
}

/// The field list of a statement shape: empty unless the statement is a
/// plain `SELECT`.
pub open spec fn fields_of_shape(shape: QueryShapeV) -> Seq<ProjectionFieldV> {
    match shape {
        QueryShapeV::Select(items) => fields_of_select(items),
        QueryShapeV::OtherQueryBody => Seq::empty(),
        QueryShapeV::NotQuery => Seq::empty(),
    }
}

/// The outcome of the whole analysis of a raw SQL text: `None` exactly when
/// the preprocessed text does not parse or parses to no statement at all,
/// otherwise the field list derived from the first statement.
pub open spec fn field_list_of(sql: Seq<u8>) -> Option<Seq<ProjectionFieldV>> {
    match parsed_statements(preprocessed(sql)) {
        Some(stmts) => if stmts.len() > 0 {
            Some(fields_of_shape(statement_shape(stmts[0])))
        } else {
            None
        },
        None => None,
    }
}

/// The error of the analysis.
#[derive(Debug)]
pub enum AnalyzeError {
    /// The preprocessed text was not parseable under the dialect.
    Unparseable(ParserError),
    /// The text parsed, but to no statement at all.
    NoStatement,
}

/// Derive the field list from the projection items of a plain `SELECT`:
/// walk the items in declared order and give each the next column index,
/// starting at 0.
fn derive_fields(items: &Vec<SelectItem>) -> (r: Vec<ProjectionField>)
    ensures
        fields_view(r@) == fields_of_select(items@),
{
    let mut out: Vec<ProjectionField> = Vec::new();
    let mut i: usize = 0;
    while i < items.len()
        invariant
            i <= items@.len(),
            out@.len() == i,
            fields_view(out@) == fields_of_select(items@).subrange(0, i as int),
        decreases items@.len() - i,
    {
        let label = read_item_name(&items[i]);
        let name: Vec<u8> = match label {
            ItemName::Plain(t) => t,
            ItemName::Aliased(a) => a,
            ItemName::Unnamed => Vec::new(),
        };
        proof {
            assert(name@ == name_of(item_name_of(items@[i as int])));
        }
        out.push(ProjectionField { name, column_index: i });
        proof {
            assert(fields_view(out@) =~= fields_of_select(items@).subrange(0, i + 1 as int));
        }
        i = i + 1;
    }
    proof {
        assert(fields_of_select(items@).subrange(0, items@.len() as int) =~= fields_of_select(
            items@,
        ));
    }
    out
}

/// Analyze a raw SQL text: preprocess it, parse it, and derive the ordered
/// field list of the first statement's projection.  Errs exactly when the
/// preprocessed text does not parse under the dialect; a non-query statement
/// or a set-operation query yields the empty field list.
pub fn analyze_sql(sql: &Vec<u8>) -> (r: Result<Vec<ProjectionField>, AnalyzeError>)
    ensures
        r is Ok <==> field_list_of(sql@) is Some,
        r matches Ok(fields) ==> field_list_of(sql@) == Some(fields_view(fields@)),
        r matches Err(AnalyzeError::NoStatement) <==> (parsed_statements(preprocessed(sql@))
            matches Some(stmts) && stmts.len() == 0),
        r matches Err(AnalyzeError::Unparseable(_)) <==> parsed_statements(
            preprocessed(sql@),
        ) is None,
{
    let pre = preprocess(sql);
    let mut stmts = match parse_statements(&pre) {
        Ok(v) => v,
        Err(e) => {
            return Err(AnalyzeError::Unparseable(e));
        },
    };
    if stmts.len() == 0 {
        return Err(AnalyzeError::NoStatement);
    }
    let first = stmts.remove(0);
    match shape_of_statement(first) {
        QueryShape::Select(items) => Ok(derive_fields(&items)),
        QueryShape::OtherQueryBody => {
            proof {
                assert(fields_view(Seq::<ProjectionField>::empty()) =~= Seq::<
                    ProjectionFieldV,
                >::empty());
            }
            Ok(Vec::new())
        }
        QueryShape::NotQuery => {
            proof {
                assert(fields_view(Seq::<ProjectionField>::empty()) =~= Seq::<
                    ProjectionFieldV,
                >::empty());
            }
            Ok(Vec::new())
        }
    }
}

/// A trailing `LIMIT`/`OFFSET` clause is removed by preprocessing before
/// the text reaches the parser, so the analysis — and with it the derived
/// field list — is the same with and without the clause.
pub proof fn lemma_trailing_clause_irrelevant(sql: Seq<u8>, c: Seq<u8>)
    requires
        crate::preprocess::clause_len_at(c, 0) == c.len(),
        c.len() > 0,
    ensures
        preprocessed(sql + c) == preprocessed(sql),
        field_list_of(sql + c) == field_list_of(sql),
{
    crate::preprocess::lemma_elide_trailing_clause(sql, c);
}

/// The analysis has no hidden state: the field list is a function of the
/// SQL text alone, so two runs on the same text agree, outcome for outcome.
pub proof fn lemma_analysis_repeatable(
    sql: Seq<u8>,
    a: Option<Seq<ProjectionFieldV>>,
    b: Option<Seq<ProjectionFieldV>>,
)
    requires
        a == field_list_of(sql),
        b == field_list_of(sql),
    ensures
        a == b,
{
}

} // verus!
