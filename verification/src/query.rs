//! Database queries: their text and their parameters.

use vstd::prelude::*;

verus! {

/// A parameter of a query.
#[derive(Debug)]
pub enum SqlParam {
    Text(String),
    Integer(i64),
}

/// What a [`SqlParam`] stands for.
#[verifier::ext_equal]
pub enum SqlParamView {
    Text(Seq<char>),
    Integer(i64),
}

impl DeepView for SqlParam {
    type V = SqlParamView;

    open spec fn deep_view(&self) -> SqlParamView {
        match self {
            SqlParam::Text(inner) => SqlParamView::Text(inner@),
            SqlParam::Integer(inner) => SqlParamView::Integer(*inner),
        }
    }
}

/// A query, whose parameters are numbered from 1.
#[derive(Debug)]
pub struct Query {
    pub sql: String,
    pub params: Vec<SqlParam>,
}

/// What a [`Query`] stands for.
#[verifier::ext_equal]
pub struct QueryView {
    pub sql: Seq<char>,
    pub params: Seq<SqlParamView>,
}

impl DeepView for Query {
    type V = QueryView;

    open spec fn deep_view(&self) -> QueryView {
        QueryView {
            sql: self.sql@,
            params: self.params.deep_view(),
        }
    }
}

/// Appends a text parameter.
pub fn push_text(params: &mut Vec<SqlParam>, text: &str)
    ensures
        final(params).deep_view() == old(params).deep_view().push(SqlParamView::Text(text@)),
{
    let ghost before = params.deep_view();
    params.push(SqlParam::Text(text.to_owned()));
    assert(params.deep_view() =~= before.push(SqlParamView::Text(text@)));
}

/// Appends an integer parameter.
pub fn push_integer(params: &mut Vec<SqlParam>, n: i64)
    ensures
        final(params).deep_view() == old(params).deep_view().push(SqlParamView::Integer(n)),
{
    let ghost before = params.deep_view();
    params.push(SqlParam::Integer(n));
    assert(params.deep_view() =~= before.push(SqlParamView::Integer(n)));
}

} // verus!
