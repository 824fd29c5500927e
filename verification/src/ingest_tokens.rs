//! Ingest tokens: found in memory or in the database, or else provisioned.

use vstd::prelude::*;
use vstd::string::*;

use crate::json::{push_text_field, Value, ValueView};

verus! {

/// Where tokens are provisioned.
#[derive(Debug)]
pub struct TokenSource {
    pub platform_api_url: String,
    pub platform_api_key: String,
}

/// What a [`TokenSource`] stands for.
#[verifier::ext_equal]
pub struct TokenSourceView {
    pub platform_api_url: Seq<char>,
    pub platform_api_key: Seq<char>,
}

impl DeepView for TokenSource {
    type V = TokenSourceView;

    open spec fn deep_view(&self) -> TokenSourceView {
        TokenSourceView {
            platform_api_url: self.platform_api_url@,
            platform_api_key: self.platform_api_key@,
        }
    }
}

/// A request for a token.
#[derive(Debug)]
pub struct ProvisionRequest {
    pub url: String,
    /// The `Authorization` header.
    pub authorization: String,
    pub body: Value,
}

/// What a [`ProvisionRequest`] stands for.
#[verifier::ext_equal]
pub struct ProvisionRequestView {
    pub url: Seq<char>,
    pub authorization: Seq<char>,
    pub body: crate::json::ValueView,
}

impl DeepView for ProvisionRequest {
    type V = ProvisionRequestView;

    open spec fn deep_view(&self) -> ProvisionRequestView {
        ProvisionRequestView {
            url: self.url@,
            authorization: self.authorization@,
            body: self.body.deep_view(),
        }
    }
}

/// What to do next.
#[derive(Debug)]
pub enum TokenStep {
    /// Look for the token in memory.
    LookInCache,
    /// Look for the token in the database.
    LookInDatabase,
    /// Ask for a token.
    Provision(ProvisionRequest),
    /// Keep the token in memory, and in the database too if `in_database` says so.
    Keep { token: String, in_database: bool },
    /// The token, if there is one.
    Done(Option<String>),
}

/// What a [`TokenStep`] stands for.
#[verifier::ext_equal]
pub enum TokenStepView {
    LookInCache,
    LookInDatabase,
    Provision(ProvisionRequestView),
    Keep { token: Seq<char>, in_database: bool },
    Done(Option<Seq<char>>),
}

impl DeepView for TokenStep {
    type V = TokenStepView;

    open spec fn deep_view(&self) -> TokenStepView {
        match self {
            TokenStep::LookInCache => TokenStepView::LookInCache,
            TokenStep::LookInDatabase => TokenStepView::LookInDatabase,
            TokenStep::Provision(inner) => TokenStepView::Provision(inner.deep_view()),
            TokenStep::Keep { token, in_database } => TokenStepView::Keep { token: token@, in_database: *in_database },
            TokenStep::Done(inner) => TokenStepView::Done(inner.deep_view()),
        }
    }
}

/// What the search for a token is waiting for.
#[derive(Debug)]
pub enum TokenStage {
    Cached,
    Stored,
    Provisioned,
    Kept(String),
    Over,
}

/// What a [`TokenStage`] stands for.
#[verifier::ext_equal]
pub enum TokenStageView {
    Cached,
    Stored,
    Provisioned,
    Kept(Seq<char>),
    Over,
}

impl DeepView for TokenStage {
    type V = TokenStageView;

    open spec fn deep_view(&self) -> TokenStageView {
        match self {
            TokenStage::Cached => TokenStageView::Cached,
            TokenStage::Stored => TokenStageView::Stored,
            TokenStage::Provisioned => TokenStageView::Provisioned,
            TokenStage::Kept(inner) => TokenStageView::Kept(inner@),
            TokenStage::Over => TokenStageView::Over,
        }
    }
}

/// The search for the token of a tenant.
#[derive(Debug)]
pub struct TokenSearch {
    pub tenant_id: String,
    pub source: TokenSource,
    pub stage: TokenStage,
}

/// What a [`TokenSearch`] stands for.
#[verifier::ext_equal]
pub struct TokenSearchView {
    pub tenant_id: Seq<char>,
    pub source: TokenSourceView,
    pub stage: TokenStageView,
}

impl DeepView for TokenSearch {
    type V = TokenSearchView;

    open spec fn deep_view(&self) -> TokenSearchView {
        TokenSearchView {
            tenant_id: self.tenant_id@,
            source: self.source.deep_view(),
            stage: self.stage.deep_view(),
        }
    }
}

/// The request for a token of a tenant.
pub open spec fn provision_request(tenant_id: Seq<char>, source: TokenSourceView) -> ProvisionRequestView {
    ProvisionRequestView {
        url: source.platform_api_url + "/internal/ingest-tokens"@,
        authorization: "Bearer "@ + source.platform_api_key,
        body: ValueView::Object(
            Map::<Seq<char>, ValueView>::empty().insert(
                "key_prefix"@,
                ValueView::String(tenant_id),
            ),
        ),
    }
}

/// Whether tokens can be provisioned.
pub open spec fn is_configured(source: TokenSourceView) -> bool {
    source.platform_api_key.len() > 0 && source.platform_api_url.len() > 0
}

/// How the search goes on, given the token that the step before has found.
pub open spec fn next(search: TokenSearchView, found: Option<Seq<char>>) -> (
    TokenStageView,
    TokenStepView,
) {
    match (search.stage, found) {
        (TokenStageView::Cached, Some(token)) => (
            TokenStageView::Over,
            TokenStepView::Done(Some(token)),
        ),
        (TokenStageView::Cached, None) => (TokenStageView::Stored, TokenStepView::LookInDatabase),
        (TokenStageView::Stored, Some(token)) => (
            TokenStageView::Kept(token),
            TokenStepView::Keep { token, in_database: false },
        ),
        (TokenStageView::Stored, None) => if is_configured(search.source) {
            (
                TokenStageView::Provisioned,
                TokenStepView::Provision(provision_request(search.tenant_id, search.source)),
            )
        } else {
            (TokenStageView::Over, TokenStepView::Done(None))
        },
        (TokenStageView::Provisioned, Some(token)) => (
            TokenStageView::Kept(token),
            TokenStepView::Keep { token, in_database: true },
        ),
        (TokenStageView::Provisioned, None) => (TokenStageView::Over, TokenStepView::Done(None)),
        (TokenStageView::Kept(token), _) => (
            TokenStageView::Over,
            TokenStepView::Done(Some(token)),
        ),
        (TokenStageView::Over, _) => (TokenStageView::Over, TokenStepView::Done(None)),
    }
}

/// Begins to search for the token of a tenant: in memory, then in the database; where there is
/// none it is provisioned.
pub fn get_or_create(tenant_id: &str, source: TokenSource) -> (started: (TokenSearch, TokenStep))
    ensures
        started.0.deep_view() == (TokenSearchView {
            tenant_id: tenant_id@,
            source: source.deep_view(),
            stage: TokenStageView::Cached,
        }),
        started.1.deep_view() == TokenStepView::LookInCache,
{
    let search = TokenSearch {
        tenant_id: tenant_id.to_owned(),
        source,
        stage: TokenStage::Cached,
    };
    (search, TokenStep::LookInCache)
}

/// The request for a token of a tenant.
fn build_request(tenant_id: &str, source: &TokenSource) -> (request: ProvisionRequest)
    ensures
        request.deep_view() == provision_request(tenant_id@, source.deep_view()),
{
    let mut fields: Vec<(String, Value)> = Vec::new();
    push_text_field(&mut fields, "key_prefix", tenant_id);
    ProvisionRequest {
        url: source.platform_api_url.clone().concat("/internal/ingest-tokens"),
        authorization: "Bearer ".to_owned().concat(source.platform_api_key.as_str()),
        body: Value::Object(fields),
    }
}

impl TokenSearch {
    /// Goes on, given the token that the step before has found; what is found by keeping a token
    /// does not matter.
    pub fn resume(&mut self, found: Option<String>) -> (step: TokenStep)
        ensures
            final(self).tenant_id == old(self).tenant_id,
            final(self).source == old(self).source,
            (final(self).stage.deep_view(), step.deep_view()) == next(
                old(self).deep_view(),
                found.deep_view(),
            ),
    {
        let mut stage = TokenStage::Over;
        std::mem::swap(&mut stage, &mut self.stage);
        match (stage, found) {
            (TokenStage::Cached, Some(token)) => TokenStep::Done(Some(token)),
            (TokenStage::Cached, None) => {
                self.stage = TokenStage::Stored;
                TokenStep::LookInDatabase
            },
            (TokenStage::Stored, Some(token)) => {
                self.stage = TokenStage::Kept(token.clone());
                TokenStep::Keep { token, in_database: false }
            },
            (TokenStage::Stored, None) => {
                if self.source.platform_api_key.as_str().is_empty()
                    || self.source.platform_api_url.as_str().is_empty() {
                    TokenStep::Done(None)
                } else {
                    self.stage = TokenStage::Provisioned;
                    TokenStep::Provision(build_request(self.tenant_id.as_str(), &self.source))
                }
            },
            (TokenStage::Provisioned, Some(token)) => {
                self.stage = TokenStage::Kept(token.clone());
                TokenStep::Keep { token, in_database: true }
            },
            (TokenStage::Provisioned, None) => TokenStep::Done(None),
            (TokenStage::Kept(token), _) => TokenStep::Done(Some(token)),
            (TokenStage::Over, _) => TokenStep::Done(None),
        }
    }
}

/// The token that is found, given what memory, the database and the provider have.
pub open spec fn search_result(
    source: TokenSourceView,
    cached: Option<Seq<char>>,
    stored: Option<Seq<char>>,
    provisioned: Option<Seq<char>>,
) -> Option<Seq<char>> {
    if cached is Some {
        cached
    } else if stored is Some {
        stored
    } else if is_configured(source) {
        provisioned
    } else {
        None
    }
}

/// How the search ends from a stage on, given what memory, the database and the provider have.
pub open spec fn outcome(
    search: TokenSearchView,
    cached: Option<Seq<char>>,
    stored: Option<Seq<char>>,
    provisioned: Option<Seq<char>>,
    steps: nat,
) -> Option<Option<Seq<char>>>
    decreases steps,
{
    let found = match search.stage {
        TokenStageView::Cached => cached,
        TokenStageView::Stored => stored,
        TokenStageView::Provisioned => provisioned,
        _ => None,
    };
    let (stage, step) = next(search, found);
    match step {
        TokenStepView::Done(token) => Some(token),
        _ => if steps == 0 {
            None
        } else {
            outcome(
                TokenSearchView { stage, ..search },
                cached,
                stored,
                provisioned,
                (steps - 1) as nat,
            )
        },
    }
}

/// A search ends after at most four replies. It finds the token in memory, else the one in the
/// database, else the one that is provisioned; it finds none only where none can be provisioned or
/// provisioning fails.
pub proof fn law_searches_end(
    tenant_id: Seq<char>,
    source: TokenSourceView,
    cached: Option<Seq<char>>,
    stored: Option<Seq<char>>,
    provisioned: Option<Seq<char>>,
)
    ensures
        outcome(
            (TokenSearchView { tenant_id, source, stage: TokenStageView::Cached }),
            cached,
            stored,
            provisioned,
            3,
        ) == Some(search_result(source, cached, stored, provisioned)),
{
    reveal_with_fuel(outcome, 5);
}

} // verus!
