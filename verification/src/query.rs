//! Read-only registry queries.
//!
//! Every paginated query follows one contract: `start_after` is an
//! exclusive lower bound on the token id, results come in ascending id
//! order, and `limit` caps how many are returned; without a limit, every
//! remaining match is returned.  `spec_page` states that contract once;
//! both token scans are proved against it.

use vstd::prelude::*;
use crate::lex::{lex_lt, lemma_lex_lt_irreflexive, str_cmp, KeyOrd};
use crate::store::{find_val, sorted_keys, lemma_find_exists};
use crate::state::{Contract, Token, TokenV, tokens_view};
use crate::msg::QueryMsg;
use crate::response::{ContractInfoResponse, NftInfoResponse, NumTokensResponse, OwnerOfResponse,
    TokensResponse};
use crate::error::ContractError;

verus! {

/// The view of an optional string argument.
pub open spec fn opt_view(o: Option<String>) -> Option<Seq<char>> {
    match o {
        Some(s) => Some(s@),
        None => None,
    }
}

/// How many entries a query may return: the given limit, or all of them.
pub open spec fn eff_limit(limit: Option<u128>, n: nat) -> nat {
    match limit {
        Some(l) => if l as nat > n {
            n
        } else {
            l as nat
        },
        None => n,
    }
}

/// Whether one table entry falls into the queried page.
pub open spec fn page_match(
    k: Seq<char>,
    t: TokenV,
    start_after: Option<Seq<char>>,
    by_owner: Option<Seq<char>>,
) -> bool {
    &&& match start_after {
        Some(s) => lex_lt(s, k),
        None => true,
    }
    &&& match by_owner {
        Some(o) => t.owner == o,
        None => true,
    }
}

/// The page a scan returns: the first `limit` entries, in table order,
/// whose id lies strictly above `start_after` and (for owner-scoped
/// queries) whose owner matches.
pub open spec fn spec_page(
    entries: Seq<(Seq<char>, TokenV)>,
    start_after: Option<Seq<char>>,
    by_owner: Option<Seq<char>>,
    limit: nat,
) -> Seq<TokenV>
    decreases entries.len(),
{
    if entries.len() == 0 || limit == 0 {
        Seq::empty()
    } else if page_match(entries[0].0, entries[0].1, start_after, by_owner) {
        seq![entries[0].1] + spec_page(entries.drop_first(), start_after, by_owner, (limit - 1) as nat)
    } else {
        spec_page(entries.drop_first(), start_after, by_owner, limit)
    }
}

/// A decoded query answer; the adapter encodes it for the transport.
#[derive(Debug, PartialEq)]
pub enum QueryResponse {
    ContractInfo(ContractInfoResponse),
    NftInfo(NftInfoResponse),
    NumTokens(NumTokensResponse),
    OwnerOf(OwnerOfResponse),
    Tokens(TokensResponse),
}

impl Contract {
    /// Answers a query.  Queries have no side effects.
    pub fn query(&self, msg: QueryMsg) -> (r: Result<QueryResponse, ContractError>)
        requires
            self.wf(),
        ensures
            match msg {
                QueryMsg::ContractInfo {} => r matches Ok(QueryResponse::ContractInfo(ci))
                    && ci@ == self@.contract_info,
                QueryMsg::NftInfo { token_id } => match find_val(self@.tokens, token_id@) {
                    Some(t) => r matches Ok(QueryResponse::NftInfo(n)) && (match &n.token_uri {
                        Some(u) => t.token_uri == Some(u@),
                        None => t.token_uri is None,
                    }),
                    None => r == Err::<QueryResponse, ContractError>(ContractError::NotFound {}),
                },
                QueryMsg::NumTokens {} => r matches Ok(QueryResponse::NumTokens(n)) && n.number
                    == self@.tokens.len(),
                QueryMsg::OwnerOf { token_id } => match find_val(self@.tokens, token_id@) {
                    Some(t) => r matches Ok(QueryResponse::OwnerOf(o)) && o.owner@ == t.owner,
                    None => r == Err::<QueryResponse, ContractError>(ContractError::NotFound {}),
                },
                QueryMsg::Tokens { owner, start_after, limit } => r matches Ok(
                    QueryResponse::Tokens(p),
                ) && tokens_view(p.tokens@) == spec_page(
                    self@.tokens,
                    opt_view(start_after),
                    Some(owner@),
                    eff_limit(limit, self@.tokens.len() as nat),
                ),
                QueryMsg::AllTokens { start_after, limit } => r matches Ok(
                    QueryResponse::Tokens(p),
                ) && tokens_view(p.tokens@) == spec_page(
                    self@.tokens,
                    opt_view(start_after),
                    None,
                    eff_limit(limit, self@.tokens.len() as nat),
                ),
            },
    {
        match msg {
            QueryMsg::ContractInfo {} => Ok(QueryResponse::ContractInfo(self.get_contract_info())),
            QueryMsg::NftInfo { token_id } => match self.get_nft_info(token_id) {
                Ok(n) => Ok(QueryResponse::NftInfo(n)),
                Err(e) => Err(e),
            },
            QueryMsg::NumTokens {} => Ok(QueryResponse::NumTokens(self.get_num_tokens())),
            QueryMsg::OwnerOf { token_id } => match self.get_owner_of_token(token_id) {
                Ok(o) => Ok(QueryResponse::OwnerOf(o)),
                Err(e) => Err(e),
            },
            QueryMsg::Tokens { owner, start_after, limit } => Ok(
                QueryResponse::Tokens(self.get_owner_tokens(owner, start_after, limit)),
            ),
            QueryMsg::AllTokens { start_after, limit } => Ok(
                QueryResponse::Tokens(self.get_all_tokens(start_after, limit)),
            ),
        }
    }

    /// The contract metadata.
    pub fn get_contract_info(&self) -> (r: ContractInfoResponse)
        ensures
            r@ == self@.contract_info,
    {
        self.contract_info.clone()
    }

    /// The metadata URI of a token.
    pub fn get_nft_info(&self, token_id: String) -> (r: Result<NftInfoResponse, ContractError>)
        requires
            self.wf(),
        ensures
            match find_val(self@.tokens, token_id@) {
                Some(t) => r matches Ok(n) && (match &n.token_uri {
                    Some(u) => t.token_uri == Some(u@),
                    None => t.token_uri is None,
                }),
                None => r == Err::<NftInfoResponse, ContractError>(ContractError::NotFound {}),
            },
    {
        match self.tokens.load(token_id.as_str()) {
            None => Err(ContractError::NotFound {}),
            Some(t) => Ok(
                NftInfoResponse {
                    token_uri: match &t.token_uri {
                        Some(u) => Some(u.clone()),
                        None => None,
                    },
                },
            ),
        }
    }

    /// How many tokens have been minted.
    pub fn get_num_tokens(&self) -> (r: NumTokensResponse)
        ensures
            r.number == self@.tokens.len(),
    {
        NumTokensResponse { number: self.tokens.len() as u128 }
    }

    /// The current owner of a token.
    pub fn get_owner_of_token(&self, token_id: String) -> (r: Result<
        OwnerOfResponse,
        ContractError,
    >)
        requires
            self.wf(),
        ensures
            match find_val(self@.tokens, token_id@) {
                Some(t) => r matches Ok(o) && o.owner@ == t.owner,
                None => r == Err::<OwnerOfResponse, ContractError>(ContractError::NotFound {}),
            },
    {
        match self.tokens.load(token_id.as_str()) {
            None => Err(ContractError::NotFound {}),
            Some(t) => Ok(OwnerOfResponse { owner: t.owner.clone() }),
        }
    }

    /// The tokens of one owner, ascending by id, above `start_after`,
    /// at most `limit` of them.
    pub fn get_owner_tokens(
        &self,
        owner: String,
        start_after: Option<String>,
        limit: Option<u128>,
    ) -> (r: TokensResponse)
        requires
            self.wf(),
        ensures
            tokens_view(r.tokens@) == spec_page(
                self@.tokens,
                opt_view(start_after),
                Some(owner@),
                eff_limit(limit, self@.tokens.len() as nat),
            ),
    {
        self.scan_tokens(start_after, Some(owner), limit)
    }

    /// Every token, ascending by id, above `start_after`, at most `limit`.
    pub fn get_all_tokens(&self, start_after: Option<String>, limit: Option<u128>) -> (r:
        TokensResponse)
        requires
            self.wf(),
        ensures
            tokens_view(r.tokens@) == spec_page(
                self@.tokens,
                opt_view(start_after),
                None,
                eff_limit(limit, self@.tokens.len() as nat),
            ),
    {
        self.scan_tokens(start_after, None, limit)
    }

    /// The shared scan behind both paginated queries.
    fn scan_tokens(
        &self,
        start_after: Option<String>,
        by_owner: Option<String>,
        limit: Option<u128>,
    ) -> (r: TokensResponse)
        requires
            self.wf(),
        ensures
            tokens_view(r.tokens@) == spec_page(
                self@.tokens,
                opt_view(start_after),
                opt_view(by_owner),
                eff_limit(limit, self@.tokens.len() as nat),
            ),
    {
        let ghost startv = opt_view(start_after);
        let ghost ownerv = opt_view(by_owner);
        let n = self.tokens.len();
        let lim: usize = match &limit {
            None => n,
            Some(l) => if *l > n as u128 {
                n
            } else {
                *l as usize
            },
        };
        proof {
            assert(lim as nat == eff_limit(limit, self@.tokens.len() as nat));
        }
        let mut out: Vec<Token> = Vec::new();
        let mut i: usize = 0;
        proof {
            assert(self@.tokens.skip(0) =~= self@.tokens);
            assert(tokens_view(out@) + spec_page(self@.tokens, startv, ownerv, lim as nat)
                =~= spec_page(self@.tokens, startv, ownerv, lim as nat));
        }
        while i < n && out.len() < lim
            invariant
                0 <= i <= n,
                out@.len() <= lim,
                tokens_view(out@) + spec_page(
                    self@.tokens.skip(i as int),
                    startv,
                    ownerv,
                    (lim - out@.len()) as nat,
                ) =~= spec_page(self@.tokens, startv, ownerv, lim as nat),
            decreases n - i,
        {
            let key = self.tokens.key_at(i);
            let tok = self.tokens.val_at(i);
            let sel_start = match &start_after {
                None => true,
                Some(s) => matches!(str_cmp(s.as_str(), key.as_str()), KeyOrd::Less),
            };
            let sel_owner = match &by_owner {
                None => true,
                Some(o) => crate::store::str_eq(tok.owner.as_str(), o.as_str()),
            };
            let ghost rest = self@.tokens.skip(i as int);
            proof {
                assert(rest[0] == self@.tokens[i as int]);
                assert(rest.drop_first() =~= self@.tokens.skip(i as int + 1));
            }
            if sel_start && sel_owner {
                proof {
                    assert(page_match(rest[0].0, rest[0].1, startv, ownerv));
                }
                let ghost pre_out = out@;
                out.push(tok.clone());
                proof {
                    assert(tokens_view(out@) =~= tokens_view(pre_out).push(
                        self@.tokens[i as int].1,
                    ));
                }
            } else {
                proof {
                    assert(!page_match(rest[0].0, rest[0].1, startv, ownerv));
                }
            }
            i = i + 1;
            proof {
                assert(tokens_view(out@) + spec_page(
                    self@.tokens.skip(i as int),
                    startv,
                    ownerv,
                    (lim - out@.len()) as nat,
                ) =~= spec_page(self@.tokens, startv, ownerv, lim as nat));
            }
        }
        proof {
            if i == n {
                assert(self@.tokens.skip(n as int).len() == 0);
            }
            assert(tokens_view(out@) =~= spec_page(self@.tokens, startv, ownerv, lim as nat));
        }
        TokensResponse { tokens: out }
    }
}

/// A page never exceeds its limit.
pub proof fn lemma_page_len(
    entries: Seq<(Seq<char>, TokenV)>,
    start_after: Option<Seq<char>>,
    by_owner: Option<Seq<char>>,
    limit: nat,
)
    ensures
        spec_page(entries, start_after, by_owner, limit).len() <= limit,
    decreases entries.len(),
{
    if entries.len() > 0 && limit > 0 {
        lemma_page_len(entries.drop_first(), start_after, by_owner, (limit - 1) as nat);
        lemma_page_len(entries.drop_first(), start_after, by_owner, limit);
    }
}

/// Soundness of a page: every returned token is live in the table under
/// its own id, lies strictly above the bound, matches an owner-scoped
/// query, and the page is strictly ascending by id.
pub proof fn lemma_page_sound(
    entries: Seq<(Seq<char>, TokenV)>,
    start_after: Option<Seq<char>>,
    by_owner: Option<Seq<char>>,
    limit: nat,
)
    requires
        sorted_keys(entries),
        forall|i: int| 0 <= i < entries.len() ==> (#[trigger] entries[i]).1.token_id
            == entries[i].0,
    ensures
        forall|x: int| 0 <= x < spec_page(entries, start_after, by_owner, limit).len()
            ==> find_val(
            entries,
            (#[trigger] spec_page(entries, start_after, by_owner, limit)[x]).token_id,
        ) == Some(spec_page(entries, start_after, by_owner, limit)[x]),
        forall|x: int| 0 <= x < spec_page(entries, start_after, by_owner, limit).len()
            ==> page_match(
            (#[trigger] spec_page(entries, start_after, by_owner, limit)[x]).token_id,
            spec_page(entries, start_after, by_owner, limit)[x],
            start_after,
            by_owner,
        ),
        forall|x: int, y: int|
            0 <= x < y < spec_page(entries, start_after, by_owner, limit).len() ==> lex_lt(
                spec_page(entries, start_after, by_owner, limit)[x].token_id,
                spec_page(entries, start_after, by_owner, limit)[y].token_id,
            ),
    decreases entries.len(),
{
    let page = spec_page(entries, start_after, by_owner, limit);
    if entries.len() > 0 && limit > 0 {
        let rest = entries.drop_first();
        assert(forall|i: int, j: int| 0 <= i < j < rest.len() ==> lex_lt(rest[i].0, rest[j].0));
        assert forall|i: int| 0 <= i < rest.len() implies (#[trigger] rest[i]).1.token_id
            == rest[i].0 by {
            assert(rest[i] == entries[i + 1]);
        }
        let head_match = page_match(entries[0].0, entries[0].1, start_after, by_owner);
        let sub = if head_match {
            spec_page(rest, start_after, by_owner, (limit - 1) as nat)
        } else {
            spec_page(rest, start_after, by_owner, limit)
        };
        if head_match {
            lemma_page_sound(rest, start_after, by_owner, (limit - 1) as nat);
        } else {
            lemma_page_sound(rest, start_after, by_owner, limit);
        }
        // every sub entry's id is a key of the suffix, hence above the head key,
        // and its lookup lifts from the suffix to the whole table
        assert forall|x: int| 0 <= x < sub.len() implies lex_lt(
            entries[0].0,
            (#[trigger] sub[x]).token_id,
        ) && find_val(entries, sub[x].token_id) == Some(sub[x]) by {
            assert(find_val(rest, sub[x].token_id) == Some(sub[x]));
            lemma_find_exists(rest, sub[x].token_id);
            let j = choose|j: int| 0 <= j < rest.len() && rest[j].0 == sub[x].token_id;
            assert(rest[j] == entries[j + 1]);
            assert(lex_lt(entries[0].0, sub[x].token_id));
            lemma_lex_lt_irreflexive(entries[0].0);
            assert(entries[0].0 != sub[x].token_id);
        }
        if head_match {
            assert(page[0] == entries[0].1);
            assert(page[0].token_id == entries[0].0);
            assert(forall|x: int| 0 < x < page.len() ==> page[x] == sub[x - 1]);
        } else {
            assert(page =~= sub);
        }
    }
}

/// An unbounded, unfiltered page is the whole table,/// An unbounded, unfiltered page is the whole table, every token exactly
/// once, in table order.
pub proof fn lemma_page_complete(entries: Seq<(Seq<char>, TokenV)>)
    ensures
        spec_page(entries, None, None, entries.len() as nat) =~= entries.map_values(
            |p: (Seq<char>, TokenV)| p.1,
        ),
    decreases entries.len(),
{
    if entries.len() > 0 {
        lemma_page_complete(entries.drop_first());
        assert(entries.drop_first().map_values(|p: (Seq<char>, TokenV)| p.1) =~= entries.map_values(
            |p: (Seq<char>, TokenV)| p.1,
        ).drop_first());
    }
}

} // verus!
