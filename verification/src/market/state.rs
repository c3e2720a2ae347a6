//! Marketplace state: the sale table with its owner index, and the
//! lazy-mint table.

use vstd::prelude::*;
use crate::types::{Addr, Coin, CoinV};
use crate::store::{Table, PairList, KeyList, IdxPair, sorted_keys, find_val, has_key};

verus! {

/// The view of an escrowed sale listing.
#[verifier::ext_equal]
pub struct SaleV {
    pub token_id: Seq<char>,
    pub owner: Seq<char>,
    pub contract: Seq<char>,
    pub price: CoinV,
}

/// An escrowed listing: the token named by `token_id` is held by the
/// marketplace; `owner` is the original lister entitled to the proceeds,
/// `contract` the registry holding the token, `price` the asked amount.
#[derive(Debug, PartialEq)]
pub struct Sale {
    pub token_id: String,
    pub owner: Addr,
    pub contract: Addr,
    pub price: Coin,
}

impl View for Sale {
    type V = SaleV;

    open spec fn view(&self) -> SaleV {
        SaleV {
            token_id: self.token_id@,
            owner: self.owner@,
            contract: self.contract@,
            price: self.price@,
        }
    }
}

impl Clone for Sale {
    fn clone(&self) -> (r: Self)
        ensures
            r@ == self@,
    {
        Sale {
            token_id: self.token_id.clone(),
            owner: self.owner.clone(),
            contract: self.contract.clone(),
            price: self.price.clone(),
        }
    }
}

/// The view of a lazy-mint promise.
#[verifier::ext_equal]
pub struct LazyNftV {
    pub token_id: Seq<char>,
    pub contract: Seq<char>,
}

/// A promise that `token_id`, when purchased, will be minted fresh on
/// `contract`.  No underlying token exists yet.
#[derive(Debug, PartialEq)]
pub struct LazyNft {
    pub token_id: String,
    pub contract: Addr,
}

impl View for LazyNft {
    type V = LazyNftV;

    open spec fn view(&self) -> LazyNftV {
        LazyNftV { token_id: self.token_id@, contract: self.contract@ }
    }
}

impl Clone for LazyNft {
    fn clone(&self) -> (r: Self)
        ensures
            r@ == self@,
    {
        LazyNft { token_id: self.token_id.clone(), contract: self.contract.clone() }
    }
}

/// The sale table's secondary index: one (owner, token id) pair per sale.
pub struct SaleIndex {
    pub owner: PairList,
}

/// The lazy table's uniqueness index: every listed token id, at most once.
/// The insert-if-absent of a lazy listing is decided on this index.
pub struct LazyNftIndex {
    pub owner: KeyList,
}

/// The view of the whole marketplace state.
#[verifier::ext_equal]
pub struct MarketV {
    pub owner: Seq<char>,
    pub sales: Seq<(Seq<char>, SaleV)>,
    pub sale_index: Seq<IdxPair>,
    pub lazy_sales: Seq<(Seq<char>, LazyNftV)>,
    pub lazy_index: Seq<Seq<char>>,
}

/// Whether the index pair `p` points at a live sale with that owner.
pub open spec fn sale_live(sales: Seq<(Seq<char>, SaleV)>, p: IdxPair) -> bool {
    match find_val(sales, p.1) {
        Some(s) => s.owner == p.0,
        None => false,
    }
}

/// Well-formedness of the marketplace state: tables sorted, each entry
/// recording its own key, and the owner index exactly mirroring the sale
/// table — no entry points at a missing or re-owned sale.
pub open spec fn wf_market(c: MarketV) -> bool {
    &&& sorted_keys(c.sales)
    &&& forall|i: int| 0 <= i < c.sales.len() ==> (#[trigger] c.sales[i]).1.token_id == c.sales[i].0
    &&& sorted_keys(c.lazy_sales)
    &&& forall|i: int| 0 <= i < c.lazy_sales.len()
        ==> (#[trigger] c.lazy_sales[i]).1.token_id == c.lazy_sales[i].0
    &&& c.lazy_index.no_duplicates()
    &&& forall|i: int| 0 <= i < c.lazy_index.len() ==> has_key(
        c.lazy_sales,
        #[trigger] c.lazy_index[i],
    )
    &&& forall|i: int| 0 <= i < c.lazy_sales.len() ==> c.lazy_index.contains(
        (#[trigger] c.lazy_sales[i]).0,
    )
    &&& c.sale_index.no_duplicates()
    &&& forall|i: int| 0 <= i < c.sale_index.len() ==> sale_live(c.sales, #[trigger] c.sale_index[i])
    &&& forall|i: int| 0 <= i < c.sales.len()
        ==> c.sale_index.contains(((#[trigger] c.sales[i]).1.owner, c.sales[i].0))
}

/// The marketplace: administrative owner, sale escrow and lazy promises.
pub struct Contract {
    pub owner: Addr,
    pub sales: Table<Sale>,
    pub sale_index: SaleIndex,
    pub lazy_sales: Table<LazyNft>,
    pub lazy_index: LazyNftIndex,
}

impl View for Contract {
    type V = MarketV;

    open spec fn view(&self) -> MarketV {
        MarketV {
            owner: self.owner@,
            sales: self.sales@,
            sale_index: self.sale_index.owner@,
            lazy_sales: self.lazy_sales@,
            lazy_index: self.lazy_index.owner@,
        }
    }
}

impl Contract {
    pub open spec fn wf(&self) -> bool {
        wf_market(self@)
    }
}

} // verus!
