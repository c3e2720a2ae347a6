//! Read-only marketplace queries.

use vstd::prelude::*;
use crate::market::msg::{QueryMsg, SalesResponse};
use crate::market::state::{Contract, SaleV};

verus! {

/// The views of a list of sales.
pub open spec fn sales_view(s: Seq<crate::market::state::Sale>) -> Seq<SaleV> {
    s.map_values(|x: crate::market::state::Sale| x@)
}

/// A decoded query answer; the adapter encodes it for the transport.
#[derive(Debug, PartialEq)]
pub enum QueryResponse {
    Sales(SalesResponse),
}

impl Contract {
    /// Answers a query.  Queries have no side effects.
    pub fn query(&self, msg: QueryMsg) -> (r: QueryResponse)
        requires
            self.wf(),
        ensures
            match msg {
                QueryMsg::Sales {} => r matches QueryResponse::Sales(s)
                    && sales_view(s.sales@) =~= self@.sales.map_values(
                        |p: (Seq<char>, SaleV)| p.1,
                    ),
            },
    {
        match msg {
            QueryMsg::Sales {} => QueryResponse::Sales(self.get_sales()),
        }
    }

    /// Every sale listing, ascending by token id.
    pub fn get_sales(&self) -> (r: SalesResponse)
        requires
            self.wf(),
        ensures
            sales_view(r.sales@) =~= self@.sales.map_values(|p: (Seq<char>, SaleV)| p.1),
    {
        let mut sales: Vec<crate::market::state::Sale> = Vec::new();
        let n = self.sales.len();
        let mut i: usize = 0;
        while i < n
            invariant
                i <= n,
                n == self@.sales.len(),
                sales@.len() == i,
                forall|j: int| 0 <= j < i ==> (#[trigger] sales@[j])@ == self@.sales[j].1,
            decreases n - i,
        {
            let s = self.sales.val_at(i);
            sales.push(s.clone());
            i = i + 1;
        }
        proof {
            assert(sales_view(sales@) =~= self@.sales.map_values(|p: (Seq<char>, SaleV)| p.1));
        }
        SalesResponse { sales }
    }
}

} // verus!
