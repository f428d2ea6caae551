//! Open disputes.

use vstd::prelude::*;
use crate::shared::ClientID;
use crate::shared::TransactionID;
use crate::transaction::Transaction;

verus! {

/// Marks a transaction as under dispute, with the client that disputed it.
#[derive(Debug, Clone, Copy, PartialEq, Eq, Structural)]
pub struct Dispute {
    pub client_id: ClientID,
    pub tx_id: TransactionID,
}

impl Dispute {
    /// The marker for the transaction that a dispute record names.
    pub fn from(tx: Transaction) -> (r: Dispute)
        ensures
            r == (Dispute { client_id: tx.client_id, tx_id: tx.tx_id }),
    {
        Dispute { client_id: tx.client_id, tx_id: tx.tx_id }
    }
}

} // verus!
