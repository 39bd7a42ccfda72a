//! Process-wide configuration, read-only after construction.

use vstd::prelude::*;

verus! {

/// The simulation's configuration. Every field is strictly positive.
#[derive(Clone, Copy, Debug)]
pub struct ChainMetaData {
    pub node_count: usize,
    pub client_count: usize,
    pub tx_gen_slot: usize,
    pub block_gen_slot: usize,
    pub block_gen_period: usize,
    pub block_tx_pickup_period: usize,
    pub block_size: usize,
    pub block_difficulty: usize,
}

impl Default for ChainMetaData {
    /// The stock configuration.
    fn default() -> (r: Self)
        ensures
            r.node_count == 1,
            r.client_count == 5,
            r.tx_gen_slot == 200,
            r.block_gen_slot == 2000,
            r.block_gen_period == 500,
            r.block_tx_pickup_period == 400,
            r.block_size == 20,
            r.block_difficulty == 2,
    {
        ChainMetaData {
            node_count: 1,
            client_count: 5,
            tx_gen_slot: 200,
            block_gen_slot: 2000,
            block_gen_period: 500,
            block_tx_pickup_period: 400,
            block_size: 20,
            block_difficulty: 2,
        }
    }
}

impl ChainMetaData {
    /// A configuration with every knob chosen by the caller.
    pub fn new(
        node_count: usize,
        client_count: usize,
        tx_gen_slot: usize,
        block_gen_slot: usize,
        block_gen_period: usize,
        block_tx_pickup_period: usize,
        block_size: usize,
        block_difficulty: usize,
    ) -> (r: Self)
        requires
            node_count > 0,
            client_count > 0,
            tx_gen_slot > 0,
            block_gen_slot > 0,
            block_gen_period > 0,
            block_tx_pickup_period > 0,
            block_size > 0,
            block_difficulty > 0,
        ensures
            r.node_count == node_count,
            r.client_count == client_count,
            r.tx_gen_slot == tx_gen_slot,
            r.block_gen_slot == block_gen_slot,
            r.block_gen_period == block_gen_period,
            r.block_tx_pickup_period == block_tx_pickup_period,
            r.block_size == block_size,
            r.block_difficulty == block_difficulty,
    {
        ChainMetaData {
            node_count,
            client_count,
            tx_gen_slot,
            block_gen_slot,
            block_gen_period,
            block_tx_pickup_period,
            block_size,
            block_difficulty,
        }
    }

    pub fn get_node_count(&self) -> (r: Result<usize, String>)
        ensures
            r == Ok::<usize, String>(self.node_count),
    {
        Ok(self.node_count)
    }

    pub fn get_client_count(&self) -> (r: Result<usize, String>)
        ensures
            r == Ok::<usize, String>(self.client_count),
    {
        Ok(self.client_count)
    }

    pub fn get_tx_gen_slot(&self) -> (r: Result<usize, String>)
        ensures
            r == Ok::<usize, String>(self.tx_gen_slot),
    {
        Ok(self.tx_gen_slot)
    }

    pub fn get_block_gen_slot(&self) -> (r: Result<usize, String>)
        ensures
            r == Ok::<usize, String>(self.block_gen_slot),
    {
        Ok(self.block_gen_slot)
    }

    pub fn get_block_gen_period(&self) -> (r: Result<usize, String>)
        ensures
            r == Ok::<usize, String>(self.block_gen_period),
    {
        Ok(self.block_gen_period)
    }

    pub fn get_block_tx_pickup_period(&self) -> (r: Result<usize, String>)
        ensures
            r == Ok::<usize, String>(self.block_tx_pickup_period),
    {
        Ok(self.block_tx_pickup_period)
    }

    pub fn get_block_size(&self) -> (r: Result<usize, String>)
        ensures
            r == Ok::<usize, String>(self.block_size),
    {
        Ok(self.block_size)
    }

    pub fn get_block_difficulty(&self) -> (r: Result<usize, String>)
        ensures
            r == Ok::<usize, String>(self.block_difficulty),
    {
        Ok(self.block_difficulty)
    }
}

} // verus!
