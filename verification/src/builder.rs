//! Putting an engine together from its parts.
use vstd::prelude::*;
use std::time::Duration;
use crate::filter::Filter;
use crate::indexer::{Indexer, Model, State};

verus! {

/// The part that was not given to the builder.
#[derive(Clone, Copy, Debug, PartialEq, Eq, Structural)]
pub enum BuildError {
    HttpProviderMissing,
    ProcessorMissing,
    FilterMissing,
    FetchIntervalMissing,
    StorageMissing,
}

impl BuildError {
    /// The error in words.
    pub fn message(&self) -> (text: &'static str)
        ensures
            text@ == match *self {
                BuildError::HttpProviderMissing => "Http porvider is missing"@,
                BuildError::ProcessorMissing => "Processor is missing"@,
                BuildError::FilterMissing => "Filter is missing"@,
                BuildError::FetchIntervalMissing => "Fetch interval is missing"@,
                BuildError::StorageMissing => "Storage is missing"@,
            },
    {
        match self {
            BuildError::HttpProviderMissing => "Http porvider is missing",
            BuildError::ProcessorMissing => "Processor is missing",
            BuildError::FilterMissing => "Filter is missing",
            BuildError::FetchIntervalMissing => "Fetch interval is missing",
            BuildError::StorageMissing => "Storage is missing",
        }
    }
}

/// Collects the parts of an engine: the endpoints of the chain, the filter,
/// the period of the timer, the limit on the blocks of one tick, the storage
/// and the processor.
pub struct IndexerBuilder<S, P> {
    pub http_provider: Option<String>,
    pub ws_provider: Option<String>,
    pub poll_interval: Option<Duration>,
    pub filter: Option<Filter>,
    pub processor: Option<P>,
    pub storage: Option<S>,
    pub block_range_limit: Option<u64>,
}

/// An engine with what the program around it needs to run it.
pub struct Assembly<S, P> {
    pub http_rpc_url: String,
    pub ws_rpc_url: Option<String>,
    pub processor: P,
    pub storage: S,
    pub indexer: Indexer,
}

impl<S, P> Default for IndexerBuilder<S, P> {
    /// A builder that has been given nothing yet.
    fn default() -> (builder: Self)
        ensures
            builder.http_provider is None,
            builder.ws_provider is None,
            builder.poll_interval is None,
            builder.filter is None,
            builder.processor is None,
            builder.storage is None,
            builder.block_range_limit is None,
    {
        IndexerBuilder {
            http_provider: None,
            ws_provider: None,
            poll_interval: None,
            filter: None,
            processor: None,
            storage: None,
            block_range_limit: None,
        }
    }
}

impl<S, P> IndexerBuilder<S, P> {
    /// Sets the storage, a pool of PostgreSQL connections.
    pub fn pg_storage(self, pool: S) -> (builder: Self)
        ensures
            builder == (IndexerBuilder { storage: Some(pool), ..self }),
    {
        IndexerBuilder { storage: Some(pool), ..self }
    }

    /// Sets the storage, a pool of SQLite connections.
    pub fn sqlite_storage(self, pool: S) -> (builder: Self)
        ensures
            builder == (IndexerBuilder { storage: Some(pool), ..self }),
    {
        IndexerBuilder { storage: Some(pool), ..self }
    }

    /// Sets the HTTP endpoint of the chain.
    pub fn http_rpc_url(self, url: String) -> (builder: Self)
        ensures
            builder == (IndexerBuilder { http_provider: Some(url), ..self }),
    {
        IndexerBuilder { http_provider: Some(url), ..self }
    }

    /// Sets the filter.
    pub fn filter(self, filter_data: Filter) -> (builder: Self)
        ensures
            builder == (IndexerBuilder { filter: Some(filter_data), ..self }),
    {
        IndexerBuilder { filter: Some(filter_data), ..self }
    }

    /// Sets the processor.
    pub fn set_processor(self, function: P) -> (builder: Self)
        ensures
            builder == (IndexerBuilder { processor: Some(function), ..self }),
    {
        IndexerBuilder { processor: Some(function), ..self }
    }

    /// Sets the most blocks that one tick may reach beyond its first.
    pub fn block_range_limit(self, limit: u64) -> (builder: Self)
        ensures
            builder == (IndexerBuilder { block_range_limit: Some(limit), ..self }),
    {
        IndexerBuilder { block_range_limit: Some(limit), ..self }
    }

    /// Sets the WebSocket endpoint of the chain, from which pushes come.
    pub fn ws_rpc_url(self, url: String) -> (builder: Self)
        ensures
            builder == (IndexerBuilder { ws_provider: Some(url), ..self }),
    {
        IndexerBuilder { ws_provider: Some(url), ..self }
    }

    /// Sets or clears the WebSocket endpoint of the chain.
    pub fn ws_rpc_url_opt(self, url: Option<String>) -> (builder: Self)
        ensures
            builder == (IndexerBuilder { ws_provider: url, ..self }),
    {
        IndexerBuilder { ws_provider: url, ..self }
    }

    /// Sets the period of the timer.
    pub fn fetch_interval(self, interval: Duration) -> (builder: Self)
        ensures
            builder == (IndexerBuilder { poll_interval: Some(interval), ..self }),
    {
        IndexerBuilder { poll_interval: Some(interval), ..self }
    }

    /// The part whose absence `build` reports: the first that is missing
    /// among the HTTP endpoint, the processor, the filter, the period of the
    /// timer and the storage, in this order.
    pub open spec fn first_missing(self) -> Option<BuildError> {
        if self.http_provider is None {
            Some(BuildError::HttpProviderMissing)
        } else if self.processor is None {
            Some(BuildError::ProcessorMissing)
        } else if self.filter is None {
            Some(BuildError::FilterMissing)
        } else if self.poll_interval is None {
            Some(BuildError::FetchIntervalMissing)
        } else if self.storage is None {
            Some(BuildError::StorageMissing)
        } else {
            None
        }
    }

    /// Puts the engine together. Every part but the WebSocket endpoint and
    /// the limit is required; where one is missing the error names it. The
    /// engine that comes out waits for the chain id.
    pub fn build(self) -> (built: Result<Assembly<S, P>, BuildError>)
        ensures
            match built {
                Ok(assembly) => {
                    &&& self.first_missing() is None
                    &&& Some(assembly.http_rpc_url) == self.http_provider
                    &&& assembly.ws_rpc_url == self.ws_provider
                    &&& Some(assembly.processor) == self.processor
                    &&& Some(assembly.storage) == self.storage
                    &&& Some(assembly.indexer.spec_filter()) == self.filter
                    &&& Some(assembly.indexer.spec_fetch_interval()) == self.poll_interval
                    &&& assembly.indexer.model() == (Model {
                        state: State::AwaitingChainId,
                        chain_id: 0,
                        last_observed_block: 0,
                        fresh: false,
                        limit: self.block_range_limit,
                    })
                },
                Err(error) => self.first_missing() == Some(error),
            },
    {
        let http_rpc_url = match self.http_provider {
            Some(url) => url,
            None => {
                return Err(BuildError::HttpProviderMissing);
            },
        };
        let processor = match self.processor {
            Some(processor) => processor,
            None => {
                return Err(BuildError::ProcessorMissing);
            },
        };
        let filter = match self.filter {
            Some(filter) => filter,
            None => {
                return Err(BuildError::FilterMissing);
            },
        };
        let fetch_interval = match self.poll_interval {
            Some(interval) => interval,
            None => {
                return Err(BuildError::FetchIntervalMissing);
            },
        };
        let storage = match self.storage {
            Some(storage) => storage,
            None => {
                return Err(BuildError::StorageMissing);
            },
        };
        Ok(
            Assembly {
                http_rpc_url,
                ws_rpc_url: self.ws_provider,
                processor,
                storage,
                indexer: Indexer::new(filter, fetch_interval, self.block_range_limit),
            },
        )
    }
}

} // verus!
