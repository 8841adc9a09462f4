use indexer1::builder::{BuildError, IndexerBuilder};
use indexer1::filter::Filter;
use indexer1::indexer::{Indexer, State};
use std::time::Duration;

fn complete() -> IndexerBuilder<&'static str, u8> {
    Indexer::builder()
        .http_rpc_url("http://localhost:8545".to_string())
        .ws_rpc_url("ws://localhost:8546".to_string())
        .fetch_interval(Duration::from_secs(10))
        .filter(Filter::new().from_block(100))
        .set_processor(7u8)
        .sqlite_storage("pool")
        .block_range_limit(20)
}

#[test]
fn complete_builder_gives_an_engine() {
    let assembly = complete().build().ok().unwrap();
    assert_eq!(assembly.http_rpc_url, "http://localhost:8545");
    assert_eq!(assembly.ws_rpc_url, Some("ws://localhost:8546".to_string()));
    assert_eq!(assembly.processor, 7);
    assert_eq!(assembly.storage, "pool");
    assert_eq!(assembly.indexer.state(), State::AwaitingChainId);
    assert_eq!(assembly.indexer.block_range_limit(), Some(20));
    assert_eq!(assembly.indexer.fetch_interval(), Duration::from_secs(10));
    assert_eq!(assembly.indexer.filter().get_from_block(), Some(100));
}

#[test]
fn endpoint_for_pushes_and_limit_are_optional() {
    let builder: IndexerBuilder<&str, u8> = IndexerBuilder::default()
        .http_rpc_url("http://localhost:8545".to_string())
        .fetch_interval(Duration::from_secs(10))
        .filter(Filter::new())
        .set_processor(1)
        .pg_storage("pool");
    let assembly = builder.build().ok().unwrap();
    assert_eq!(assembly.ws_rpc_url, None);
    assert_eq!(assembly.indexer.block_range_limit(), None);
}

#[test]
fn ws_rpc_url_opt_sets_and_clears() {
    assert_eq!(complete().ws_rpc_url_opt(None).ws_provider, None);
    assert_eq!(
        complete().ws_rpc_url_opt(Some("ws://other".to_string())).ws_provider,
        Some("ws://other".to_string())
    );
}

#[test]
fn empty_builder_misses_the_http_endpoint_first() {
    let builder: IndexerBuilder<&str, u8> = Indexer::builder();
    assert_eq!(builder.build().err(), Some(BuildError::HttpProviderMissing));
}

#[test]
fn missing_parts_are_named_in_order() {
    let mut builder = complete();
    builder.storage = None;
    assert_eq!(builder.build().err(), Some(BuildError::StorageMissing));

    let mut builder = complete();
    builder.storage = None;
    builder.poll_interval = None;
    assert_eq!(builder.build().err(), Some(BuildError::FetchIntervalMissing));

    let mut builder = complete();
    builder.poll_interval = None;
    builder.filter = None;
    assert_eq!(builder.build().err(), Some(BuildError::FilterMissing));

    let mut builder = complete();
    builder.filter = None;
    builder.processor = None;
    assert_eq!(builder.build().err(), Some(BuildError::ProcessorMissing));

    let mut builder = complete();
    builder.processor = None;
    builder.http_provider = None;
    assert_eq!(builder.build().err(), Some(BuildError::HttpProviderMissing));
}

#[test]
fn errors_name_the_missing_part() {
    assert_eq!(BuildError::HttpProviderMissing.message(), "Http porvider is missing");
    assert_eq!(BuildError::ProcessorMissing.message(), "Processor is missing");
    assert_eq!(BuildError::FilterMissing.message(), "Filter is missing");
    assert_eq!(BuildError::FetchIntervalMissing.message(), "Fetch interval is missing");
    assert_eq!(BuildError::StorageMissing.message(), "Storage is missing");
}
