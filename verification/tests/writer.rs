use recall::events::{Event, EventPayload, EventSource};
use recall::writer::{temporal_edges, BatchWriter, WriterConfig, WriterInput};

fn ev(id: &str) -> Event {
    Event::from_parts(
        id.to_string(),
        1,
        EventSource::Clipboard,
        EventPayload::ClipboardText { content: id.to_string(), is_truncated: false, content_hash: id.to_string() },
    )
}

fn ids(v: &[Event]) -> Vec<String> {
    v.iter().map(|e| e.id.clone()).collect()
}

#[test]
fn default_writer_config() {
    let c = WriterConfig::default();
    assert_eq!((c.batch_size, c.flush_interval_ms, c.max_queue_size), (50, 200, 10_000));
}

#[test]
fn batches_flush_when_full_tick_or_close() {
    let cfg = WriterConfig { batch_size: 2, flush_interval_ms: 200, max_queue_size: 10 };
    let mut w = BatchWriter::new(&cfg);
    assert!(w.on_input(WriterInput::Tick).flush.is_none());
    assert!(w.on_input(WriterInput::Received(ev("a"))).flush.is_none());
    let s = w.on_input(WriterInput::Received(ev("b")));
    assert_eq!(ids(&s.flush.unwrap()), vec!["a", "b"]);
    assert!(!s.stop);
    assert!(w.on_input(WriterInput::Received(ev("c"))).flush.is_none());
    let t = w.on_input(WriterInput::Tick);
    assert_eq!(ids(&t.flush.unwrap()), vec!["c"]);
    assert!(w.on_input(WriterInput::Received(ev("d"))).flush.is_none());
    let c = w.on_input(WriterInput::Closed);
    assert!(c.stop);
    assert_eq!(ids(&c.flush.unwrap()), vec!["d"]);
    let c2 = w.on_input(WriterInput::Closed);
    assert!(c2.stop && c2.flush.is_none());
}

#[test]
fn zero_batch_size_writes_each_event() {
    let cfg = WriterConfig { batch_size: 0, flush_interval_ms: 1, max_queue_size: 1 };
    let mut w = BatchWriter::new(&cfg);
    assert_eq!(ids(&w.on_input(WriterInput::Received(ev("x"))).flush.unwrap()), vec!["x"]);
}

#[test]
fn temporal_edges_chain_the_batch() {
    let batch = vec![ev("1"), ev("2"), ev("3")];
    let edges = temporal_edges(&batch);
    assert_eq!(edges.len(), 2);
    assert_eq!((edges[0].from_id.as_str(), edges[0].to_id.as_str()), ("1", "2"));
    assert_eq!((edges[1].from_id.as_str(), edges[1].to_id.as_str()), ("2", "3"));
    assert!(edges.iter().all(|e| e.relation_type == "temporal_next"));
    assert!(temporal_edges(&[]).is_empty());
    assert!(temporal_edges(&[ev("z")]).is_empty());
}
