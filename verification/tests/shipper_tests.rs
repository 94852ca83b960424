use ariana::shipper::TraceShipper;
use ariana::wire::push_body;

#[test]
fn small_buffer_flushes_on_tick_and_drain() {
    let mut s = TraceShipper::new();
    assert!(s.on_trace(b"{\"n\":1}".to_vec()).is_none());
    assert!(s.on_trace(b"{\"n\":2}".to_vec()).is_none());
    let batch = s.on_tick().expect("tick with a non-empty buffer flushes");
    assert_eq!(batch, vec![b"{\"n\":1}".to_vec(), b"{\"n\":2}".to_vec()]);
    assert!(s.on_tick().is_none());
    assert!(s.drain().is_none());
}

#[test]
fn interrupt_drain_sends_pending_traces_in_one_push() {
    let mut s = TraceShipper::new();
    for i in 0..5u32 {
        let t = format!("{{\"n\":{}}}", i).into_bytes();
        assert!(s.on_trace(t).is_none());
    }
    let batch = s.drain().expect("five pending traces leave on drain");
    assert_eq!(batch.len(), 5);
    assert_eq!(batch[0], b"{\"n\":0}".to_vec());
    assert_eq!(batch[4], b"{\"n\":4}".to_vec());
}

#[test]
fn batch_size_trigger_cuts_at_fifty_thousand() {
    let mut s = TraceShipper::new();
    let mut flushed: Vec<Vec<Vec<u8>>> = Vec::new();
    for i in 0..50001u64 {
        let t = format!("{{\"n\":{}}}", i).into_bytes();
        if let Some(batch) = s.on_trace(t) {
            flushed.push(batch);
        }
    }
    assert_eq!(flushed.len(), 1, "exactly one push before the drain");
    assert_eq!(flushed[0].len(), 50000, "the first push holds exactly the limit");
    assert_eq!(flushed[0][0], b"{\"n\":0}".to_vec());
    assert_eq!(flushed[0][49999], b"{\"n\":49999}".to_vec());
    let rest = s.drain().expect("the remainder leaves on drain");
    assert_eq!(rest.len(), 1);
    assert_eq!(rest[0], b"{\"n\":50000}".to_vec());
    for batch in flushed.iter() {
        assert!(batch.len() <= 50000);
    }
}

#[test]
fn push_body_wraps_records_in_order() {
    let traces = vec![b"{\"a\":1}".to_vec(), b"{\"b\":2}".to_vec()];
    assert_eq!(push_body(&traces), b"{\"traces\":[{\"a\":1},{\"b\":2}]}".to_vec());
    let none: Vec<Vec<u8>> = Vec::new();
    assert_eq!(push_body(&none), b"{\"traces\":[]}".to_vec());
}
