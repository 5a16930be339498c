use netsim::grpc_client::{ClientResponseReadable, ClientResponseReader, GrpcMethod};
use std::cell::RefCell;
use std::rc::Rc;

struct Collect {
    seen: Rc<RefCell<Vec<u8>>>,
}

impl ClientResponseReadable for Collect {
    fn handle_chunk(&self, chunk: &[u8]) {
        self.seen.borrow_mut().extend_from_slice(chunk);
    }
}

#[test]
fn test_reader_passes_chunks_to_handler() {
    let seen = Rc::new(RefCell::new(Vec::new()));
    let reader = ClientResponseReader { handler: Box::new(Collect { seen: seen.clone() }) };
    reader.handle_chunk(&[1, 2]);
    reader.handle_chunk(&[3]);
    assert_eq!(*seen.borrow(), vec![1, 2, 3]);
}

#[test]
fn test_grpc_methods_are_distinct() {
    assert_ne!(GrpcMethod::ListCapture, GrpcMethod::GetCapture);
    assert_eq!(GrpcMethod::Reset, GrpcMethod::Reset);
}
