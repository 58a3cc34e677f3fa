use jackstay::acquisition::{AdmissionBook, AdmissionError, AdmissionLimits, AllocationId, HoldingRequest};

fn limits() -> AdmissionLimits {
    AdmissionLimits {
        resource_capacity: 8,
        retained_history: 2,
        producer_reserve: 1,
        allocated_bytes: 100,
        fixed_bytes: 10,
        memory_budget: 300,
        max_incarnations: 2,
    }
}

fn holding(frames: u32) -> HoldingRequest {
    HoldingRequest { frames, claim_bytes: 10 }
}

#[test]
fn holdings_are_promised_once() {
    let mut book = AdmissionBook::new(limits()).unwrap();
    assert_eq!(book.available_frames(), 5);
    let first = book.admit_consumer(holding(3)).unwrap();
    assert_eq!(first.frames(), 3);
    assert_eq!(
        book.admit_consumer(holding(3)).unwrap_err(),
        AdmissionError::InsufficientResources { requested: 3, available: 2 }
    );
    book.close(first.incarnation()).unwrap();
    assert_eq!(book.available_frames(), 2, "a closing incarnation keeps its credit");
    book.complete_cleanup(first.incarnation()).unwrap();
    assert_eq!(book.available_frames(), 5);
    let next = book.admit_consumer(holding(3)).unwrap();
    assert_ne!(next.incarnation(), first.incarnation());
}

#[test]
fn cleanup_needs_closure() {
    let mut book = AdmissionBook::new(limits()).unwrap();
    let one = book.admit_consumer(holding(1)).unwrap();
    assert_eq!(book.complete_cleanup(one.incarnation()), Err(AdmissionError::StillActive));
    book.close(one.incarnation()).unwrap();
    book.complete_cleanup(one.incarnation()).unwrap();
    assert_eq!(book.close(one.incarnation()), Err(AdmissionError::UnknownIncarnation));
}

#[test]
fn requests_and_limits_are_checked() {
    let mut book = AdmissionBook::new(limits()).unwrap();
    assert_eq!(book.admit_consumer(holding(0)).unwrap_err(), AdmissionError::InvalidRequest);
    book.admit_consumer(holding(1)).unwrap();
    book.admit_consumer(holding(1)).unwrap();
    assert_eq!(book.admit_consumer(holding(1)).unwrap_err(), AdmissionError::IncarnationCapacity);
    assert!(AdmissionBook::new(AdmissionLimits { producer_reserve: 0, ..limits() }).is_err());
    assert!(AdmissionBook::new(AdmissionLimits { memory_budget: 109, ..limits() }).is_err());
}

#[test]
fn memory_is_bounded() {
    let mut book = AdmissionBook::new(limits()).unwrap();
    let large = HoldingRequest { frames: 1, claim_bytes: 191 };
    assert_eq!(
        book.admit_consumer(large).unwrap_err(),
        AdmissionError::InsufficientMemory { requested: 191, available: 190 }
    );
    assert_eq!(
        AdmissionError::InsufficientMemory { requested: 191, available: 190 }.message(),
        "requested 191 allocation bytes, but only 190 remain"
    );
    assert_eq!(book.committed_bytes(), 110);
}

#[test]
fn replacements_are_charged_until_they_are_cleaned_up() {
    let mut book = AdmissionBook::new(limits()).unwrap();
    assert_eq!(book.current_allocation(), Some(AllocationId(1)));
    book.begin_reconfiguration(100).unwrap();
    assert_eq!(book.begin_reconfiguration(100), Err(AdmissionError::ReconfigurationPending));
    let id = book.reserve_reconfiguration().unwrap();
    assert_eq!(book.committed_bytes(), 210);
    assert!(book.install_reconfiguration(80).is_ok());
    assert_eq!(book.committed_bytes(), 190);
    assert_eq!(book.current_allocation(), Some(id));
    assert_eq!(book.complete_allocation_cleanup(id), Err(AdmissionError::AllocationInUse));
    book.complete_allocation_cleanup(AllocationId(1)).unwrap();
    assert_eq!(book.committed_bytes(), 90);
    assert_eq!(
        book.complete_allocation_cleanup(AllocationId(1)),
        Err(AdmissionError::UnknownAllocation)
    );
}
