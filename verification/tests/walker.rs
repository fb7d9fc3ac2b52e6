use comment_harvester::walker::{BatchRequest, Walker};

fn offsets_of(batch_size: u32, total: u32) -> (Vec<u32>, Vec<u64>) {
    let mut walker = Walker::new(batch_size, total);
    let mut offsets = Vec::new();
    let mut progress = Vec::new();
    while let Some(request) = walker.current() {
        assert_eq!(request.limit, batch_size);
        offsets.push(request.offset);
        progress.push(walker.advance());
        assert!(offsets.len() < 1000);
    }
    assert!(walker.is_finished());
    (offsets, progress)
}

fn visit(catalog: &[u32], batch_size: u32) -> Vec<u32> {
    let mut walker = Walker::new(batch_size, catalog.len() as u32);
    let mut seen = Vec::new();
    while let Some(BatchRequest { offset, limit }) = walker.current() {
        let from = (offset as usize).min(catalog.len());
        let to = (offset as usize + limit as usize).min(catalog.len());
        seen.extend_from_slice(&catalog[from..to]);
        walker.advance();
    }
    seen
}

#[test]
fn walker_starts_at_the_beginning() {
    let walker = Walker::new(10, 35);
    assert!(!walker.is_finished());
    assert_eq!(walker.current(), Some(BatchRequest { offset: 0, limit: 10 }));
}

#[test]
fn walker_asks_for_every_offset_up_to_the_total() {
    assert_eq!(offsets_of(10, 35), (vec![0, 10, 20, 30], vec![10, 20, 30, 40]));
}

#[test]
fn walker_asks_once_more_when_the_total_is_a_multiple() {
    assert_eq!(offsets_of(10, 30), (vec![0, 10, 20, 30], vec![10, 20, 30, 40]));
}

#[test]
fn walker_needs_one_batch_for_a_small_catalog() {
    assert_eq!(offsets_of(10, 1), (vec![0], vec![10]));
    assert_eq!(offsets_of(10, 9), (vec![0], vec![10]));
}

#[test]
fn walker_asks_once_of_an_empty_catalog() {
    assert_eq!(offsets_of(10, 0), (vec![0], vec![10]));
}

#[test]
fn walker_does_not_overflow_at_the_limits() {
    let (offsets, progress) = offsets_of(u32::MAX, u32::MAX);
    assert_eq!(offsets, vec![0, u32::MAX]);
    assert_eq!(progress, vec![4294967295, 8589934590]);
    assert_eq!(offsets_of(1 << 31, u32::MAX), (vec![0, 1 << 31], vec![1 << 31, 1 << 32]));
}

#[test]
fn walker_with_an_empty_batch_never_moves() {
    let mut walker = Walker::new(0, 5);
    for _ in 0..3 {
        assert_eq!(walker.current(), Some(BatchRequest { offset: 0, limit: 0 }));
        assert_eq!(walker.advance(), 0);
        assert!(!walker.is_finished());
    }
}

#[test]
fn walker_stays_finished() {
    let mut walker = Walker::new(4, 3);
    assert_eq!(walker.advance(), 4);
    assert!(walker.is_finished());
    assert_eq!(walker.current(), None);
    assert_eq!(walker.advance(), 4);
    assert!(walker.is_finished());
    assert_eq!(walker.current(), None);
}

#[test]
fn walker_visits_every_item_once_when_the_batch_divides_the_total() {
    let catalog: Vec<u32> = (100..130).collect();
    assert_eq!(visit(&catalog, 10), catalog);
    assert_eq!(visit(&catalog, 1), catalog);
    assert_eq!(visit(&catalog, 30), catalog);
}

#[test]
fn walker_visits_every_item_once_with_a_last_partial_batch() {
    let catalog: Vec<u32> = (100..125).collect();
    assert_eq!(visit(&catalog, 10), catalog);
    assert_eq!(visit(&catalog, 7), catalog);
    assert_eq!(visit(&catalog, 100), catalog);
}
