use plugin_context::{Context, ContextError, IdAllocator, PluginIndex, START_REUSING_IDS};

#[test]
fn fresh_handles_count_up_from_zero() {
    let mut ctx: Context<String> = Context::new();
    for expected in 0..5 {
        assert_eq!(ctx.next_id(), Ok(expected));
    }
}

#[test]
fn reuse_starts_at_threshold_with_oldest_handle() {
    let mut ctx: Context<u32> = Context::new();
    for expected in 0..30 {
        assert_eq!(ctx.next_id(), Ok(expected));
    }
    for id in 0..25 {
        ctx.remove(id);
    }
    assert_eq!(ctx.next_id(), Ok(0));
}

#[test]
fn below_threshold_handles_are_fresh() {
    let mut ctx: Context<u32> = Context::new();
    for expected in 0..30 {
        assert_eq!(ctx.next_id(), Ok(expected));
    }
    for id in 0..24 {
        ctx.remove(id);
    }
    assert_eq!(ctx.next_id(), Ok(30));
    // the queue is still below the threshold, so the counter keeps growing
    assert_eq!(ctx.next_id(), Ok(31));
}

#[test]
fn exhausted_counter_with_empty_queue_fails() {
    let mut ctx: Context<u32> = Context::with_allocator(IdAllocator::starting_at(PluginIndex::MAX, START_REUSING_IDS));
    assert_eq!(ctx.next_id(), Err(ContextError::AllocationExhausted));
}

#[test]
fn exhaustion_persists_until_a_remove() {
    let mut ctx: Context<u32> = Context::with_allocator(IdAllocator::starting_at(PluginIndex::MAX - 1, START_REUSING_IDS));
    assert_eq!(ctx.next_id(), Ok(PluginIndex::MAX - 1));
    for _ in 0..3 {
        assert_eq!(ctx.next_id(), Err(ContextError::AllocationExhausted));
    }
    ctx.insert(PluginIndex::MAX - 1, 1);
    assert_eq!(ctx.next_id(), Err(ContextError::AllocationExhausted));
    ctx.remove(PluginIndex::MAX - 1);
    assert_eq!(ctx.next_id(), Ok(PluginIndex::MAX - 1));
    assert_eq!(ctx.next_id(), Err(ContextError::AllocationExhausted));
}

#[test]
fn exhausted_counter_reuses_below_threshold() {
    let mut ctx: Context<u32> = Context::with_allocator(IdAllocator::starting_at(PluginIndex::MAX - 2, START_REUSING_IDS));
    let a = ctx.next_id().unwrap();
    let b = ctx.next_id().unwrap();
    assert_eq!((a, b), (PluginIndex::MAX - 2, PluginIndex::MAX - 1));
    ctx.remove(b);
    ctx.remove(a);
    assert_eq!(ctx.next_id(), Ok(b));
    assert_eq!(ctx.next_id(), Ok(a));
    assert_eq!(ctx.next_id(), Err(ContextError::AllocationExhausted));
}

#[test]
fn insert_lookup_remove() {
    let mut ctx: Context<String> = Context::new();
    for expected in 0..6 {
        assert_eq!(ctx.next_id(), Ok(expected));
    }
    ctx.insert(5, String::from("five"));
    assert_eq!(ctx.plugin(5).map(|p| p.clone()), Some(String::from("five")));
    ctx.remove(5);
    assert!(ctx.plugin(5).is_none());
    // one released handle is below the threshold: 5 is not handed out again yet
    assert_eq!(ctx.next_id(), Ok(6));
}

#[test]
fn lookup_of_unknown_handle_is_absent() {
    let mut ctx: Context<u32> = Context::new();
    assert!(ctx.plugin(3).is_none());
    ctx.remove(3);
    assert!(ctx.plugin(3).is_none());
}

#[test]
fn lookup_gives_mutable_access() {
    let mut ctx: Context<u32> = Context::new();
    let id = ctx.next_id().unwrap();
    ctx.insert(id, 10);
    if let Some(p) = ctx.plugin(id) {
        *p += 5;
    }
    assert_eq!(ctx.plugin(id).copied(), Some(15));
}

#[test]
fn live_handles_are_distinct() {
    let mut ctx: Context<PluginIndex> = Context::with_allocator(IdAllocator::starting_at(0, 2));
    let mut live: Vec<PluginIndex> = Vec::new();
    for round in 0..40 {
        let id = ctx.next_id().unwrap();
        assert!(!live.contains(&id));
        ctx.insert(id, id);
        live.push(id);
        if round % 3 == 2 {
            let gone = live.remove(0);
            ctx.remove(gone);
            assert!(ctx.plugin(gone).is_none());
        }
    }
    for id in &live {
        assert_eq!(ctx.plugin(*id).copied(), Some(*id));
    }
}

#[test]
fn counter_never_decreases() {
    let mut ctx: Context<u32> = Context::with_allocator(IdAllocator::starting_at(0, 1));
    let mut highest: PluginIndex = -1;
    for round in 0..20 {
        let id = ctx.next_id().unwrap();
        if id > highest {
            assert_eq!(id, highest + 1);
            highest = id;
        }
        if round % 2 == 0 {
            ctx.remove(id);
        }
    }
    assert!(highest >= 0);
}

#[test]
fn reuse_is_first_in_first_out() {
    let mut ctx: Context<u32> = Context::with_allocator(IdAllocator::starting_at(0, 3));
    for expected in 0..6 {
        assert_eq!(ctx.next_id(), Ok(expected));
    }
    ctx.remove(4);
    ctx.remove(1);
    ctx.remove(3);
    assert_eq!(ctx.next_id(), Ok(4));
    assert_eq!(ctx.next_id(), Ok(6));
    ctx.remove(0);
    ctx.remove(2);
    assert_eq!(ctx.next_id(), Ok(1));
    assert_eq!(ctx.next_id(), Ok(3));
    // two handles left in the queue: below the threshold again
    assert_eq!(ctx.next_id(), Ok(7));
    ctx.remove(7);
    assert_eq!(ctx.next_id(), Ok(0));
    assert_eq!(ctx.next_id(), Ok(8));
}

#[test]
fn second_error_overwrites_first() {
    let mut ctx: Context<u32> = Context::new();
    assert_eq!(ctx.last_error(), &None);
    ctx.set_error(String::from("first failure"));
    ctx.set_error(String::from("second failure"));
    assert_eq!(ctx.last_error(), &Some(String::from("second failure")));
}

#[test]
fn error_returns_value_and_sets_slot() {
    let mut ctx: Context<u32> = Context::with_allocator(IdAllocator::starting_at(PluginIndex::MAX, START_REUSING_IDS));
    let handle = match ctx.next_id() {
        Ok(id) => id,
        Err(e) => ctx.error(e.message(), -1),
    };
    assert_eq!(handle, -1);
    assert_eq!(
        ctx.last_error(),
        &Some(String::from("All plugin descriptors are in use, unable to allocate a new plugin"))
    );
}

#[test]
fn exhaustion_message() {
    assert_eq!(
        ContextError::AllocationExhausted.message(),
        "All plugin descriptors are in use, unable to allocate a new plugin"
    );
}

#[test]
fn default_context_is_empty() {
    let mut ctx: Context<u32> = Context::default();
    assert_eq!(ctx.last_error(), &None);
    assert!(ctx.plugin(0).is_none());
    assert_eq!(ctx.next_id(), Ok(0));
}

#[test]
fn allocator_on_its_own() {
    let mut ids = IdAllocator::new();
    assert_eq!(ids.allocate(), Ok(0));
    assert_eq!(ids.allocate(), Ok(1));
    ids.release(0);
    assert_eq!(ids.allocate(), Ok(2));
    let mut eager = IdAllocator::starting_at(7, 0);
    assert_eq!(eager.allocate(), Ok(7));
    eager.release(7);
    assert_eq!(eager.allocate(), Ok(7));
    assert_eq!(eager.allocate(), Ok(8));
}
