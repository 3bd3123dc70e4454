use hiroz::reentrancy::{
    assert_no_guards_held, live_guards, LiveGuards, TrackedMutex, TrackedRwLock,
};

#[test]
fn guards_are_counted_and_released() {
    let mut guards = LiveGuards::new();
    let mut m = TrackedMutex::new(1u32);
    assert_eq!(live_guards(&guards), 0);
    {
        let g = m.lock(&mut guards).unwrap();
        assert_eq!(*g.get(), 1);
        assert_eq!(live_guards(&guards), 1);
        {
            let rw = TrackedRwLock::new(2u32);
            let r = rw.read(&mut guards).unwrap();
            assert_eq!(*r.get(), 2);
            assert_eq!(live_guards(&guards), 2);
            r.release(&mut guards).unwrap();
        }
        assert_eq!(live_guards(&guards), 1);
        g.release(&mut guards).unwrap();
    }
    assert_eq!(live_guards(&guards), 0);
}

#[test]
fn assert_passes_with_no_guards() {
    assert!(assert_no_guards_held(&LiveGuards::new(), "test").is_ok());
}

#[test]
fn assert_fires_while_a_guard_is_live() {
    let mut guards = LiveGuards::new();
    let mut m = TrackedMutex::new(0u32);
    let _g = m.lock(&mut guards).unwrap();
    let violation = assert_no_guards_held(&guards, "deliberate violation").unwrap_err();
    assert!(violation.message.contains("deliberate violation"));
    assert_eq!(
        violation.message,
        "hiroz re-entrancy rule violated at `deliberate violation`: about to invoke a user \
         callback with 1 lock guard(s) live on this thread. A callback \
         that re-enters hiroz will deadlock if it touches a lock this thread \
         holds. Fix: collect what you need into an owned value, drop every \
         guard, then invoke the callback."
    );
}

#[test]
fn underflow_is_not_silent() {
    let mut guards = LiveGuards::new();
    assert_eq!(live_guards(&guards), 0);
    let underflow = guards.release_one().unwrap_err();
    assert!(underflow.message.contains("GuardCount underflow"));
    assert_eq!(live_guards(&guards), 0);
}

#[test]
fn a_poisoned_guard_is_still_counted() {
    let mut guards = LiveGuards::new();
    let mut m = TrackedMutex {
        value: 0u32,
        poisoned: true,
    };
    let guard = m.lock(&mut guards);
    assert!(guard.is_err(), "expected the mutex to be poisoned");
    let recovered = guard.unwrap_or_else(|e| e.into_inner());
    assert_eq!(
        live_guards(&guards),
        1,
        "a recovered poisoned guard must count"
    );
    recovered.release(&mut guards).unwrap();
    assert_eq!(live_guards(&guards), 0);
}

#[test]
fn what_is_written_under_a_lock_stays() {
    let mut guards = LiveGuards::new();
    let mut rw = TrackedRwLock::new(2u32);
    let g = rw.write(&mut guards).unwrap();
    *g.inner = 5;
    g.release(&mut guards).unwrap();
    assert_eq!(rw.value, 5);
    rw.poisoned = true;
    assert!(rw.read(&mut guards).is_err());
    assert_eq!(live_guards(&guards), 1);
}
