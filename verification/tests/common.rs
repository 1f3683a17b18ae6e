use crust::common::{Context, Core, EventSet, Token};

#[test]
fn tokens_grow_by_one() {
    let mut core: Core<u8> = Core::new();
    assert_eq!(core.get_new_token(), Some(Token(0)));
    assert_eq!(core.get_new_token(), Some(Token(1)));
    assert_eq!(core.get_new_token(), Some(Token(2)));
    assert_eq!(core.get_new_context(), Some(Context(0)));
    assert_eq!(core.get_new_context(), Some(Context(1)));
}

#[test]
fn contexts_and_states_are_kept_and_given_back() {
    let mut core: Core<&str> = Core::new();
    let a = core.get_new_token().unwrap();
    let b = core.get_new_token().unwrap();
    assert_eq!(core.insert_context(a, Context(7)), None);
    assert_eq!(core.insert_context(b, Context(7)), None);
    assert_eq!(core.insert_context(a, Context(8)), Some(Context(7)));
    assert_eq!(core.insert_state(Context(7), "seven"), None);
    assert_eq!(core.insert_state(Context(7), "sept"), Some("seven"));
    assert_eq!(core.get_context(a), Some(Context(8)));
    assert_eq!(core.get_context(b), Some(Context(7)));
    assert_eq!(core.get_state(Context(7)), Some(&"sept"));
    assert_eq!(core.get_state(Context(8)), None);
    assert_eq!(core.remove_context(a), Some(Context(8)));
    assert_eq!(core.remove_context(a), None);
    assert_eq!(core.remove_state(Context(7)), Some("sept"));
    assert_eq!(core.remove_state(Context(7)), None);
    assert_eq!(core.get_context(b), Some(Context(7)));
}

#[test]
fn terminate_takes_token_and_state_together() {
    let mut core: Core<u32> = Core::new();
    let a = core.get_new_token().unwrap();
    let b = core.get_new_token().unwrap();
    let _ = core.insert_context(a, Context(0));
    let _ = core.insert_context(b, Context(1));
    let _ = core.insert_state(Context(0), 100);
    let _ = core.insert_state(Context(1), 200);
    assert_eq!(core.terminate(a), Some(100));
    assert_eq!(core.get_context(a), None);
    assert_eq!(core.get_state(Context(0)), None);
    assert_eq!(core.get_state(Context(1)), Some(&200));
    assert_eq!(core.terminate(a), None);
    // A token handed out after a termination is a new one.
    assert_eq!(core.get_new_token(), Some(Token(2)));
}

#[test]
fn interest_sets() {
    assert_eq!(
        EventSet::listening(),
        EventSet { readable: true, writable: false, error: true, hup: true }
    );
    assert_eq!(EventSet::interest(false), EventSet::listening());
    assert_eq!(
        EventSet::interest(true),
        EventSet { readable: true, writable: true, error: true, hup: true }
    );
}

#[test]
fn shutdown_empties_the_registry() {
    let mut core: Core<u8> = Core::new();
    let a = core.get_new_token().unwrap();
    let b = core.get_new_token().unwrap();
    let c = core.get_new_token().unwrap();
    let _ = core.insert_context(c, Context(0));
    let _ = core.insert_context(a, Context(1));
    let _ = core.insert_state(Context(0), 1);
    assert_eq!(core.tokens_left(), usize::MAX - 3);
    assert!(!core.next_token_is_last());
    assert!(!core.next_context_is_last());
    assert_eq!(core.shutdown(), vec![a, c]);
    assert_eq!(core.get_context(a), None);
    assert_eq!(core.get_state(Context(0)), None);
    assert_eq!(core.get_new_token(), Some(Token(3)));
    let _ = b;
}
