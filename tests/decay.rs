use std::any::TypeId;

use nomicon::{Decable, Decay};

fn same_type<A: 'static, B: 'static>() -> bool {
    TypeId::of::<A>() == TypeId::of::<B>()
}

#[test]
fn decay_test() {
    println!("{}", same_type::<<Decable as Decay>::Output, Decable>());

    assert_eq!(same_type::<<Decable as Decay>::Output, Decable>(), true);
    assert_eq!(
        same_type::<<&'static Decable as Decay>::Output, Decable>(),
        true
    );
    assert_eq!(
        same_type::<<&'static mut Decable as Decay>::Output, Decable>(),
        true
    );
}
