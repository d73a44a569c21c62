use coop_kernel::singleton::Singleton;

#[test]
fn init_then_get() {
    let mut s: Singleton<u32> = Singleton::new();
    s.init(42);
    assert_eq!(*s.get(), 42);
}

#[test]
fn born_initialized() {
    let s = Singleton::new_with(7u64);
    assert_eq!(*s.get(), 7);
}

#[test]
fn get_mut_updates_in_place() {
    let mut s = Singleton::new_with(String::from("boot"));
    s.get_mut().push_str("ed");
    assert_eq!(s.get().as_str(), "booted");
}
