use std::collections::hash_map::DefaultHasher;
use std::hash::{Hash, Hasher};
use std::ops::Deref;
use std::sync::{Arc, RwLock, RwLockWriteGuard};

use bound::Bound;

struct MockStore(&'static str);
impl Drop for MockStore {
    fn drop(&mut self) {
        println!("Store {} dropped", self.0);
        self.0 = "FAIL";
    }
}
struct MockLock<'a>(&'a MockStore);
impl Drop for MockLock<'_> {
    fn drop(&mut self) {
        println!("Lock for {} dropped", self.0 .0)
    }
}
impl Deref for MockLock<'_> {
    type Target = str;
    fn deref(&self) -> &Self::Target {
        self.0 .0
    }
}

fn mk_store() -> MockStore {
    MockStore("flag")
}

fn mk_lock() -> Bound<MockLock<'static>, MockStore> {
    Bound::new(mk_store(), |s| MockLock(s))
}

#[test]
fn test_functionality() {
    println!("-- testing basic functionality --");
    let bound = mk_lock();
    assert_eq!(bound.wrapped().0 .0, "flag");
    assert_eq!(bound.deref(), "flag");
}

fn get_writer() -> Bound<RwLockWriteGuard<'static, usize>, Arc<RwLock<usize>>> {
    let shared_data = Arc::new(RwLock::new(1));
    Bound::new(shared_data.clone(), |a| a.write().unwrap())
}

#[test]
fn test_rwlock() {
    println!("-- testing returning RwLockWriteGuard referencing Arc<RwLock> --");
    let mut writer = get_writer();
    *writer = 2;
}

struct MockLock2<'a>(&'a MockStore);
impl Drop for MockLock2<'_> {
    fn drop(&mut self) {
        println!("Lock2 for {} dropped", self.0 .0)
    }
}

#[test]
fn test_map() {
    println!("-- testing mapping one type of lock into another --");
    let first = mk_lock();
    let second = first.map(|MockLock(store)| MockLock2(store));
    println!("The first lock should be gcd now");
    assert_eq!(second.wrapped().0 .0, "flag");
}

struct Derived<'a>(&'a [usize]);

#[test]
fn bound_slice_of_vec() {
    let data = vec![1, 2, 3];
    let bound = Bound::new(data, |d| Derived(d.as_slice()));
    assert_eq!(bound.wrapped().0, &[1, 2, 3]);
}

#[test]
fn new_may_mutate_source_before_borrowing() {
    let bound = Bound::new(vec![1u8, 2], |v| {
        v.push(3);
        &v[..]
    });
    assert_eq!(*bound.wrapped(), &[1u8, 2, 3][..]);
}

#[test]
fn writes_through_deref_mut_reach_the_shared_source() {
    let shared = Arc::new(RwLock::new(1usize));
    {
        let mut writer = Bound::try_new(shared.clone(), |a| a.write()).expect("Failed to lock");
        *writer = 2;
        assert_eq!(*writer.deref(), 2);
    }
    // The guard was dropped with the bound, so the lock is free again.
    assert_eq!(*shared.read().unwrap(), 2);
}

#[test]
fn try_new_ok_binds_the_value() {
    let res: Result<Bound<&usize, Vec<usize>>, Bound<&'static str, Vec<usize>>> =
        Bound::try_new(vec![4, 5, 6], |v| v.get(1).ok_or("missing"));
    match res {
        Ok(b) => assert_eq!(**b.wrapped(), 5),
        Err(_) => panic!("expected Ok"),
    }
}

#[test]
fn try_new_err_binds_the_error() {
    let res: Result<Bound<&usize, Vec<usize>>, Bound<&'static str, Vec<usize>>> =
        Bound::try_new(vec![4], |v| v.get(3).ok_or("missing"));
    match res {
        Ok(_) => panic!("expected Err"),
        Err(e) => assert_eq!(*e.wrapped(), "missing"),
    }
}

#[test]
fn try_new_err_can_borrow_the_source() {
    let res: Result<Bound<usize, String>, Bound<&str, String>> =
        Bound::try_new(String::from("not a number"), |s| s.parse::<usize>().map_err(|_| &s[..3]));
    match res {
        Ok(_) => panic!("expected Err"),
        Err(e) => assert_eq!(*e.wrapped(), "not"),
    }
}

#[test]
fn map_replaces_referent_keeping_source() {
    let b = Bound::new(vec![10u32, 20, 30], |v| &v[1..]);
    let m = b.map(|s| s.iter().sum::<u32>());
    assert_eq!(*m.wrapped(), 50);
    let n = Bound::new(vec![7u32, 8], |v| &v[..]).map(|s| &s[1..]);
    assert_eq!(*n.wrapped(), &[8u32][..]);
}

#[test]
fn try_map_ok_and_err() {
    let b = Bound::new(String::from("42"), |s| s.as_str());
    let ok = b.try_map(|s| s.parse::<u32>());
    match ok {
        Ok(v) => assert_eq!(*v.wrapped(), 42),
        Err(_) => panic!("expected Ok"),
    }
    let b = Bound::new(String::from("x42"), |s| s.as_str());
    let err = b.try_map(|s| if s.starts_with('x') { Err(&s[1..]) } else { Ok(s.len()) });
    match err {
        Ok(_) => panic!("expected Err"),
        Err(e) => assert_eq!(*e.wrapped(), "42"),
    }
}

#[test]
fn decompose_gives_referent_and_rebinding_restores_it() {
    let b = Bound::new(vec![1u8, 2, 3], |v| &v[..2]);
    let (referent, binding) = b.decompose();
    assert_eq!(referent, &[1u8, 2][..]);
    assert_eq!(*binding.wrapped(), ());
    let again = binding.map(move |()| referent);
    assert_eq!(*again.wrapped(), &[1u8, 2][..]);
}

#[test]
fn wrapped_mut_replaces_referent() {
    let mut b = Bound::new(vec![1u8, 2, 3], |v| &v[..]);
    *b.wrapped_mut() = &b.wrapped()[1..];
    assert_eq!(*b.wrapped(), &[2u8, 3][..]);
}

#[test]
fn comparisons_and_hash_follow_the_dereferenced_referent() {
    let a = Bound::new(String::from("abc"), |s| Box::new(s.clone()));
    let b = Bound::new(String::from("abc"), |s| Box::new(s.clone()));
    let c = Bound::new(String::from("abd"), |s| Box::new(s.clone()));
    assert!(a == b);
    assert!(a != c);
    assert!(a < c);
    assert_eq!(a.cmp(&c), std::cmp::Ordering::Less);
    assert_eq!(a.partial_cmp(&b), Some(std::cmp::Ordering::Equal));
    let mut h1 = DefaultHasher::new();
    a.hash(&mut h1);
    let mut h2 = DefaultHasher::new();
    String::from("abc").hash(&mut h2);
    assert_eq!(h1.finish(), h2.finish());
}

#[test]
fn as_ref_and_as_mut_forward_to_the_referent() {
    let mut b = Bound::new(vec![1u8, 2, 3], |v| Box::new(v.clone()));
    let r: &Vec<u8> = b.as_ref();
    assert_eq!(r, &vec![1u8, 2, 3]);
    let m: &mut Vec<u8> = b.as_mut();
    m.push(4);
    assert_eq!(**b.wrapped(), vec![1u8, 2, 3, 4]);
}

#[test]
fn debug_shows_the_referent() {
    let b = Bound::new(vec![1u8, 2], |v| v.len());
    assert_eq!(format!("{:?}", b), "Bound(2)");
}

#[test]
fn as_mut_forwards_for_a_referent_that_is_only_as_mut() {
    let mut b = Bound::new(0u8, |_| [1u8, 2, 3]);
    AsMut::<[u8]>::as_mut(&mut b)[0] = 9;
    assert_eq!(*b.wrapped(), [9u8, 2, 3]);
}

#[test]
fn partial_cmp_and_ne_follow_the_targets() {
    let one = Bound::new(1u32, |x| Box::new(*x));
    let two = Bound::new(2u32, |x| Box::new(*x));
    assert_eq!(one.partial_cmp(&two), Some(std::cmp::Ordering::Less));
    assert_eq!(two.cmp(&one), std::cmp::Ordering::Greater);
    assert!(one.ne(&two));
    assert!(!one.ne(&Bound::new(1u32, |x| Box::new(*x))));
}

#[test]
fn try_new_with_always_ok_matches_new() {
    let plain = Bound::new(vec![5u8, 6], |v| v.len());
    let tried: Result<Bound<usize, Vec<u8>>, Bound<(), Vec<u8>>> =
        Bound::try_new(vec![5u8, 6], |v| Ok(v.len()));
    match tried {
        Ok(b) => assert_eq!(*b.wrapped(), *plain.wrapped()),
        Err(_) => panic!("expected Ok"),
    }
}

#[test]
fn map_twice_matches_map_of_composition() {
    let twice = Bound::new(vec![1u32, 2, 3], |v| &v[..]).map(|s| s.len()).map(|n| n * 10);
    let once = Bound::new(vec![1u32, 2, 3], |v| &v[..]).map(|s| s.len() * 10);
    assert_eq!(*twice.wrapped(), 30);
    assert_eq!(*twice.wrapped(), *once.wrapped());
}

#[test]
fn try_map_with_always_ok_matches_map() {
    let mapped = Bound::new(String::from("abcd"), |s| s.as_str()).map(|s| &s[1..]);
    let tried = Bound::new(String::from("abcd"), |s| s.as_str()).try_map(|s| Ok::<&str, ()>(&s[1..]));
    match tried {
        Ok(b) => assert_eq!(*b.wrapped(), *mapped.wrapped()),
        Err(_) => panic!("expected Ok"),
    }
}
