use nitric_component::allocator::Create;
use nitric_component::id::MergingDeletion;
use nitric_component::impls::{FlatAllocator, FlatUsize};
use nitric_component::impls::TvStorage;

#[derive(Clone, Debug, Eq, PartialEq)]
pub struct Comp(u32);

fn new_storage() -> TvStorage<FlatUsize, Comp> {
    TvStorage::new()
}

#[test]
fn tv_storage_new() {
    let empty = new_storage();
    let (mut alloc, merger) = FlatAllocator::new();

    let ids = (0..100)
        .map(|_| alloc.create())
        .collect::<Result<Vec<FlatUsize>, _>>()
        .unwrap();

    for id in &ids {
        assert_eq!(empty.get(&id.checked(&alloc, &merger).unwrap()), None);
    }
}

#[test]
fn tv_storage_insert() {
    let mut storage = new_storage();
    let (mut alloc, merger) = FlatAllocator::new();

    let ids = (0..100)
        .map(|_| alloc.create())
        .collect::<Result<Vec<FlatUsize>, _>>()
        .unwrap();

    assert!(storage
        .insert(ids[4].clone().checked(&alloc, &merger).unwrap(), Comp(41))
        .is_none());
    assert!(storage
        .insert(ids[8].clone().checked(&alloc, &merger).unwrap(), Comp(21))
        .is_none());
    assert!(storage
        .insert(ids[92].clone().checked(&alloc, &merger).unwrap(), Comp(17))
        .is_none());

    assert_eq!(
        storage.insert(ids[8].clone().checked(&alloc, &merger).unwrap(), Comp(210)),
        Some(Comp(21))
    );
}

#[test]
fn tv_storage_remove() {
    let mut storage = new_storage();
    let (mut alloc, merger) = FlatAllocator::new();

    let ids = (0..100)
        .map(|_| alloc.create())
        .collect::<Result<Vec<FlatUsize>, _>>()
        .unwrap();
    let checked = ids
        .into_iter()
        .map(|i| i.checked(&alloc, &merger))
        .collect::<Result<Vec<_>, _>>()
        .unwrap();

    assert!(storage.remove(&checked[3]).is_none());
    assert!(storage.remove(&checked[11]).is_none());
    assert!(storage.remove(&checked[65]).is_none());

    storage.insert(checked[25].clone(), Comp(25));

    assert_eq!(storage.remove(&checked[25]), Some(Comp(25)));
    assert_eq!(storage.remove(&checked[25]), None);
}

#[test]
fn tv_storage_get() {
    let mut storage = new_storage();
    let (mut alloc, merger) = FlatAllocator::new();

    let ids = (0..100)
        .map(|_| alloc.create())
        .collect::<Result<Vec<FlatUsize>, _>>()
        .unwrap();
    let checked = ids
        .into_iter()
        .map(|i| i.checked(&alloc, &merger))
        .collect::<Result<Vec<_>, _>>()
        .unwrap();

    storage.insert(checked[12].clone(), Comp(25));

    assert_eq!(storage.get(&checked[12]), Some(&Comp(25)));
    assert_eq!(storage.get(&checked[12]), Some(&Comp(25)));
    assert_eq!(storage.get(&checked[25]), None);
    assert_eq!(storage.get(&checked[25]), None);
}

#[test]
fn tv_storage_get_mut() {
    let mut storage = new_storage();
    let (mut alloc, merger) = FlatAllocator::new();

    let ids = (0..100)
        .map(|_| alloc.create())
        .collect::<Result<Vec<FlatUsize>, _>>()
        .unwrap();
    let checked = ids
        .into_iter()
        .map(|i| i.checked(&alloc, &merger))
        .collect::<Result<Vec<_>, _>>()
        .unwrap();

    storage.insert(checked[12].clone(), Comp(25));

    assert_eq!(storage.get_mut(&checked[25]), None);
    assert_eq!(storage.get_mut(&checked[12]), Some(&mut Comp(25)));
    *storage.get_mut(&checked[12]).unwrap() = Comp(11);

    assert_eq!(storage.get_mut(&checked[12]), Some(&mut Comp(11)));
}
