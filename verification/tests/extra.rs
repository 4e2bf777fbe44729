use nitric_component::allocator::{
    Allocator, Create, CreateChecked, Delete, MergeDeleted, Merger,
};
use nitric_component::bit_set::BitSet;
use nitric_component::error::{invalid_id_message, InvalidIdError, OomError};
use nitric_component::id::{cow_into_owned, CheckedId, Id, MergingDeletion, SparseLinear, ValidId};
use nitric_component::impls::type_safe::invalid_err_into;
use nitric_component::impls::{
    DvStorage, FlatAllocator, FlatBitSet, FlatUsize, TvStorage, TypeSafeAllocator, TypeSafeId,
    UsizeAllocator,
};
use nitric_component::storage::Storage;
use std::borrow::Cow;

const BITS: usize = usize::BITS as usize;

#[test]
fn bit_set_add_and_remove_report_the_previous_value() {
    let mut bitset = FlatBitSet::new();

    assert_eq!(bitset.add(7), false);
    assert_eq!(bitset.add(7), true);
    assert_eq!(bitset.remove(7), true);
    assert_eq!(bitset.remove(7), false);
    assert_eq!(bitset.remove(100_000), false);
    assert_eq!(bitset.as_words().len(), 1);
}

#[test]
fn bit_set_grows_by_words_and_never_shrinks() {
    let mut bitset = FlatBitSet::new();

    bitset.add(BITS - 1);
    assert_eq!(bitset.as_words(), &[1 << (BITS - 1)][..]);
    bitset.add(BITS);
    assert_eq!(bitset.as_words(), &[1 << (BITS - 1), 1][..]);
    bitset.add(3 * BITS + 2);
    assert_eq!(bitset.as_words(), &[1 << (BITS - 1), 1, 0, 4][..]);

    bitset.remove(3 * BITS + 2);
    bitset.remove(BITS);
    bitset.remove(BITS - 1);
    assert_eq!(bitset.as_words(), &[0, 0, 0, 0][..]);
    assert_eq!(bitset.pop_front(), None);
    assert_eq!(bitset.as_words().len(), 4);
}

#[test]
fn bit_set_counts_its_members() {
    let mut bitset = FlatBitSet::new();
    assert_eq!(bitset.count(), 0);

    for bit in [0, 5, BITS, 200, 201, 5] {
        bitset.add(bit);
    }
    assert_eq!(bitset.count(), 5);

    bitset.remove(200);
    assert_eq!(bitset.count(), 4);

    let mut full = FlatBitSet::new();
    for bit in 0..2 * BITS {
        full.add(bit);
    }
    assert_eq!(full.count(), 2 * BITS);
}

#[test]
fn bit_set_pops_the_lowest_bit_first() {
    let mut bitset = FlatBitSet::empty_bit_set();
    assert_eq!(bitset.pop_front(), None);

    for bit in [300, 3, BITS + 1, 64, 3] {
        bitset.add(bit);
    }
    let mut expected = vec![3, 64, BITS + 1, 300];
    expected.sort();
    expected.dedup();

    for bit in expected {
        assert_eq!(bitset.pop_front(), Some(bit));
        assert_eq!(bitset.contains(bit), false);
    }
    assert_eq!(bitset.pop_front(), None);
    assert_eq!(bitset.count(), 0);
}

#[test]
fn bit_set_holds_the_last_position() {
    let mut bitset = FlatBitSet::new();
    bitset.ensure_size(2);
    assert_eq!(bitset.contains(usize::MAX), false);
    assert_eq!(bitset.remove(usize::MAX), false);
    assert_eq!(bitset.as_words(), &[0, 0][..]);
}

#[test]
fn bit_set_clone_holds_the_same_bits() {
    let mut bitset = FlatBitSet::default();
    bitset.add(9);
    let copy = bitset.clone();
    bitset.remove(9);
    assert_eq!(copy.contains(9), true);
    assert_eq!(bitset.contains(9), false);
}

#[test]
fn create_fails_when_no_key_is_left() {
    let mut allocator = UsizeAllocator::with_counter(usize::MAX);

    assert_eq!(allocator.create(), Err(OomError));
    assert_eq!(allocator.create(), Err(OomError));
    assert_eq!(allocator.checked_inc(), None);
    assert_eq!(allocator.num_valid(), 0);
    assert_eq!(allocator.num_valid_hint(), (0, Some(usize::MAX)));
    assert_eq!(allocator.merge_deleted(), &[][..]);
    assert_eq!(allocator.create(), Err(OomError));
}

#[test]
fn create_starts_at_the_counter() {
    let mut allocator = UsizeAllocator::with_counter(70);

    assert_eq!(allocator.is_valid(70), false);
    assert_eq!(allocator.create(), Ok(70));
    assert_eq!(allocator.create(), Ok(71));
    assert_eq!(allocator.is_valid(69), false);
    assert_eq!(allocator.is_valid(70), true);
    assert_eq!(allocator.num_valid(), 2);
    assert_eq!(allocator.num_valid_hint(), (0, Some(72)));
    assert_eq!(allocator.try_delete(3), Err(InvalidIdError(3)));
}

#[test]
fn try_delete_reports_the_invalid_id() {
    let (mut allocator, mut merger) = FlatAllocator::new();

    let a = allocator.create().unwrap();
    let b = allocator.create().unwrap();
    assert_eq!(allocator.try_delete(&a), Ok(()));
    allocator.merge_deleted(&mut merger);

    assert_eq!(allocator.try_delete(&a), Err(InvalidIdError(a)));
    assert_eq!(allocator.try_delete(&b), Ok(()));
    assert_eq!(allocator.try_delete(&FlatUsize::from(17)), Err(InvalidIdError(17.into())));
    assert_eq!(allocator.num_valid(), 1);
}

#[test]
fn checked_fails_for_an_id_that_was_merged() {
    let (mut allocator, mut merger) = FlatAllocator::new();

    let id = allocator.create().unwrap();
    let never = FlatUsize::from(5);
    assert!(never.checked(&allocator, &merger).is_err());

    {
        let checked = id.checked(&allocator, &merger).unwrap();
        assert_eq!(*checked.as_key(), id.into_usize());
        assert_eq!(*checked.as_key_unchecked(), id.into_usize());
        assert_eq!(checked.id(), &id);
        assert_eq!(checked.into_inner(), id);
        // flagging alone does not make the ID invalid
        allocator.delete(&checked);
    }
    assert!(id.checked(&allocator, &merger).is_ok());

    allocator.merge_deleted(&mut merger);
    assert_eq!(
        id.checked(&allocator, &merger).map(|checked| checked.as_usize()),
        Err(InvalidIdError(id))
    );
}

#[test]
fn checked_id_keeps_the_key_it_was_given() {
    let merger: Merger<FlatAllocator> = Merger::new();
    let checked = CheckedId::new_from_fields(FlatUsize::from(4), 4, &merger);

    assert_eq!(checked.as_usize(), 4);
    assert_eq!(cow_into_owned(checked.as_key()), 4);
    assert_eq!(cow_into_owned(Cow::<usize>::Owned(9usize)), 9);
    assert_eq!(usize::from(*checked.id()), 4);
}

#[test]
fn merger_is_paired_with_its_allocator() {
    let (first, first_merger) = FlatAllocator::new();
    let (second, second_merger) = FlatAllocator::new();

    assert!(first.is_paired_with(&first_merger));
    assert!(second.is_paired_with(&second_merger));
    assert!(!first.is_paired_with(&second_merger));
    assert!(!second.is_paired_with(&first_merger));
    assert!(first_merger.instance_id() == first.merger_reference());
    assert!(first_merger.instance_id() != second.merger_reference());
    assert_eq!(first_merger.instance_id().as_usize(), first.merger_reference().as_usize());
}

#[test]
fn error_messages() {
    assert_eq!(OomError.message(), "ran out of memory / resources");
    assert_eq!(InvalidIdError(3usize).message(), "ID 3 is invalid");
    assert_eq!(InvalidIdError("a").message(), "ID \"a\" is invalid");
    assert_eq!(invalid_id_message("FlatUsize { inner: 2 }"), "ID FlatUsize { inner: 2 } is invalid");
    assert_eq!(InvalidIdError(FlatUsize::from(2)).message(), "ID FlatUsize { inner: 2 } is invalid");
    assert_eq!(invalid_id_message(""), "ID  is invalid");
}

#[test]
fn storage_round_trip() {
    let (mut allocator, merger) = FlatAllocator::new();
    let mut storage: Storage<FlatUsize, &str> = Storage::default();

    let a = allocator.create_checked(&merger).unwrap();
    let b = allocator.create_checked(&merger).unwrap();

    assert_eq!(storage.insert(a, "first"), None);
    assert_eq!(storage.get(&a), Some(&"first"));
    assert_eq!(storage.get(&b), None);

    assert_eq!(storage.insert(a, "second"), Some("first"));
    assert_eq!(storage.get(&a), Some(&"second"));

    assert_eq!(storage.remove(&a), Some("second"));
    assert_eq!(storage.get(&a), None);
    assert_eq!(storage.get_mut(&a), None);

    // an insert after a remove is a fresh insert
    assert_eq!(storage.insert(a, "third"), None);
    assert_eq!(storage.get(&a), Some(&"third"));
}

#[test]
fn storage_stays_consistent_when_entries_are_swapped() {
    let (mut allocator, merger) = FlatAllocator::new();
    let mut storage: Storage<FlatUsize, usize> = Storage::new();
    let mut other: TvStorage<FlatUsize, usize> = TvStorage::default();

    let ids: Vec<_> = (0..40).map(|_| allocator.create_checked(&merger).unwrap()).collect();

    // insert in an order that is not the order of the keys
    for step in 0..40 {
        let id = ids[(step * 7) % 40];
        assert_eq!(storage.insert(id, 1000 + id.as_usize()), None);
        assert_eq!(other.insert(id, 1000 + id.as_usize()), None);
    }
    // remove from the front, the middle and the end of the dense vectors
    let removed = [0, 7, 39, 20, 21, 13, 33];
    for key in removed {
        assert_eq!(storage.remove(&ids[key]), Some(1000 + key));
        assert_eq!(other.remove(&ids[key]), Some(1000 + key));
    }
    for id in ids.iter() {
        let key = id.as_usize();
        let expected = if removed.contains(&key) { None } else { Some(1000 + key) };
        assert_eq!(storage.get(id).copied(), expected);
        assert_eq!(other.get(id).copied(), expected);
    }
    // what was removed can be inserted again, the others are replaced
    for id in ids.iter() {
        let key = id.as_usize();
        let expected = if removed.contains(&key) { None } else { Some(1000 + key) };
        assert_eq!(storage.insert(*id, key), expected);
        assert_eq!(other.insert(*id, key), expected);
    }
    for id in ids.iter() {
        *storage.get_mut(id).unwrap() += 1;
        *other.get_mut(id).unwrap() += 1;
        assert_eq!(storage.get(id), Some(&(id.as_usize() + 1)));
        assert_eq!(other.get(id), Some(&(id.as_usize() + 1)));
    }
    for id in ids.iter().rev() {
        assert_eq!(storage.remove(id), Some(id.as_usize() + 1));
        assert_eq!(storage.remove(id), None);
    }
}

#[test]
fn storage_can_be_made_empty() {
    let _double: DvStorage<FlatUsize, u8> = DvStorage::new();
    let _default: DvStorage<FlatUsize, u8> = DvStorage::default();
    let storage: TvStorage<FlatUsize, u8> = TvStorage::new();
    let (mut allocator, merger) = FlatAllocator::new();
    let id = allocator.create_checked(&merger).unwrap();
    assert_eq!(storage.get(&id), None);
}

#[derive(Clone, Copy, Debug, Eq, Hash, PartialEq)]
pub struct Client;

#[test]
fn type_safe_id_wraps_an_id() {
    let mut id: TypeSafeId<FlatUsize, Client> = TypeSafeId::from_inner(FlatUsize::from(3));

    assert_eq!(id.inner(), &FlatUsize::from(3));
    *id.inner_mut() = FlatUsize::from(8);
    assert_eq!(id.inner(), &FlatUsize::from(8));
    assert_eq!(*id.as_key_unchecked(), 8);
    assert_eq!(id.as_usize(), 8);
    assert_eq!(id.clone().into_inner(), FlatUsize::from(8));
    assert_eq!(id, TypeSafeId::from(FlatUsize::from(8)));

    let error: InvalidIdError<TypeSafeId<FlatUsize, Client>> =
        invalid_err_into(InvalidIdError(FlatUsize::from(2)));
    assert_eq!(error.0.into_inner(), FlatUsize::from(2));
}

#[test]
fn type_safe_allocator_wraps_an_allocator() {
    let (inner, mut merger) = FlatAllocator::new();
    let mut allocator: TypeSafeAllocator<FlatUsize, Client> = TypeSafeAllocator::from_inner(inner);

    let a = allocator.create().unwrap();
    let b = allocator.create().unwrap();
    assert_eq!(a.as_usize(), 0);
    assert_eq!(b.as_usize(), 1);
    assert!(allocator.is_valid(&a));
    assert_eq!(a.try_as_key(&allocator).map(Cow::into_owned), Ok(0));
    assert_eq!(allocator.num_valid(), 2);
    assert_eq!(allocator.num_valid_hint(), (0, Some(2)));

    let mut inner = allocator.into_inner();
    inner.assert_deleted(a.inner());
    inner.merge_deleted(&mut merger);
    let allocator: TypeSafeAllocator<FlatUsize, Client> = TypeSafeAllocator::from_inner(inner);

    assert!(!allocator.is_valid(&a));
    assert!(allocator.is_valid(&b));
    assert_eq!(
        a.try_as_key(&allocator).map(Cow::into_owned),
        Err(InvalidIdError(a))
    );
    assert_eq!(allocator.num_valid(), 1);
}
